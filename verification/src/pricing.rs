//! Price formulas (`price = a * index + b`), VAT, and the pricing
//! configuration.
use vstd::prelude::*;

use crate::decimal::{
    decimal_checked_product, decimal_checked_quotient, decimal_checked_sum, lemma_product_units,
    lemma_units_zero, one_repr, opt_view, pow10, product_fits, sum_fits, units, Dec, MAX_SCALE,
};
use crate::error::TariffError;
use crate::index::{index_named, WeightedIndexId};
use crate::weighted::WeightedIndexResult;

verus! {

/// An input file path, as given on the command line or in the
/// configuration.
#[verifier::external_type_specification]
#[verifier::external_body]
pub struct ExtPathBuf(std::path::PathBuf);

/// `Clone::clone` of `std::path::PathBuf`; nothing is claimed of the copy.
pub assume_specification[ <std::path::PathBuf as Clone>::clone ](p: &std::path::PathBuf) -> std::path::PathBuf;

/// `price = coefficient * index + offset`, in ct/kWh for an index in
/// EUR/MWh.
#[derive(Clone, Copy, Debug, PartialEq)]
pub struct PriceFormula {
    pub coefficient: Dec,
    pub offset: Dec,
}

/// A formula's coefficient and offset.
pub type FormulaView = ((int, nat), (int, nat));

impl View for PriceFormula {
    type V = FormulaView;

    open spec fn view(&self) -> FormulaView {
        (self.coefficient@, self.offset@)
    }
}

/// What a formula gives for an index: the product first, then the offset
/// added, each as the decimal arithmetic computes it; nothing on overflow.
pub open spec fn formula_outcome(f: FormulaView, index: (int, nat)) -> Option<(int, nat)> {
    match decimal_checked_product(f.0, index) {
        None => None,
        Some(product) => decimal_checked_sum(product, f.1),
    }
}

/// The price including VAT: `price * (1 + vat_percent / 100)`, in that
/// order of operations; nothing on overflow.
pub open spec fn vat_outcome(price: (int, nat), vat_percent: (int, nat)) -> Option<(int, nat)> {
    match decimal_checked_quotient(vat_percent, (100, 0)) {
        None => None,
        Some(share) => match decimal_checked_sum(one_repr(), share) {
            None => None,
            Some(factor) => decimal_checked_product(price, factor),
        },
    }
}

impl PriceFormula {
    /// `coefficient * index + offset`, or `None` where it overflows. Where
    /// the product keeps all its places and the sum fits, the result is
    /// exactly `coefficient * index + offset`.
    pub fn checked_apply(self, index: Dec) -> (r: Option<Dec>)
        ensures
            opt_view(r) == formula_outcome(self@, index@),
            product_fits(self.coefficient@, index@) && sum_fits(
                decimal_checked_product(self.coefficient@, index@)->0,
                self.offset@,
            ) ==> (r matches Some(v) && units(v@) * pow10(MAX_SCALE as nat) == units(
                self.coefficient@,
            ) * units(index@) + units(self.offset@) * pow10(MAX_SCALE as nat)),
    {
        match self.coefficient.checked_mul(index) {
            None => None,
            Some(product) => {
                let r = product.checked_add(self.offset);
                proof {
                    if product_fits(self.coefficient@, index@) {
                        lemma_product_units(self.coefficient@, index@, product@);
                        let p28 = pow10(MAX_SCALE as nat);
                        if sum_fits(product@, self.offset@) {
                            let v = r->0@;
                            assert(units(v) * p28 == units(product@) * p28 + units(self.offset@)
                                * p28) by (nonlinear_arith)
                                requires
                                    units(v) == units(product@) + units(self.offset@),
                            ;
                        }
                    }
                }
                r
            },
        }
    }

    /// `coefficient * index + offset`.
    pub fn apply(self, index: Dec) -> (r: Dec)
        requires
            formula_outcome(self@, index@) is Some,
        ensures
            r@ == formula_outcome(self@, index@)->0,
    {
        self.checked_apply(index).unwrap()
    }
}

/// `price * (1 + vat_percent / 100)`, or `None` where it overflows. A zero
/// rate leaves the price as it is.
pub fn checked_price_incl_vat(price_excl_vat: Dec, vat_percent: Dec) -> (r: Option<Dec>)
    ensures
        opt_view(r) == vat_outcome(price_excl_vat@, vat_percent@),
        units(vat_percent@) == 0 ==> (r matches Some(v) && units(v@) == units(price_excl_vat@)),
{
    price_excl_vat.lemma_wf();
    proof {
        lemma_units_zero(vat_percent@);
    }
    let share = match vat_percent.checked_div(Dec::new(100, 0)) {
        None => return None,
        Some(share) => share,
    };
    let factor = match Dec::one().checked_add(share) {
        None => return None,
        Some(factor) => factor,
    };
    price_excl_vat.checked_mul(factor)
}

/// `price * (1 + vat_percent / 100)`.
fn price_incl_vat(price_excl_vat: Dec, vat_percent: Dec) -> (r: Dec)
    requires
        vat_outcome(price_excl_vat@, vat_percent@) is Some,
    ensures
        r@ == vat_outcome(price_excl_vat@, vat_percent@)->0,
{
    checked_price_incl_vat(price_excl_vat, vat_percent).unwrap()
}

/// The formulas and VAT rate of the fixed two-price setup: an export
/// (injection) price on the solar-weighted index and an import
/// (consumption) price on the load-weighted index.
#[derive(Clone, Copy, Debug, PartialEq)]
pub struct PricingConfig {
    pub export_formula: PriceFormula,
    pub import_formula: PriceFormula,
    pub vat_percent: Dec,
}

/// The formulas and the VAT rate of a pricing configuration.
pub type PricingView = (FormulaView, FormulaView, (int, nat));

impl View for PricingConfig {
    type V = PricingView;

    open spec fn view(&self) -> PricingView {
        (self.export_formula@, self.import_formula@, self.vat_percent@)
    }
}

/// The default export (injection) formula: `0.095 * index - 2.5`.
pub open spec fn default_export_formula() -> FormulaView {
    ((95, 3), (-25, 1))
}

/// The default import (consumption) formula: `0.107 * index + 1.5`.
pub open spec fn default_import_formula() -> FormulaView {
    ((107, 3), (15, 1))
}

/// The default VAT rate: 6 percent.
pub open spec fn default_vat_percent() -> (int, nat) {
    (6, 0)
}

pub open spec fn default_pricing() -> PricingView {
    (default_export_formula(), default_import_formula(), default_vat_percent())
}

/// The import price including VAT for an index value: the import formula,
/// then VAT; nothing on overflow.
pub open spec fn import_incl_vat_outcome(config: PricingView, index: (int, nat)) -> Option<
    (int, nat),
> {
    match formula_outcome(config.1, index) {
        None => None,
        Some(excl) => vat_outcome(excl, config.2),
    }
}

/// The input files of a calculation.
#[derive(Clone, Debug, PartialEq, Eq)]
pub struct InputFiles {
    pub spp: std::path::PathBuf,
    pub rlp: std::path::PathBuf,
    pub belpex: std::path::PathBuf,
}

/// A named price: which index it is based on, its formula and its VAT rate.
#[derive(Clone, Debug, PartialEq)]
pub struct ConfiguredPrice {
    pub name: String,
    pub index: WeightedIndexId,
    pub formula: PriceFormula,
    pub vat_percent: Dec,
}

/// A configured price worked out for one weighted index.
#[derive(Clone, Debug, PartialEq)]
pub struct PriceCalculation {
    pub name: String,
    pub index: WeightedIndexId,
    pub formula: PriceFormula,
    pub vat_percent: Dec,
    pub price_excl_vat: Dec,
    pub price_incl_vat: Dec,
}

/// Both prices of a configured price for an index value: excluding VAT and
/// including VAT; nothing on overflow.
pub open spec fn configured_outcome(p: ConfiguredPrice, index: (int, nat)) -> Option<
    ((int, nat), (int, nat)),
> {
    match formula_outcome(p.formula@, index) {
        None => None,
        Some(excl) => match vat_outcome(excl, p.vat_percent@) {
            None => None,
            Some(incl) => Some((excl, incl)),
        },
    }
}

/// `c` is the calculation of price `p` for index value `index`.
pub open spec fn is_price_calculation(c: PriceCalculation, p: ConfiguredPrice, index: (int, nat)) -> bool {
    &&& c.name@ == p.name@
    &&& c.index == p.index
    &&& c.formula == p.formula
    &&& c.vat_percent == p.vat_percent
    &&& configured_outcome(p, index) == Some((c.price_excl_vat@, c.price_incl_vat@))
}

impl ConfiguredPrice {
    /// Works out this price for a weighted index, or `None` where the
    /// decimal arithmetic overflows.
    pub fn checked_calculate(&self, weighted_index: &WeightedIndexResult) -> (r: Option<
        PriceCalculation,
    >)
        ensures
            r is Some <==> configured_outcome(*self, weighted_index.weighted_price@) is Some,
            r matches Some(c) ==> is_price_calculation(c, *self, weighted_index.weighted_price@),
    {
        let price_excl_vat = match self.formula.checked_apply(weighted_index.weighted_price) {
            None => return None,
            Some(p) => p,
        };
        let price_incl_vat = match checked_price_incl_vat(price_excl_vat, self.vat_percent) {
            None => return None,
            Some(p) => p,
        };
        Some(
            PriceCalculation {
                name: self.name.clone(),
                index: self.index,
                formula: self.formula,
                vat_percent: self.vat_percent,
                price_excl_vat,
                price_incl_vat,
            },
        )
    }

    /// Works out this price for a weighted index.
    pub fn calculate(&self, weighted_index: &WeightedIndexResult) -> (r: PriceCalculation)
        requires
            configured_outcome(*self, weighted_index.weighted_price@) is Some,
        ensures
            is_price_calculation(r, *self, weighted_index.weighted_price@),
    {
        self.checked_calculate(weighted_index).unwrap()
    }
}

/// The whole configuration: where the input files are, if it says, and the
/// prices to work out.
#[derive(Clone, Debug, PartialEq)]
pub struct AppConfig {
    pub files: Option<InputFiles>,
    pub prices: Vec<ConfiguredPrice>,
}

/// `p` is the default injection price.
pub open spec fn is_default_injection(p: ConfiguredPrice) -> bool {
    &&& p.name@ == "Injection"@
    &&& p.index == WeightedIndexId::BelpexQSpp
    &&& p.formula@ == default_export_formula()
    &&& p.vat_percent@ == default_vat_percent()
}

/// `p` is the default consumption price in Flanders.
pub open spec fn is_default_consumption(p: ConfiguredPrice) -> bool {
    &&& p.name@ == "Consumption Flanders"@
    &&& p.index == WeightedIndexId::BelpexQRlpVl
    &&& p.formula@ == default_import_formula()
    &&& p.vat_percent@ == default_vat_percent()
}

impl Default for AppConfig {
    /// No input files, and two prices: injection on the quarter-hourly
    /// solar index and consumption on the quarter-hourly Flemish load index.
    fn default() -> (r: AppConfig)
        ensures
            r.files is None,
            r.prices.len() == 2,
            is_default_injection(r.prices@[0]),
            is_default_consumption(r.prices@[1]),
    {
        let injection = ConfiguredPrice {
            name: "Injection".to_owned(),
            index: WeightedIndexId::BelpexQSpp,
            formula: PriceFormula { coefficient: Dec::new(95, 3), offset: Dec::new(-25, 1) },
            vat_percent: Dec::new(6, 0),
        };
        let consumption = ConfiguredPrice {
            name: "Consumption Flanders".to_owned(),
            index: WeightedIndexId::BelpexQRlpVl,
            formula: PriceFormula { coefficient: Dec::new(107, 3), offset: Dec::new(15, 1) },
            vat_percent: Dec::new(6, 0),
        };
        let mut prices: Vec<ConfiguredPrice> = Vec::new();
        prices.push(injection);
        prices.push(consumption);
        AppConfig { files: None, prices }
    }
}

impl Default for PricingConfig {
    /// The export formula and VAT rate of the default injection price, and
    /// the formula of the default consumption price.
    fn default() -> (r: PricingConfig)
        ensures
            r@ == default_pricing(),
    {
        let config = AppConfig::default();
        PricingConfig {
            export_formula: config.prices[0].formula,
            import_formula: config.prices[1].formula,
            vat_percent: config.prices[0].vat_percent,
        }
    }
}

/// The input files as a configuration file writes them.
#[derive(Clone, Debug)]
pub struct RawInputFiles {
    pub spp: std::path::PathBuf,
    pub rlp: std::path::PathBuf,
    pub belpex: std::path::PathBuf,
}

/// A price as a configuration file writes it: the index by name, and the
/// formula as `a * index + b`.
#[derive(Clone, Debug)]
pub struct RawConfiguredPrice {
    pub name: String,
    pub index: String,
    pub a: Dec,
    pub b: Dec,
    pub vat_percent: Dec,
}

/// A configuration file's contents.
#[derive(Clone, Debug)]
pub struct RawAppConfig {
    pub files: Option<RawInputFiles>,
    pub prices: Vec<RawConfiguredPrice>,
}

/// The position of the first price whose index name is unknown.
pub open spec fn first_unknown_index(prices: Seq<RawConfiguredPrice>) -> Option<int>
    decreases prices.len(),
{
    if prices.len() == 0 {
        None
    } else {
        match first_unknown_index(prices.drop_last()) {
            Some(k) => Some(k),
            None => if index_named(prices.last().index@) is None {
                Some(prices.len() - 1)
            } else {
                None
            },
        }
    }
}

pub proof fn lemma_first_unknown_index(prices: Seq<RawConfiguredPrice>)
    ensures
        match first_unknown_index(prices) {
            Some(k) => 0 <= k < prices.len() && index_named(prices[k].index@) is None && forall|
                j: int,
            | 0 <= j < k ==> #[trigger] index_named(prices[j].index@) is Some,
            None => forall|j: int|
                0 <= j < prices.len() ==> #[trigger] index_named(prices[j].index@) is Some,
        },
    decreases prices.len(),
{
    if prices.len() > 0 {
        let prev = prices.drop_last();
        lemma_first_unknown_index(prev);
        assert forall|j: int| 0 <= j < prev.len() implies prev[j] == prices[j] by {}
    }
}

/// `p` is the raw price `raw` with its index name read.
pub open spec fn is_configured_from(p: ConfiguredPrice, raw: RawConfiguredPrice) -> bool {
    &&& p.name@ == raw.name@
    &&& index_named(raw.index@) == Some(p.index)
    &&& p.formula.coefficient == raw.a
    &&& p.formula.offset == raw.b
    &&& p.vat_percent == raw.vat_percent
}

/// `f` holds the paths of `raw`.
pub open spec fn is_files_from(f: Option<InputFiles>, raw: Option<RawInputFiles>) -> bool {
    match raw {
        None => f is None,
        Some(r) => f matches Some(g) && g.spp == r.spp && g.rlp == r.rlp && g.belpex == r.belpex,
    }
}

impl AppConfig {
    /// The configuration that a configuration file's contents describe.
    /// Refused where it defines no price, or where a price names an unknown
    /// index (the first such price is reported).
    pub fn from_raw(raw: RawAppConfig) -> (r: Result<AppConfig, TariffError>)
        ensures
            raw.prices.len() == 0 ==> r == Err::<AppConfig, TariffError>(TariffError::NoPrices),
            raw.prices.len() > 0 ==> match first_unknown_index(raw.prices@) {
                Some(k) => r matches Err(TariffError::UnknownWeightedIndex(name)) && name@
                    == raw.prices@[k].index@,
                None => r matches Ok(c) && c.prices.len() == raw.prices.len() && is_files_from(
                    c.files,
                    raw.files,
                ) && forall|k: int|
                    0 <= k < c.prices.len() ==> #[trigger] is_configured_from(
                        c.prices@[k],
                        raw.prices@[k],
                    ),
            },
    {
        if raw.prices.len() == 0 {
            return Err(TariffError::NoPrices);
        }
        proof {
            lemma_first_unknown_index(raw.prices@);
        }
        let mut prices: Vec<ConfiguredPrice> = Vec::new();
        let mut k: usize = 0;
        while k < raw.prices.len()
            invariant
                k <= raw.prices.len(),
                prices.len() == k,
                forall|j: int| 0 <= j < k ==> #[trigger] index_named(raw.prices@[j].index@) is Some,
                forall|j: int|
                    0 <= j < k ==> #[trigger] is_configured_from(prices@[j], raw.prices@[j]),
            decreases raw.prices.len() - k,
        {
            let item = &raw.prices[k];
            let index = match WeightedIndexId::from_name(item.index.as_str()) {
                Ok(id) => id,
                Err(e) => {
                    proof {
                        lemma_first_unknown_index(raw.prices@);
                        match first_unknown_index(raw.prices@) {
                            Some(u) => {
                                if u < k {
                                    assert(index_named(raw.prices@[u].index@) is Some);
                                }
                                if u > k {
                                    assert(index_named(raw.prices@[k as int].index@) is Some);
                                }
                            },
                            None => {
                                assert(index_named(raw.prices@[k as int].index@) is Some);
                            },
                        }
                    }
                    return Err(e);
                },
            };
            prices.push(
                ConfiguredPrice {
                    name: item.name.clone(),
                    index,
                    formula: PriceFormula { coefficient: item.a, offset: item.b },
                    vat_percent: item.vat_percent,
                },
            );
            k += 1;
        }
        proof {
            match first_unknown_index(raw.prices@) {
                Some(u) => {
                    assert(index_named(raw.prices@[u].index@) is Some);
                },
                None => {},
            }
        }
        let files = match raw.files {
            Some(f) => Some(InputFiles { spp: f.spp, rlp: f.rlp, belpex: f.belpex }),
            None => None,
        };
        Ok(AppConfig { files, prices })
    }
}

/// The export price for an index value, with the export formula of
/// `config`.
pub fn terugleveringsvergoeding_with_config(belpex_spp_be: Dec, config: PricingConfig) -> (r: Dec)
    requires
        formula_outcome(config.export_formula@, belpex_spp_be@) is Some,
    ensures
        r@ == formula_outcome(config.export_formula@, belpex_spp_be@)->0,
{
    config.export_formula.apply(belpex_spp_be)
}

/// The export price for an index value, with the default export formula.
pub fn terugleveringsvergoeding(belpex_spp_be: Dec) -> (r: Dec)
    requires
        formula_outcome(default_export_formula(), belpex_spp_be@) is Some,
    ensures
        r@ == formula_outcome(default_export_formula(), belpex_spp_be@)->0,
{
    terugleveringsvergoeding_with_config(belpex_spp_be, PricingConfig::default())
}

/// The import price excluding VAT for an index value, with the import
/// formula of `config`.
pub fn import_price_excl_vat_with_config(belpex_rlp_vl: Dec, config: PricingConfig) -> (r: Dec)
    requires
        formula_outcome(config.import_formula@, belpex_rlp_vl@) is Some,
    ensures
        r@ == formula_outcome(config.import_formula@, belpex_rlp_vl@)->0,
{
    config.import_formula.apply(belpex_rlp_vl)
}

/// The import price excluding VAT for an index value, with the default
/// import formula.
pub fn import_price_excl_vat(belpex_rlp_vl: Dec) -> (r: Dec)
    requires
        formula_outcome(default_import_formula(), belpex_rlp_vl@) is Some,
    ensures
        r@ == formula_outcome(default_import_formula(), belpex_rlp_vl@)->0,
{
    import_price_excl_vat_with_config(belpex_rlp_vl, PricingConfig::default())
}

/// A price including the VAT rate of `config`.
pub(crate) fn price_incl_vat_with_config(price_excl_vat: Dec, config: PricingConfig) -> (r: Dec)
    requires
        vat_outcome(price_excl_vat@, config.vat_percent@) is Some,
    ensures
        r@ == vat_outcome(price_excl_vat@, config.vat_percent@)->0,
{
    price_incl_vat(price_excl_vat, config.vat_percent)
}

/// The import price including VAT for an index value, with the import
/// formula and VAT rate of `config`.
pub fn import_price_incl_vat_with_config(belpex_rlp_vl: Dec, config: PricingConfig) -> (r: Dec)
    requires
        import_incl_vat_outcome(config@, belpex_rlp_vl@) is Some,
    ensures
        r@ == import_incl_vat_outcome(config@, belpex_rlp_vl@)->0,
{
    price_incl_vat_with_config(import_price_excl_vat_with_config(belpex_rlp_vl, config), config)
}

/// The import price including VAT for an index value, with the default
/// import formula and VAT rate.
pub fn import_price_incl_vat(belpex_rlp_vl: Dec) -> (r: Dec)
    requires
        import_incl_vat_outcome(default_pricing(), belpex_rlp_vl@) is Some,
    ensures
        r@ == import_incl_vat_outcome(default_pricing(), belpex_rlp_vl@)->0,
{
    import_price_incl_vat_with_config(belpex_rlp_vl, PricingConfig::default())
}

} // verus!
