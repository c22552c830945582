//! The calculations: weighted indices from profiles and spot prices, and
//! the prices worked out from them.
use vstd::prelude::*;

use crate::decimal::Dec;
use crate::error::TariffError;
use crate::hourly::{average_belpex_to_hourly, hourly_prices};
use crate::index::{all_indices, WeightedIndexId};
use crate::pricing::{
    checked_price_incl_vat, configured_outcome, default_pricing, formula_outcome,
    import_price_excl_vat_with_config, price_incl_vat_with_config,
    terugleveringsvergoeding_with_config, vat_outcome, AppConfig, ConfiguredPrice,
    PriceCalculation, PricingConfig, PricingView,
};
use crate::weighted::{
    calculate_weighted_index, known_values, lemma_tally_errors, price_views, weight_views, weighted_index_outcome, BelpexRecord,
    IndexView, SppRecord, TimedReading, WeightedIndexResult,
};

verus! {

/// A result, with the value taken by its view.
pub open spec fn result_view<T: View>(r: Result<T, TariffError>) -> Result<T::V, TariffError> {
    match r {
        Ok(v) => Ok(v@),
        Err(e) => Err(e),
    }
}

/// The export price worked out from the solar-weighted index.
#[derive(Clone, Copy, Debug, PartialEq)]
pub struct Calculation {
    pub matched_quarter_hours: usize,
    pub total_spp_weight: Dec,
    pub belpex_spp_be: Dec,
    pub terugleveringsvergoeding: Dec,
}

/// Matched count, total weight, weighted price and export price.
pub type CalculationView = (nat, (int, nat), (int, nat), (int, nat));

impl View for Calculation {
    type V = CalculationView;

    open spec fn view(&self) -> CalculationView {
        (
            self.matched_quarter_hours as nat,
            self.total_spp_weight@,
            self.belpex_spp_be@,
            self.terugleveringsvergoeding@,
        )
    }
}

/// Weighting `spp` by `belpex`, and the export formula of `config` applied
/// to the weighted price.
pub open spec fn calculation_outcome(
    spp: Seq<TimedReading>,
    belpex: Seq<TimedReading>,
    config: PricingView,
) -> Result<CalculationView, TariffError> {
    match weighted_index_outcome(spp, belpex) {
        Err(e) => Err(e),
        Ok(o) => match formula_outcome(config.0, o.2) {
            None => Err(TariffError::DecimalOverflow),
            Some(price) => Ok((o.0, o.1, o.2, price)),
        },
    }
}

/// Weights the profile by the spot prices and applies the export formula of
/// `config` to the weighted price.
pub fn calculate_with_config(
    spp_records: &[SppRecord],
    belpex_records: &[BelpexRecord],
    config: PricingConfig,
) -> (r: Result<Calculation, TariffError>)
    ensures
        result_view(r) == calculation_outcome(
            weight_views(spp_records@),
            price_views(belpex_records@),
            config@,
        ),
{
    let index = match calculate_weighted_index(spp_records, belpex_records) {
        Ok(index) => index,
        Err(e) => {
            return Err(e);
        },
    };
    if config.export_formula.checked_apply(index.weighted_price).is_none() {
        return Err(TariffError::DecimalOverflow);
    }
    let price = terugleveringsvergoeding_with_config(index.weighted_price, config);
    Ok(
        Calculation {
            matched_quarter_hours: index.matched_quarter_hours,
            total_spp_weight: index.total_weight,
            belpex_spp_be: index.weighted_price,
            terugleveringsvergoeding: price,
        },
    )
}

/// `calculate_with_config` with the default pricing.
pub fn calculate(spp_records: &[SppRecord], belpex_records: &[BelpexRecord]) -> (r: Result<
    Calculation,
    TariffError,
>)
    ensures
        result_view(r) == calculation_outcome(
            weight_views(spp_records@),
            price_views(belpex_records@),
            default_pricing(),
        ),
{
    calculate_with_config(spp_records, belpex_records, PricingConfig::default())
}

/// The calculation with hourly-averaged prices and with the quarter-hour
/// prices.
#[derive(Clone, Copy, Debug, PartialEq)]
pub struct CalculationComparison {
    pub hourly_averaged: Calculation,
    pub exact_quarter_hour: Calculation,
}

impl View for CalculationComparison {
    type V = (CalculationView, CalculationView);

    open spec fn view(&self) -> (CalculationView, CalculationView) {
        (self.hourly_averaged@, self.exact_quarter_hour@)
    }
}

/// The calculation on the hourly-averaged prices, then on the quarter-hour
/// prices.
pub open spec fn comparison_outcome(
    spp: Seq<TimedReading>,
    belpex: Seq<TimedReading>,
    config: PricingView,
) -> Result<(CalculationView, CalculationView), TariffError> {
    let hourly = hourly_prices(belpex);
    match calculation_outcome(spp, hourly, config) {
        Err(e) => Err(e),
        Ok(h) => match calculation_outcome(spp, belpex, config) {
            Err(e) => Err(e),
            Ok(q) => Ok((h, q)),
        },
    }
}

/// The export calculation with hourly-averaged prices and with the
/// quarter-hour prices.
pub fn calculate_both_with_config(
    spp_records: &[SppRecord],
    belpex_records: &[BelpexRecord],
    config: PricingConfig,
) -> (r: Result<CalculationComparison, TariffError>)
    ensures
        result_view(r) == comparison_outcome(
            weight_views(spp_records@),
            price_views(belpex_records@),
            config@,
        ),
{
    let hourly = average_belpex_to_hourly(belpex_records);
    let hourly_averaged = match calculate_with_config(spp_records, hourly.as_slice(), config) {
        Ok(c) => c,
        Err(e) => {
            return Err(e);
        },
    };
    let exact_quarter_hour = match calculate_with_config(spp_records, belpex_records, config) {
        Ok(c) => c,
        Err(e) => {
            return Err(e);
        },
    };
    Ok(CalculationComparison { hourly_averaged, exact_quarter_hour })
}

/// `calculate_both_with_config` with the default pricing.
pub fn calculate_both(spp_records: &[SppRecord], belpex_records: &[BelpexRecord]) -> (r: Result<
    CalculationComparison,
    TariffError,
>)
    ensures
        result_view(r) == comparison_outcome(
            weight_views(spp_records@),
            price_views(belpex_records@),
            default_pricing(),
        ),
{
    calculate_both_with_config(spp_records, belpex_records, PricingConfig::default())
}

/// The import price worked out from a load-weighted index.
#[derive(Clone, Copy, Debug, PartialEq)]
pub struct ImportCalculation {
    pub matched_quarter_hours: usize,
    pub total_rlp_weight: Dec,
    pub belpex_rlp_vl: Dec,
    pub price_excl_vat: Dec,
    pub price_incl_vat: Dec,
}

/// Matched count, total weight, weighted price, and the import price
/// excluding and including VAT.
pub type ImportView = (nat, (int, nat), (int, nat), (int, nat), (int, nat));

impl View for ImportCalculation {
    type V = ImportView;

    open spec fn view(&self) -> ImportView {
        (
            self.matched_quarter_hours as nat,
            self.total_rlp_weight@,
            self.belpex_rlp_vl@,
            self.price_excl_vat@,
            self.price_incl_vat@,
        )
    }
}

/// The calculation of a load profile, then the import formula of `config`
/// on its weighted price, then VAT.
pub open spec fn import_outcome(
    rlp: Seq<TimedReading>,
    belpex: Seq<TimedReading>,
    config: PricingView,
) -> Result<ImportView, TariffError> {
    match calculation_outcome(rlp, belpex, config) {
        Err(e) => Err(e),
        Ok(c) => match formula_outcome(config.1, c.2) {
            None => Err(TariffError::DecimalOverflow),
            Some(excl) => match vat_outcome(excl, config.2) {
                None => Err(TariffError::DecimalOverflow),
                Some(incl) => Ok((c.0, c.1, c.2, excl, incl)),
            },
        },
    }
}

/// Weights the load profile by the spot prices and applies the import
/// formula and VAT rate of `config` to the weighted price.
pub fn calculate_import_with_config(
    rlp_records: &[SppRecord],
    belpex_records: &[BelpexRecord],
    config: PricingConfig,
) -> (r: Result<ImportCalculation, TariffError>)
    ensures
        result_view(r) == import_outcome(
            weight_views(rlp_records@),
            price_views(belpex_records@),
            config@,
        ),
{
    let weighted = match calculate_with_config(rlp_records, belpex_records, config) {
        Ok(c) => c,
        Err(e) => {
            return Err(e);
        },
    };
    if config.import_formula.checked_apply(weighted.belpex_spp_be).is_none() {
        return Err(TariffError::DecimalOverflow);
    }
    let price_excl_vat = import_price_excl_vat_with_config(weighted.belpex_spp_be, config);
    if checked_price_incl_vat(price_excl_vat, config.vat_percent).is_none() {
        return Err(TariffError::DecimalOverflow);
    }
    let price_incl_vat = price_incl_vat_with_config(price_excl_vat, config);
    Ok(
        ImportCalculation {
            matched_quarter_hours: weighted.matched_quarter_hours,
            total_rlp_weight: weighted.total_spp_weight,
            belpex_rlp_vl: weighted.belpex_spp_be,
            price_excl_vat,
            price_incl_vat,
        },
    )
}

/// `calculate_import_with_config` with the default pricing.
pub fn calculate_import(rlp_records: &[SppRecord], belpex_records: &[BelpexRecord]) -> (r: Result<
    ImportCalculation,
    TariffError,
>)
    ensures
        result_view(r) == import_outcome(
            weight_views(rlp_records@),
            price_views(belpex_records@),
            default_pricing(),
        ),
{
    calculate_import_with_config(rlp_records, belpex_records, PricingConfig::default())
}

/// The import calculation with hourly-averaged prices and with the
/// quarter-hour prices.
#[derive(Clone, Copy, Debug, PartialEq)]
pub struct ImportCalculationComparison {
    pub hourly_averaged: ImportCalculation,
    pub exact_quarter_hour: ImportCalculation,
}

impl View for ImportCalculationComparison {
    type V = (ImportView, ImportView);

    open spec fn view(&self) -> (ImportView, ImportView) {
        (self.hourly_averaged@, self.exact_quarter_hour@)
    }
}

/// The import calculation on the hourly-averaged prices, then on the
/// quarter-hour prices.
pub open spec fn import_comparison_outcome(
    rlp: Seq<TimedReading>,
    belpex: Seq<TimedReading>,
    config: PricingView,
) -> Result<(ImportView, ImportView), TariffError> {
    let hourly = hourly_prices(belpex);
    match import_outcome(rlp, hourly, config) {
        Err(e) => Err(e),
        Ok(h) => match import_outcome(rlp, belpex, config) {
            Err(e) => Err(e),
            Ok(q) => Ok((h, q)),
        },
    }
}

/// The import calculation with hourly-averaged prices and with the
/// quarter-hour prices.
pub fn calculate_import_both_with_config(
    rlp_records: &[SppRecord],
    belpex_records: &[BelpexRecord],
    config: PricingConfig,
) -> (r: Result<ImportCalculationComparison, TariffError>)
    ensures
        result_view(r) == import_comparison_outcome(
            weight_views(rlp_records@),
            price_views(belpex_records@),
            config@,
        ),
{
    let hourly = average_belpex_to_hourly(belpex_records);
    let hourly_averaged = match calculate_import_with_config(rlp_records, hourly.as_slice(), config) {
        Ok(c) => c,
        Err(e) => {
            return Err(e);
        },
    };
    let exact_quarter_hour = match calculate_import_with_config(rlp_records, belpex_records, config) {
        Ok(c) => c,
        Err(e) => {
            return Err(e);
        },
    };
    Ok(ImportCalculationComparison { hourly_averaged, exact_quarter_hour })
}

/// `calculate_import_both_with_config` with the default pricing.
pub fn calculate_import_both(rlp_records: &[SppRecord], belpex_records: &[BelpexRecord]) -> (r:
    Result<ImportCalculationComparison, TariffError>)
    ensures
        result_view(r) == import_comparison_outcome(
            weight_views(rlp_records@),
            price_views(belpex_records@),
            default_pricing(),
        ),
{
    calculate_import_both_with_config(rlp_records, belpex_records, PricingConfig::default())
}

/// Everything the fixed two-price setup reports: the export price, the
/// import price on the Flemish and on the Belgian load profile (each with
/// hourly-averaged and quarter-hour prices), and the import price on the
/// regions-weighted load profile with hourly-averaged prices.
#[derive(Clone, Copy, Debug, PartialEq)]
pub struct AppCalculation {
    pub export: CalculationComparison,
    pub import: ImportCalculationComparison,
    pub import_belgium: ImportCalculationComparison,
    pub belpex_rlp_m: ImportCalculation,
}

impl View for AppCalculation {
    type V = (
        (CalculationView, CalculationView),
        (ImportView, ImportView),
        (ImportView, ImportView),
        ImportView,
    );

    open spec fn view(&self) -> Self::V {
        (self.export@, self.import@, self.import_belgium@, self.belpex_rlp_m@)
    }
}

/// The parts of the fixed two-price setup, in the order in which they are
/// worked out.
pub open spec fn app_outcome(
    spp: Seq<TimedReading>,
    rlp_flanders: Seq<TimedReading>,
    rlp_belgium: Seq<TimedReading>,
    rlp_eneco: Seq<TimedReading>,
    belpex: Seq<TimedReading>,
    config: PricingView,
) -> Result<
    ((CalculationView, CalculationView), (ImportView, ImportView), (ImportView, ImportView), ImportView),
    TariffError,
> {
    let hourly = hourly_prices(belpex);
    match comparison_outcome(spp, belpex, config) {
        Err(e) => Err(e),
        Ok(export) => match import_comparison_outcome(rlp_flanders, belpex, config) {
            Err(e) => Err(e),
            Ok(import) => match import_comparison_outcome(rlp_belgium, belpex, config) {
                Err(e) => Err(e),
                Ok(import_belgium) => match import_outcome(rlp_eneco, hourly, config) {
                    Err(e) => Err(e),
                    Ok(m) => Ok((export, import, import_belgium, m)),
                },
            },
        },
    }
}

/// Works out the fixed two-price setup of `config` for a month's profiles
/// and spot prices.
pub fn calculate_all_with_config(
    spp_records: &[SppRecord],
    rlp_flanders_records: &[SppRecord],
    rlp_belgium_records: &[SppRecord],
    rlp_eneco_records: &[SppRecord],
    belpex_records: &[BelpexRecord],
    config: PricingConfig,
) -> (r: Result<AppCalculation, TariffError>)
    ensures
        result_view(r) == app_outcome(
            weight_views(spp_records@),
            weight_views(rlp_flanders_records@),
            weight_views(rlp_belgium_records@),
            weight_views(rlp_eneco_records@),
            price_views(belpex_records@),
            config@,
        ),
{
    let hourly = average_belpex_to_hourly(belpex_records);
    let export = match calculate_both_with_config(spp_records, belpex_records, config) {
        Ok(c) => c,
        Err(e) => {
            return Err(e);
        },
    };
    let import = match calculate_import_both_with_config(rlp_flanders_records, belpex_records, config) {
        Ok(c) => c,
        Err(e) => {
            return Err(e);
        },
    };
    let import_belgium = match calculate_import_both_with_config(
        rlp_belgium_records,
        belpex_records,
        config,
    ) {
        Ok(c) => c,
        Err(e) => {
            return Err(e);
        },
    };
    let belpex_rlp_m = match calculate_import_with_config(rlp_eneco_records, hourly.as_slice(), config) {
        Ok(c) => c,
        Err(e) => {
            return Err(e);
        },
    };
    Ok(AppCalculation { export, import, import_belgium, belpex_rlp_m })
}

/// The profile and the prices that each index weighs, in the order of
/// `WeightedIndexId::all`: hourly-averaged (`H`) or quarter-hour (`Q`)
/// prices against the solar, Flemish, Belgian and regions-weighted
/// profiles.
pub open spec fn index_sources(
    spp: Seq<TimedReading>,
    rlp_flanders: Seq<TimedReading>,
    rlp_belgium: Seq<TimedReading>,
    rlp_eneco: Seq<TimedReading>,
    belpex: Seq<TimedReading>,
    hourly: Seq<TimedReading>,
) -> Seq<(WeightedIndexId, Seq<TimedReading>, Seq<TimedReading>)> {
    seq![
        (WeightedIndexId::BelpexHSpp, spp, hourly),
        (WeightedIndexId::BelpexQSpp, spp, belpex),
        (WeightedIndexId::BelpexHRlpVl, rlp_flanders, hourly),
        (WeightedIndexId::BelpexQRlpVl, rlp_flanders, belpex),
        (WeightedIndexId::BelpexHRlpBe, rlp_belgium, hourly),
        (WeightedIndexId::BelpexQRlpBe, rlp_belgium, belpex),
        (WeightedIndexId::BelpexHRlpM, rlp_eneco, hourly),
    ]
}

/// Weighing each source in turn; the first refusal ends it.
pub open spec fn weigh_all(sources: Seq<(WeightedIndexId, Seq<TimedReading>, Seq<TimedReading>)>) -> Result<
    Seq<IndexView>,
    TariffError,
>
    decreases sources.len(),
{
    if sources.len() == 0 {
        Ok(Seq::empty())
    } else {
        match weigh_all(sources.drop_last()) {
            Err(e) => Err(e),
            Ok(acc) => match weighted_index_outcome(sources.last().1, sources.last().2) {
                Err(e) => Err(e),
                Ok(o) => Ok(acc.push((sources.last().0, o.0, o.1, o.2))),
            },
        }
    }
}

/// Every weighted index of a month, in the order of `WeightedIndexId::all`.
pub open spec fn indices_outcome(
    spp: Seq<TimedReading>,
    rlp_flanders: Seq<TimedReading>,
    rlp_belgium: Seq<TimedReading>,
    rlp_eneco: Seq<TimedReading>,
    belpex: Seq<TimedReading>,
) -> Result<Seq<IndexView>, TariffError> {
    let hourly = hourly_prices(belpex);
    weigh_all(
        index_sources(spp, rlp_flanders, rlp_belgium, rlp_eneco, belpex, hourly),
    )
}

pub open spec fn index_views(s: Seq<WeightedIndexResult>) -> Seq<IndexView> {
    s.map_values(|w: WeightedIndexResult| w@)
}

proof fn lemma_weigh_all_stops(
    sources: Seq<(WeightedIndexId, Seq<TimedReading>, Seq<TimedReading>)>,
    k: int,
)
    requires
        0 <= k <= sources.len(),
        weigh_all(sources.take(k)) is Err,
    ensures
        weigh_all(sources) == weigh_all(sources.take(k)),
    decreases sources.len() - k,
{
    if k == sources.len() {
        assert(sources.take(k) =~= sources);
    } else {
        assert(sources.drop_last().take(k) =~= sources.take(k));
        lemma_weigh_all_stops(sources.drop_last(), k);
    }
}

/// The weighted indices keep the ids of their sources, in order.
pub proof fn lemma_weigh_all_ids(sources: Seq<(WeightedIndexId, Seq<TimedReading>, Seq<TimedReading>)>)
    ensures
        weigh_all(sources) matches Ok(v) ==> v.len() == sources.len() && forall|k: int|
            0 <= k < v.len() ==> #[trigger] v[k].0 == sources[k].0,
    decreases sources.len(),
{
    if sources.len() > 0 {
        lemma_weigh_all_ids(sources.drop_last());
    }
}

/// Works out every weighted index of a month, in the order of
/// `WeightedIndexId::all`.
pub fn calculate_weighted_indices(
    spp_records: &[SppRecord],
    rlp_flanders_records: &[SppRecord],
    rlp_belgium_records: &[SppRecord],
    rlp_eneco_records: &[SppRecord],
    belpex_records: &[BelpexRecord],
) -> (r: Result<Vec<WeightedIndexResult>, TariffError>)
    ensures
        match indices_outcome(
            weight_views(spp_records@),
            weight_views(rlp_flanders_records@),
            weight_views(rlp_belgium_records@),
            weight_views(rlp_eneco_records@),
            price_views(belpex_records@),
        ) {
            Ok(v) => r matches Ok(indices) && index_views(indices@) == v,
            Err(e) => r == Err::<Vec<WeightedIndexResult>, TariffError>(e),
        },
        r matches Ok(indices) ==> indices.len() == 7 && forall|k: int|
            0 <= k < 7 ==> #[trigger] indices@[k].id == all_indices()[k],
{
    let hourly = average_belpex_to_hourly(belpex_records);
    let sources: [(WeightedIndexId, &[SppRecord], &[BelpexRecord]); 7] = [
        (WeightedIndexId::BelpexHSpp, spp_records, hourly.as_slice()),
        (WeightedIndexId::BelpexQSpp, spp_records, belpex_records),
        (WeightedIndexId::BelpexHRlpVl, rlp_flanders_records, hourly.as_slice()),
        (WeightedIndexId::BelpexQRlpVl, rlp_flanders_records, belpex_records),
        (WeightedIndexId::BelpexHRlpBe, rlp_belgium_records, hourly.as_slice()),
        (WeightedIndexId::BelpexQRlpBe, rlp_belgium_records, belpex_records),
        (WeightedIndexId::BelpexHRlpM, rlp_eneco_records, hourly.as_slice()),
    ];
    let ghost all = index_sources(
        weight_views(spp_records@),
        weight_views(rlp_flanders_records@),
        weight_views(rlp_belgium_records@),
        weight_views(rlp_eneco_records@),
        price_views(belpex_records@),
        price_views(hourly@),
    );
    assert forall|k: int| 0 <= k < 7 implies #[trigger] all[k] == (
        sources@[k].0,
        weight_views(sources@[k].1@),
        price_views(sources@[k].2@),
    ) by {}
    let mut indices: Vec<WeightedIndexResult> = Vec::new();
    let mut k: usize = 0;
    assert(all.take(0) =~= Seq::<(WeightedIndexId, Seq<TimedReading>, Seq<TimedReading>)>::empty());
    assert(index_views(indices@) =~= Seq::<IndexView>::empty());
    while k < 7
        invariant
            k <= 7,
            all.len() == 7,
            all == index_sources(
                weight_views(spp_records@),
                weight_views(rlp_flanders_records@),
                weight_views(rlp_belgium_records@),
                weight_views(rlp_eneco_records@),
                price_views(belpex_records@),
                price_views(hourly@),
            ),
            hourly_prices(price_views(belpex_records@)) == price_views(hourly@),
            forall|j: int| 0 <= j < 7 ==> #[trigger] all[j] == (
                sources@[j].0,
                weight_views(sources@[j].1@),
                price_views(sources@[j].2@),
            ),
            weigh_all(all.take(k as int)) == Ok::<Seq<IndexView>, TariffError>(
                index_views(indices@),
            ),
        decreases 7 - k,
    {
        let (id, weights, prices) = sources[k];
        assert(all.take(k + 1).drop_last() =~= all.take(k as int));
        assert(all.take(k + 1).last() == all[k as int]);
        match calculate_weighted_index(weights, prices) {
            Err(e) => {
                proof {
                    lemma_weigh_all_stops(all, k + 1);
                    assert(all.take(7) =~= all);
                }
                return Err(e);
            },
            Ok(result) => {
                let ghost before = indices@;
                indices.push(
                    WeightedIndexResult {
                        id,
                        matched_quarter_hours: result.matched_quarter_hours,
                        total_weight: result.total_weight,
                        weighted_price: result.weighted_price,
                    },
                );
                assert(index_views(indices@) =~= index_views(before).push(
                    (id, result.matched_quarter_hours as nat, result.total_weight@, result.weighted_price@),
                ));
            },
        }
        k += 1;
    }
    assert(all.take(7) =~= all);
    proof {
        lemma_weigh_all_ids(all);
        assert forall|k: int| 0 <= k < 7 implies #[trigger] indices@[k].id == all_indices()[k] by {
            assert(index_views(indices@)[k].0 == all[k].0);
        }
    }
    Ok(indices)
}

/// Weighing reports no missing index.
proof fn lemma_weigh_all_finds(sources: Seq<(WeightedIndexId, Seq<TimedReading>, Seq<TimedReading>)>)
    ensures
        !(weigh_all(sources) matches Err(TariffError::MissingWeightedIndex(_))),
    decreases sources.len(),
{
    if sources.len() > 0 {
        lemma_weigh_all_finds(sources.drop_last());
        lemma_tally_errors(sources.last().1, known_values(sources.last().2));
    }
}

/// Among indices that carry every id, a price finds its index.
proof fn lemma_lookup_finds(indices: Seq<IndexView>, id: WeightedIndexId, k: int)
    requires
        0 <= k < indices.len(),
        indices[k].0 == id,
    ensures
        index_lookup(indices, id) is Some,
    decreases indices.len(),
{
    if indices.last().0 != id {
        assert(k < indices.len() - 1);
        assert(indices.drop_last()[k] == indices[k]);
        lemma_lookup_finds(indices.drop_last(), id, k);
    }
}

/// The indices of a month carry every id, so every price finds its index.
proof fn lemma_indices_complete(indices: Seq<IndexView>, id: WeightedIndexId)
    requires
        indices.len() == 7,
        forall|k: int| 0 <= k < 7 ==> #[trigger] indices[k].0 == all_indices()[k],
    ensures
        index_lookup(indices, id) is Some,
{
    let k: int = match id {
        WeightedIndexId::BelpexHSpp => 0,
        WeightedIndexId::BelpexQSpp => 1,
        WeightedIndexId::BelpexHRlpVl => 2,
        WeightedIndexId::BelpexQRlpVl => 3,
        WeightedIndexId::BelpexHRlpBe => 4,
        WeightedIndexId::BelpexQRlpBe => 5,
        WeightedIndexId::BelpexHRlpM => 6,
    };
    assert(indices[k].0 == all_indices()[k]);
    lemma_lookup_finds(indices, id, k);
}

/// Where every price finds its index, working out the prices never reports
/// a missing index.
proof fn lemma_no_missing_index(indices: Seq<IndexView>, prices: Seq<ConfiguredPrice>)
    requires
        forall|id: WeightedIndexId| #[trigger] index_lookup(indices, id) is Some,
    ensures
        !(configured_prices(indices, prices) matches Err(TariffError::MissingWeightedIndex(_))),
    decreases prices.len(),
{
    if prices.len() > 0 {
        lemma_no_missing_index(indices, prices.drop_last());
        assert(index_lookup(indices, prices.last().index) is Some);
    }
}

/// The index that a price with index `id` is worked out on: the last one
/// with that id, as when the indices are collected into a map.
pub open spec fn index_lookup(indices: Seq<IndexView>, id: WeightedIndexId) -> Option<IndexView>
    decreases indices.len(),
{
    if indices.len() == 0 {
        None
    } else if indices.last().0 == id {
        Some(indices.last())
    } else {
        index_lookup(indices.drop_last(), id)
    }
}

/// Working out each configured price in turn on its index: both prices,
/// excluding and including VAT; the first refusal ends it.
pub open spec fn configured_prices(indices: Seq<IndexView>, prices: Seq<ConfiguredPrice>) -> Result<
    Seq<((int, nat), (int, nat))>,
    TariffError,
>
    decreases prices.len(),
{
    if prices.len() == 0 {
        Ok(Seq::empty())
    } else {
        match configured_prices(indices, prices.drop_last()) {
            Err(e) => Err(e),
            Ok(acc) => match index_lookup(indices, prices.last().index) {
                None => Err(TariffError::MissingWeightedIndex(prices.last().index)),
                Some(w) => match configured_outcome(prices.last(), w.3) {
                    None => Err(TariffError::DecimalOverflow),
                    Some(pair) => Ok(acc.push(pair)),
                },
            },
        }
    }
}

/// `c` is price `p` worked out as `pair` (excluding, including VAT).
pub open spec fn is_worked_out(c: PriceCalculation, p: ConfiguredPrice, pair: ((int, nat), (int, nat))) -> bool {
    &&& c.name@ == p.name@
    &&& c.index == p.index
    &&& c.formula == p.formula
    &&& c.vat_percent == p.vat_percent
    &&& c.price_excl_vat@ == pair.0
    &&& c.price_incl_vat@ == pair.1
}

/// The weighted indices of a month and the configured prices worked out on
/// them.
#[derive(Clone, Debug, PartialEq)]
pub struct ConfiguredAppCalculation {
    pub indices: Vec<WeightedIndexResult>,
    pub prices: Vec<PriceCalculation>,
}

proof fn lemma_configured_prices_stops(indices: Seq<IndexView>, prices: Seq<ConfiguredPrice>, k: int)
    requires
        0 <= k <= prices.len(),
        configured_prices(indices, prices.take(k)) is Err,
    ensures
        configured_prices(indices, prices) == configured_prices(indices, prices.take(k)),
    decreases prices.len() - k,
{
    if k == prices.len() {
        assert(prices.take(k) =~= prices);
    } else {
        assert(prices.drop_last().take(k) =~= prices.take(k));
        lemma_configured_prices_stops(indices, prices.drop_last(), k);
    }
}

/// The index with id `id` among the calculated ones: the last such.
fn find_index(indices: &Vec<WeightedIndexResult>, id: WeightedIndexId) -> (r: Option<
    WeightedIndexResult,
>)
    ensures
        match index_lookup(index_views(indices@), id) {
            Some(v) => r matches Some(w) && w@ == v,
            None => r is None,
        },
{
    let ghost views = index_views(indices@);
    let mut i: usize = indices.len();
    assert(views.take(i as int) =~= views);
    while i > 0
        invariant
            i <= indices.len(),
            views == index_views(indices@),
            index_lookup(views, id) == index_lookup(views.take(i as int), id),
        decreases i,
    {
        let w = indices[i - 1];
        assert(views.take(i as int).drop_last() =~= views.take(i - 1));
        assert(views.take(i as int).last() == w@);
        if w.id == id {
            return Some(w);
        }
        i -= 1;
    }
    None
}

/// Works out every weighted index of a month, then each price of `config`
/// on the index it names.
pub fn calculate_configured(
    spp_records: &[SppRecord],
    rlp_flanders_records: &[SppRecord],
    rlp_belgium_records: &[SppRecord],
    rlp_eneco_records: &[SppRecord],
    belpex_records: &[BelpexRecord],
    config: &AppConfig,
) -> (r: Result<ConfiguredAppCalculation, TariffError>)
    ensures
        match indices_outcome(
            weight_views(spp_records@),
            weight_views(rlp_flanders_records@),
            weight_views(rlp_belgium_records@),
            weight_views(rlp_eneco_records@),
            price_views(belpex_records@),
        ) {
            Err(e) => r == Err::<ConfiguredAppCalculation, TariffError>(e),
            Ok(iv) => match configured_prices(iv, config.prices@) {
                Err(e) => r == Err::<ConfiguredAppCalculation, TariffError>(e),
                Ok(pv) => r matches Ok(out) && index_views(out.indices@) == iv && out.prices.len()
                    == pv.len() && forall|k: int|
                    0 <= k < pv.len() ==> #[trigger] is_worked_out(
                        out.prices@[k],
                        config.prices@[k],
                        pv[k],
                    ),
            },
        },
        !(r matches Err(TariffError::MissingWeightedIndex(_))),
{
    let indices = match calculate_weighted_indices(
        spp_records,
        rlp_flanders_records,
        rlp_belgium_records,
        rlp_eneco_records,
        belpex_records,
    ) {
        Ok(v) => v,
        Err(e) => {
            proof {
                lemma_weigh_all_finds(
                    index_sources(
                        weight_views(spp_records@),
                        weight_views(rlp_flanders_records@),
                        weight_views(rlp_belgium_records@),
                        weight_views(rlp_eneco_records@),
                        price_views(belpex_records@),
                        hourly_prices(price_views(belpex_records@)),
                    ),
                );
            }
            return Err(e);
        },
    };
    let ghost iv = index_views(indices@);
    proof {
        assert forall|id: WeightedIndexId| #[trigger] index_lookup(iv, id) is Some by {
            assert forall|k: int| 0 <= k < 7 implies #[trigger] iv[k].0 == all_indices()[k] by {
                assert(iv[k].0 == indices@[k].id);
            }
            lemma_indices_complete(iv, id);
        }
        lemma_no_missing_index(iv, config.prices@);
    }
    let mut prices: Vec<PriceCalculation> = Vec::new();
    let mut k: usize = 0;
    assert(config.prices@.take(0) =~= Seq::<ConfiguredPrice>::empty());
    while k < config.prices.len()
        invariant
            k <= config.prices.len(),
            iv == index_views(indices@),
            indices_outcome(
                weight_views(spp_records@),
                weight_views(rlp_flanders_records@),
                weight_views(rlp_belgium_records@),
                weight_views(rlp_eneco_records@),
                price_views(belpex_records@),
            ) == Ok::<Seq<IndexView>, TariffError>(iv),
            !(configured_prices(iv, config.prices@) matches Err(
                TariffError::MissingWeightedIndex(_),
            )),
            configured_prices(iv, config.prices@.take(k as int)) matches Ok(pv) && pv.len() == k
                && prices.len() == k && forall|j: int|
                0 <= j < k ==> #[trigger] is_worked_out(prices@[j], config.prices@[j], pv[j]),
        decreases config.prices.len() - k,
    {
        let price = &config.prices[k];
        let ghost prev = config.prices@.take(k as int);
        let ghost next = config.prices@.take(k + 1);
        assert(next.drop_last() =~= prev);
        assert(next.last() == *price);
        let index = match find_index(&indices, price.index) {
            Some(w) => w,
            None => {
                proof {
                    lemma_configured_prices_stops(iv, config.prices@, k + 1);
                }
                return Err(TariffError::MissingWeightedIndex(price.index));
            },
        };
        let calculation = match price.checked_calculate(&index) {
            Some(c) => c,
            None => {
                proof {
                    lemma_configured_prices_stops(iv, config.prices@, k + 1);
                }
                return Err(TariffError::DecimalOverflow);
            },
        };
        let ghost before = prices@;
        prices.push(calculation);
        proof {
            let pv = configured_prices(iv, next)->Ok_0;
            assert forall|j: int| 0 <= j < k + 1 implies #[trigger] is_worked_out(
                prices@[j],
                config.prices@[j],
                pv[j],
            ) by {
                if j < k {
                    assert(prices@[j] == before[j]);
                }
            }
        }
        k += 1;
    }
    assert(config.prices@.take(config.prices.len() as int) =~= config.prices@);
    Ok(ConfiguredAppCalculation { indices, prices })
}

} // verus!
