//! What a calculation's report needs besides printing: which input paths
//! to use, how much of the month the prices cover, and the rounded figures.
use vstd::prelude::*;

use crate::calendar::{days_in_month, month_length};
use crate::decimal::{decimal_checked_quotient, rounded, units, Dec};
use crate::error::TariffError;
use crate::pricing::PriceCalculation;
use crate::weighted::{IndexView, WeightedIndexResult};
use crate::calc::index_views;

verus! {

/// The path of an input file: the one given on the command line, else the
/// one in the configuration; refused where neither is given.
pub fn resolve_path<'a>(
    name: &str,
    cli_path: Option<&'a std::path::PathBuf>,
    config_path: Option<&'a std::path::PathBuf>,
) -> (r: Result<&'a std::path::PathBuf, TariffError>)
    ensures
        match cli_path {
            Some(p) => r == Ok::<&std::path::PathBuf, TariffError>(p),
            None => match config_path {
                Some(p) => r == Ok::<&std::path::PathBuf, TariffError>(p),
                None => r matches Err(TariffError::MissingPath(s)) && s@ == name@,
            },
        },
{
    match cli_path {
        Some(p) => Ok(p),
        None => match config_path {
            Some(p) => Ok(p),
            None => Err(TariffError::MissingPath(name.to_owned())),
        },
    }
}

/// The fewest whole hours that any index matched.
pub open spec fn fewest_matched_hours(indices: Seq<IndexView>) -> Option<nat>
    decreases indices.len(),
{
    if indices.len() == 0 {
        None
    } else {
        let h = indices.last().1 / 4;
        match fewest_matched_hours(indices.drop_last()) {
            None => Some(h),
            Some(m) => Some(
                if h < m {
                    h
                } else {
                    m
                },
            ),
        }
    }
}

/// How much of the month the indices cover, where they cover less than all
/// of it: the hours matched (by the index that matched fewest) and the
/// hours of the month.
pub open spec fn coverage_shortfall(year: u16, month: u8, indices: Seq<IndexView>) -> Option<
    (nat, nat),
> {
    match (fewest_matched_hours(indices), month_length(year as int, month as int)) {
        (Some(matched), Some(days)) => if matched < days * 24 {
            Some((matched, (days * 24) as nat))
        } else {
            None
        },
        _ => None,
    }
}

/// How much of the month the indices cover, where they cover less than all
/// of it: the hours matched and the hours of the month.
pub fn month_coverage(year: u16, month: u8, indices: &[WeightedIndexResult]) -> (r: Option<
    (usize, usize),
>)
    ensures
        match coverage_shortfall(year, month, index_views(indices@)) {
            Some((m, e)) => r matches Some((a, b)) && a as nat == m && b as nat == e,
            None => r is None,
        },
{
    let ghost views = index_views(indices@);
    let mut fewest: Option<usize> = None;
    let mut i: usize = 0;
    assert(views.take(0) =~= Seq::<IndexView>::empty());
    while i < indices.len()
        invariant
            i <= indices.len(),
            views == index_views(indices@),
            match fewest_matched_hours(views.take(i as int)) {
                Some(m) => fewest matches Some(f) && f as nat == m,
                None => fewest is None,
            },
        decreases indices.len() - i,
    {
        let hours = indices[i].matched_quarter_hours / 4;
        assert(views.take(i + 1).drop_last() =~= views.take(i as int));
        assert(views.take(i + 1).last() == indices@[i as int]@);
        fewest = match fewest {
            None => Some(hours),
            Some(f) => Some(
                if hours < f {
                    hours
                } else {
                    f
                },
            ),
        };
        i += 1;
    }
    assert(views.take(indices.len() as int) =~= views);
    match (fewest, days_in_month(year, month)) {
        (Some(matched), Some(days)) => {
            let expected = days as usize * 24;
            if matched < expected {
                Some((matched, expected))
            } else {
                None
            }
        },
        _ => None,
    }
}

/// The figures printed for a price: in ct/kWh and in EUR/kWh, rounded to
/// six places, excluding and including VAT, and whether VAT is shown.
#[derive(Clone, Copy, Debug)]
pub struct PriceFigures {
    pub excl_vat_ct: Dec,
    pub excl_vat_eur: Dec,
    pub incl_vat_ct: Dec,
    pub incl_vat_eur: Dec,
    pub shows_vat: bool,
}

/// A price in ct/kWh as EUR/kWh: divided by 100, rounded to six places.
pub open spec fn eur_figure(ct: (int, nat)) -> (int, nat) {
    rounded(decimal_checked_quotient(ct, (100, 0))->0, 6)
}

/// The printed figures of a price: rounded to six places, the EUR/kWh
/// figures divided by 100 first (a division that always succeeds); VAT is
/// shown unless its rate is zero.
pub fn price_figures(price: &PriceCalculation) -> (r: PriceFigures)
    ensures
        decimal_checked_quotient(price.price_excl_vat@, (100, 0)) is Some,
        decimal_checked_quotient(price.price_incl_vat@, (100, 0)) is Some,
        r.excl_vat_ct@ == rounded(price.price_excl_vat@, 6),
        r.excl_vat_eur@ == eur_figure(price.price_excl_vat@),
        r.incl_vat_ct@ == rounded(price.price_incl_vat@, 6),
        r.incl_vat_eur@ == eur_figure(price.price_incl_vat@),
        r.shows_vat == (units(price.vat_percent@) != 0),
{
    let hundred = Dec::new(100, 0);
    let excl_eur = price.price_excl_vat.checked_div(hundred).unwrap();
    let incl_eur = price.price_incl_vat.checked_div(hundred).unwrap();
    PriceFigures {
        excl_vat_ct: price.price_excl_vat.round_dp(6),
        excl_vat_eur: excl_eur.round_dp(6),
        incl_vat_ct: price.price_incl_vat.round_dp(6),
        incl_vat_eur: incl_eur.round_dp(6),
        shows_vat: !price.vat_percent.is_zero(),
    }
}

/// The printed figure of a weighted index: its price rounded to two places.
pub fn index_figure(index: &WeightedIndexResult) -> (r: Dec)
    ensures
        r@ == rounded(index.weighted_price@, 2),
{
    index.weighted_price.round_dp(2)
}

} // verus!
