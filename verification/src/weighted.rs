//! The weighted spot price index: Belpex prices averaged over the
//! quarter-hours of a profile, each weighted by the profile's share.
use vstd::prelude::*;

use crate::calendar::QuarterHour;
use crate::decimal::{
    decimal_checked_product, decimal_checked_quotient, decimal_checked_sum, lemma_product_units,
    exact_product, fitted_sum, lemma_units_zero, opt_view, pow10, product_fits, sum_fits, units, zero_repr, Dec, MAX_SCALE,
};
use crate::error::TariffError;
use crate::index::WeightedIndexId;

verus! {

broadcast use vstd::std_specs::hash::group_hash_axioms;

/// The weight of a quarter-hour in a profile (solar production or reference
/// load); `weight` is `None` where the weight read cannot be held as a
/// decimal, which only matters once the quarter-hour has a price.
#[derive(Clone, Copy, Debug, PartialEq)]
pub struct SppRecord {
    pub timestamp: QuarterHour,
    pub weight: Option<Dec>,
}

/// The Belpex day-ahead spot price of a quarter-hour, in EUR/MWh;
/// `euro_per_mwh` is `None` where the price read cannot be held as a
/// decimal, which is refused once the prices are used for weighting.
#[derive(Clone, Copy, Debug, PartialEq)]
pub struct BelpexRecord {
    pub timestamp: QuarterHour,
    pub euro_per_mwh: Option<Dec>,
}

/// A weighted index: how many quarter-hours were matched, their total
/// weight, and the weighted average price.
#[derive(Clone, Copy, Debug, PartialEq)]
pub struct WeightedIndexResult {
    pub id: WeightedIndexId,
    pub matched_quarter_hours: usize,
    pub total_weight: Dec,
    pub weighted_price: Dec,
}

/// What a weighted index shows: its id, the matched count, the total weight
/// and the weighted price.
pub type IndexView = (WeightedIndexId, nat, (int, nat), (int, nat));

impl View for WeightedIndexResult {
    type V = IndexView;

    open spec fn view(&self) -> IndexView {
        (self.id, self.matched_quarter_hours as nat, self.total_weight@, self.weighted_price@)
    }
}

/// A value of a quarter-hour: a weight or a price.
pub type TimedValue = (QuarterHour, (int, nat));

/// A weight or a price of a quarter-hour, or `None` where no decimal holds
/// it.
pub type TimedReading = (QuarterHour, Option<(int, nat)>);

/// What the records of a profile show: each quarter-hour and its weight.
pub open spec fn weight_views(s: Seq<SppRecord>) -> Seq<TimedReading> {
    s.map_values(|r: SppRecord| (r.timestamp, opt_view(r.weight)))
}

/// What Belpex records show: each quarter-hour and its price.
pub open spec fn price_views(s: Seq<BelpexRecord>) -> Seq<TimedReading> {
    s.map_values(|r: BelpexRecord| (r.timestamp, opt_view(r.euro_per_mwh)))
}

/// The first quarter-hour, in order, whose reading no decimal holds.
pub open spec fn first_unreadable(s: Seq<TimedReading>) -> Option<QuarterHour>
    decreases s.len(),
{
    if s.len() == 0 {
        None
    } else {
        match first_unreadable(s.drop_last()) {
            Some(t) => Some(t),
            None => if s.last().1 is None {
                Some(s.last().0)
            } else {
                None
            },
        }
    }
}

/// Once a reading of a prefix is found unreadable, it is the first of all.
proof fn lemma_first_unreadable_stays(s: Seq<TimedReading>, k: int)
    requires
        0 <= k <= s.len(),
        first_unreadable(s.take(k)) is Some,
    ensures
        first_unreadable(s) == first_unreadable(s.take(k)),
    decreases s.len() - k,
{
    if k == s.len() {
        assert(s.take(k) =~= s);
    } else {
        assert(s.drop_last().take(k) =~= s.take(k));
        lemma_first_unreadable_stays(s.drop_last(), k);
    }
}

/// The values of readings that decimals hold.
pub open spec fn known_values(s: Seq<TimedReading>) -> Seq<TimedValue> {
    s.map_values(|x: TimedReading| (x.0, x.1->0))
}

/// The price that `belpex` gives quarter-hour `t`: that of the last record
/// for `t`, as when the records are collected into a map.
pub open spec fn price_at(belpex: Seq<TimedValue>, t: QuarterHour) -> Option<(int, nat)>
    decreases belpex.len(),
{
    if belpex.len() == 0 {
        None
    } else if belpex.last().0 == t {
        Some(belpex.last().1)
    } else {
        price_at(belpex.drop_last(), t)
    }
}

/// Going through the weights in order: the number of quarter-hours with a
/// price, the running total of their weights and the running sum of weight
/// times price, each step computed as the decimal arithmetic computes it.
/// Refused at the first priced quarter-hour whose weight no decimal holds,
/// or once a step overflows.
pub open spec fn weighted_tally(spp: Seq<TimedReading>, belpex: Seq<TimedValue>) -> Result<
    (nat, (int, nat), (int, nat)),
    TariffError,
>
    decreases spp.len(),
{
    if spp.len() == 0 {
        Ok((0, zero_repr(), zero_repr()))
    } else {
        match weighted_tally(spp.drop_last(), belpex) {
            Err(e) => Err(e),
            Ok(acc) => match price_at(belpex, spp.last().0) {
                None => Ok(acc),
                Some(p) => match spp.last().1 {
                    None => Err(TariffError::InvalidWeight(spp.last().0)),
                    Some(w) => match decimal_checked_sum(acc.1, w) {
                        None => Err(TariffError::DecimalOverflow),
                        Some(total) => match decimal_checked_product(w, p) {
                            None => Err(TariffError::DecimalOverflow),
                            Some(product) => match decimal_checked_sum(acc.2, product) {
                                None => Err(TariffError::DecimalOverflow),
                                Some(sum) => Ok((acc.0 + 1, total, sum)),
                            },
                        },
                    },
                },
            },
        }
    }
}

/// The tally is refused only for a weight that no decimal holds or for an
/// overflow.
pub proof fn lemma_tally_errors(spp: Seq<TimedReading>, belpex: Seq<TimedValue>)
    ensures
        weighted_tally(spp, belpex) matches Err(e) ==> (e is InvalidWeight || e is DecimalOverflow),
    decreases spp.len(),
{
    if spp.len() > 0 {
        lemma_tally_errors(spp.drop_last(), belpex);
    }
}

/// The exact total of the matched weights (in units of `10^-28`) and the
/// exact sum of weight times price (in units of `10^-56`); a weight that no
/// decimal holds counts as zero.
pub open spec fn exact_tally(spp: Seq<TimedReading>, belpex: Seq<TimedValue>) -> (int, int)
    decreases spp.len(),
{
    if spp.len() == 0 {
        (0, 0)
    } else {
        let acc = exact_tally(spp.drop_last(), belpex);
        match (price_at(belpex, spp.last().0), spp.last().1) {
            (Some(p), Some(w)) => (acc.0 + units(w), acc.1 + units(w) * units(p)),
            _ => acc,
        }
    }
}

/// The tally as it comes out where every step keeps all its places: the
/// matched count, and the running total and running sum as the decimal
/// arithmetic represents an addition or a product that fits.
pub open spec fn fitted_tally(spp: Seq<TimedReading>, belpex: Seq<TimedValue>) -> (
    nat,
    (int, nat),
    (int, nat),
)
    decreases spp.len(),
{
    if spp.len() == 0 {
        (0, zero_repr(), zero_repr())
    } else {
        let acc = fitted_tally(spp.drop_last(), belpex);
        match (price_at(belpex, spp.last().0), spp.last().1) {
            (Some(p), Some(w)) => (
                acc.0 + 1,
                fitted_sum(acc.1, w),
                fitted_sum(acc.2, exact_product(w, p)),
            ),
            _ => acc,
        }
    }
}

/// Every step of the tally keeps all its places: each matched weight is a
/// decimal, each running total and running sum fits at its larger scale,
/// and each product keeps its scale.
pub open spec fn tally_is_exact(spp: Seq<TimedReading>, belpex: Seq<TimedValue>) -> bool
    decreases spp.len(),
{
    if spp.len() == 0 {
        true
    } else {
        let acc = fitted_tally(spp.drop_last(), belpex);
        &&& tally_is_exact(spp.drop_last(), belpex)
        &&& match price_at(belpex, spp.last().0) {
            None => true,
            Some(p) => match spp.last().1 {
                None => false,
                Some(w) => {
                    &&& sum_fits(acc.1, w)
                    &&& product_fits(w, p)
                    &&& sum_fits(acc.2, exact_product(w, p))
                },
            },
        }
    }
}

/// A tally that keeps all its places keeps them on every prefix.
proof fn lemma_exact_prefix(spp: Seq<TimedReading>, belpex: Seq<TimedValue>, k: int)
    requires
        0 <= k <= spp.len(),
        tally_is_exact(spp, belpex),
    ensures
        tally_is_exact(spp.take(k), belpex),
    decreases spp.len() - k,
{
    if k == spp.len() {
        assert(spp.take(k) =~= spp);
    } else {
        assert(spp.drop_last().take(k) =~= spp.take(k));
        lemma_exact_prefix(spp.drop_last(), belpex, k);
    }
}

/// The outcome of weighting: refused at the first price that no decimal
/// holds; otherwise as the tally of the prices goes.
pub open spec fn weighted_index_outcome(spp: Seq<TimedReading>, belpex: Seq<TimedReading>) -> Result<
    (nat, (int, nat), (int, nat)),
    TariffError,
> {
    match first_unreadable(belpex) {
        Some(t) => Err(TariffError::InvalidBelpexPrice(t)),
        None => tally_outcome(spp, known_values(belpex)),
    }
}

/// The outcome of weighting by known prices: matched count, total weight and
/// weighted price (weighted sum divided by total weight), or why there is
/// none.
pub open spec fn tally_outcome(spp: Seq<TimedReading>, belpex: Seq<TimedValue>) -> Result<
    (nat, (int, nat), (int, nat)),
    TariffError,
> {
    match weighted_tally(spp, belpex) {
        Err(e) => Err(e),
        Ok(acc) => if acc.0 == 0 {
            Err(TariffError::NoMatchingQuarterHours)
        } else if units(acc.1) == 0 {
            Err(TariffError::ZeroTotalWeight)
        } else {
            match decimal_checked_quotient(acc.2, acc.1) {
                None => Err(TariffError::DecimalOverflow),
                Some(price) => Ok((acc.0, acc.1, price)),
            }
        },
    }
}

/// `result` is what weighting `spp` against `belpex` gives, under index `id`.
pub open spec fn is_weighted_index(
    result: Result<WeightedIndexResult, TariffError>,
    spp: Seq<TimedReading>,
    belpex: Seq<TimedReading>,
    id: WeightedIndexId,
) -> bool {
    match weighted_index_outcome(spp, belpex) {
        Ok(o) => result matches Ok(w) && w.id == id && w.matched_quarter_hours == o.0
            && w.total_weight@ == o.1 && w.weighted_price@ == o.2,
        Err(e) => result == Err::<WeightedIndexResult, TariffError>(e),
    }
}

/// Inserting an unpriced weight between two parts of a profile leaves the
/// tally as it was.
proof fn lemma_tally_skips_unpriced(
    before: Seq<TimedReading>,
    after: Seq<TimedReading>,
    belpex: Seq<TimedValue>,
    w: TimedReading,
)
    requires
        price_at(belpex, w.0) is None,
    ensures
        weighted_tally(before + seq![w] + after, belpex) == weighted_tally(before + after, belpex),
    decreases after.len(),
{
    if after.len() == 0 {
        assert(before + seq![w] + after =~= before.push(w));
        assert(before.push(w).drop_last() =~= before);
        assert(before + after =~= before);
    } else {
        lemma_tally_skips_unpriced(before, after.drop_last(), belpex, w);
        assert((before + seq![w] + after).drop_last() =~= before + seq![w] + after.drop_last());
        assert((before + after).drop_last() =~= before + after.drop_last());
        assert((before + seq![w] + after).last() == after.last());
        assert((before + after).last() == after.last());
    }
}

/// A weight for a quarter-hour that has no spot price does not count:
/// inserting it anywhere in the profile changes nothing.
pub proof fn law_unpriced_weight_ignored(
    spp: Seq<TimedReading>,
    belpex: Seq<TimedReading>,
    w: TimedReading,
    k: int,
)
    requires
        price_at(known_values(belpex), w.0) is None,
        0 <= k <= spp.len(),
    ensures
        weighted_index_outcome(spp.take(k) + seq![w] + spp.skip(k), belpex)
            == weighted_index_outcome(spp, belpex),
{
    lemma_tally_skips_unpriced(spp.take(k), spp.skip(k), known_values(belpex), w);
    assert(spp.take(k) + spp.skip(k) =~= spp);
}

/// A number that identifies a quarter-hour.
pub open spec fn slot_key(t: QuarterHour) -> u64 {
    ((((t.year as int * 256 + t.month as int) * 256 + t.day as int) * 256 + t.hour as int) * 256
        + t.minute as int) as u64
}

pub proof fn lemma_slot_key_injective(a: QuarterHour, b: QuarterHour)
    ensures
        slot_key(a) == slot_key(b) <==> a == b,
{
    let ka = (((a.year as int * 256 + a.month as int) * 256 + a.day as int) * 256 + a.hour as int)
        * 256 + a.minute as int;
    let kb = (((b.year as int * 256 + b.month as int) * 256 + b.day as int) * 256 + b.hour as int)
        * 256 + b.minute as int;
    assert(0 <= ka < 0x1_0000_0000_0000);
    assert(0 <= kb < 0x1_0000_0000_0000);
    if ka == kb {
        assert(a.minute == b.minute);
        assert(a.hour == b.hour);
        assert(a.day == b.day);
        assert(a.month == b.month);
        assert(a.year == b.year);
    }
}

fn slot_key_of(t: QuarterHour) -> (r: u64)
    ensures
        r == slot_key(t),
{
    (((((t.year as u64) * 256 + t.month as u64) * 256 + t.day as u64) * 256 + t.hour as u64) * 256
        + t.minute as u64)
}

/// Once a step of the tally is refused, the whole tally is, with the same
/// error.
proof fn lemma_tally_overflow_persists(
    spp: Seq<TimedReading>,
    belpex: Seq<TimedValue>,
    i: int,
)
    requires
        0 <= i <= spp.len(),
        weighted_tally(spp.take(i), belpex) is Err,
    ensures
        weighted_tally(spp, belpex) == weighted_tally(spp.take(i), belpex),
    decreases spp.len() - i,
{
    if i < spp.len() {
        assert(spp.take(i + 1).drop_last() =~= spp.take(i));
        lemma_tally_overflow_persists(spp, belpex, i + 1);
    } else {
        assert(spp.take(i) =~= spp);
    }
}

/// Weights `spp` by the Belpex prices of the same quarter-hours: the total
/// weight of the matched quarter-hours and the weighted average of their
/// prices. Refused at the first Belpex price that no decimal holds, at the
/// first matched weight that no decimal holds, where no quarter-hour
/// matches, where the matched weights sum to zero, or where the decimal
/// arithmetic overflows. Where no step of
/// the tally loses places, the total weight is exactly the sum of the
/// matched weights and the weighted sum exactly the sum of weight times
/// price. The division succeeds where the weighted sum has at least the
/// scale of the total weight, and is exact where the mantissas divide.
pub fn calculate_weighted_index(spp_records: &[SppRecord], belpex_records: &[BelpexRecord]) -> (r:
    Result<WeightedIndexResult, TariffError>)
    ensures
        is_weighted_index(
            r,
            weight_views(spp_records@),
            price_views(belpex_records@),
            WeightedIndexId::BelpexQSpp,
        ),
        first_unreadable(price_views(belpex_records@)) is None && tally_is_exact(
            weight_views(spp_records@),
            known_values(price_views(belpex_records@)),
        ) ==> ({
            let sv = weight_views(spp_records@);
            let bv = known_values(price_views(belpex_records@));
            &&& weighted_tally(sv, bv) == Ok::<(nat, (int, nat), (int, nat)), TariffError>(
                fitted_tally(sv, bv),
            )
            &&& units(fitted_tally(sv, bv).1) == exact_tally(sv, bv).0
            &&& units(fitted_tally(sv, bv).2) * pow10(MAX_SCALE as nat) == exact_tally(sv, bv).1
        }),
        first_unreadable(price_views(belpex_records@)) is None ==> (weighted_tally(
            weight_views(spp_records@),
            known_values(price_views(belpex_records@)),
        ) matches Ok(acc) ==> (acc.0 > 0 && acc.1.0 != 0 && acc.2.1 >= acc.1.1 ==> (r matches Ok(
            w,
        ) && (acc.2.0 == 0 ==> w.weighted_price@ == zero_repr()) && (acc.2.0 != 0 && acc.2.0
            % acc.1.0 == 0 ==> w.weighted_price@ == (acc.2.0 / acc.1.0, (acc.2.1
            - acc.1.1) as nat))))),
{
    let ghost sv = weight_views(spp_records@);
    let ghost pv = price_views(belpex_records@);
    let ghost bv = known_values(pv);
    let mut by_slot: std::collections::HashMap<u64, Dec> = std::collections::HashMap::new();
    let mut i: usize = 0;
    assert(pv.take(0) =~= Seq::<TimedReading>::empty());
    while i < belpex_records.len()
        invariant
            i <= belpex_records.len(),
            pv == price_views(belpex_records@),
            bv == known_values(pv),
            first_unreadable(pv.take(i as int)) is None,
            forall|t: QuarterHour| #[trigger]
                by_slot@.contains_key(slot_key(t)) == (price_at(bv.take(i as int), t)
                    is Some),
            forall|t: QuarterHour| #[trigger]
                by_slot@.contains_key(slot_key(t)) ==> by_slot@[slot_key(t)]@ == price_at(
                    bv.take(i as int),
                    t,
                )->0,
        decreases belpex_records.len() - i,
    {
        let record = belpex_records[i];
        assert(pv.take(i + 1).drop_last() =~= pv.take(i as int));
        assert(pv.take(i + 1).last() == (record.timestamp, opt_view(record.euro_per_mwh)));
        let price = match record.euro_per_mwh {
            Some(p) => p,
            None => {
                proof {
                    lemma_first_unreadable_stays(pv, i + 1);
                }
                return Err(TariffError::InvalidBelpexPrice(record.timestamp));
            },
        };
        let key = slot_key_of(record.timestamp);
        let ghost prev = bv.take(i as int);
        let ghost next = bv.take(i + 1);
        assert(next.drop_last() =~= prev);
        assert(next.last() == (record.timestamp, price@));
        by_slot.insert(key, price);
        assert forall|t: QuarterHour| #[trigger]
            by_slot@.contains_key(slot_key(t)) == (price_at(next, t) is Some) && (by_slot@.contains_key(
                slot_key(t),
            ) ==> by_slot@[slot_key(t)]@ == price_at(next, t)->0) by {
            lemma_slot_key_injective(t, record.timestamp);
        }
        i += 1;
    }
    assert(bv.take(belpex_records.len() as int) =~= bv);
    assert(pv.take(belpex_records.len() as int) =~= pv);

    let mut matched: usize = 0;
    let mut total = Dec::zero();
    let mut sum = Dec::zero();
    let mut j: usize = 0;
    assert(sv.take(0) =~= Seq::<TimedReading>::empty());
    proof {
        lemma_units_zero(total@);
        lemma_units_zero(sum@);
    }
    while j < spp_records.len()
        invariant
            j <= spp_records.len(),
            matched <= j,
            bv == known_values(price_views(belpex_records@)),
            first_unreadable(price_views(belpex_records@)) is None,
            sv == weight_views(spp_records@),
            forall|t: QuarterHour| #[trigger]
                by_slot@.contains_key(slot_key(t)) == (price_at(bv, t) is Some),
            forall|t: QuarterHour| #[trigger]
                by_slot@.contains_key(slot_key(t)) ==> by_slot@[slot_key(t)]@ == price_at(bv, t)->0,
            weighted_tally(sv.take(j as int), bv) == Ok::<
                (nat, (int, nat), (int, nat)),
                TariffError,
            >((matched as nat, total@, sum@)),
            tally_is_exact(sv.take(j as int), bv) ==> fitted_tally(sv.take(j as int), bv) == (
                matched as nat,
                total@,
                sum@,
            ) && units(total@) == exact_tally(sv.take(j as int), bv).0 && units(sum@) * pow10(
                MAX_SCALE as nat,
            ) == exact_tally(sv.take(j as int), bv).1,
        decreases spp_records.len() - j,
    {
        let record = spp_records[j];
        let ghost prev = sv.take(j as int);
        let ghost next = sv.take(j + 1);
        assert(next.drop_last() =~= prev);
        assert(next.last() == (record.timestamp, opt_view(record.weight)));
        let key = slot_key_of(record.timestamp);
        match by_slot.get(&key) {
            None => {},
            Some(price) => {
                let price = *price;
                let weight = match record.weight {
                    Some(w) => w,
                    None => {
                        proof {
                            lemma_tally_overflow_persists(sv, bv, j + 1);
                            if tally_is_exact(sv, bv) {
                                lemma_exact_prefix(sv, bv, j + 1);
                            }
                        }
                        return Err(TariffError::InvalidWeight(record.timestamp));
                    },
                };
                let new_total = match total.checked_add(weight) {
                    Some(t) => t,
                    None => {
                        proof {
                            lemma_tally_overflow_persists(sv, bv, j + 1);
                            if tally_is_exact(sv, bv) {
                                lemma_exact_prefix(sv, bv, j + 1);
                            }
                        }
                        return Err(TariffError::DecimalOverflow);
                    },
                };
                let product = match weight.checked_mul(price) {
                    Some(p) => p,
                    None => {
                        proof {
                            lemma_tally_overflow_persists(sv, bv, j + 1);
                            if tally_is_exact(sv, bv) {
                                lemma_exact_prefix(sv, bv, j + 1);
                            }
                        }
                        return Err(TariffError::DecimalOverflow);
                    },
                };
                let new_sum = match sum.checked_add(product) {
                    Some(s) => s,
                    None => {
                        proof {
                            lemma_tally_overflow_persists(sv, bv, j + 1);
                            if tally_is_exact(sv, bv) {
                                lemma_exact_prefix(sv, bv, j + 1);
                            }
                        }
                        return Err(TariffError::DecimalOverflow);
                    },
                };
                proof {
                    if tally_is_exact(next, bv) {
                        let p28 = pow10(MAX_SCALE as nat);
                        lemma_product_units(weight@, price@, product@);
                        assert(units(new_sum@) * p28 == units(sum@) * p28 + units(product@) * p28)
                            by (nonlinear_arith)
                            requires
                                units(new_sum@) == units(sum@) + units(product@),
                        ;
                    }
                }
                matched += 1;
                total = new_total;
                sum = new_sum;
            },
        }
        j += 1;
    }
    assert(sv.take(spp_records.len() as int) =~= sv);
    if matched == 0 {
        return Err(TariffError::NoMatchingQuarterHours);
    }
    if total.is_zero() {
        return Err(TariffError::ZeroTotalWeight);
    }
    match sum.checked_div(total) {
        None => Err(TariffError::DecimalOverflow),
        Some(price) => Ok(
            WeightedIndexResult {
                id: WeightedIndexId::BelpexQSpp,
                matched_quarter_hours: matched,
                total_weight: total,
                weighted_price: price,
            },
        ),
    }
}

} // verus!
