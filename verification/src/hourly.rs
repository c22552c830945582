//! Hourly Belpex prices: each hour's quarter-hour prices averaged, and the
//! average given to all four quarter-hours of the hour.
use vstd::prelude::*;

use crate::calendar::QuarterHour;
use crate::decimal::{
    fitted_sum, lemma_units_zero, opt_quotient, opt_sum, opt_view, sum_fits, units, zero_repr, Dec,
};
use crate::weighted::{price_views, BelpexRecord, TimedReading};

verus! {

/// An hour: year, month, day and hour of the day.
pub type Hour = (u16, u8, u8, u8);

pub open spec fn hour_of(t: QuarterHour) -> Hour {
    (t.year, t.month, t.day, t.hour)
}

/// The minute at which quarter `q` (0 to 3) of an hour starts.
pub open spec fn quarter_minute(q: int) -> u8 {
    if q == 0 {
        0
    } else if q == 1 {
        15
    } else if q == 2 {
        30
    } else {
        45
    }
}

/// Quarter `q` of hour `h`.
pub open spec fn quarter_of(h: Hour, q: int) -> QuarterHour {
    QuarterHour { year: h.0, month: h.1, day: h.2, hour: h.3, minute: quarter_minute(q) }
}

/// The hours that the records fall in, each once, in the order in which they
/// first appear.
pub open spec fn hours_in(s: Seq<TimedReading>) -> Seq<Hour>
    decreases s.len(),
{
    if s.len() == 0 {
        Seq::empty()
    } else {
        let prev = hours_in(s.drop_last());
        let h = hour_of(s.last().0);
        if prev.contains(h) {
            prev
        } else {
            prev.push(h)
        }
    }
}

/// The number of records in hour `h`.
pub open spec fn hour_count(s: Seq<TimedReading>, h: Hour) -> nat
    decreases s.len(),
{
    if s.len() == 0 {
        0
    } else if hour_of(s.last().0) == h {
        hour_count(s.drop_last(), h) + 1
    } else {
        hour_count(s.drop_last(), h)
    }
}

/// The prices of the records in hour `h` added up in order, from zero, as
/// the decimal arithmetic adds them; `None` once a price is one that no
/// decimal holds or a sum overflows.
pub open spec fn hour_total(s: Seq<TimedReading>, h: Hour) -> Option<(int, nat)>
    decreases s.len(),
{
    if s.len() == 0 {
        Some(zero_repr())
    } else if hour_of(s.last().0) == h {
        opt_sum(hour_total(s.drop_last(), h), s.last().1)
    } else {
        hour_total(s.drop_last(), h)
    }
}

/// The average price of hour `h`: its total divided by its count; `None`
/// where the total is `None`.
pub open spec fn hour_average(s: Seq<TimedReading>, h: Hour) -> Option<(int, nat)> {
    opt_quotient(hour_total(s, h), (hour_count(s, h) as int, 0nat))
}

/// For each hour of `s` in turn, its four quarter-hours, each with the
/// hour's average price.
pub open spec fn hourly_prices(s: Seq<TimedReading>) -> Seq<TimedReading> {
    Seq::new(
        4 * hours_in(s).len(),
        |k: int| (quarter_of(hours_in(s)[k / 4], k % 4), hour_average(s, hours_in(s)[k / 4])),
    )
}

/// The total of hour `h` as it comes out where every addition keeps all its
/// places.
pub open spec fn hour_fitted_total(s: Seq<TimedReading>, h: Hour) -> (int, nat)
    decreases s.len(),
{
    if s.len() == 0 {
        zero_repr()
    } else if hour_of(s.last().0) == h {
        fitted_sum(hour_fitted_total(s.drop_last(), h), s.last().1->0)
    } else {
        hour_fitted_total(s.drop_last(), h)
    }
}

/// Every addition of the prices of hour `h` fits at its larger scale.
pub open spec fn hour_is_exact(s: Seq<TimedReading>, h: Hour) -> bool
    decreases s.len(),
{
    if s.len() == 0 {
        true
    } else {
        &&& hour_is_exact(s.drop_last(), h)
        &&& (hour_of(s.last().0) == h ==> (s.last().1 matches Some(p) && sum_fits(
            hour_fitted_total(s.drop_last(), h),
            p,
        )))
    }
}

/// The exact sum of the prices of hour `h`, in units of `10^-28`.
pub open spec fn hour_exact_total(s: Seq<TimedReading>, h: Hour) -> int
    decreases s.len(),
{
    if s.len() == 0 {
        0
    } else if hour_of(s.last().0) == h {
        hour_exact_total(s.drop_last(), h) + units(s.last().1->0)
    } else {
        hour_exact_total(s.drop_last(), h)
    }
}

proof fn lemma_hour_absent(s: Seq<TimedReading>, h: Hour)
    requires
        !hours_in(s).contains(h),
    ensures
        hour_count(s, h) == 0,
        hour_total(s, h) == Some(zero_repr()),
        hour_is_exact(s, h),
        hour_exact_total(s, h) == 0,
        hour_fitted_total(s, h) == zero_repr(),
    decreases s.len(),
{
    if s.len() > 0 {
        let prev = hours_in(s.drop_last());
        if !prev.contains(hour_of(s.last().0)) {
            assert(hours_in(s) == prev.push(hour_of(s.last().0)));
            assert(hours_in(s)[prev.len() as int] == hour_of(s.last().0));
            if prev.contains(h) {
                let k = choose|k: int| 0 <= k < prev.len() && prev[k] == h;
                assert(hours_in(s)[k] == h);
            }
        }
        lemma_hour_absent(s.drop_last(), h);
    }
}

proof fn lemma_hours_distinct(s: Seq<TimedReading>)
    ensures
        hours_in(s).no_duplicates(),
    decreases s.len(),
{
    if s.len() > 0 {
        lemma_hours_distinct(s.drop_last());
    }
}

proof fn lemma_hours_step(s: Seq<TimedReading>, i: int)
    requires
        0 <= i < s.len(),
    ensures
        s.take(i + 1).drop_last() == s.take(i),
        s.take(i + 1).last() == s[i],
{
    assert(s.take(i + 1).drop_last() =~= s.take(i));
}

/// Averages the quarter-hour prices of each hour, and gives the average to
/// the four quarter-hours of the hour: one group of four records per hour,
/// hours in order of first appearance. An hour's average is `None` where one
/// of its prices is `None` or its decimal sum overflows; the division by the
/// hour's count always succeeds. Where no addition of an hour loses places,
/// the hour's total is exactly the sum of its prices, as `rust_decimal`
/// represents it.
pub fn average_belpex_to_hourly(records: &[BelpexRecord]) -> (r: Vec<BelpexRecord>)
    ensures
        price_views(r@) == hourly_prices(price_views(records@)),
        forall|k: int|
            0 <= k < hours_in(price_views(records@)).len() && hour_is_exact(
                price_views(records@),
                #[trigger] hours_in(price_views(records@))[k],
            ) ==> ({
                let s = price_views(records@);
                let h = hours_in(s)[k];
                &&& hour_total(s, h) == Some(hour_fitted_total(s, h))
                &&& units(hour_fitted_total(s, h)) == hour_exact_total(s, h)
            }),
        forall|k: int|
            #![trigger hours_in(price_views(records@))[k]]
            0 <= k < hours_in(price_views(records@)).len() ==> ({
                let s = price_views(records@);
                let h = hours_in(s)[k];
                let n = hour_count(s, h) as int;
                &&& n > 0
                &&& hour_total(s, h) matches Some(t) ==> {
                    &&& hour_average(s, h) is Some
                    &&& t.0 == 0 ==> hour_average(s, h) == Some(zero_repr())
                    &&& t.0 != 0 && t.0 % n == 0 ==> hour_average(s, h) == Some((t.0 / n, t.1))
                }
            }),
{
    let ghost s = price_views(records@);
    let mut hours: Vec<Hour> = Vec::new();
    let mut totals: Vec<Option<Dec>> = Vec::new();
    let mut counts: Vec<usize> = Vec::new();
    let mut i: usize = 0;
    assert(s.take(0) =~= Seq::<TimedReading>::empty());
    while i < records.len()
        invariant
            i <= records.len(),
            s == price_views(records@),
            hours@ == hours_in(s.take(i as int)),
            totals.len() == hours.len(),
            counts.len() == hours.len(),
            forall|g: int|
                0 <= g < hours.len() ==> {
                    &&& hour_total(s.take(i as int), #[trigger] hours@[g]) == opt_view(totals@[g])
                    &&& hour_count(s.take(i as int), hours@[g]) == counts@[g]
                    &&& 1 <= counts@[g] <= i
                    &&& hour_is_exact(s.take(i as int), hours@[g]) ==> (totals@[g] matches Some(
                        t,
                    ) && units(t@) == hour_exact_total(s.take(i as int), hours@[g]) && t@
                        == hour_fitted_total(s.take(i as int), hours@[g]))
                },
        decreases records.len() - i,
    {
        let record = records[i];
        let h: Hour = (
            record.timestamp.year,
            record.timestamp.month,
            record.timestamp.day,
            record.timestamp.hour,
        );
        let ghost prev = s.take(i as int);
        let ghost next = s.take(i + 1);
        proof {
            lemma_hours_step(s, i as int);
            lemma_hours_distinct(prev);
            assert(s[i as int] == (record.timestamp, opt_view(record.euro_per_mwh)));
        }
        let mut g: usize = 0;
        while g < hours.len() && !same_hour(hours[g], h)
            invariant
                g <= hours.len(),
                forall|k: int| 0 <= k < g ==> hours@[k] != h,
            decreases hours.len() - g,
        {
            g += 1;
        }
        let found = g < hours.len();
        let base = if found {
            totals[g]
        } else {
            Some(Dec::zero())
        };
        proof {
            if !found {
                assert(!hours@.contains(h));
                lemma_hour_absent(prev, h);
                lemma_units_zero(zero_repr());
            } else {
                assert(hours@.contains(h));
            }
        }
        let new_total = match (base, record.euro_per_mwh) {
            (Some(b), Some(p)) => b.checked_add(p),
            _ => None,
        };
        if found {
            totals.set(g, new_total);
            let c = counts[g];
            counts.set(g, c + 1);
            assert forall|k: int| 0 <= k < hours.len() implies {
                &&& hour_total(next, #[trigger] hours@[k]) == opt_view(totals@[k])
                &&& hour_count(next, hours@[k]) == counts@[k]
                &&& 1 <= counts@[k] <= i + 1
                &&& hour_is_exact(next, hours@[k]) ==> (totals@[k] matches Some(t) && units(t@)
                    == hour_exact_total(next, hours@[k]) && t@ == hour_fitted_total(
                    next,
                    hours@[k],
                ))
            } by {
                if k != g {
                    assert(hours@[k] != hours@[g as int]);
                }
            }
        } else {
            hours.push(h);
            totals.push(new_total);
            counts.push(1);
            assert forall|k: int| 0 <= k < hours.len() implies {
                &&& hour_total(next, #[trigger] hours@[k]) == opt_view(totals@[k])
                &&& hour_count(next, hours@[k]) == counts@[k]
                &&& 1 <= counts@[k] <= i + 1
                &&& hour_is_exact(next, hours@[k]) ==> (totals@[k] matches Some(t) && units(t@)
                    == hour_exact_total(next, hours@[k]) && t@ == hour_fitted_total(
                    next,
                    hours@[k],
                ))
            } by {
                if k < g {
                    assert(hours@[k] != h);
                }
            }
        }
        i += 1;
    }
    assert(s.take(records.len() as int) =~= s);

    let mut out: Vec<BelpexRecord> = Vec::new();
    let mut g: usize = 0;
    while g < hours.len()
        invariant
            g <= hours.len(),
            s == price_views(records@),
            hours@ == hours_in(s),
            totals.len() == hours.len(),
            counts.len() == hours.len(),
            forall|k: int|
                0 <= k < hours.len() ==> {
                    &&& hour_total(s, #[trigger] hours@[k]) == opt_view(totals@[k])
                    &&& hour_count(s, hours@[k]) == counts@[k]
                    &&& counts@[k] >= 1
                    &&& hour_is_exact(s, hours@[k]) ==> (totals@[k] matches Some(t) && units(t@)
                        == hour_exact_total(s, hours@[k]) && t@ == hour_fitted_total(
                        s,
                        hours@[k],
                    ))
                },
            forall|k: int|
                0 <= k < g ==> (totals@[k] matches Some(t) ==> {
                    let n = counts@[k] as int;
                    &&& hour_average(s, #[trigger] hours_in(s)[k]) is Some
                    &&& t@.0 == 0 ==> hour_average(s, hours_in(s)[k]) == Some(zero_repr())
                    &&& t@.0 != 0 && t@.0 % n == 0 ==> hour_average(s, hours_in(s)[k]) == Some(
                        (t@.0 / n, t@.1),
                    )
                }),
            out.len() == 4 * g,
            forall|k: int|
                0 <= k < out.len() ==> #[trigger] price_views(out@)[k] == hourly_prices(s)[k],
        decreases hours.len() - g,
    {
        let h = hours[g];
        let average = match totals[g] {
            Some(t) => t.checked_div(Dec::from_count(counts[g])),
            None => None,
        };
        assert(opt_view(average) == hour_average(s, hours_in(s)[g as int]));
        let ghost before = out@;
        out.push(BelpexRecord {
            timestamp: QuarterHour { year: h.0, month: h.1, day: h.2, hour: h.3, minute: 0 },
            euro_per_mwh: average,
        });
        out.push(BelpexRecord {
            timestamp: QuarterHour { year: h.0, month: h.1, day: h.2, hour: h.3, minute: 15 },
            euro_per_mwh: average,
        });
        out.push(BelpexRecord {
            timestamp: QuarterHour { year: h.0, month: h.1, day: h.2, hour: h.3, minute: 30 },
            euro_per_mwh: average,
        });
        out.push(BelpexRecord {
            timestamp: QuarterHour { year: h.0, month: h.1, day: h.2, hour: h.3, minute: 45 },
            euro_per_mwh: average,
        });
        assert forall|k: int| 0 <= k < out.len() implies #[trigger] price_views(out@)[k]
            == hourly_prices(s)[k] by {
            if k < 4 * g {
                assert(out@[k] == before[k]);
                assert(price_views(before)[k] == hourly_prices(s)[k]);
            } else {
                assert(k / 4 == g);
            }
        }
        g += 1;
    }
    assert(price_views(out@) =~= hourly_prices(s));
    out
}

/// The hour of the last record is among the hours of the records.
proof fn lemma_last_hour_listed(s: Seq<TimedReading>)
    requires
        s.len() > 0,
    ensures
        hours_in(s).contains(hour_of(s.last().0)),
{
    let prev = hours_in(s.drop_last());
    let h = hour_of(s.last().0);
    if !prev.contains(h) {
        assert(hours_in(s)[prev.len() as int] == h);
    }
}

/// Every quarter-hour price falls in an hour of the hourly prices: each of
/// its hour's four quarter-hours is there, at the hour's average.
pub proof fn law_hourly_covers_every_hour(s: Seq<TimedReading>, i: int, q: int)
    requires
        0 <= i < s.len(),
        0 <= q < 4,
    ensures
        exists|k: int|
            0 <= k < hourly_prices(s).len() && #[trigger] hourly_prices(s)[k] == (
                quarter_of(hour_of(s[i].0), q),
                hour_average(s, hour_of(s[i].0)),
            ),
{
    let h = hour_of(s[i].0);
    let prefix = s.take(i + 1);
    assert(prefix.last() == s[i]);
    lemma_last_hour_listed(prefix);
    lemma_hour_listed(s, h, i + 1);
    let g = choose|g: int| 0 <= g < hours_in(s).len() && hours_in(s)[g] == h;
    let k = 4 * g + q;
    assert(k / 4 == g && k % 4 == q);
    assert(hourly_prices(s)[k] == (quarter_of(h, q), hour_average(s, h)));
}

/// The hourly prices list each hour once: no two groups of four are of the
/// same hour.
pub proof fn law_hourly_hours_distinct(s: Seq<TimedReading>, j: int, k: int)
    requires
        0 <= j < k < hourly_prices(s).len(),
        j / 4 != k / 4,
    ensures
        hour_of(hourly_prices(s)[j].0) != hour_of(hourly_prices(s)[k].0),
{
    lemma_hours_distinct(s);
    let hs = hours_in(s);
    assert(hs[j / 4] != hs[k / 4]);
    assert(hour_of(quarter_of(hs[j / 4], j % 4)) == hs[j / 4]);
    assert(hour_of(quarter_of(hs[k / 4], k % 4)) == hs[k / 4]);
}

/// The four quarter-hours of an hour in the hourly prices share the hour's
/// average.
pub proof fn law_hourly_quarters_share_price(s: Seq<TimedReading>, j: int, k: int)
    requires
        0 <= j < hourly_prices(s).len(),
        0 <= k < hourly_prices(s).len(),
        j / 4 == k / 4,
    ensures
        hourly_prices(s)[j].1 == hourly_prices(s)[k].1,
        hour_of(hourly_prices(s)[j].0) == hour_of(hourly_prices(s)[k].0),
{
}

fn same_hour(a: Hour, b: Hour) -> (r: bool)
    ensures
        r == (a == b),
{
    a.0 == b.0 && a.1 == b.1 && a.2 == b.2 && a.3 == b.3
}

/// An hour listed among a prefix's hours is listed among all the hours.
proof fn lemma_hour_listed(s: Seq<TimedReading>, h: Hour, i: int)
    requires
        0 <= i <= s.len(),
        hours_in(s.take(i)).contains(h),
    ensures
        hours_in(s).contains(h),
    decreases s.len() - i,
{
    if i < s.len() {
        lemma_hours_step(s, i);
        let prev = hours_in(s.take(i));
        let k = choose|k: int| 0 <= k < prev.len() && prev[k] == h;
        assert(hours_in(s.take(i + 1))[k] == h);
        lemma_hour_listed(s, h, i + 1);
    } else {
        assert(s.take(i) =~= s);
    }
}

} // verus!
