//! Properties that relate several calculations of the library.
use vstd::prelude::*;

use crate::calc::{
    app_outcome, calculation_outcome, comparison_outcome, configured_prices,
    import_comparison_outcome, import_outcome,
    index_lookup, index_sources, indices_outcome, weigh_all,
};
use crate::hourly::hourly_prices;
use crate::index::{all_indices, WeightedIndexId};
use crate::error::TariffError;
use crate::pricing::{
    configured_outcome, default_pricing, formula_outcome, is_default_consumption, is_default_injection, vat_outcome,
    ConfiguredPrice, PricingView,
};
use crate::weighted::{weighted_index_outcome, IndexView, TimedReading};

verus! {

/// Each index that weighing gives is the weighted index of its source,
/// under the source's id.
pub proof fn lemma_weigh_all_values(sources: Seq<(WeightedIndexId, Seq<TimedReading>, Seq<TimedReading>)>)
    ensures
        weigh_all(sources) matches Ok(v) ==> v.len() == sources.len() && forall|k: int|
            0 <= k < v.len() ==> (#[trigger] weighted_index_outcome(sources[k].1, sources[k].2)
                matches Ok(o) && v[k] == (sources[k].0, o.0, o.1, o.2)),
    decreases sources.len(),
{
    if sources.len() > 0 {
        let prev = sources.drop_last();
        lemma_weigh_all_values(prev);
        if weigh_all(sources) is Ok {
            let v = weigh_all(sources)->Ok_0;
            let acc = weigh_all(prev)->Ok_0;
            assert forall|k: int| 0 <= k < v.len() implies (#[trigger] weighted_index_outcome(
                sources[k].1,
                sources[k].2,
            ) matches Ok(o) && v[k] == (sources[k].0, o.0, o.1, o.2)) by {
                if k < prev.len() {
                    assert(prev[k] == sources[k]);
                    assert(v[k] == acc[k]);
                    assert(weighted_index_outcome(prev[k].1, prev[k].2) is Ok);
                }
            }
        }
    }
}

/// Every index of a month, in the order of `WeightedIndexId::all`, is the
/// weighted index of its profile against the quarter-hour prices (`Q`
/// indices) or against the hourly-averaged prices (`H` indices).
pub proof fn law_indices_are_weighted_sources(
    spp: Seq<TimedReading>,
    rlp_flanders: Seq<TimedReading>,
    rlp_belgium: Seq<TimedReading>,
    rlp_eneco: Seq<TimedReading>,
    belpex: Seq<TimedReading>,
)
    requires
        indices_outcome(spp, rlp_flanders, rlp_belgium, rlp_eneco, belpex) is Ok,
    ensures
        ({
            let v = indices_outcome(spp, rlp_flanders, rlp_belgium, rlp_eneco, belpex)->Ok_0;
            let hourly = hourly_prices(belpex);
            let sources = index_sources(spp, rlp_flanders, rlp_belgium, rlp_eneco, belpex, hourly);
            &&& v.len() == 7
            &&& forall|k: int| 0 <= k < 7 ==> #[trigger] v[k].0 == all_indices()[k]
            &&& forall|k: int|
                0 <= k < 7 ==> (#[trigger] weighted_index_outcome(sources[k].1, sources[k].2)
                    matches Ok(o) && v[k] == (sources[k].0, o.0, o.1, o.2))
        }),
{
    let hourly = hourly_prices(belpex);
    let sources = index_sources(spp, rlp_flanders, rlp_belgium, rlp_eneco, belpex, hourly);
    let v = indices_outcome(spp, rlp_flanders, rlp_belgium, rlp_eneco, belpex)->Ok_0;
    lemma_weigh_all_values(sources);
    assert(v == weigh_all(sources)->Ok_0);
    assert forall|k: int| 0 <= k < 7 implies #[trigger] v[k].0 == all_indices()[k] by {
        assert(weighted_index_outcome(sources[k].1, sources[k].2) is Ok);
        assert(v[k].0 == sources[k].0);
        if k == 0 {
        } else if k == 1 {
        } else if k == 2 {
        } else if k == 3 {
        } else if k == 4 {
        } else if k == 5 {
        } else {
        }
    }
}

/// The lookup of an id finds the index with that id when no later index
/// carries it.
proof fn lemma_lookup_at(indices: Seq<IndexView>, k: int)
    requires
        0 <= k < indices.len(),
        forall|j: int| k < j < indices.len() ==> #[trigger] indices[j].0 != indices[k].0,
    ensures
        index_lookup(indices, indices[k].0) == Some(indices[k]),
    decreases indices.len(),
{
    if k < indices.len() - 1 {
        let prev = indices.drop_last();
        assert(indices.last().0 != indices[k].0);
        assert(prev[k] == indices[k]);
        assert forall|j: int| k < j < prev.len() implies #[trigger] prev[j].0 != prev[k].0 by {
            assert(prev[j] == indices[j]);
        }
        lemma_lookup_at(prev, k);
    }
}

/// The default configuration recreates the fixed two-price setup with the
/// default pricing: its injection price excluding VAT is the export price
/// on quarter-hour prices, and its consumption price, excluding and
/// including VAT, is the Flemish import price on quarter-hour prices.
pub proof fn law_default_config_recreates_fixed_setup(
    spp: Seq<TimedReading>,
    rlp_flanders: Seq<TimedReading>,
    rlp_belgium: Seq<TimedReading>,
    rlp_eneco: Seq<TimedReading>,
    belpex: Seq<TimedReading>,
    prices: Seq<ConfiguredPrice>,
)
    requires
        prices.len() == 2,
        is_default_injection(prices[0]),
        is_default_consumption(prices[1]),
        indices_outcome(spp, rlp_flanders, rlp_belgium, rlp_eneco, belpex) is Ok,
        configured_prices(
            indices_outcome(spp, rlp_flanders, rlp_belgium, rlp_eneco, belpex)->Ok_0,
            prices,
        ) is Ok,
        app_outcome(spp, rlp_flanders, rlp_belgium, rlp_eneco, belpex, default_pricing()) is Ok,
    ensures
        ({
            let pv = configured_prices(
                indices_outcome(spp, rlp_flanders, rlp_belgium, rlp_eneco, belpex)->Ok_0,
                prices,
            )->Ok_0;
            let a = app_outcome(
                spp,
                rlp_flanders,
                rlp_belgium,
                rlp_eneco,
                belpex,
                default_pricing(),
            )->Ok_0;
            &&& pv.len() == 2
            &&& pv[0].0 == a.0.1.3
            &&& pv[1].0 == a.1.1.3
            &&& pv[1].1 == a.1.1.4
        }),
{
    let iv = indices_outcome(spp, rlp_flanders, rlp_belgium, rlp_eneco, belpex)->Ok_0;
    law_indices_are_weighted_sources(spp, rlp_flanders, rlp_belgium, rlp_eneco, belpex);
    let hourly = hourly_prices(belpex);
    let sources = index_sources(spp, rlp_flanders, rlp_belgium, rlp_eneco, belpex, hourly);
    assert(iv[1].0 == WeightedIndexId::BelpexQSpp);
    assert(iv[3].0 == WeightedIndexId::BelpexQRlpVl);
    assert forall|j: int| 1 < j < 7 implies #[trigger] iv[j].0 != iv[1].0 by {
        assert(iv[j].0 == all_indices()[j]);
    }
    assert forall|j: int| 3 < j < 7 implies #[trigger] iv[j].0 != iv[3].0 by {
        assert(iv[j].0 == all_indices()[j]);
    }
    lemma_lookup_at(iv, 1);
    lemma_lookup_at(iv, 3);
    assert(weighted_index_outcome(sources[1].1, sources[1].2) is Ok);
    assert(weighted_index_outcome(sources[3].1, sources[3].2) is Ok);
    let first = prices.drop_last();
    assert(first.drop_last() =~= Seq::<ConfiguredPrice>::empty());
    assert(first.last() == prices[0]);
    assert(prices.last() == prices[1]);
    let o1 = weighted_index_outcome(spp, belpex)->Ok_0;
    let o3 = weighted_index_outcome(rlp_flanders, belpex)->Ok_0;
    assert(iv[1] == (WeightedIndexId::BelpexQSpp, o1.0, o1.1, o1.2));
    assert(iv[3] == (WeightedIndexId::BelpexQRlpVl, o3.0, o3.1, o3.2));
    let pair0 = configured_outcome(prices[0], o1.2);
    let pair1 = configured_outcome(prices[1], o3.2);
    assert(configured_prices(iv, first.drop_last()) == Ok::<_, crate::error::TariffError>(
        Seq::<((int, nat), (int, nat))>::empty(),
    ));
    assert(configured_prices(iv, first) == Ok::<_, crate::error::TariffError>(
        Seq::<((int, nat), (int, nat))>::empty().push(pair0->0),
    ));
    let pv = configured_prices(iv, prices)->Ok_0;
    assert(pv == Seq::<((int, nat), (int, nat))>::empty().push(pair0->0).push(pair1->0));
    let cfg = default_pricing();
    assert(calculation_outcome(spp, belpex, cfg) is Ok);
    assert(import_outcome(rlp_flanders, belpex, cfg) is Ok);
}

/// Comparing modes changes nothing in either mode: the quarter-hour part is
/// the plain calculation, and the hourly part is the plain calculation on
/// the hourly-averaged prices.
pub proof fn law_comparison_parts(spp: Seq<TimedReading>, belpex: Seq<TimedReading>, config: PricingView)
    requires
        comparison_outcome(spp, belpex, config) is Ok,
    ensures
        calculation_outcome(spp, belpex, config) == Ok::<_, crate::error::TariffError>(
            comparison_outcome(spp, belpex, config)->Ok_0.1,
        ),
        calculation_outcome(spp, hourly_prices(belpex), config) == Ok::<
            _,
            crate::error::TariffError,
        >(comparison_outcome(spp, belpex, config)->Ok_0.0),
{
}

/// An import calculation weighs the load profile as the plain calculation
/// does, applies the import formula to the weighted price, and adds VAT to
/// the result.
pub proof fn law_import_builds_on_calculation(
    rlp: Seq<TimedReading>,
    belpex: Seq<TimedReading>,
    config: PricingView,
)
    requires
        import_outcome(rlp, belpex, config) is Ok,
    ensures
        ({
            let i = import_outcome(rlp, belpex, config)->Ok_0;
            let c = calculation_outcome(rlp, belpex, config);
            &&& c is Ok
            &&& i.0 == c->Ok_0.0 && i.1 == c->Ok_0.1 && i.2 == c->Ok_0.2
            &&& formula_outcome(config.1, i.2) == Some(i.3)
            &&& vat_outcome(i.3, config.2) == Some(i.4)
        }),
{
}

/// The position of an index among `WeightedIndexId::all`.
pub open spec fn index_position(id: WeightedIndexId) -> int {
    match id {
        WeightedIndexId::BelpexHSpp => 0,
        WeightedIndexId::BelpexQSpp => 1,
        WeightedIndexId::BelpexHRlpVl => 2,
        WeightedIndexId::BelpexQRlpVl => 3,
        WeightedIndexId::BelpexHRlpBe => 4,
        WeightedIndexId::BelpexQRlpBe => 5,
        WeightedIndexId::BelpexHRlpM => 6,
    }
}

/// Among indices in the order of `WeightedIndexId::all`, the lookup of an id
/// finds the one index at its position.
proof fn lemma_lookup_position(iv: Seq<IndexView>, id: WeightedIndexId)
    requires
        iv.len() == 7,
        forall|k: int| 0 <= k < 7 ==> #[trigger] iv[k].0 == all_indices()[k],
    ensures
        index_lookup(iv, id) == Some(iv[index_position(id)]),
        iv[index_position(id)].0 == id,
{
    let k = index_position(id);
    assert(iv[k].0 == all_indices()[k]);
    assert forall|j: int| k < j < iv.len() implies #[trigger] iv[j].0 != iv[k].0 by {
        assert(iv[j].0 == all_indices()[j]);
    }
    lemma_lookup_at(iv, k);
}

/// Configured prices on indices in the order of `WeightedIndexId::all`:
/// each price is worked out on the one index that carries its id, so no
/// index is ever missing. Where every price can be worked out, the results
/// come in the configured order; otherwise the overflow is reported.
pub proof fn law_configured_prices_on_their_index(iv: Seq<IndexView>, prices: Seq<ConfiguredPrice>)
    requires
        iv.len() == 7,
        forall|k: int| 0 <= k < 7 ==> #[trigger] iv[k].0 == all_indices()[k],
    ensures
        forall|i: int|
            0 <= i < prices.len() ==> index_lookup(iv, #[trigger] prices[i].index) == Some(
                iv[index_position(prices[i].index)],
            ),
        (forall|i: int|
            0 <= i < prices.len() ==> #[trigger] configured_outcome(
                prices[i],
                iv[index_position(prices[i].index)].3,
            ) is Some) ==> (configured_prices(iv, prices) matches Ok(pv) && pv.len()
            == prices.len() && forall|i: int|
            0 <= i < prices.len() ==> configured_outcome(
                prices[i],
                iv[index_position(prices[i].index)].3,
            ) == Some(#[trigger] pv[i])),
        !(forall|i: int|
            0 <= i < prices.len() ==> #[trigger] configured_outcome(
                prices[i],
                iv[index_position(prices[i].index)].3,
            ) is Some) ==> configured_prices(iv, prices) == Err::<
            Seq<((int, nat), (int, nat))>,
            TariffError,
        >(TariffError::DecimalOverflow),
    decreases prices.len(),
{
    assert forall|i: int| 0 <= i < prices.len() implies index_lookup(
        iv,
        #[trigger] prices[i].index,
    ) == Some(iv[index_position(prices[i].index)]) by {
        lemma_lookup_position(iv, prices[i].index);
    }
    if prices.len() > 0 {
        let prev = prices.drop_last();
        let last = prices.last();
        law_configured_prices_on_their_index(iv, prev);
        lemma_lookup_position(iv, last.index);
        let o = configured_outcome(last, iv[index_position(last.index)].3);
        assert forall|i: int| 0 <= i < prev.len() implies #[trigger] prev[i] == prices[i] by {}
        let all_prev = forall|i: int|
            0 <= i < prev.len() ==> #[trigger] configured_outcome(
                prev[i],
                iv[index_position(prev[i].index)].3,
            ) is Some;
        if forall|i: int|
            0 <= i < prices.len() ==> #[trigger] configured_outcome(
                prices[i],
                iv[index_position(prices[i].index)].3,
            ) is Some {
            assert(all_prev) by {
                assert forall|i: int| 0 <= i < prev.len() implies #[trigger] configured_outcome(
                    prev[i],
                    iv[index_position(prev[i].index)].3,
                ) is Some by {
                    assert(prev[i] == prices[i]);
                    assert(configured_outcome(prices[i], iv[index_position(prices[i].index)].3)
                        is Some);
                }
            }
            assert(configured_outcome(
                prices[prices.len() - 1],
                iv[index_position(prices[prices.len() - 1].index)].3,
            ) is Some);
            let pvp = configured_prices(iv, prev)->Ok_0;
            let pv = configured_prices(iv, prices)->Ok_0;
            assert(pv == pvp.push(o->0));
            assert forall|i: int| 0 <= i < prices.len() implies configured_outcome(
                prices[i],
                iv[index_position(prices[i].index)].3,
            ) == Some(#[trigger] pv[i]) by {
                if i < prev.len() {
                    assert(pv[i] == pvp[i]);
                    assert(prev[i] == prices[i]);
                    assert(configured_outcome(prev[i], iv[index_position(prev[i].index)].3)
                        == Some(pvp[i]));
                }
            }
        } else {
            let j = choose|j: int|
                0 <= j < prices.len() && !(#[trigger] configured_outcome(
                    prices[j],
                    iv[index_position(prices[j].index)].3,
                ) is Some);
            if j < prev.len() {
                assert(prev[j] == prices[j]);
                assert(!(configured_outcome(prev[j], iv[index_position(prev[j].index)].3)
                    is Some));
                assert(!all_prev);
            } else {
                assert(j == prices.len() - 1);
                if !all_prev {
                } else {
                    assert(configured_prices(iv, prev) is Ok);
                    assert(o is None);
                }
            }
        }
    }
}

/// The configured calculation of a month, where its indices can be worked
/// out: each configured price is worked out on the weighted index of its id,
/// which weighs that index's profile by the quarter-hour or the hourly
/// prices; no index is ever missing, and the only other refusal is an
/// overflow.
pub proof fn law_configured_calculation(
    spp: Seq<TimedReading>,
    rlp_flanders: Seq<TimedReading>,
    rlp_belgium: Seq<TimedReading>,
    rlp_eneco: Seq<TimedReading>,
    belpex: Seq<TimedReading>,
    prices: Seq<ConfiguredPrice>,
)
    requires
        indices_outcome(spp, rlp_flanders, rlp_belgium, rlp_eneco, belpex) is Ok,
    ensures
        ({
            let iv = indices_outcome(spp, rlp_flanders, rlp_belgium, rlp_eneco, belpex)->Ok_0;
            let sources = index_sources(
                spp,
                rlp_flanders,
                rlp_belgium,
                rlp_eneco,
                belpex,
                hourly_prices(belpex),
            );
            &&& forall|id: WeightedIndexId|
                #![trigger index_position(id)]
                {
                    let k = index_position(id);
                    &&& iv[k].0 == id
                    &&& weighted_index_outcome(sources[k].1, sources[k].2) matches Ok(o)
                    &&& iv[k] == (id, o.0, o.1, o.2)
                }
            &&& (forall|i: int|
                0 <= i < prices.len() ==> #[trigger] configured_outcome(
                    prices[i],
                    iv[index_position(prices[i].index)].3,
                ) is Some) ==> (configured_prices(iv, prices) matches Ok(pv) && pv.len()
                == prices.len() && forall|i: int|
                0 <= i < prices.len() ==> configured_outcome(
                    prices[i],
                    iv[index_position(prices[i].index)].3,
                ) == Some(#[trigger] pv[i]))
            &&& configured_prices(iv, prices) is Err ==> configured_prices(iv, prices) == Err::<
                Seq<((int, nat), (int, nat))>,
                TariffError,
            >(TariffError::DecimalOverflow)
        }),
{
    let iv = indices_outcome(spp, rlp_flanders, rlp_belgium, rlp_eneco, belpex)->Ok_0;
    law_indices_are_weighted_sources(spp, rlp_flanders, rlp_belgium, rlp_eneco, belpex);
    law_configured_prices_on_their_index(iv, prices);
    let sources = index_sources(spp, rlp_flanders, rlp_belgium, rlp_eneco, belpex, hourly_prices(belpex));
    assert forall|id: WeightedIndexId| #![trigger index_position(id)] {
        let k = index_position(id);
        &&& iv[k].0 == id
        &&& weighted_index_outcome(sources[k].1, sources[k].2) matches Ok(o)
        &&& iv[k] == (id, o.0, o.1, o.2)
    } by {
        lemma_lookup_position(iv, id);
        let k = index_position(id);
        assert(weighted_index_outcome(sources[k].1, sources[k].2) is Ok);
        assert(iv[k].0 == sources[k].0);
    }
}

/// Each of the seven indices of a month weighs its own profile by its own
/// prices: `H` indices by the hourly-averaged prices and `Q` indices by the
/// quarter-hour prices; `SPP` the solar production profile, `VL` the
/// Flemish, `BE` the Belgian and `M` the combined load profile. The indices
/// come in the order of `WeightedIndexId::all`.
pub proof fn law_each_index_weighs_its_profile(
    spp: Seq<TimedReading>,
    rlp_flanders: Seq<TimedReading>,
    rlp_belgium: Seq<TimedReading>,
    rlp_eneco: Seq<TimedReading>,
    belpex: Seq<TimedReading>,
)
    ensures
        indices_outcome(spp, rlp_flanders, rlp_belgium, rlp_eneco, belpex) matches Ok(v) ==> {
            let hourly = hourly_prices(belpex);
            &&& v.len() == 7
            &&& weighted_index_outcome(spp, hourly) matches Ok(o) && v[0] == (
                WeightedIndexId::BelpexHSpp,
                o.0,
                o.1,
                o.2,
            )
            &&& weighted_index_outcome(spp, belpex) matches Ok(o) && v[1] == (
                WeightedIndexId::BelpexQSpp,
                o.0,
                o.1,
                o.2,
            )
            &&& weighted_index_outcome(rlp_flanders, hourly) matches Ok(o) && v[2] == (
                WeightedIndexId::BelpexHRlpVl,
                o.0,
                o.1,
                o.2,
            )
            &&& weighted_index_outcome(rlp_flanders, belpex) matches Ok(o) && v[3] == (
                WeightedIndexId::BelpexQRlpVl,
                o.0,
                o.1,
                o.2,
            )
            &&& weighted_index_outcome(rlp_belgium, hourly) matches Ok(o) && v[4] == (
                WeightedIndexId::BelpexHRlpBe,
                o.0,
                o.1,
                o.2,
            )
            &&& weighted_index_outcome(rlp_belgium, belpex) matches Ok(o) && v[5] == (
                WeightedIndexId::BelpexQRlpBe,
                o.0,
                o.1,
                o.2,
            )
            &&& weighted_index_outcome(rlp_eneco, hourly) matches Ok(o) && v[6] == (
                WeightedIndexId::BelpexHRlpM,
                o.0,
                o.1,
                o.2,
            )
        },
{
    if indices_outcome(spp, rlp_flanders, rlp_belgium, rlp_eneco, belpex) is Ok {
        law_indices_are_weighted_sources(spp, rlp_flanders, rlp_belgium, rlp_eneco, belpex);
        let sources = index_sources(
            spp,
            rlp_flanders,
            rlp_belgium,
            rlp_eneco,
            belpex,
            hourly_prices(belpex),
        );
        assert(weighted_index_outcome(sources[0].1, sources[0].2) is Ok);
        assert(weighted_index_outcome(sources[1].1, sources[1].2) is Ok);
        assert(weighted_index_outcome(sources[2].1, sources[2].2) is Ok);
        assert(weighted_index_outcome(sources[3].1, sources[3].2) is Ok);
        assert(weighted_index_outcome(sources[4].1, sources[4].2) is Ok);
        assert(weighted_index_outcome(sources[5].1, sources[5].2) is Ok);
        assert(weighted_index_outcome(sources[6].1, sources[6].2) is Ok);
    }
}

/// The fixed two-price setup is made of four independent parts: the export
/// comparison on the solar production profile, the import comparisons on
/// the Flemish and on the Belgian load profile, and the import calculation
/// of the combined load profile on the hourly-averaged prices. It is worked
/// out exactly where each part is.
pub proof fn law_fixed_setup_parts(
    spp: Seq<TimedReading>,
    rlp_flanders: Seq<TimedReading>,
    rlp_belgium: Seq<TimedReading>,
    rlp_eneco: Seq<TimedReading>,
    belpex: Seq<TimedReading>,
    config: PricingView,
)
    ensures
        app_outcome(spp, rlp_flanders, rlp_belgium, rlp_eneco, belpex, config) is Ok <==> (
        comparison_outcome(spp, belpex, config) is Ok && import_comparison_outcome(
            rlp_flanders,
            belpex,
            config,
        ) is Ok && import_comparison_outcome(rlp_belgium, belpex, config) is Ok && import_outcome(
            rlp_eneco,
            hourly_prices(belpex),
            config,
        ) is Ok),
        app_outcome(spp, rlp_flanders, rlp_belgium, rlp_eneco, belpex, config) matches Ok(a) ==> {
            &&& comparison_outcome(spp, belpex, config) == Ok::<_, TariffError>(a.0)
            &&& import_comparison_outcome(rlp_flanders, belpex, config) == Ok::<_, TariffError>(
                a.1,
            )
            &&& import_comparison_outcome(rlp_belgium, belpex, config) == Ok::<_, TariffError>(
                a.2,
            )
            &&& import_outcome(rlp_eneco, hourly_prices(belpex), config) == Ok::<_, TariffError>(
                a.3,
            )
        },
{
}

/// The export calculation uses the export formula alone: changing the
/// import formula or the VAT rate changes nothing in it.
pub proof fn law_export_uses_export_formula(
    spp: Seq<TimedReading>,
    belpex: Seq<TimedReading>,
    config: PricingView,
    other: PricingView,
)
    requires
        other.0 == config.0,
    ensures
        calculation_outcome(spp, belpex, config) == calculation_outcome(spp, belpex, other),
{
}

/// The import calculation uses the import formula and the VAT rate: two
/// configurations that share them give the same import price wherever the
/// export formula can be applied under both.
pub proof fn law_import_uses_import_formula(
    rlp: Seq<TimedReading>,
    belpex: Seq<TimedReading>,
    config: PricingView,
    other: PricingView,
)
    requires
        other.1 == config.1,
        other.2 == config.2,
        calculation_outcome(rlp, belpex, config) is Ok,
        calculation_outcome(rlp, belpex, other) is Ok,
    ensures
        import_outcome(rlp, belpex, config) == import_outcome(rlp, belpex, other),
{
}

} // verus!
