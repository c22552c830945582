//! The weighted Belpex indices that prices can be based on.
use vstd::prelude::*;

use crate::error::TariffError;
use crate::text::str_matches;

verus! {

/// A Belpex spot price index, weighted by a profile: hourly (`H`) or
/// quarter-hourly (`Q`) prices against the solar production profile (`Spp`),
/// the Flemish, Belgian or combined reference load profile (`RlpVl`,
/// `RlpBe`, `RlpM`).
#[derive(Clone, Copy, Debug, PartialEq, Eq, Hash, Structural)]
pub enum WeightedIndexId {
    BelpexHSpp,
    BelpexQSpp,
    BelpexHRlpVl,
    BelpexQRlpVl,
    BelpexHRlpBe,
    BelpexQRlpBe,
    BelpexHRlpM,
}

/// The name by which an index is configured and printed.
pub open spec fn index_name(id: WeightedIndexId) -> Seq<char> {
    match id {
        WeightedIndexId::BelpexHSpp => "belpex-h-spp"@,
        WeightedIndexId::BelpexQSpp => "belpex-q-spp"@,
        WeightedIndexId::BelpexHRlpVl => "belpex-h-rlp-vl"@,
        WeightedIndexId::BelpexQRlpVl => "belpex-q-rlp-vl"@,
        WeightedIndexId::BelpexHRlpBe => "belpex-h-rlp-be"@,
        WeightedIndexId::BelpexQRlpBe => "belpex-q-rlp-be"@,
        WeightedIndexId::BelpexHRlpM => "belpex-h-rlp-m"@,
    }
}

/// The index that `name` names, if any.
pub open spec fn index_named(name: Seq<char>) -> Option<WeightedIndexId> {
    if name == index_name(WeightedIndexId::BelpexHSpp) {
        Some(WeightedIndexId::BelpexHSpp)
    } else if name == index_name(WeightedIndexId::BelpexQSpp) {
        Some(WeightedIndexId::BelpexQSpp)
    } else if name == index_name(WeightedIndexId::BelpexHRlpVl) {
        Some(WeightedIndexId::BelpexHRlpVl)
    } else if name == index_name(WeightedIndexId::BelpexQRlpVl) {
        Some(WeightedIndexId::BelpexQRlpVl)
    } else if name == index_name(WeightedIndexId::BelpexHRlpBe) {
        Some(WeightedIndexId::BelpexHRlpBe)
    } else if name == index_name(WeightedIndexId::BelpexQRlpBe) {
        Some(WeightedIndexId::BelpexQRlpBe)
    } else if name == index_name(WeightedIndexId::BelpexHRlpM) {
        Some(WeightedIndexId::BelpexHRlpM)
    } else {
        None
    }
}

/// The indices in the order in which they are calculated and reported.
pub open spec fn all_indices() -> Seq<WeightedIndexId> {
    seq![
        WeightedIndexId::BelpexHSpp,
        WeightedIndexId::BelpexQSpp,
        WeightedIndexId::BelpexHRlpVl,
        WeightedIndexId::BelpexQRlpVl,
        WeightedIndexId::BelpexHRlpBe,
        WeightedIndexId::BelpexQRlpBe,
        WeightedIndexId::BelpexHRlpM,
    ]
}

impl WeightedIndexId {
    /// Every index, in the order in which they are calculated and reported.
    pub const ALL: [WeightedIndexId; 7] = [
        WeightedIndexId::BelpexHSpp,
        WeightedIndexId::BelpexQSpp,
        WeightedIndexId::BelpexHRlpVl,
        WeightedIndexId::BelpexQRlpVl,
        WeightedIndexId::BelpexHRlpBe,
        WeightedIndexId::BelpexQRlpBe,
        WeightedIndexId::BelpexHRlpM,
    ];

    /// Every index, in the order in which they are calculated and reported.
    pub fn all() -> (r: [WeightedIndexId; 7])
        ensures
            r@ == all_indices(),
    {
        [
            WeightedIndexId::BelpexHSpp,
            WeightedIndexId::BelpexQSpp,
            WeightedIndexId::BelpexHRlpVl,
            WeightedIndexId::BelpexQRlpVl,
            WeightedIndexId::BelpexHRlpBe,
            WeightedIndexId::BelpexQRlpBe,
            WeightedIndexId::BelpexHRlpM,
        ]
    }

    pub fn as_str(self) -> (r: &'static str)
        ensures
            r@ == index_name(self),
    {
        match self {
            WeightedIndexId::BelpexHSpp => "belpex-h-spp",
            WeightedIndexId::BelpexQSpp => "belpex-q-spp",
            WeightedIndexId::BelpexHRlpVl => "belpex-h-rlp-vl",
            WeightedIndexId::BelpexQRlpVl => "belpex-q-rlp-vl",
            WeightedIndexId::BelpexHRlpBe => "belpex-h-rlp-be",
            WeightedIndexId::BelpexQRlpBe => "belpex-q-rlp-be",
            WeightedIndexId::BelpexHRlpM => "belpex-h-rlp-m",
        }
    }

    /// The index that `value` names; an unknown name is refused.
    pub fn from_name(value: &str) -> (r: Result<WeightedIndexId, TariffError>)
        ensures
            match index_named(value@) {
                Some(id) => r == Ok::<WeightedIndexId, TariffError>(id),
                None => r matches Err(TariffError::UnknownWeightedIndex(s)) && s@ == value@,
            },
    {
        if str_matches(value, "belpex-h-spp") {
            Ok(WeightedIndexId::BelpexHSpp)
        } else if str_matches(value, "belpex-q-spp") {
            Ok(WeightedIndexId::BelpexQSpp)
        } else if str_matches(value, "belpex-h-rlp-vl") {
            Ok(WeightedIndexId::BelpexHRlpVl)
        } else if str_matches(value, "belpex-q-rlp-vl") {
            Ok(WeightedIndexId::BelpexQRlpVl)
        } else if str_matches(value, "belpex-h-rlp-be") {
            Ok(WeightedIndexId::BelpexHRlpBe)
        } else if str_matches(value, "belpex-q-rlp-be") {
            Ok(WeightedIndexId::BelpexQRlpBe)
        } else if str_matches(value, "belpex-h-rlp-m") {
            Ok(WeightedIndexId::BelpexHRlpM)
        } else {
            Err(TariffError::UnknownWeightedIndex(value.to_owned()))
        }
    }
}

impl std::str::FromStr for WeightedIndexId {
    type Err = TariffError;

    fn from_str(value: &str) -> (r: Result<WeightedIndexId, TariffError>)
        ensures
            match index_named(value@) {
                Some(id) => r == Ok::<WeightedIndexId, TariffError>(id),
                None => r matches Err(TariffError::UnknownWeightedIndex(s)) && s@ == value@,
            },
    {
        WeightedIndexId::from_name(value)
    }
}

/// Reading an index's own name gives the index back: the names are distinct.
pub proof fn law_index_names_read_back(id: WeightedIndexId)
    ensures
        index_named(index_name(id)) == Some(id),
{
    reveal_strlit("belpex-h-spp");
    reveal_strlit("belpex-q-spp");
    reveal_strlit("belpex-h-rlp-vl");
    reveal_strlit("belpex-q-rlp-vl");
    reveal_strlit("belpex-h-rlp-be");
    reveal_strlit("belpex-q-rlp-be");
    reveal_strlit("belpex-h-rlp-m");
    assert("belpex-h-spp"@[7] != "belpex-q-spp"@[7]);
    assert("belpex-h-spp"@.len() != "belpex-h-rlp-vl"@.len());
    assert("belpex-h-spp"@.len() != "belpex-q-rlp-vl"@.len());
    assert("belpex-h-spp"@.len() != "belpex-h-rlp-be"@.len());
    assert("belpex-h-spp"@.len() != "belpex-q-rlp-be"@.len());
    assert("belpex-h-spp"@.len() != "belpex-h-rlp-m"@.len());
    assert("belpex-q-spp"@.len() != "belpex-h-rlp-vl"@.len());
    assert("belpex-q-spp"@.len() != "belpex-q-rlp-vl"@.len());
    assert("belpex-q-spp"@.len() != "belpex-h-rlp-be"@.len());
    assert("belpex-q-spp"@.len() != "belpex-q-rlp-be"@.len());
    assert("belpex-q-spp"@.len() != "belpex-h-rlp-m"@.len());
    assert("belpex-h-rlp-vl"@[7] != "belpex-q-rlp-vl"@[7]);
    assert("belpex-h-rlp-vl"@[13] != "belpex-h-rlp-be"@[13]);
    assert("belpex-h-rlp-vl"@[7] != "belpex-q-rlp-be"@[7]);
    assert("belpex-h-rlp-vl"@.len() != "belpex-h-rlp-m"@.len());
    assert("belpex-q-rlp-vl"@[7] != "belpex-h-rlp-be"@[7]);
    assert("belpex-q-rlp-vl"@[13] != "belpex-q-rlp-be"@[13]);
    assert("belpex-q-rlp-vl"@.len() != "belpex-h-rlp-m"@.len());
    assert("belpex-h-rlp-be"@[7] != "belpex-q-rlp-be"@[7]);
    assert("belpex-h-rlp-be"@.len() != "belpex-h-rlp-m"@.len());
    assert("belpex-q-rlp-be"@.len() != "belpex-h-rlp-m"@.len());
}

/// Each configured name selects the index it describes: the quarter-hour
/// (`q`) or hourly (`h`) prices against the solar production (`spp`), the
/// Flemish (`rlp-vl`), Belgian (`rlp-be`) or combined (`rlp-m`) load
/// profile; and each index is printed under that name.
pub proof fn law_index_names_select_their_index()
    ensures
        index_named("belpex-h-spp"@) == Some(WeightedIndexId::BelpexHSpp),
        index_named("belpex-q-spp"@) == Some(WeightedIndexId::BelpexQSpp),
        index_named("belpex-h-rlp-vl"@) == Some(WeightedIndexId::BelpexHRlpVl),
        index_named("belpex-q-rlp-vl"@) == Some(WeightedIndexId::BelpexQRlpVl),
        index_named("belpex-h-rlp-be"@) == Some(WeightedIndexId::BelpexHRlpBe),
        index_named("belpex-q-rlp-be"@) == Some(WeightedIndexId::BelpexQRlpBe),
        index_named("belpex-h-rlp-m"@) == Some(WeightedIndexId::BelpexHRlpM),
        index_name(WeightedIndexId::BelpexHSpp) == "belpex-h-spp"@,
        index_name(WeightedIndexId::BelpexQSpp) == "belpex-q-spp"@,
        index_name(WeightedIndexId::BelpexHRlpVl) == "belpex-h-rlp-vl"@,
        index_name(WeightedIndexId::BelpexQRlpVl) == "belpex-q-rlp-vl"@,
        index_name(WeightedIndexId::BelpexHRlpBe) == "belpex-h-rlp-be"@,
        index_name(WeightedIndexId::BelpexQRlpBe) == "belpex-q-rlp-be"@,
        index_name(WeightedIndexId::BelpexHRlpM) == "belpex-h-rlp-m"@,
{
    law_index_names_read_back(WeightedIndexId::BelpexHSpp);
    law_index_names_read_back(WeightedIndexId::BelpexQSpp);
    law_index_names_read_back(WeightedIndexId::BelpexHRlpVl);
    law_index_names_read_back(WeightedIndexId::BelpexQRlpVl);
    law_index_names_read_back(WeightedIndexId::BelpexHRlpBe);
    law_index_names_read_back(WeightedIndexId::BelpexQRlpBe);
    law_index_names_read_back(WeightedIndexId::BelpexHRlpM);
}

} // verus!
