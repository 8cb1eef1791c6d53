//! Ranged units and well-formed unit tables.

use vstd::arithmetic::power::pow;
use vstd::prelude::*;

verus! {

/// One magnitude tier: values below `range_max` (and at or above the previous
/// tier's `range_max`) are rendered with this tier's unit label.
#[derive(Debug)]
pub struct RangedUnit {
    /// The maximum value of the range (excluded).
    ///
    /// This is the minimum value of the next range.
    pub range_max: u128,
    /// The abbreviated unit used while the value is less than `range_max`.
    pub unit: Option<String>,
}

/// The mathematical content of a [`RangedUnit`].
pub ghost struct TierModel {
    pub bound: nat,
    pub label: Option<Seq<char>>,
}

impl View for RangedUnit {
    type V = TierModel;

    open spec fn view(&self) -> TierModel {
        TierModel {
            bound: self.range_max as nat,
            label: match self.unit {
                Some(ref u) => Some(u@),
                None => None,
            },
        }
    }
}

/// The scaling base of a tier table: the first tier's bound.
pub open spec fn table_base(tiers: Seq<TierModel>) -> nat {
    tiers[0].bound
}

/// A well-formed tier table: non-empty, its base at least two, tier zero
/// unlabeled (it renders the raw number), and tier `i` bounded by
/// `base^(i+1)`, so consecutive tiers are one factor of the base apart.
pub open spec fn table_wf(tiers: Seq<TierModel>) -> bool {
    &&& tiers.len() >= 1
    &&& table_base(tiers) >= 2
    &&& tiers[0].label is None
    &&& forall|i: int|
        0 <= i < tiers.len() ==> #[trigger] tiers[i].bound == pow(
            table_base(tiers) as int,
            (i + 1) as nat,
        )
}

/// In a well-formed table the tier bounds are strictly increasing, and every
/// bound is at least the base.
pub proof fn lemma_table_bounds_increase(tiers: Seq<TierModel>)
    requires
        table_wf(tiers),
    ensures
        forall|i: int, j: int|
            0 <= i < j < tiers.len() ==> #[trigger] tiers[i].bound < #[trigger] tiers[j].bound,
        forall|i: int| 0 <= i < tiers.len() ==> #[trigger] tiers[i].bound >= table_base(tiers),
{
    let b = table_base(tiers);
    assert forall|i: int, j: int| 0 <= i < j < tiers.len() implies #[trigger] tiers[i].bound
        < #[trigger] tiers[j].bound by {
        vstd::arithmetic::power::lemma_pow_strictly_increases(b, (i + 1) as nat, (j + 1) as nat);
    }
    assert forall|i: int| 0 <= i < tiers.len() implies #[trigger] tiers[i].bound >= b by {
        vstd::arithmetic::power::lemma_pow_increases(b, 1, (i + 1) as nat);
        vstd::arithmetic::power::lemma_pow1(b as int);
    }
}

} // verus!
