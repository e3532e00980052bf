//! Unit-interval quantities in fixed point.
//!
//! Similarities and edge weights are real numbers between zero and one. The
//! crate carries them as signed integers in parts per million, so that every
//! comparison and every combination is exact; callers convert at the boundary.

use vstd::prelude::*;

verus! {

/// The fixed-point representation of one.
pub const UNIT: i64 = 1_000_000;

/// Whether a raw value lies in the unit interval.
pub open spec fn in_unit(x: int) -> bool {
    0 <= x <= UNIT as int
}

/// The nearest value of the unit interval.
pub open spec fn clamp_unit_spec(x: int) -> int {
    if x < 0 {
        0
    } else if x > UNIT as int {
        UNIT as int
    } else {
        x
    }
}

/// How the weight of an edge that already exists is combined with the weight
/// of a new write.
#[derive(Clone, Copy, Debug, PartialEq, Eq, Structural)]
pub enum MergeRule {
    /// The new weight replaces the stored one.
    Replace,
    /// The larger of the two is kept.
    Max,
    /// The two are added, and the sum saturates at one.
    Sum,
    /// The arithmetic mean of the two, rounded down.
    Mean,
}

/// The combination of a stored weight and an incoming one, both already in
/// the unit interval.
pub open spec fn combine_spec(rule: MergeRule, stored: int, incoming: int) -> int {
    match rule {
        MergeRule::Replace => incoming,
        MergeRule::Max => if stored >= incoming { stored } else { incoming },
        MergeRule::Sum => stored + incoming,
        MergeRule::Mean => (stored + incoming) / 2,
    }
}

/// The weight an edge holds after a write: the clamped incoming weight where
/// the edge is new, else the clamped combination of the two clamped weights.
pub open spec fn merge_weight_spec(rule: MergeRule, stored: Option<int>, incoming: int) -> int {
    match stored {
        None => clamp_unit_spec(incoming),
        Some(old) => clamp_unit_spec(
            combine_spec(rule, clamp_unit_spec(old), clamp_unit_spec(incoming)),
        ),
    }
}

/// Whether a raw value lies in the unit interval.
pub fn is_unit(raw: i64) -> (b: bool)
    ensures
        b == in_unit(raw as int),
{
    0 <= raw && raw <= UNIT
}

/// Clamps a raw value into the unit interval.
pub fn clamp_unit(raw: i64) -> (r: i64)
    ensures
        r as int == clamp_unit_spec(raw as int),
        in_unit(r as int),
{
    if raw < 0 {
        0
    } else if raw > UNIT {
        UNIT
    } else {
        raw
    }
}

/// Computes the weight that an edge holds after a write of `incoming`, given
/// the weight it held before, if it existed.
pub fn merge_weight(rule: MergeRule, stored: Option<i64>, incoming: i64) -> (r: i64)
    ensures
        r as int == merge_weight_spec(
            rule,
            match stored {
                Some(old) => Some(old as int),
                None => None,
            },
            incoming as int,
        ),
        in_unit(r as int),
{
    let new: i64 = clamp_unit(incoming);
    match stored {
        None => new,
        Some(old) => {
            let old: i64 = clamp_unit(old);
            let combined: i64 = match rule {
                MergeRule::Replace => new,
                MergeRule::Max => if old >= new { old } else { new },
                MergeRule::Sum => old + new,
                MergeRule::Mean => (old + new) / 2,
            };
            clamp_unit(combined)
        },
    }
}

/// A merged weight always lies in the unit interval, whatever was stored and
/// whatever came in.
pub proof fn lemma_merge_in_unit(rule: MergeRule, stored: Option<int>, incoming: int)
    ensures
        in_unit(merge_weight_spec(rule, stored, incoming)),
{
}

/// Writing the same weight a second time changes nothing under `Replace` and
/// under `Max`: the write is idempotent.
pub proof fn lemma_merge_idempotent(rule: MergeRule, stored: Option<int>, incoming: int)
    requires
        rule == MergeRule::Replace || rule == MergeRule::Max,
    ensures
        merge_weight_spec(rule, Some(merge_weight_spec(rule, stored, incoming)), incoming)
            == merge_weight_spec(rule, stored, incoming),
{
}

/// Under `Max` and under `Sum` a write never lowers the weight of an edge
/// whose stored weight lies in the unit interval.
pub proof fn lemma_merge_monotone(rule: MergeRule, stored: int, incoming: int)
    requires
        rule == MergeRule::Max || rule == MergeRule::Sum,
        in_unit(stored),
    ensures
        merge_weight_spec(rule, Some(stored), incoming) >= stored,
{
}

/// A write to a new edge stores a weight no larger than the one asked for,
/// as long as that one is not negative.
pub proof fn lemma_fresh_weight_bounded(rule: MergeRule, incoming: int)
    requires
        0 <= incoming,
    ensures
        merge_weight_spec(rule, None, incoming) <= incoming,
{
}

} // verus!
