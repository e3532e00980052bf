//! Ordering of results by an integer rank.

use vstd::prelude::*;
use crate::models::{lemma_views_push, views};

verus! {

/// A value that is ordered by an integer read from its view.
pub trait Ranked: View + Sized {
    /// The rank of a value.
    spec fn rank_of(v: Self::V) -> int;

    /// Reads the rank of the value.
    fn rank(&self) -> (k: i64)
        ensures
            k as int == Self::rank_of(self@),
    ;
}

/// The direction of an ordering.
#[derive(Clone, Copy, Debug, PartialEq, Eq, Structural)]
pub enum Direction {
    /// Smallest rank first.
    Ascending,
    /// Largest rank first.
    Descending,
}

impl Direction {
    /// Whether a value of rank `a` may stand before one of rank `b`.
    pub open spec fn admits(self, a: int, b: int) -> bool {
        match self {
            Direction::Ascending => a <= b,
            Direction::Descending => a >= b,
        }
    }

    /// Tests whether a value of rank `a` may stand before one of rank `b`.
    pub fn test(self, a: i64, b: i64) -> (r: bool)
        ensures
            r == self.admits(a as int, b as int),
    {
        match self {
            Direction::Ascending => a <= b,
            Direction::Descending => a >= b,
        }
    }
}

/// Whether the ranks of a list run in the given direction.
pub open spec fn ordered<T: Ranked>(s: Seq<T::V>, dir: Direction) -> bool {
    forall|i: int, j: int| 0 <= i <= j < s.len() ==> dir.admits(T::rank_of(s[i]), T::rank_of(s[j]))
}

/// Where a value goes into an ordered list: behind the last value that may
/// stand before it, so behind every value of its own rank.
pub open spec fn place<T: Ranked>(s: Seq<T::V>, x: T::V, dir: Direction) -> int
    decreases s.len(),
{
    if s.len() == 0 || dir.admits(T::rank_of(s.last()), T::rank_of(x)) {
        s.len() as int
    } else {
        place::<T>(s.drop_last(), x, dir)
    }
}

/// The list ordered by rank: its values are put into place one after the
/// other, so values of equal rank stay in the order in which they came.
pub open spec fn sorted_by_rank<T: Ranked>(s: Seq<T::V>, dir: Direction) -> Seq<T::V>
    decreases s.len(),
{
    if s.len() == 0 {
        Seq::empty()
    } else {
        let head = sorted_by_rank::<T>(s.drop_last(), dir);
        head.insert(place::<T>(head, s.last(), dir), s.last())
    }
}

/// The place of a value lies in the list; no value from there on may stand
/// before it, and the value just before the place may.
pub proof fn lemma_place<T: Ranked>(s: Seq<T::V>, x: T::V, dir: Direction)
    ensures
        0 <= place::<T>(s, x, dir) <= s.len(),
        forall|j: int|
            place::<T>(s, x, dir) <= j < s.len() ==> !dir.admits(
                T::rank_of(#[trigger] s[j]),
                T::rank_of(x),
            ),
        place::<T>(s, x, dir) > 0 ==> dir.admits(
            T::rank_of(s[place::<T>(s, x, dir) - 1]),
            T::rank_of(x),
        ),
    decreases s.len(),
{
    if !(s.len() == 0 || dir.admits(T::rank_of(s.last()), T::rank_of(x))) {
        lemma_place::<T>(s.drop_last(), x, dir);
        let p = place::<T>(s, x, dir);
        assert forall|j: int| p <= j < s.len() implies !dir.admits(
            T::rank_of(#[trigger] s[j]),
            T::rank_of(x),
        ) by {
            if j < s.len() - 1 {
                assert(s.drop_last()[j] == s[j]);
            }
        }
        if p > 0 {
            assert(s.drop_last()[p - 1] == s[p - 1]);
        }
    }
}

/// An ordered list is a rearrangement that runs in the given direction: it
/// holds every value as often as the list does, and no rank in it stands
/// before one that it may not stand before.
pub proof fn lemma_sorted_by_rank<T: Ranked>(s: Seq<T::V>, dir: Direction)
    ensures
        ordered::<T>(sorted_by_rank::<T>(s, dir), dir),
        sorted_by_rank::<T>(s, dir).to_multiset() == s.to_multiset(),
        sorted_by_rank::<T>(s, dir).len() == s.len(),
    decreases s.len(),
{
    if s.len() == 0 {
        assert(s == Seq::<T::V>::empty());
    } else {
        let x = s.last();
        let k = T::rank_of(x);
        let before = sorted_by_rank::<T>(s.drop_last(), dir);
        lemma_sorted_by_rank::<T>(s.drop_last(), dir);
        lemma_place::<T>(before, x, dir);
        let p = place::<T>(before, x, dir);
        let after = before.insert(p, x);
        vstd::seq_lib::to_multiset_insert(before, p, x);
        assert(s == s.drop_last().push(x));
        vstd::seq_lib::to_multiset_build(s.drop_last(), x);
        assert forall|a: int, b: int| 0 <= a <= b < after.len() implies dir.admits(
            T::rank_of(after[a]),
            T::rank_of(after[b]),
        ) by {
            let ia = if a < p { a } else { a - 1 };
            let ib = if b < p { b } else { b - 1 };
            if a != p && b != p {
                assert(after[a] == before[ia] && after[b] == before[ib]);
            } else if a == p && b != p {
                assert(after[b] == before[ib]);
                assert(!dir.admits(T::rank_of(before[ib]), k));
            } else if a != p && b == p {
                assert(after[a] == before[ia]);
                assert(dir.admits(T::rank_of(before[p - 1]), k));
                assert(dir.admits(T::rank_of(before[ia]), T::rank_of(before[p - 1])));
            }
        }
    }
}

/// Orders a list by rank. The result runs in the given direction and holds
/// the same values as often as the input does; values of equal rank keep the
/// order in which they came.
pub fn sort_by_rank<T: Ranked>(items: Vec<T>, dir: Direction) -> (r: Vec<T>)
    ensures
        views(r@) == sorted_by_rank::<T>(views(items@), dir),
        ordered::<T>(views(r@), dir),
        views(r@).to_multiset() == views(items@).to_multiset(),
        r@.len() == items@.len(),
{
    let ghost all = items@;
    let mut out: Vec<T> = Vec::new();
    proof {
        assert(views(all.take(0)) == Seq::<T::V>::empty());
        assert(views(out@) == Seq::<T::V>::empty());
    }
    for item in it: items
        invariant
            it.seq() == all,
            out@.len() == it.index(),
            views(out@) == sorted_by_rank::<T>(views(all.take(it.index() as int)), dir),
    {
        let k: i64 = item.rank();
        let ghost before = views(out@);
        let mut p: usize = out.len();
        proof {
            assert(before.take(p as int) == before);
        }
        while p > 0 && !dir.test(out[p - 1].rank(), k)
            invariant
                p <= out@.len(),
                before == views(out@),
                k as int == T::rank_of(item@),
                place::<T>(before, item@, dir) == place::<T>(before.take(p as int), item@, dir),
            decreases p,
        {
            proof {
                assert(before.take(p as int).last() == out@[p - 1]@);
                assert(before.take(p as int).drop_last() == before.take(p - 1));
            }
            p -= 1;
        }
        proof {
            let i = out@.len() as int;
            if p > 0 {
                assert(before.take(p as int).last() == out@[p - 1]@);
            }
            assert(place::<T>(before, item@, dir) == p);
            assert(views(out@.insert(p as int, item)) == before.insert(p as int, item@));
            assert(all.take(i + 1) == all.take(i).push(item));
            lemma_views_push(all.take(i), item);
            assert(views(all.take(i + 1)).drop_last() == views(all.take(i)));
        }
        out.insert(p, item);
    }
    proof {
        assert(all.take(all.len() as int) == all);
        lemma_sorted_by_rank::<T>(views(items@), dir);
    }
    out
}

} // verus!
