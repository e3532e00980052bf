//! Mathematical views of lists.

use vstd::prelude::*;

verus! {

/// The views of a list of values, in order.
pub open spec fn views<T: View>(s: Seq<T>) -> Seq<T::V> {
    s.map_values(|t: T| t@)
}

/// The views of a list grow with the list.
pub proof fn lemma_views_push<T: View>(s: Seq<T>, t: T)
    ensures
        views(s.push(t)) == views(s).push(t@),
{
    assert(views(s.push(t)) =~= views(s).push(t@));
}

/// A filter that every value passes leaves the list as it is.
pub proof fn lemma_filter_all<A>(s: Seq<A>, pred: spec_fn(A) -> bool)
    requires
        forall|i: int| 0 <= i < s.len() ==> pred(#[trigger] s[i]),
    ensures
        s.filter(pred) == s,
    decreases s.len(),
{
    if s.len() == 0 {
        assert(s.filter(pred) =~= s);
    } else {
        let head = s.drop_last();
        lemma_filter_all(head, pred);
        assert(s == head.push(s.last()));
        Seq::lemma_filter_push(head, s.last(), pred);
    }
}

} // verus!
