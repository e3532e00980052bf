//! Selection of the documents that answer a similarity search.

use vstd::prelude::*;
use crate::error::QueryError;
use crate::models::views;
use crate::rank::{lemma_sorted_by_rank, sort_by_rank, sorted_by_rank, Direction, Ranked};
use crate::record::{RecordRef, RecordRefView};
use crate::units::{in_unit, is_unit};

verus! {

/// A stored document: its identifier and its text, its similarity to the
/// query and the entities that it mentions.
#[derive(Debug, PartialEq)]
pub struct DocumentMatch {
    pub document: String,
    pub text: String,
    pub similarity: i64,
    pub mentions: Vec<RecordRef>,
}

/// The mathematical value of a [`DocumentMatch`].
pub struct DocumentMatchView {
    pub document: Seq<char>,
    pub text: Seq<char>,
    pub similarity: int,
    pub mentions: Seq<RecordRefView>,
}

impl View for DocumentMatch {
    type V = DocumentMatchView;

    open spec fn view(&self) -> DocumentMatchView {
        DocumentMatchView {
            document: self.document@,
            text: self.text@,
            similarity: self.similarity as int,
            mentions: views(self.mentions@),
        }
    }
}

impl Ranked for DocumentMatch {
    open spec fn rank_of(v: DocumentMatchView) -> int {
        v.similarity
    }

    fn rank(&self) -> (k: i64) {
        self.similarity
    }
}

/// The number of matches that a search returns where the caller names none.
pub const DEFAULT_LIMIT: usize = 300;

/// The message of the failure of a search whose minimum similarity is not in
/// the unit interval.
pub const MINIMUM_OUT_OF_RANGE: &'static str =
    "Minimun similarity has to be bigger than zero and smaller or equal than one.";

/// The candidates that reach the minimum similarity, in their order.
pub open spec fn reaching(candidates: Seq<DocumentMatchView>, minimum: int) -> Seq<
    DocumentMatchView,
> {
    candidates.filter(|m: DocumentMatchView| m.similarity >= minimum)
}

/// The first `limit` entries of a list, or all of them where it has fewer.
pub open spec fn first<A>(s: Seq<A>, limit: nat) -> Seq<A> {
    if limit <= s.len() {
        s.take(limit as int)
    } else {
        s
    }
}

/// The candidates that reach the minimum, most similar first; candidates of
/// equal similarity stand in the order in which they came.
pub open spec fn ranking(candidates: Seq<DocumentMatchView>, minimum: int) -> Seq<
    DocumentMatchView,
> {
    sorted_by_rank::<DocumentMatch>(reaching(candidates, minimum), Direction::Descending)
}

/// The answer to a search: the first `limit` entries of the ranking.
pub open spec fn top_matches(
    candidates: Seq<DocumentMatchView>,
    minimum: int,
    limit: nat,
) -> Seq<DocumentMatchView> {
    first(ranking(candidates, minimum), limit)
}

/// The answer to a search holds `limit` matches at most. Each of them is a
/// candidate that reaches the minimum similarity, the similarities do not
/// rise from one match to the next, and no candidate that was left out of
/// the answer is more similar than one that is in it.
pub proof fn lemma_top_matches(candidates: Seq<DocumentMatchView>, minimum: int, limit: nat)
    ensures
        top_matches(candidates, minimum, limit).len() <= limit,
        top_matches(candidates, minimum, limit).len() <= candidates.len(),
        forall|i: int|
            0 <= i < top_matches(candidates, minimum, limit).len() ==> candidates.contains(
                #[trigger] top_matches(candidates, minimum, limit)[i],
            ) && top_matches(candidates, minimum, limit)[i].similarity >= minimum,
        forall|i: int, j: int|
            0 <= i <= j < top_matches(candidates, minimum, limit).len() ==> top_matches(
                candidates,
                minimum,
                limit,
            )[i].similarity >= top_matches(candidates, minimum, limit)[j].similarity,
        forall|i: int, j: int|
            0 <= i < top_matches(candidates, minimum, limit).len() <= j < ranking(
                candidates,
                minimum,
            ).len() ==> top_matches(candidates, minimum, limit)[i].similarity >= ranking(
                candidates,
                minimum,
            )[j].similarity,
        ranking(candidates, minimum).to_multiset() == reaching(candidates, minimum).to_multiset(),
{
    let enough = |m: DocumentMatchView| m.similarity >= minimum;
    let kept = reaching(candidates, minimum);
    let full = ranking(candidates, minimum);
    let top = top_matches(candidates, minimum, limit);
    lemma_sorted_by_rank::<DocumentMatch>(kept, Direction::Descending);
    candidates.lemma_filter_len(enough);
    assert forall|i: int| 0 <= i < top.len() implies candidates.contains(#[trigger] top[i])
        && top[i].similarity >= minimum by {
        let v = full[i];
        assert(top[i] == v);
        assert(full.contains(v));
        vstd::seq_lib::to_multiset_contains(full, v);
        vstd::seq_lib::to_multiset_contains(kept, v);
        assert(kept.contains(v));
        let k = choose|k: int| 0 <= k < kept.len() && kept[k] == v;
        candidates.lemma_filter_pred(enough, k);
        candidates.lemma_filter_contains_rev(enough, v);
    }
    assert forall|i: int, j: int| 0 <= i <= j < full.len() implies full[i].similarity
        >= full[j].similarity by {
        assert(Direction::Descending.admits(
            DocumentMatch::rank_of(full[i]),
            DocumentMatch::rank_of(full[j]),
        ));
    }
}

/// Checks the minimum similarity of a search.
pub fn validate_minimum_similarity(raw: i64) -> (r: Result<i64, QueryError>)
    ensures
        in_unit(raw as int) ==> r == Ok::<i64, QueryError>(raw),
        !in_unit(raw as int) ==> (r matches Err(QueryError::InvalidArgument(m)) && m@
            == MINIMUM_OUT_OF_RANGE@),
{
    if is_unit(raw) {
        Ok(raw)
    } else {
        Err(QueryError::InvalidArgument(MINIMUM_OUT_OF_RANGE.to_owned()))
    }
}

/// Keeps the candidates that reach the minimum similarity.
pub fn keep_reaching(candidates: Vec<DocumentMatch>, minimum: i64) -> (r: Vec<DocumentMatch>)
    ensures
        views(r@) == reaching(views(candidates@), minimum as int),
{
    let ghost all = candidates@;
    let ghost enough = |m: DocumentMatchView| m.similarity >= minimum as int;
    let mut kept: Vec<DocumentMatch> = Vec::new();
    proof {
        assert(views(all.take(0)) == Seq::<DocumentMatchView>::empty());
        assert(views(kept@) == Seq::<DocumentMatchView>::empty());
        assert(Seq::<DocumentMatchView>::empty().filter(enough) == Seq::<
            DocumentMatchView,
        >::empty());
    }
    for m in it: candidates
        invariant
            it.seq() == all,
            enough == |m: DocumentMatchView| m.similarity >= minimum as int,
            views(kept@) == views(all.take(it.index() as int)).filter(enough),
    {
        proof {
            let i = it.index() as int;
            let head = views(all.take(i));
            assert(all.take(i + 1) == all.take(i).push(m));
            assert(views(all.take(i + 1)) == head.push(m@));
            Seq::lemma_filter_push(head, m@, enough);
            assert(views(kept@.push(m)) == views(kept@).push(m@));
        }
        if m.similarity >= minimum {
            kept.push(m);
        }
    }
    proof {
        assert(all.take(all.len() as int) == all);
    }
    kept
}

/// Answers a similarity search from the candidates that the store returned:
/// those that reach the minimum similarity, most similar first, `limit` of
/// them at most. A minimum outside the unit interval is refused.
pub fn similarity_search(
    candidates: Vec<DocumentMatch>,
    minimum_similarity: i64,
    limit: usize,
) -> (r: Result<Vec<DocumentMatch>, QueryError>)
    ensures
        in_unit(minimum_similarity as int) ==> (r matches Ok(found) && views(found@)
            == top_matches(views(candidates@), minimum_similarity as int, limit as nat)),
        !in_unit(minimum_similarity as int) ==> (r matches Err(QueryError::InvalidArgument(m))
            && m@ == MINIMUM_OUT_OF_RANGE@),
{
    match validate_minimum_similarity(minimum_similarity) {
        Err(e) => Err(e),
        Ok(minimum) => {
            let kept: Vec<DocumentMatch> = keep_reaching(candidates, minimum);
            let mut found: Vec<DocumentMatch> = sort_by_rank(kept, Direction::Descending);
            let ghost full = views(found@);
            if limit < found.len() {
                found.truncate(limit);
            }
            assert(views(found@) == first(full, limit as nat));
            Ok(found)
        },
    }
}

} // verus!
