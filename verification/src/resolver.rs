//! Entity resolution: whether a label names an entity that is already
//! stored, or a new one.
//!
//! The store is asked for the records nearest to the embedding of the label.
//! The best of them is the entity itself where its similarity reaches the
//! threshold; else the label is registered under an identifier of its own.

use vstd::prelude::*;
use crate::error::DisambiguateTableError;
use crate::models::views;
use crate::record::{RecordRef, RecordRefView};
use crate::text::{normalize_label, normalize_label_spec};
use crate::units::UNIT;

verus! {

/// The similarity from which on two labels name the same entity: nine
/// tenths.
pub const MATCH_THRESHOLD: i64 = 900_000;

/// The number of nearest records that a resolution asks the store for.
pub const NEAREST: usize = 1;

/// The parameters of a resolution.
#[derive(Clone, Copy, Debug, PartialEq)]
pub struct ResolverConfig {
    /// The least similarity of a match.
    pub threshold: i64,
    /// The number of nearest records to ask the store for.
    pub nearest: usize,
}

impl Default for ResolverConfig {
    fn default() -> (c: Self)
        ensures
            c.threshold == MATCH_THRESHOLD,
            c.nearest == NEAREST,
    {
        ResolverConfig { threshold: MATCH_THRESHOLD, nearest: NEAREST }
    }
}

/// A stored record near the embedding of a label: the canonical identifier
/// it stands for and its similarity to the label.
#[derive(Debug, PartialEq)]
pub struct Candidate {
    pub id: String,
    pub similarity: i64,
}

/// The mathematical value of a [`Candidate`].
pub struct CandidateView {
    pub id: Seq<char>,
    pub similarity: int,
}

impl View for Candidate {
    type V = CandidateView;

    open spec fn view(&self) -> CandidateView {
        CandidateView { id: self.id@, similarity: self.similarity as int }
    }
}

/// The outcome of a resolution: the canonical identifier of the label, and
/// whether it was found in the store or made for the label.
#[derive(Debug, PartialEq)]
pub enum Resolution {
    /// The label names the stored entity with this identifier.
    Existing(String),
    /// The label is new and is to be registered under this identifier.
    Minted(String),
}

/// The mathematical value of a [`Resolution`].
pub enum ResolutionView {
    Existing(Seq<char>),
    Minted(Seq<char>),
}

impl View for Resolution {
    type V = ResolutionView;

    open spec fn view(&self) -> ResolutionView {
        match self {
            Resolution::Existing(id) => ResolutionView::Existing(id@),
            Resolution::Minted(id) => ResolutionView::Minted(id@),
        }
    }
}

impl ResolutionView {
    /// The canonical identifier of the outcome.
    pub open spec fn id(self) -> Seq<char> {
        match self {
            ResolutionView::Existing(id) => id,
            ResolutionView::Minted(id) => id,
        }
    }
}

impl Resolution {
    /// The canonical identifier of the outcome.
    pub fn id(&self) -> (r: &String)
        ensures
            r@ == self@.id(),
    {
        match self {
            Resolution::Existing(id) => id,
            Resolution::Minted(id) => id,
        }
    }

    /// Whether the identifier was made for the label.
    pub fn is_minted(&self) -> (b: bool)
        ensures
            b == (self@ is Minted),
    {
        match self {
            Resolution::Existing(_) => false,
            Resolution::Minted(_) => true,
        }
    }
}

/// Whether the candidate at `i` is the best of the list: none is more
/// similar, and none before it is as similar.
pub open spec fn is_best(s: Seq<CandidateView>, i: int) -> bool {
    &&& 0 <= i < s.len()
    &&& forall|j: int| 0 <= j < s.len() ==> (#[trigger] s[j]).similarity <= s[i].similarity
    &&& forall|j: int| 0 <= j < i ==> (#[trigger] s[j]).similarity < s[i].similarity
}

/// The place of the best candidate, if its similarity reaches the
/// threshold.
pub open spec fn best_match(s: Seq<CandidateView>, threshold: int) -> Option<int> {
    if exists|i: int| is_best(s, i) && s[i].similarity >= threshold {
        Some(choose|i: int| is_best(s, i) && s[i].similarity >= threshold)
    } else {
        None
    }
}

/// The outcome of the resolution of a label against the candidates that the
/// store returned for it.
pub open spec fn resolve_spec(
    label: Seq<char>,
    s: Seq<CandidateView>,
    threshold: int,
) -> ResolutionView {
    match best_match(s, threshold) {
        Some(i) => ResolutionView::Existing(s[i].id),
        None => ResolutionView::Minted(normalize_label_spec(label)),
    }
}

/// A list has at most one best candidate.
pub proof fn lemma_best_unique(s: Seq<CandidateView>, i: int, j: int)
    requires
        is_best(s, i),
        is_best(s, j),
    ensures
        i == j,
{
    if i < j {
        assert(s[i].similarity < s[j].similarity);
        assert(s[j].similarity <= s[i].similarity);
    } else if j < i {
        assert(s[j].similarity < s[i].similarity);
        assert(s[i].similarity <= s[j].similarity);
    }
}

/// Finds the best candidate, if its similarity reaches the threshold.
pub fn find_match(found: &Vec<Candidate>, threshold: i64) -> (r: Option<usize>)
    ensures
        match r {
            Some(i) => best_match(views(found@), threshold as int) == Some(i as int)
                && is_best(views(found@), i as int) && found@[i as int].similarity
                >= threshold,
            None => best_match(views(found@), threshold as int) is None && forall|j: int|
                0 <= j < found@.len() ==> (#[trigger] found@[j]).similarity < threshold,
        },
{
    let ghost s = views(found@);
    if found.len() == 0 {
        return None;
    }
    let mut best: usize = 0;
    let mut i: usize = 1;
    while i < found.len()
        invariant
            s == views(found@),
            0 <= best < i <= found.len(),
            forall|j: int| 0 <= j < i ==> (#[trigger] s[j]).similarity <= s[best as int].similarity,
            forall|j: int| 0 <= j < best ==> (#[trigger] s[j]).similarity < s[best as int].similarity,
        decreases found.len() - i,
    {
        if found[i].similarity > found[best].similarity {
            best = i;
        }
        i += 1;
    }
    assert(is_best(s, best as int));
    if found[best].similarity >= threshold {
        proof {
            let k = choose|k: int| is_best(s, k) && s[k].similarity >= threshold as int;
            lemma_best_unique(s, k, best as int);
        }
        Some(best)
    } else {
        proof {
            assert forall|k: int| is_best(s, k) implies s[k].similarity < threshold as int by {
                lemma_best_unique(s, k, best as int);
            }
            assert forall|j: int| 0 <= j < found@.len() implies (#[trigger] found@[j]).similarity
                < threshold by {
                assert(s[j].similarity <= s[best as int].similarity);
            }
        }
        None
    }
}

/// Resolves a label against the candidates that the store returned for its
/// embedding. The best candidate is the entity where its similarity reaches
/// the threshold; else the label is new, and its identifier is its key form.
pub fn resolve(label: &str, found: &Vec<Candidate>, config: &ResolverConfig) -> (r: Resolution)
    ensures
        r@ == resolve_spec(label@, views(found@), config.threshold as int),
{
    match find_match(found, config.threshold) {
        Some(i) => Resolution::Existing(found[i].id.clone()),
        None => Resolution::Minted(normalize_label(label)),
    }
}

/// A candidate whose similarity reaches the threshold is never passed over:
/// the outcome is then a stored identifier, that of the best candidate, and
/// no identifier is made.
pub proof fn lemma_match_is_kept(label: Seq<char>, s: Seq<CandidateView>, threshold: int, i: int)
    requires
        0 <= i < s.len(),
        s[i].similarity >= threshold,
    ensures
        resolve_spec(label, s, threshold) is Existing,
        exists|j: int|
            is_best(s, j) && s[j].similarity >= threshold && resolve_spec(label, s, threshold)
                == ResolutionView::Existing(#[trigger] s[j].id),
{
    let b = lemma_best_exists(s);
    assert(s[i].similarity <= s[b].similarity);
    let k = choose|k: int| is_best(s, k) && s[k].similarity >= threshold;
    assert(is_best(s, k) && s[k].similarity >= threshold);
}

/// Where no candidate reaches the threshold, and where the store returned
/// none, an identifier is made for the label: its key form.
pub proof fn lemma_miss_is_minted(label: Seq<char>, s: Seq<CandidateView>, threshold: int)
    requires
        forall|i: int| 0 <= i < s.len() ==> (#[trigger] s[i]).similarity < threshold,
    ensures
        resolve_spec(label, s, threshold) == ResolutionView::Minted(normalize_label_spec(label)),
{
}

/// A list that is not empty has a best candidate.
pub proof fn lemma_best_exists(s: Seq<CandidateView>) -> (b: int)
    requires
        s.len() > 0,
    ensures
        is_best(s, b),
    decreases s.len(),
{
    if s.len() == 1 {
        0
    } else {
        let head = s.drop_last();
        let h = lemma_best_exists(head);
        assert(forall|j: int| 0 <= j < head.len() ==> head[j] == s[j]);
        if s.last().similarity > s[h].similarity {
            let b = s.len() - 1;
            assert forall|j: int| 0 <= j < s.len() implies (#[trigger] s[j]).similarity
                <= s[b].similarity by {
                if j < head.len() {
                    assert(head[j].similarity <= head[h].similarity);
                }
            }
            assert forall|j: int| 0 <= j < b implies (#[trigger] s[j]).similarity
                < s[b].similarity by {
                assert(head[j].similarity <= head[h].similarity);
            }
            b
        } else {
            assert forall|j: int| 0 <= j < s.len() implies (#[trigger] s[j]).similarity
                <= s[h].similarity by {
                if j < head.len() {
                    assert(head[j].similarity <= head[h].similarity);
                }
            }
            assert forall|j: int| 0 <= j < h implies (#[trigger] s[j]).similarity
                < s[h].similarity by {
                assert(head[j].similarity < head[h].similarity);
            }
            h
        }
    }
}

/// Resolution is repeatable. The outcome is a function of the label, of the
/// candidates and of the threshold, so the same answer of the store gives
/// the same identifier; and once a minted identifier is registered, so that
/// the store returns it alone at full similarity, the label resolves to it.
pub proof fn lemma_resolve_idempotent(
    label: Seq<char>,
    s: Seq<CandidateView>,
    threshold: int,
    first: ResolutionView,
    second: ResolutionView,
)
    requires
        first == resolve_spec(label, s, threshold),
        second == resolve_spec(label, s, threshold),
        threshold <= UNIT,
    ensures
        first.id() == second.id(),
        resolve_spec(
            label,
            seq![CandidateView { id: first.id(), similarity: UNIT as int }],
            threshold,
        ).id() == first.id(),
{
    let again = seq![CandidateView { id: first.id(), similarity: UNIT as int }];
    assert(is_best(again, 0));
    let k = choose|k: int| is_best(again, k) && again[k].similarity >= threshold;
    assert(is_best(again, k));
}

/// The disambiguation record nearest to a record: the canonical record that
/// its key names, or the reason why the key could not be read, and its
/// similarity to the record that is resolved.
#[derive(Debug, PartialEq)]
pub struct SimilaritySearchResult {
    pub canonical: Result<RecordRef, String>,
    pub similarity: i64,
}

/// The mathematical value of a [`SimilaritySearchResult`].
pub struct SimilaritySearchResultView {
    pub canonical: Result<RecordRefView, Seq<char>>,
    pub similarity: int,
}

impl View for SimilaritySearchResult {
    type V = SimilaritySearchResultView;

    open spec fn view(&self) -> SimilaritySearchResultView {
        SimilaritySearchResultView {
            canonical: match self.canonical {
                Ok(r) => Ok(r@),
                Err(m) => Err(m@),
            },
            similarity: self.similarity as int,
        }
    }
}

/// What is to be done with a record after its resolution against the
/// disambiguation records.
#[derive(Debug, PartialEq)]
pub enum Disambiguation {
    /// The record stands for this canonical record, which is stored.
    Existing(RecordRef),
    /// The record is canonical itself; a disambiguation record is to be
    /// saved for it.
    Register(RecordRef),
}

/// The mathematical value of a [`Disambiguation`].
pub enum DisambiguationView {
    Existing(RecordRefView),
    Register(RecordRefView),
}

impl View for Disambiguation {
    type V = DisambiguationView;

    open spec fn view(&self) -> DisambiguationView {
        match self {
            Disambiguation::Existing(r) => DisambiguationView::Existing(r@),
            Disambiguation::Register(r) => DisambiguationView::Register(r@),
        }
    }
}

impl Disambiguation {
    /// The canonical record.
    pub fn record(&self) -> (r: &RecordRef)
        ensures
            r@ == (match self@ {
                DisambiguationView::Existing(c) => c,
                DisambiguationView::Register(c) => c,
            }),
    {
        match self {
            Disambiguation::Existing(r) => r,
            Disambiguation::Register(r) => r,
        }
    }
}

/// The resolution of a record against the nearest disambiguation record, if
/// the store returned one. A nearest record whose similarity reaches the
/// threshold decides: the record stands for the canonical record that it
/// names, and the resolution fails where its key could not be read. Else the
/// record is canonical itself and is to be registered.
pub open spec fn disambiguate_spec(
    record: RecordRefView,
    nearest: Option<SimilaritySearchResultView>,
    threshold: int,
) -> Result<DisambiguationView, Seq<char>> {
    match nearest {
        Some(n) => if n.similarity >= threshold {
            match n.canonical {
                Ok(c) => Ok(DisambiguationView::Existing(c)),
                Err(m) => Err(m),
            }
        } else {
            Ok(DisambiguationView::Register(record))
        },
        None => Ok(DisambiguationView::Register(record)),
    }
}

/// Whether an outcome is the one that [`disambiguate_spec`] gives.
pub open spec fn is_disambiguation(
    outcome: Result<Disambiguation, DisambiguateTableError>,
    expected: Result<DisambiguationView, Seq<char>>,
) -> bool {
    match expected {
        Ok(d) => outcome matches Ok(o) && o@ == d,
        Err(m) => outcome matches Err(DisambiguateTableError::SurrealError(t)) && t@ == m,
    }
}

/// Resolves a record against the nearest disambiguation record.
pub fn disambiguate_table(
    record: RecordRef,
    nearest: Option<SimilaritySearchResult>,
    config: &ResolverConfig,
) -> (r: Result<Disambiguation, DisambiguateTableError>)
    ensures
        is_disambiguation(
            r,
            disambiguate_spec(
                record@,
                match nearest {
                    Some(n) => Some(n@),
                    None => None,
                },
                config.threshold as int,
            ),
        ),
{
    match nearest {
        Some(n) => {
            if n.similarity >= config.threshold {
                match n.canonical {
                    Ok(c) => Ok(Disambiguation::Existing(c)),
                    Err(m) => Err(DisambiguateTableError::SurrealError(m)),
                }
            } else {
                Ok(Disambiguation::Register(record))
            }
        },
        None => Ok(Disambiguation::Register(record)),
    }
}

/// The table that holds the disambiguation records.
pub const DISAMBIGUATION_TABLE: &'static str = "_table_disambiguations_";

/// A disambiguation record: the embedding of a canonical record, stored
/// under the text of that record.
#[derive(Debug, PartialEq)]
pub struct TableDisambiguations<E> {
    pub id: RecordRef,
    pub embeddings: E,
}

/// Makes the disambiguation record of a canonical record from the embedding
/// of the record and its text.
pub fn save_table_disambiguation<E>(embeddings: E, record: &str) -> (r: TableDisambiguations<E>)
    ensures
        r.id@ == (RecordRefView { table: DISAMBIGUATION_TABLE@, key: record@ }),
        r.embeddings == embeddings,
{
    TableDisambiguations { id: RecordRef::new(DISAMBIGUATION_TABLE, record), embeddings }
}

} // verus!
