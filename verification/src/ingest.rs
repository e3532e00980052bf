//! The ingestion of one document, as a machine that is driven from outside.
//!
//! An ingestion waits, in turn, for the embeddings of its paragraphs, for the
//! raw output of the model, for the graph read from that output, for the
//! nearest stored records of each label, and for the commit of its
//! transaction. [`start`] and [`step`] decide what is to be done next; the
//! caller does it and comes back with what happened. Nothing is written
//! before the single transaction, so a failure at any earlier point leaves
//! the store as it was.

use vstd::prelude::*;
use vstd::string::StringExecFns;
use crate::error::{CommonError, CommonErrorView};
use crate::graph::{distinct, graph_labels, labels_of, TextGraph};
use crate::models::{lemma_views_push, views};
use crate::payload::{isolate_payload, isolate_payload_spec, strip_reasoning_spec};
use crate::plan::{
    compose, compose_spec, Chunk, ChunkView, FeedData, Resolved, ResolvedView, Transaction,
};
use crate::resolver::{resolve, resolve_spec, Candidate, Resolution, ResolverConfig};
use crate::text::{split_paragraphs, split_paragraphs_spec};
use crate::units::{in_unit, is_unit, MergeRule};

verus! {

/// The parameters of an ingestion.
#[derive(Clone, Copy, Debug, PartialEq)]
pub struct IngestConfig {
    /// How labels are resolved.
    pub resolver: ResolverConfig,
    /// How the weight of an edge that exists already is combined with the
    /// weight of the request.
    pub merge: MergeRule,
}

impl Default for IngestConfig {
    /// Resolution with the default threshold; an edge keeps the larger of
    /// its weight and the weight written.
    fn default() -> (c: Self)
        ensures
            c.resolver.threshold == crate::resolver::MATCH_THRESHOLD,
            c.resolver.nearest == crate::resolver::NEAREST,
            c.merge == MergeRule::Max,
    {
        IngestConfig { resolver: ResolverConfig::default(), merge: MergeRule::Max }
    }
}

/// The state of an ingestion: what it waits for, and what it has so far.
#[derive(Debug, PartialEq)]
pub enum Ingestion<P, E> {
    /// Waits for the embeddings of the paragraphs.
    AwaitChunks { feed: FeedData<P>, paragraphs: Vec<String>, config: IngestConfig },
    /// Waits for the raw output of the model.
    AwaitExtraction { feed: FeedData<P>, chunks: Vec<Chunk<E>>, config: IngestConfig },
    /// Waits for the graph read from the payload.
    AwaitGraph { feed: FeedData<P>, chunks: Vec<Chunk<E>>, config: IngestConfig },
    /// Waits for the nearest stored records of the label `labels[resolved.len()]`.
    Resolving {
        feed: FeedData<P>,
        chunks: Vec<Chunk<E>>,
        graph: TextGraph<P>,
        labels: Vec<String>,
        resolved: Vec<Resolved<E>>,
        config: IngestConfig,
    },
    /// Waits for the commit of the transaction.
    AwaitCommit,
    /// The ingestion has ended.
    Finished,
}

/// What happened outside since the last action.
#[derive(Debug, PartialEq)]
pub enum Event<P, E> {
    /// The paragraphs were embedded: one embedding for each, in order.
    ChunksEmbedded(Vec<E>),
    /// The model returned this raw output.
    Extracted(String),
    /// The payload was read as this graph.
    Parsed(TextGraph<P>),
    /// The label was embedded, and the store returned the records nearest to
    /// the embedding.
    Nearest { found: Vec<Candidate>, embedding: E },
    /// The transaction was committed and yielded this document, if any.
    Committed(Option<String>),
    /// The action failed.
    Failed(CommonError),
}

/// What is to be done next.
#[derive(Debug, PartialEq)]
pub enum Action<P, E> {
    /// Embed these paragraphs, in one batch.
    EmbedChunks(Vec<String>),
    /// Ask the model for the graph of this text.
    Extract(String),
    /// Read this payload as a graph.
    Parse(String),
    /// Embed this label and ask the store for the nearest records.
    Resolve { label: String, nearest: usize },
    /// Run this transaction.
    Commit(Transaction<P, E>),
    /// The document was ingested; this is where it is found.
    Done(String),
    /// The ingestion failed.
    Fail(CommonError),
}

/// The message of the failure of a request whose weight is not in the unit
/// interval.
pub const WEIGHT_OUT_OF_RANGE: &'static str = "weight has to lie between zero and one";

/// The message of the failure of an ingestion that got another number of
/// embeddings than it has paragraphs.
pub const CHUNK_COUNT_MISMATCH: &'static str = "one embedding is needed for each paragraph";

/// The message of the failure of an ingestion that was handed an event it
/// did not wait for.
pub const EVENT_OUT_OF_ORDER: &'static str = "event out of order";

/// The message of the failure of a transaction that yielded no document.
pub const NO_DOCUMENT: &'static str = "could not create article";

/// What stands before the identifier of a document in its location.
pub const DOCUMENT_PREFIX: &'static str = "/article/";

/// The paragraphs with their embeddings, pair by pair.
pub open spec fn zip_chunks<E>(paragraphs: Seq<Seq<char>>, embeddings: Seq<E>) -> Seq<ChunkView<E>> {
    Seq::new(
        paragraphs.len(),
        |i: int| ChunkView { text: paragraphs[i], embedding: embeddings[i] },
    )
}

/// The resolution of a label, as it is kept: the embedding stays with an
/// identifier that was made, for the entity to be registered.
pub open spec fn resolved_entry<E>(
    label: Seq<char>,
    found: Seq<crate::resolver::CandidateView>,
    embedding: E,
    threshold: int,
) -> ResolvedView<E> {
    let outcome = resolve_spec(label, found, threshold);
    ResolvedView {
        label,
        id: outcome.id(),
        embedding: if outcome is Minted {
            Some(embedding)
        } else {
            None
        },
    }
}

/// Whether an ingestion has ended in the given failure.
pub open spec fn fails<P, E>(next: Ingestion<P, E>, action: Action<P, E>, error: CommonErrorView) -> bool {
    &&& next is Finished
    &&& action matches Action::Fail(e)
    &&& e@ == error
}

/// Whether an ingestion goes on to resolve its next label, or composes its
/// transaction where every label is resolved.
pub open spec fn resolves_next<P, E>(
    feed: FeedData<P>,
    chunks: Vec<Chunk<E>>,
    graph: TextGraph<P>,
    labels: Seq<Seq<char>>,
    resolved: Seq<ResolvedView<E>>,
    config: IngestConfig,
    next: Ingestion<P, E>,
    action: Action<P, E>,
) -> bool {
    if resolved.len() >= labels.len() {
        &&& next is AwaitCommit
        &&& action matches Action::Commit(tx)
        &&& tx@ == compose_spec(feed@, views(chunks@), graph@, resolved, config.merge)
    } else {
        &&& next matches Ingestion::Resolving {
            feed: f,
            chunks: cs,
            graph: g,
            labels: ls,
            resolved: rs,
            config: c,
        }
        &&& f == feed && cs == chunks && g == graph && c == config
        &&& views(ls@) == labels && views(rs@) == resolved
        &&& action matches Action::Resolve { label, nearest }
        &&& label@ == labels[resolved.len() as int]
        &&& nearest == config.resolver.nearest
    }
}

/// What [`start`] returns for a request.
pub open spec fn start_ensures<P, E>(
    feed: FeedData<P>,
    config: IngestConfig,
    next: Ingestion<P, E>,
    action: Action<P, E>,
) -> bool {
    if in_unit(feed.weight as int) {
        &&& next matches Ingestion::AwaitChunks { feed: f, paragraphs, config: c }
        &&& f == feed && c == config
        &&& views(paragraphs@) == split_paragraphs_spec(feed.text@)
        &&& action matches Action::EmbedChunks(texts)
        &&& views(texts@) == split_paragraphs_spec(feed.text@)
    } else {
        fails(next, action, CommonErrorView::ValidationError(WEIGHT_OUT_OF_RANGE@))
    }
}

/// What [`step`] returns for a state and an event.
///
/// A failure ends the ingestion with that failure. Else the event has to be
/// the one that the state waits for, and:
/// - the embeddings are paired with the paragraphs, and the model is asked
///   for the graph of the whole text;
/// - the payload is isolated from the raw output and handed out to be read;
/// - the distinct labels of the graph are resolved one by one, in the order
///   in which they first occur;
/// - once every label is resolved the transaction is composed;
/// - the commit ends the ingestion with the location of the document.
pub open spec fn step_ensures<P, E>(
    state: Ingestion<P, E>,
    event: Event<P, E>,
    next: Ingestion<P, E>,
    action: Action<P, E>,
) -> bool {
    match (state, event) {
        (_, Event::Failed(e)) => next is Finished && action == Action::<P, E>::Fail(e),
        (Ingestion::AwaitChunks { feed, paragraphs, config }, Event::ChunksEmbedded(embeddings)) => {
            if embeddings@.len() == paragraphs@.len() {
                &&& next matches Ingestion::AwaitExtraction { feed: f, chunks, config: c }
                &&& f == feed && c == config
                &&& views(chunks@) == zip_chunks(views(paragraphs@), embeddings@)
                &&& action matches Action::Extract(text)
                &&& text@ == feed.text@
            } else {
                fails(next, action, CommonErrorView::OllamaError(CHUNK_COUNT_MISMATCH@))
            }
        },
        (Ingestion::AwaitExtraction { feed, chunks, config }, Event::Extracted(raw)) => {
            match isolate_payload_spec(strip_reasoning_spec(raw@)) {
                Ok(payload) => {
                    &&& next == (Ingestion::AwaitGraph { feed, chunks, config })
                    &&& action matches Action::Parse(text)
                    &&& text@ == payload
                },
                Err(m) => fails(next, action, CommonErrorView::RegexError(m)),
            }
        },
        (Ingestion::AwaitGraph { feed, chunks, config }, Event::Parsed(graph)) => resolves_next(
            feed,
            chunks,
            graph,
            distinct(labels_of(graph@)),
            Seq::empty(),
            config,
            next,
            action,
        ),
        (
            Ingestion::Resolving { feed, chunks, graph, labels, resolved, config },
            Event::Nearest { found, embedding },
        ) => {
            if resolved@.len() < labels@.len() {
                resolves_next(
                    feed,
                    chunks,
                    graph,
                    views(labels@),
                    views(resolved@).push(
                        resolved_entry(
                            labels@[resolved@.len() as int]@,
                            views(found@),
                            embedding,
                            config.resolver.threshold as int,
                        ),
                    ),
                    config,
                    next,
                    action,
                )
            } else {
                fails(next, action, CommonErrorView::ValidationError(EVENT_OUT_OF_ORDER@))
            }
        },
        (Ingestion::AwaitCommit, Event::Committed(Some(id))) => {
            &&& next is Finished
            &&& action matches Action::Done(location)
            &&& location@ == DOCUMENT_PREFIX@ + id@
        },
        (Ingestion::AwaitCommit, Event::Committed(None)) => fails(
            next,
            action,
            CommonErrorView::DatabaseError(NO_DOCUMENT@),
        ),
        _ => fails(next, action, CommonErrorView::ValidationError(EVENT_OUT_OF_ORDER@)),
    }
}

/// Ends an ingestion that was handed an event it did not wait for.
fn out_of_order<P, E>() -> (r: (Ingestion<P, E>, Action<P, E>))
    ensures
        fails(r.0, r.1, CommonErrorView::ValidationError(EVENT_OUT_OF_ORDER@)),
{
    (Ingestion::Finished, Action::Fail(CommonError::ValidationError(EVENT_OUT_OF_ORDER.to_owned())))
}

/// A copy of a list of strings.
pub(crate) fn copy_texts(v: &Vec<String>) -> (r: Vec<String>)
    ensures
        views(r@) == views(v@),
{
    let mut out: Vec<String> = Vec::new();
    let mut i: usize = 0;
    while i < v.len()
        invariant
            i <= v.len(),
            views(out@) == views(v@).take(i as int),
        decreases v.len() - i,
    {
        let t: String = v[i].clone();
        proof {
            lemma_views_push(out@, t);
        }
        out.push(t);
        i += 1;
    }
    out
}

/// Pairs the paragraphs with their embeddings.
pub(crate) fn pair_chunks<E>(paragraphs: &Vec<String>, embeddings: Vec<E>) -> (r: Vec<Chunk<E>>)
    requires
        paragraphs@.len() == embeddings@.len(),
    ensures
        views(r@) == zip_chunks(views(paragraphs@), embeddings@),
{
    let ghost all = embeddings@;
    let ghost ps = views(paragraphs@);
    let mut out: Vec<Chunk<E>> = Vec::new();
    for e in it: embeddings
        invariant
            it.seq() == all,
            ps == views(paragraphs@),
            ps.len() == all.len(),
            out@.len() == it.index(),
            views(out@) == zip_chunks(ps, all).take(it.index() as int),
    {
        let chunk = Chunk { text: paragraphs[out.len()].clone(), embedding: e };
        proof {
            lemma_views_push(out@, chunk);
        }
        out.push(chunk);
    }
    out
}

/// Goes on to the next label, or composes the transaction.
fn resolve_next<P, E>(
    feed: FeedData<P>,
    chunks: Vec<Chunk<E>>,
    graph: TextGraph<P>,
    labels: Vec<String>,
    resolved: Vec<Resolved<E>>,
    config: IngestConfig,
) -> (r: (Ingestion<P, E>, Action<P, E>))
    ensures
        resolves_next(feed, chunks, graph, views(labels@), views(resolved@), config, r.0, r.1),
{
    if resolved.len() >= labels.len() {
        let tx: Transaction<P, E> = compose(feed, chunks, graph, resolved, config.merge);
        (Ingestion::AwaitCommit, Action::Commit(tx))
    } else {
        let label: String = labels[resolved.len()].clone();
        let nearest: usize = config.resolver.nearest;
        (
            Ingestion::Resolving { feed, chunks, graph, labels, resolved, config },
            Action::Resolve { label, nearest },
        )
    }
}

/// Begins the ingestion of a document. A weight outside the unit interval is
/// refused; else the text is split into paragraphs, which are to be
/// embedded.
pub fn start<P, E>(feed: FeedData<P>, config: IngestConfig) -> (r: (Ingestion<P, E>, Action<P, E>))
    ensures
        start_ensures(feed, config, r.0, r.1),
{
    if !is_unit(feed.weight) {
        return (
            Ingestion::Finished,
            Action::Fail(CommonError::ValidationError(WEIGHT_OUT_OF_RANGE.to_owned())),
        );
    }
    let paragraphs: Vec<String> = split_paragraphs(feed.text.as_str());
    let texts: Vec<String> = copy_texts(&paragraphs);
    (Ingestion::AwaitChunks { feed, paragraphs, config }, Action::EmbedChunks(texts))
}

/// Takes an ingestion one step further: given what happened outside, decides
/// the next state and what is to be done next.
pub fn step<P, E>(state: Ingestion<P, E>, event: Event<P, E>) -> (r: (
    Ingestion<P, E>,
    Action<P, E>,
))
    ensures
        step_ensures(state, event, r.0, r.1),
{
    match event {
        Event::Failed(e) => (Ingestion::Finished, Action::Fail(e)),
        Event::ChunksEmbedded(embeddings) => match state {
            Ingestion::AwaitChunks { feed, paragraphs, config } => {
                if embeddings.len() == paragraphs.len() {
                    let chunks: Vec<Chunk<E>> = pair_chunks(&paragraphs, embeddings);
                    let text: String = feed.text.clone();
                    (Ingestion::AwaitExtraction { feed, chunks, config }, Action::Extract(text))
                } else {
                    (
                        Ingestion::Finished,
                        Action::Fail(CommonError::OllamaError(CHUNK_COUNT_MISMATCH.to_owned())),
                    )
                }
            },
            _ => out_of_order(),
        },
        Event::Extracted(raw) => match state {
            Ingestion::AwaitExtraction { feed, chunks, config } => {
                match isolate_payload(raw.as_str()) {
                    Ok(payload) => (
                        Ingestion::AwaitGraph { feed, chunks, config },
                        Action::Parse(payload),
                    ),
                    Err(e) => (Ingestion::Finished, Action::Fail(e)),
                }
            },
            _ => out_of_order(),
        },
        Event::Parsed(graph) => match state {
            Ingestion::AwaitGraph { feed, chunks, config } => {
                let labels: Vec<String> = graph_labels(&graph);
                let resolved: Vec<Resolved<E>> = Vec::new();
                assert(views(resolved@) == Seq::<ResolvedView<E>>::empty());
                resolve_next(feed, chunks, graph, labels, resolved, config)
            },
            _ => out_of_order(),
        },
        Event::Nearest { found, embedding } => match state {
            Ingestion::Resolving { feed, chunks, graph, labels, resolved, config } => {
                if resolved.len() < labels.len() {
                    let mut resolved = resolved;
                    let label: String = labels[resolved.len()].clone();
                    let outcome: Resolution = resolve(label.as_str(), &found, &config.resolver);
                    let entry: Resolved<E> = match outcome {
                        Resolution::Existing(id) => Resolved { label, id, embedding: None },
                        Resolution::Minted(id) => Resolved {
                            label,
                            id,
                            embedding: Some(embedding),
                        },
                    };
                    proof {
                        lemma_views_push(resolved@, entry);
                    }
                    resolved.push(entry);
                    resolve_next(feed, chunks, graph, labels, resolved, config)
                } else {
                    out_of_order()
                }
            },
            _ => out_of_order(),
        },
        Event::Committed(document) => match state {
            Ingestion::AwaitCommit => match document {
                Some(id) => {
                    let mut location: String = DOCUMENT_PREFIX.to_owned();
                    location.append(id.as_str());
                    (Ingestion::Finished, Action::Done(location))
                },
                None => (
                    Ingestion::Finished,
                    Action::Fail(CommonError::DatabaseError(NO_DOCUMENT.to_owned())),
                ),
            },
            _ => out_of_order(),
        },
    }
}

/// A transaction is the last thing an ingestion asks for. The state that
/// follows a commit waits for its outcome alone: the next step ends the
/// ingestion, and asks for no second transaction.
pub proof fn lemma_commit_is_last<P, E>(
    state: Ingestion<P, E>,
    event: Event<P, E>,
    next: Ingestion<P, E>,
    action: Action<P, E>,
    later_event: Event<P, E>,
    later: Ingestion<P, E>,
    later_action: Action<P, E>,
)
    requires
        step_ensures(state, event, next, action),
        action is Commit,
        step_ensures(next, later_event, later, later_action),
    ensures
        state is AwaitGraph || state is Resolving,
        next is AwaitCommit,
        later is Finished,
        !(later_action is Commit),
{
}

/// A failure ends an ingestion, and an ingestion that has ended stays so: it
/// answers every event with a failure. As a transaction is asked for only
/// once every earlier step went well, a failure before it writes nothing.
pub proof fn lemma_failure_is_final<P, E>(
    state: Ingestion<P, E>,
    event: Event<P, E>,
    next: Ingestion<P, E>,
    action: Action<P, E>,
    later_event: Event<P, E>,
    later: Ingestion<P, E>,
    later_action: Action<P, E>,
)
    requires
        step_ensures(state, event, next, action),
        action is Fail,
        step_ensures(next, later_event, later, later_action),
    ensures
        next is Finished,
        later is Finished,
        later_action is Fail,
{
}

/// A transaction is composed once every label is resolved: the step that
/// asks for it resolves the last label that was left, and the transaction is
/// the one of the request, of the graph and of all resolutions.
pub proof fn lemma_commit_is_complete<P, E>(
    state: Ingestion<P, E>,
    event: Event<P, E>,
    next: Ingestion<P, E>,
    action: Action<P, E>,
)
    requires
        step_ensures(state, event, next, action),
        state is Resolving,
        state->Resolving_resolved@.len() < state->Resolving_labels@.len(),
        action is Commit,
    ensures
        event is Nearest,
        state->Resolving_resolved@.len() + 1 == state->Resolving_labels@.len(),
        action->Commit_0@ == compose_spec(
            state->Resolving_feed@,
            views(state->Resolving_chunks@),
            state->Resolving_graph@,
            views(state->Resolving_resolved@).push(
                resolved_entry(
                    state->Resolving_labels@[state->Resolving_resolved@.len() as int]@,
                    views(event->Nearest_found@),
                    event->Nearest_embedding,
                    state->Resolving_config.resolver.threshold as int,
                ),
            ),
            state->Resolving_config.merge,
        ),
{
}

/// Whether the resolutions are those of the first labels of the list, in
/// order.
pub open spec fn resolves_in_order<E>(labels: Seq<Seq<char>>, resolved: Seq<ResolvedView<E>>) -> bool {
    &&& resolved.len() <= labels.len()
    &&& forall|i: int| 0 <= i < resolved.len() ==> (#[trigger] resolved[i]).label == labels[i]
}

/// Whether a state is one that an ingestion can be in: while labels are
/// resolved, the labels are the distinct labels of the graph, one of them is
/// still to be resolved, and those before it are resolved, in order.
pub open spec fn well_formed<P, E>(state: Ingestion<P, E>) -> bool {
    match state {
        Ingestion::Resolving { graph, labels, resolved, .. } => {
            &&& views(labels@) == distinct(labels_of(graph@))
            &&& resolved@.len() < labels@.len()
            &&& resolves_in_order(views(labels@), views(resolved@))
        },
        _ => true,
    }
}

/// An ingestion begins in a state that it can be in.
pub proof fn lemma_starts_well_formed<P, E>(
    feed: FeedData<P>,
    config: IngestConfig,
    next: Ingestion<P, E>,
    action: Action<P, E>,
)
    requires
        start_ensures(feed, config, next, action),
    ensures
        well_formed(next),
{
}

/// A step leads from a state that an ingestion can be in to another such
/// state.
pub proof fn lemma_stays_well_formed<P, E>(
    state: Ingestion<P, E>,
    event: Event<P, E>,
    next: Ingestion<P, E>,
    action: Action<P, E>,
)
    requires
        well_formed(state),
        step_ensures(state, event, next, action),
    ensures
        well_formed(next),
{
}

/// The transaction of an ingestion leaves no label of the graph out: every
/// label has a resolution, and its identifier in the transaction is the one
/// that the resolution of that very label gave.
pub proof fn lemma_commit_resolves_every_label<P, E>(
    state: Ingestion<P, E>,
    event: Event<P, E>,
    next: Ingestion<P, E>,
    action: Action<P, E>,
    label: Seq<char>,
) -> (resolved: Seq<ResolvedView<E>>)
    requires
        well_formed(state),
        step_ensures(state, event, next, action),
        state is Resolving,
        action is Commit,
        labels_of(state->Resolving_graph@).contains(label),
    ensures
        action->Commit_0@ == compose_spec(
            state->Resolving_feed@,
            views(state->Resolving_chunks@),
            state->Resolving_graph@,
            resolved,
            state->Resolving_config.merge,
        ),
        exists|i: int|
            0 <= i < resolved.len() && (#[trigger] resolved[i]).label == label
                && crate::plan::canonical(resolved, label) == resolved[i].id,
{
    let labels = views(state->Resolving_labels@);
    let before = views(state->Resolving_resolved@);
    let entry = resolved_entry(
        state->Resolving_labels@[state->Resolving_resolved@.len() as int]@,
        views(event->Nearest_found@),
        event->Nearest_embedding,
        state->Resolving_config.resolver.threshold as int,
    );
    let resolved = before.push(entry);
    crate::graph::lemma_distinct(labels_of(state->Resolving_graph@));
    assert(labels.contains(label));
    let i = choose|i: int| 0 <= i < labels.len() && labels[i] == label;
    assert(labels[before.len() as int] == state->Resolving_labels@[before.len() as int]@);
    assert(resolved[i].label == label);
    assert forall|j: int| 0 <= j < i implies (#[trigger] resolved[j]).label != resolved[i].label by {
        assert(resolved[j].label == labels[j]);
    }
    crate::plan::lemma_canonical_is_first(resolved, i);
    resolved
}

/// How far a state is from the end of the ingestion, by what it waits for.
pub open spec fn stage<P, E>(state: Ingestion<P, E>) -> nat {
    match state {
        Ingestion::AwaitChunks { .. } => 5,
        Ingestion::AwaitExtraction { .. } => 4,
        Ingestion::AwaitGraph { .. } => 3,
        Ingestion::Resolving { .. } => 2,
        Ingestion::AwaitCommit => 1,
        Ingestion::Finished => 0,
    }
}

/// The number of labels that are still to be resolved.
pub open spec fn unresolved<P, E>(state: Ingestion<P, E>) -> int {
    match state {
        Ingestion::Resolving { labels, resolved, .. } => labels@.len() - resolved@.len(),
        _ => 0,
    }
}

/// Every step brings an ingestion nearer to its end: it moves on to a later
/// stage, or it stays with the labels and has one label less to resolve. So
/// an ingestion ends after finitely many steps.
pub proof fn lemma_step_progresses<P, E>(
    state: Ingestion<P, E>,
    event: Event<P, E>,
    next: Ingestion<P, E>,
    action: Action<P, E>,
)
    requires
        well_formed(state),
        step_ensures(state, event, next, action),
        !(state is Finished),
    ensures
        stage(next) < stage(state) || (stage(next) == stage(state) && 0 <= unresolved(next)
            < unresolved(state)),
        next is Finished <==> (action is Done || action is Fail),
{
}

} // verus!
