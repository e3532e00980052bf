//! The writes of one ingestion, composed into a single transaction.
//!
//! Nothing is written while a document is read, embedded and resolved. Once
//! every label has its canonical identifier, all writes are put into one
//! transaction: the document, a guard that aborts where the document was not
//! created, its chunks, the registrations of new entities, the payloads of
//! the candidate entities, one mention for each entity that the document
//! touches, and the relations.

use vstd::prelude::*;
use crate::graph::{
    distinct, endpoints, labels_of, lemma_distinct, push_distinct, titles, Entity, EntityView,
    Relation, RelationView, TextGraph, TextGraphView,
};
use crate::models::{lemma_views_push, views};
use crate::text::{
    normalize_label, normalize_label_spec, normalize_relation, normalize_relation_spec,
};
use crate::units::{clamp_unit, clamp_unit_spec, in_unit, merge_weight, merge_weight_spec, MergeRule};

verus! {

/// A request to ingest a text: the text, the weight of the edges that it
/// gives rise to, and metadata that is stored with it.
#[derive(Debug, PartialEq)]
pub struct FeedData<P> {
    pub text: String,
    pub weight: i64,
    pub metadata: P,
}

/// The mathematical value of a [`FeedData`].
pub struct FeedDataView<P> {
    pub text: Seq<char>,
    pub weight: int,
    pub metadata: P,
}

impl<P> View for FeedData<P> {
    type V = FeedDataView<P>;

    open spec fn view(&self) -> FeedDataView<P> {
        FeedDataView { text: self.text@, weight: self.weight as int, metadata: self.metadata }
    }
}

/// A paragraph of a document with its embedding.
#[derive(Debug, PartialEq)]
pub struct Chunk<E> {
    pub text: String,
    pub embedding: E,
}

/// The mathematical value of a [`Chunk`].
pub struct ChunkView<E> {
    pub text: Seq<char>,
    pub embedding: E,
}

impl<E> View for Chunk<E> {
    type V = ChunkView<E>;

    open spec fn view(&self) -> ChunkView<E> {
        ChunkView { text: self.text@, embedding: self.embedding }
    }
}

/// A label with the canonical identifier that it was resolved to. The
/// embedding of the label is kept where the identifier was made for it, to
/// be registered with the entity.
#[derive(Debug, PartialEq)]
pub struct Resolved<E> {
    pub label: String,
    pub id: String,
    pub embedding: Option<E>,
}

/// The mathematical value of a [`Resolved`].
pub struct ResolvedView<E> {
    pub label: Seq<char>,
    pub id: Seq<char>,
    pub embedding: Option<E>,
}

impl<E> View for Resolved<E> {
    type V = ResolvedView<E>;

    open spec fn view(&self) -> ResolvedView<E> {
        ResolvedView { label: self.label@, id: self.id@, embedding: self.embedding }
    }
}

/// The document to create.
#[derive(Debug, PartialEq)]
pub struct DocumentWrite<P> {
    pub text: String,
    pub metadata: P,
}

/// The mathematical value of a [`DocumentWrite`].
pub struct DocumentWriteView<P> {
    pub text: Seq<char>,
    pub metadata: P,
}

impl<P> View for DocumentWrite<P> {
    type V = DocumentWriteView<P>;

    open spec fn view(&self) -> DocumentWriteView<P> {
        DocumentWriteView { text: self.text@, metadata: self.metadata }
    }
}

/// The registration of a new canonical entity: the embedding of its label is
/// merged into the entity, for later resolutions to find.
#[derive(Debug, PartialEq)]
pub struct Registration<E> {
    pub id: String,
    pub embedding: E,
}

/// The mathematical value of a [`Registration`].
pub struct RegistrationView<E> {
    pub id: Seq<char>,
    pub embedding: E,
}

impl<E> View for Registration<E> {
    type V = RegistrationView<E>;

    open spec fn view(&self) -> RegistrationView<E> {
        RegistrationView { id: self.id@, embedding: self.embedding }
    }
}

/// The upsert of a candidate entity: its payload is merged into the entity
/// with the given identifier.
#[derive(Debug, PartialEq)]
pub struct EntityWrite<P> {
    pub id: String,
    pub data: P,
}

/// The mathematical value of an [`EntityWrite`].
pub struct EntityWriteView<P> {
    pub id: Seq<char>,
    pub data: P,
}

impl<P> View for EntityWrite<P> {
    type V = EntityWriteView<P>;

    open spec fn view(&self) -> EntityWriteView<P> {
        EntityWriteView { id: self.id@, data: self.data }
    }
}

/// The edge from the document to an entity that it mentions. Where the edge
/// exists already, `rule` says how its weight and `weight` are combined.
#[derive(Debug, PartialEq)]
pub struct MentionWrite {
    pub entity: String,
    pub weight: i64,
    pub rule: MergeRule,
}

/// The mathematical value of a [`MentionWrite`].
pub struct MentionWriteView {
    pub entity: Seq<char>,
    pub weight: int,
    pub rule: MergeRule,
}

impl View for MentionWrite {
    type V = MentionWriteView;

    open spec fn view(&self) -> MentionWriteView {
        MentionWriteView { entity: self.entity@, weight: self.weight as int, rule: self.rule }
    }
}

/// A typed edge between two entities. Where the edge exists already, `rule`
/// says how its weight and `weight` are combined.
#[derive(Debug, PartialEq)]
pub struct EdgeWrite {
    pub from: String,
    pub relation: String,
    pub to: String,
    pub weight: i64,
    pub rule: MergeRule,
}

/// The mathematical value of an [`EdgeWrite`].
pub struct EdgeWriteView {
    pub from: Seq<char>,
    pub relation: Seq<char>,
    pub to: Seq<char>,
    pub weight: int,
    pub rule: MergeRule,
}

impl View for EdgeWrite {
    type V = EdgeWriteView;

    open spec fn view(&self) -> EdgeWriteView {
        EdgeWriteView {
            from: self.from@,
            relation: self.relation@,
            to: self.to@,
            weight: self.weight as int,
            rule: self.rule,
        }
    }
}

/// The stored weight of an edge, as a value of specifications.
pub open spec fn stored(weight: Option<i64>) -> Option<int> {
    match weight {
        Some(w) => Some(w as int),
        None => None,
    }
}

impl MentionWrite {
    /// The weight that the edge holds once the write has taken effect, given
    /// the weight it held before, if it existed.
    pub fn weight_after(&self, before: Option<i64>) -> (w: i64)
        ensures
            w as int == merge_weight_spec(self.rule, stored(before), self.weight as int),
            in_unit(w as int),
    {
        merge_weight(self.rule, before, self.weight)
    }
}

impl EdgeWrite {
    /// The weight that the edge holds once the write has taken effect, given
    /// the weight it held before, if it existed.
    pub fn weight_after(&self, before: Option<i64>) -> (w: i64)
        ensures
            w as int == merge_weight_spec(self.rule, stored(before), self.weight as int),
            in_unit(w as int),
    {
        merge_weight(self.rule, before, self.weight)
    }
}

/// All writes of one ingestion. They take effect together or not at all, in
/// the order of the fields.
#[derive(Debug, PartialEq)]
pub struct Transaction<P, E> {
    pub document: DocumentWrite<P>,
    pub chunks: Vec<Chunk<E>>,
    pub registrations: Vec<Registration<E>>,
    pub entities: Vec<EntityWrite<P>>,
    pub mentions: Vec<MentionWrite>,
    pub edges: Vec<EdgeWrite>,
}

/// The mathematical value of a [`Transaction`].
pub struct TransactionView<P, E> {
    pub document: DocumentWriteView<P>,
    pub chunks: Seq<ChunkView<E>>,
    pub registrations: Seq<RegistrationView<E>>,
    pub entities: Seq<EntityWriteView<P>>,
    pub mentions: Seq<MentionWriteView>,
    pub edges: Seq<EdgeWriteView>,
}

impl<P, E> View for Transaction<P, E> {
    type V = TransactionView<P, E>;

    open spec fn view(&self) -> TransactionView<P, E> {
        TransactionView {
            document: self.document@,
            chunks: views(self.chunks@),
            registrations: views(self.registrations@),
            entities: views(self.entities@),
            mentions: views(self.mentions@),
            edges: views(self.edges@),
        }
    }
}

/// The canonical identifier of a label: that of its first resolution, and
/// the key form of the label where it was not resolved.
pub open spec fn canonical<E>(resolved: Seq<ResolvedView<E>>, label: Seq<char>) -> Seq<char>
    decreases resolved.len(),
{
    if resolved.len() == 0 {
        normalize_label_spec(label)
    } else if resolved[0].label == label {
        resolved[0].id
    } else {
        canonical(resolved.drop_first(), label)
    }
}

/// The registrations of the identifiers that were made: one for each
/// resolution that kept its embedding.
pub open spec fn registrations_spec<E>(resolved: Seq<ResolvedView<E>>) -> Seq<RegistrationView<E>> {
    resolved.filter(|r: ResolvedView<E>| r.embedding is Some).map_values(
        |r: ResolvedView<E>| RegistrationView { id: r.id, embedding: r.embedding->0 },
    )
}

/// The upserts of the candidate entities, each under its canonical
/// identifier.
pub open spec fn entity_writes_spec<P, E>(
    entities: Seq<EntityView<P>>,
    resolved: Seq<ResolvedView<E>>,
) -> Seq<EntityWriteView<P>> {
    entities.map_values(
        |e: EntityView<P>| EntityWriteView { id: canonical(resolved, e.title), data: e.data },
    )
}

/// The edges of the candidate relations: both ends are rewritten to their
/// canonical identifiers and the type is brought into its key form.
pub open spec fn edge_writes_spec<E>(
    relations: Seq<RelationView>,
    resolved: Seq<ResolvedView<E>>,
    weight: int,
    rule: MergeRule,
) -> Seq<EdgeWriteView> {
    relations.map_values(
        |r: RelationView|
            EdgeWriteView {
                from: canonical(resolved, r.from),
                relation: normalize_relation_spec(r.relation),
                to: canonical(resolved, r.to),
                weight,
                rule,
            },
    )
}

/// The identifiers of the entities that the document touches: those of all
/// labels of the graph, each once.
pub open spec fn mentioned<P, E>(graph: TextGraphView<P>, resolved: Seq<ResolvedView<E>>) -> Seq<
    Seq<char>,
> {
    distinct(canonicals(labels_of(graph), resolved))
}

/// The canonical identifiers of a list of labels, in order.
pub open spec fn canonicals<E>(labels: Seq<Seq<char>>, resolved: Seq<ResolvedView<E>>) -> Seq<
    Seq<char>,
> {
    labels.map_values(|l: Seq<char>| canonical(resolved, l))
}

/// One mention of the given weight for each identifier.
pub open spec fn mention_list(ids: Seq<Seq<char>>, weight: int, rule: MergeRule) -> Seq<
    MentionWriteView,
> {
    ids.map_values(|id: Seq<char>| MentionWriteView { entity: id, weight, rule })
}

/// The mentions of a document: one for each entity that it touches.
pub open spec fn mention_writes_spec<P, E>(
    graph: TextGraphView<P>,
    resolved: Seq<ResolvedView<E>>,
    weight: int,
    rule: MergeRule,
) -> Seq<MentionWriteView> {
    mention_list(mentioned(graph, resolved), weight, rule)
}

/// The transaction of an ingestion, given the request, the embedded
/// paragraphs, the candidate graph and the resolutions of its labels.
pub open spec fn compose_spec<P, E>(
    feed: FeedDataView<P>,
    chunks: Seq<ChunkView<E>>,
    graph: TextGraphView<P>,
    resolved: Seq<ResolvedView<E>>,
    merge: MergeRule,
) -> TransactionView<P, E> {
    let weight = clamp_unit_spec(feed.weight);
    TransactionView {
        document: DocumentWriteView { text: feed.text, metadata: feed.metadata },
        chunks,
        registrations: registrations_spec(resolved),
        entities: entity_writes_spec(graph.entities, resolved),
        mentions: mention_writes_spec(graph, resolved, weight, merge),
        edges: edge_writes_spec(graph.relations, resolved, weight, merge),
    }
}

/// Looks up the canonical identifier of a label.
pub fn canonical_id<E>(resolved: &Vec<Resolved<E>>, label: &String) -> (id: String)
    ensures
        id@ == canonical(views(resolved@), label@),
{
    let ghost all = views(resolved@);
    let mut i: usize = 0;
    assert(all.skip(0) == all);
    while i < resolved.len()
        invariant
            i <= resolved.len(),
            all == views(resolved@),
            canonical(all, label@) == canonical(all.skip(i as int), label@),
        decreases resolved.len() - i,
    {
        assert(all.skip(i as int)[0] == resolved@[i as int]@);
        if resolved[i].label == *label {
            return resolved[i].id.clone();
        }
        assert(all.skip(i as int).drop_first() == all.skip(i + 1));
        i += 1;
    }
    normalize_label(label.as_str())
}

/// Makes the edges of the candidate relations.
pub fn edge_writes<E>(
    relations: &Vec<Relation>,
    resolved: &Vec<Resolved<E>>,
    weight: i64,
    rule: MergeRule,
) -> (r: Vec<EdgeWrite>)
    ensures
        views(r@) == edge_writes_spec(views(relations@), views(resolved@), weight as int, rule),
{
    let mut out: Vec<EdgeWrite> = Vec::new();
    let mut i: usize = 0;
    while i < relations.len()
        invariant
            i <= relations.len(),
            views(out@) == edge_writes_spec(
                views(relations@).take(i as int),
                views(resolved@),
                weight as int,
                rule,
            ),
        decreases relations.len() - i,
    {
        let edge = EdgeWrite {
            from: canonical_id(resolved, &relations[i].from),
            relation: normalize_relation(relations[i].relation.as_str()),
            to: canonical_id(resolved, &relations[i].to),
            weight,
            rule,
        };
        proof {
            lemma_views_push(out@, edge);
            assert(views(relations@).take(i + 1) == views(relations@).take(i as int).push(
                relations@[i as int]@,
            ));
        }
        out.push(edge);
        i += 1;
    }
    assert(views(relations@).take(relations.len() as int) == views(relations@));
    out
}

/// Makes the mentions of a document.
pub fn mention_writes<P, E>(
    entities: &Vec<Entity<P>>,
    relations: &Vec<Relation>,
    resolved: &Vec<Resolved<E>>,
    weight: i64,
    rule: MergeRule,
) -> (r: Vec<MentionWrite>)
    ensures
        views(r@) == mention_writes_spec(
            TextGraphView { entities: views(entities@), relations: views(relations@) },
            views(resolved@),
            weight as int,
            rule,
        ),
{
    let ghost graph = TextGraphView { entities: views(entities@), relations: views(relations@) };
    let ghost ts = titles(graph.entities);
    let ghost es = endpoints(graph.relations);
    let ghost rv = views(resolved@);
    let mut ids: Vec<String> = Vec::new();
    let mut i: usize = 0;
    assert(views(ids@) == distinct(canonicals(ts.take(0), rv)));
    while i < entities.len()
        invariant
            i <= entities.len(),
            ts == titles(views(entities@)),
            rv == views(resolved@),
            views(ids@) == distinct(canonicals(ts.take(i as int), rv)),
        decreases entities.len() - i,
    {
        let id: String = canonical_id(resolved, &entities[i].title);
        proof {
            let next = canonicals(ts.take(i + 1), rv);
            assert(next.drop_last() == canonicals(ts.take(i as int), rv));
            assert(next.last() == canonical(rv, entities@[i as int]@.title));
        }
        push_distinct(&mut ids, id);
        i += 1;
    }
    assert(ts.take(ts.len() as int) == ts);
    assert(ts + es.take(0) == ts);
    let mut k: usize = 0;
    while k < relations.len()
        invariant
            k <= relations.len(),
            ts == titles(views(entities@)),
            es == endpoints(views(relations@)),
            rv == views(resolved@),
            views(ids@) == distinct(canonicals(ts + es.take(2 * k), rv)),
        decreases relations.len() - k,
    {
        let from: String = canonical_id(resolved, &relations[k].from);
        let to: String = canonical_id(resolved, &relations[k].to);
        proof {
            let rs = views(relations@);
            let a = canonicals(ts + es.take(2 * k), rv);
            let b = canonicals(ts + es.take(2 * k + 1), rv);
            let c = canonicals(ts + es.take(2 * k + 2), rv);
            assert(rs[k as int] == relations@[k as int]@);
            assert((2 * k) % 2 == 0 && (2 * k) / 2 == k);
            assert((2 * k + 1) % 2 == 1 && (2 * k + 1) / 2 == k);
            assert(es[2 * k] == rs[k as int].from);
            assert(es[2 * k + 1] == rs[k as int].to);
            assert(b.drop_last() == a);
            assert(c.drop_last() == b);
            assert(b.last() == canonical(rv, es[2 * k]));
            assert(c.last() == canonical(rv, es[2 * k + 1]));
        }
        push_distinct(&mut ids, from);
        assert(views(ids@) == distinct(canonicals(ts + es.take(2 * k + 1), rv)));
        push_distinct(&mut ids, to);
        assert(views(ids@) == distinct(canonicals(ts + es.take(2 * k + 2), rv)));
        k += 1;
    }
    assert(es.take(es.len() as int) == es);
    assert(views(ids@) == mentioned(graph, views(resolved@)));
    let ghost all = views(ids@);
    let mut out: Vec<MentionWrite> = Vec::new();
    for id in it: ids
        invariant
            views(it.seq()) == all,
            views(out@) == mention_list(all.take(it.index() as int), weight as int, rule),
    {
        let mention = MentionWrite { entity: id, weight, rule };
        proof {
            let n = it.index() as int;
            lemma_views_push(out@, mention);
            assert(all[n] == id@);
            assert(mention_list(all.take(n + 1), weight as int, rule) == mention_list(
                all.take(n),
                weight as int,
                rule,
            ).push(mention@));
        }
        out.push(mention);
    }
    assert(all.take(all.len() as int) == all);
    out
}

/// Makes the upserts of the candidate entities.
pub fn entity_writes<P, E>(entities: Vec<Entity<P>>, resolved: &Vec<Resolved<E>>) -> (r: Vec<
    EntityWrite<P>,
>)
    ensures
        views(r@) == entity_writes_spec(views(entities@), views(resolved@)),
{
    let ghost all = views(entities@);
    let mut out: Vec<EntityWrite<P>> = Vec::new();
    for entity in it: entities
        invariant
            views(it.seq()) == all,
            views(out@) == entity_writes_spec(all.take(it.index() as int), views(resolved@)),
    {
        let id: String = canonical_id(resolved, &entity.title);
        let write = EntityWrite { id, data: entity.data };
        proof {
            let n = it.index() as int;
            lemma_views_push(out@, write);
            assert(all[n] == entity@);
            assert(all.take(n + 1) == all.take(n).push(entity@));
        }
        out.push(write);
    }
    assert(all.take(all.len() as int) == all);
    out
}

/// Makes the registrations of the identifiers that were made.
pub fn registrations<E>(resolved: Vec<Resolved<E>>) -> (r: Vec<Registration<E>>)
    ensures
        views(r@) == registrations_spec(views(resolved@)),
{
    let ghost all = views(resolved@);
    let mut out: Vec<Registration<E>> = Vec::new();
    proof {
        assert(all.take(0).filter(|r: ResolvedView<E>| r.embedding is Some) == Seq::<
            ResolvedView<E>,
        >::empty());
    }
    for entry in it: resolved
        invariant
            views(it.seq()) == all,
            views(out@) == registrations_spec(all.take(it.index() as int)),
    {
        proof {
            let minted = |r: ResolvedView<E>| r.embedding is Some;
            let register = |r: ResolvedView<E>|
                RegistrationView { id: r.id, embedding: r.embedding->0 };
            let n = it.index() as int;
            let head = all.take(n);
            assert(all[n] == entry@);
            assert(all.take(n + 1) == head.push(entry@));
            Seq::lemma_filter_push(head, entry@, minted);
            if minted(entry@) {
                assert(head.filter(minted).push(entry@).map_values(register) == head.filter(
                    minted,
                ).map_values(register).push(register(entry@)));
            }
        }
        let Resolved { label: _, id, embedding } = entry;
        match embedding {
            Some(e) => {
                let registration = Registration { id, embedding: e };
                proof {
                    lemma_views_push(out@, registration);
                }
                out.push(registration);
            },
            None => {},
        }
    }
    assert(all.take(all.len() as int) == all);
    out
}

/// Composes the transaction of an ingestion. Every weight written is the
/// weight of the request, clamped into the unit interval, and every edge is
/// written under the given rule.
pub fn compose<P, E>(
    feed: FeedData<P>,
    chunks: Vec<Chunk<E>>,
    graph: TextGraph<P>,
    resolved: Vec<Resolved<E>>,
    merge: MergeRule,
) -> (tx: Transaction<P, E>)
    ensures
        tx@ == compose_spec(feed@, views(chunks@), graph@, views(resolved@), merge),
{
    let weight: i64 = clamp_unit(feed.weight);
    let TextGraph { entities, relations } = graph;
    let edges: Vec<EdgeWrite> = edge_writes(&relations, &resolved, weight, merge);
    let mentions: Vec<MentionWrite> = mention_writes(
        &entities,
        &relations,
        &resolved,
        weight,
        merge,
    );
    let entities: Vec<EntityWrite<P>> = entity_writes(entities, &resolved);
    let registrations: Vec<Registration<E>> = registrations(resolved);
    let FeedData { text, weight: _, metadata } = feed;
    Transaction {
        document: DocumentWrite { text, metadata },
        chunks,
        registrations,
        entities,
        mentions,
        edges,
    }
}

/// One statement of a transaction.
#[derive(Debug, PartialEq)]
pub enum Statement<P, E> {
    /// Creates the document.
    CreateDocument(DocumentWrite<P>),
    /// Aborts the transaction unless the document was created.
    AbortUnlessCreated,
    /// Creates a chunk of the document.
    CreateChunk(Chunk<E>),
    /// Registers a new canonical entity.
    Register(Registration<E>),
    /// Merges the payload of a candidate into its entity.
    UpsertEntity(EntityWrite<P>),
    /// Relates the document to an entity that it mentions.
    Mention(MentionWrite),
    /// Relates two entities.
    Relate(EdgeWrite),
}

/// The mathematical value of a [`Statement`].
pub enum StatementView<P, E> {
    CreateDocument(DocumentWriteView<P>),
    AbortUnlessCreated,
    CreateChunk(ChunkView<E>),
    Register(RegistrationView<E>),
    UpsertEntity(EntityWriteView<P>),
    Mention(MentionWriteView),
    Relate(EdgeWriteView),
}

impl<P, E> View for Statement<P, E> {
    type V = StatementView<P, E>;

    open spec fn view(&self) -> StatementView<P, E> {
        match self {
            Statement::CreateDocument(d) => StatementView::CreateDocument(d@),
            Statement::AbortUnlessCreated => StatementView::AbortUnlessCreated,
            Statement::CreateChunk(c) => StatementView::CreateChunk(c@),
            Statement::Register(r) => StatementView::Register(r@),
            Statement::UpsertEntity(e) => StatementView::UpsertEntity(e@),
            Statement::Mention(m) => StatementView::Mention(m@),
            Statement::Relate(e) => StatementView::Relate(e@),
        }
    }
}

/// The statements of a transaction in the order in which they are run: the
/// document, the guard, the chunks, the registrations, the entities, the
/// mentions and the relations.
pub open spec fn statements_spec<P, E>(tx: TransactionView<P, E>) -> Seq<StatementView<P, E>> {
    seq![StatementView::CreateDocument(tx.document), StatementView::AbortUnlessCreated]
        + tx.chunks.map_values(|c: ChunkView<E>| StatementView::CreateChunk(c))
        + tx.registrations.map_values(|r: RegistrationView<E>| StatementView::Register(r))
        + tx.entities.map_values(|e: EntityWriteView<P>| StatementView::UpsertEntity(e))
        + tx.mentions.map_values(|m: MentionWriteView| StatementView::Mention(m))
        + tx.edges.map_values(|e: EdgeWriteView| StatementView::Relate(e))
}

/// What a store holds of a transaction once it has been run, where the
/// creation of the document did or did not yield a document: the writes of
/// all statements, and nothing where a guard aborted the transaction.
pub open spec fn observable<P, E>(statements: Seq<StatementView<P, E>>, created: bool) -> Seq<
    StatementView<P, E>,
> {
    if !created && statements.contains(StatementView::AbortUnlessCreated) {
        Seq::empty()
    } else {
        statements.filter(|s: StatementView<P, E>| !(s is AbortUnlessCreated))
    }
}

impl<P, E> Transaction<P, E> {
    /// The statements of the transaction, in the order in which they are to
    /// be run.
    pub fn statements(self) -> (r: Vec<Statement<P, E>>)
        ensures
            views(r@) == statements_spec(self@),
    {
        let Transaction { document, chunks, registrations, entities, mentions, edges } = self;
        let ghost tx = self@;
        let mut out: Vec<Statement<P, E>> = Vec::new();
        out.push(Statement::CreateDocument(document));
        out.push(Statement::AbortUnlessCreated);
        let ghost head = seq![
            StatementView::<P, E>::CreateDocument(tx.document),
            StatementView::<P, E>::AbortUnlessCreated,
        ];
        assert(views(out@) == head);
        for c in it: chunks
            invariant
                views(it.seq()) == tx.chunks,
                views(out@) == head + tx.chunks.take(it.index() as int).map_values(
                    |c: ChunkView<E>| StatementView::<P, E>::CreateChunk(c),
                ),
        {
            let st = Statement::CreateChunk(c);
            proof {
                let n = it.index() as int;
                lemma_views_push(out@, st);
                assert(tx.chunks[n] == c@);
                assert(tx.chunks.take(n + 1) == tx.chunks.take(n).push(c@));
            }
            out.push(st);
        }
        assert(tx.chunks.take(tx.chunks.len() as int) == tx.chunks);
        let ghost head = views(out@);
        for r in it: registrations
            invariant
                views(it.seq()) == tx.registrations,
                views(out@) == head + tx.registrations.take(it.index() as int).map_values(
                    |r: RegistrationView<E>| StatementView::<P, E>::Register(r),
                ),
        {
            let st = Statement::Register(r);
            proof {
                let n = it.index() as int;
                lemma_views_push(out@, st);
                assert(tx.registrations[n] == r@);
                assert(tx.registrations.take(n + 1) == tx.registrations.take(n).push(r@));
            }
            out.push(st);
        }
        assert(tx.registrations.take(tx.registrations.len() as int) == tx.registrations);
        let ghost head = views(out@);
        for e in it: entities
            invariant
                views(it.seq()) == tx.entities,
                views(out@) == head + tx.entities.take(it.index() as int).map_values(
                    |e: EntityWriteView<P>| StatementView::<P, E>::UpsertEntity(e),
                ),
        {
            let st = Statement::UpsertEntity(e);
            proof {
                let n = it.index() as int;
                lemma_views_push(out@, st);
                assert(tx.entities[n] == e@);
                assert(tx.entities.take(n + 1) == tx.entities.take(n).push(e@));
            }
            out.push(st);
        }
        assert(tx.entities.take(tx.entities.len() as int) == tx.entities);
        let ghost head = views(out@);
        for m in it: mentions
            invariant
                views(it.seq()) == tx.mentions,
                views(out@) == head + tx.mentions.take(it.index() as int).map_values(
                    |m: MentionWriteView| StatementView::<P, E>::Mention(m),
                ),
        {
            let st = Statement::Mention(m);
            proof {
                let n = it.index() as int;
                lemma_views_push(out@, st);
                assert(tx.mentions[n] == m@);
                assert(tx.mentions.take(n + 1) == tx.mentions.take(n).push(m@));
            }
            out.push(st);
        }
        assert(tx.mentions.take(tx.mentions.len() as int) == tx.mentions);
        let ghost head = views(out@);
        for e in it: edges
            invariant
                views(it.seq()) == tx.edges,
                views(out@) == head + tx.edges.take(it.index() as int).map_values(
                    |e: EdgeWriteView| StatementView::<P, E>::Relate(e),
                ),
        {
            let st = Statement::Relate(e);
            proof {
                let n = it.index() as int;
                lemma_views_push(out@, st);
                assert(tx.edges[n] == e@);
                assert(tx.edges.take(n + 1) == tx.edges.take(n).push(e@));
            }
            out.push(st);
        }
        assert(tx.edges.take(tx.edges.len() as int) == tx.edges);
        out
    }
}

/// Every entity that a document touches is mentioned exactly once, however
/// often the graph names it: the mentions are distinct, and the identifier
/// of every label of the graph is among them.
pub proof fn lemma_mentions_once<P, E>(
    graph: TextGraphView<P>,
    resolved: Seq<ResolvedView<E>>,
    weight: int,
    rule: MergeRule,
    label: Seq<char>,
)
    requires
        labels_of(graph).contains(label),
    ensures
        ({
            let mentions = mention_writes_spec(graph, resolved, weight, rule);
            let id = canonical(resolved, label);
            &&& exists|i: int| 0 <= i < mentions.len() && (#[trigger] mentions[i]).entity == id
            &&& forall|i: int, j: int|
                0 <= i < mentions.len() && 0 <= j < mentions.len() && (#[trigger] mentions[i]).entity
                    == (#[trigger] mentions[j]).entity ==> i == j
        }),
{
    let labels = labels_of(graph);
    let ids = canonicals(labels, resolved);
    let once = mentioned(graph, resolved);
    let mentions = mention_writes_spec(graph, resolved, weight, rule);
    let id = canonical(resolved, label);
    lemma_distinct(ids);
    let n = choose|n: int| 0 <= n < labels.len() && labels[n] == label;
    assert(ids[n] == id);
    assert(ids.contains(id));
    assert(once.contains(id));
    let i = choose|i: int| 0 <= i < once.len() && once[i] == id;
    assert(mentions[i].entity == id);
    assert forall|i: int, j: int|
        0 <= i < mentions.len() && 0 <= j < mentions.len() && (#[trigger] mentions[i]).entity == (
        #[trigger] mentions[j]).entity implies i == j by {
        assert(once[i] == mentions[i].entity);
        assert(once[j] == mentions[j].entity);
    }
}

/// A mention is made for entities of the graph alone: the entity of every
/// mention is the canonical identifier of a label of the graph.
pub proof fn lemma_mentions_from_graph<P, E>(
    graph: TextGraphView<P>,
    resolved: Seq<ResolvedView<E>>,
    weight: int,
    rule: MergeRule,
    i: int,
)
    requires
        0 <= i < mention_writes_spec(graph, resolved, weight, rule).len(),
    ensures
        exists|n: int|
            0 <= n < labels_of(graph).len() && mention_writes_spec(
                graph,
                resolved,
                weight,
                rule,
            )[i].entity == canonical(resolved, #[trigger] labels_of(graph)[n]),
{
    let labels = labels_of(graph);
    let ids = canonicals(labels, resolved);
    let once = mentioned(graph, resolved);
    lemma_distinct(ids);
    assert(once.contains(once[i]));
    assert(ids.contains(once[i]));
    let n = choose|n: int| 0 <= n < ids.len() && ids[n] == once[i];
    assert(ids[n] == canonical(resolved, labels[n]));
}

/// Every weight of a composed transaction lies in the unit interval and is
/// no larger than a weight of the request that is not negative.
pub proof fn lemma_weights_in_unit<P, E>(
    feed: FeedDataView<P>,
    chunks: Seq<ChunkView<E>>,
    graph: TextGraphView<P>,
    resolved: Seq<ResolvedView<E>>,
    merge: MergeRule,
)
    ensures
        ({
            let tx = compose_spec(feed, chunks, graph, resolved, merge);
            &&& forall|i: int|
                0 <= i < tx.mentions.len() ==> in_unit((#[trigger] tx.mentions[i]).weight) && (0
                    <= feed.weight ==> tx.mentions[i].weight <= feed.weight)
            &&& forall|i: int|
                0 <= i < tx.edges.len() ==> in_unit((#[trigger] tx.edges[i]).weight) && (0
                    <= feed.weight ==> tx.edges[i].weight <= feed.weight)
        }),
{
}

/// The guard stands directly behind the creation of the document and before
/// every other write, so a transaction whose document was not created is
/// aborted and leaves nothing behind.
pub proof fn lemma_guard_precedes_writes<P, E>(tx: TransactionView<P, E>)
    ensures
        ({
            let s = statements_spec(tx);
            &&& s.len() == 2 + tx.chunks.len() + tx.registrations.len() + tx.entities.len()
                + tx.mentions.len() + tx.edges.len()
            &&& s[0] == StatementView::<P, E>::CreateDocument(tx.document)
            &&& s[1] == StatementView::<P, E>::AbortUnlessCreated
            &&& forall|i: int|
                2 <= i < s.len() ==> !((#[trigger] s[i]) is CreateDocument) && !(s[i]
                    is AbortUnlessCreated)
            &&& observable(s, false) == Seq::<StatementView<P, E>>::empty()
        }),
{
    let s = statements_spec(tx);
    assert(s[1] == StatementView::<P, E>::AbortUnlessCreated);
    assert(s.contains(StatementView::<P, E>::AbortUnlessCreated));
}

/// An identifier that was made is registered: a resolution that kept its
/// embedding has a registration in the transaction.
pub proof fn lemma_minted_is_registered<E>(resolved: Seq<ResolvedView<E>>, i: int)
    requires
        0 <= i < resolved.len(),
        resolved[i].embedding is Some,
    ensures
        registrations_spec(resolved).contains(
            RegistrationView { id: resolved[i].id, embedding: resolved[i].embedding->0 },
        ),
{
    let minted = |r: ResolvedView<E>| r.embedding is Some;
    let kept = resolved.filter(minted);
    let regs = registrations_spec(resolved);
    resolved.lemma_filter_contains(minted, i);
    let k = choose|k: int| 0 <= k < kept.len() && kept[k] == resolved[i];
    assert(regs[k] == (RegistrationView {
        id: resolved[i].id,
        embedding: resolved[i].embedding->0,
    }));
}

/// Nothing else is registered: every registration of a transaction is that
/// of a resolution that kept its embedding. A label that was found in the
/// store leaves none.
pub proof fn lemma_registered_is_minted<E>(resolved: Seq<ResolvedView<E>>, j: int) -> (k: int)
    requires
        0 <= j < registrations_spec(resolved).len(),
    ensures
        0 <= k < resolved.len(),
        resolved[k].embedding is Some,
        registrations_spec(resolved)[j] == (RegistrationView {
            id: resolved[k].id,
            embedding: resolved[k].embedding->0,
        }),
{
    let minted = |r: ResolvedView<E>| r.embedding is Some;
    let kept = resolved.filter(minted);
    resolved.lemma_filter_pred(minted, j);
    assert(kept.contains(kept[j]));
    resolved.lemma_filter_contains_rev(minted, kept[j]);
    let k = choose|k: int| 0 <= k < resolved.len() && resolved[k] == kept[j];
    k
}

/// A label has the identifier of its first resolution.
pub proof fn lemma_canonical_is_first<E>(resolved: Seq<ResolvedView<E>>, i: int)
    requires
        0 <= i < resolved.len(),
        forall|j: int| 0 <= j < i ==> (#[trigger] resolved[j]).label != resolved[i].label,
    ensures
        canonical(resolved, resolved[i].label) == resolved[i].id,
    decreases i,
{
    if i > 0 {
        let rest = resolved.drop_first();
        assert(resolved[0].label != resolved[i].label);
        assert(rest[i - 1] == resolved[i]);
        assert forall|j: int| 0 <= j < i - 1 implies (#[trigger] rest[j]).label != rest[i
            - 1].label by {
            assert(rest[j] == resolved[j + 1]);
        }
        lemma_canonical_is_first(rest, i - 1);
    }
}

} // verus!
