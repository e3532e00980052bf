//! The writes of a feed of relations between records.
//!
//! In this feed the model names both ends of a relation as records, each
//! with a table, a key and an optional content. Every end is resolved
//! against the disambiguation records, see
//! [`disambiguate_table`](crate::resolver::disambiguate_table); then both
//! ends are stored, the relation is written between them, and the document
//! gets one mention of every record that a relation touched.

use vstd::prelude::*;
use crate::graph::{distinct, lemma_distinct, push_distinct};
use crate::models::{lemma_views_push, views};
use crate::record::{RecordRef, RecordRefView};
use crate::units::{clamp_unit, clamp_unit_spec, MergeRule};

verus! {

/// One end of a relation, as the model named it. The content is carried
/// through and never read.
#[derive(Debug, PartialEq)]
pub struct RelationObject<P> {
    pub table: String,
    pub id: String,
    pub content: Option<P>,
}

/// The mathematical value of a [`RelationObject`].
pub struct RelationObjectView<P> {
    pub table: Seq<char>,
    pub id: Seq<char>,
    pub content: Option<P>,
}

impl<P> View for RelationObject<P> {
    type V = RelationObjectView<P>;

    open spec fn view(&self) -> RelationObjectView<P> {
        RelationObjectView { table: self.table@, id: self.id@, content: self.content }
    }
}

/// A relation from the record `source` to the record `target`.
#[derive(Debug, PartialEq)]
pub struct Relation<P> {
    pub source: RelationObject<P>,
    pub relation: String,
    pub target: RelationObject<P>,
}

/// The mathematical value of a [`Relation`].
pub struct RelationView<P> {
    pub source: RelationObjectView<P>,
    pub relation: Seq<char>,
    pub target: RelationObjectView<P>,
}

impl<P> View for Relation<P> {
    type V = RelationView<P>;

    open spec fn view(&self) -> RelationView<P> {
        RelationView { source: self.source@, relation: self.relation@, target: self.target@ }
    }
}

/// The canonical record of one end of a relation, with the text under which
/// the store knows it.
#[derive(Debug, PartialEq)]
pub struct Canonical {
    pub record: RecordRef,
    pub text: String,
}

/// The mathematical value of a [`Canonical`].
pub struct CanonicalView {
    pub record: RecordRefView,
    pub text: Seq<char>,
}

impl View for Canonical {
    type V = CanonicalView;

    open spec fn view(&self) -> CanonicalView {
        CanonicalView { record: self.record@, text: self.text@ }
    }
}

/// One write of a feed.
#[derive(Debug, PartialEq)]
pub enum FeedWrite<P> {
    /// Stores a record with its content.
    Upsert { record: RecordRef, content: Option<P> },
    /// Relates two records. Where the edge exists already, `rule` says how
    /// its weight and `weight` are combined.
    Relate { from: RecordRef, relation: String, to: RecordRef, weight: i64, rule: MergeRule },
    /// Relates the document to the record with the given text, under the
    /// same rule.
    Mention { text: String, weight: i64, rule: MergeRule },
}

/// The mathematical value of a [`FeedWrite`].
pub enum FeedWriteView<P> {
    Upsert { record: RecordRefView, content: Option<P> },
    Relate {
        from: RecordRefView,
        relation: Seq<char>,
        to: RecordRefView,
        weight: int,
        rule: MergeRule,
    },
    Mention { text: Seq<char>, weight: int, rule: MergeRule },
}

impl<P> View for FeedWrite<P> {
    type V = FeedWriteView<P>;

    open spec fn view(&self) -> FeedWriteView<P> {
        match self {
            FeedWrite::Upsert { record, content } => FeedWriteView::Upsert {
                record: record@,
                content: *content,
            },
            FeedWrite::Relate { from, relation, to, weight, rule } => FeedWriteView::Relate {
                from: from@,
                relation: relation@,
                to: to@,
                weight: *weight as int,
                rule: *rule,
            },
            FeedWrite::Mention { text, weight, rule } => FeedWriteView::Mention {
                text: text@,
                weight: *weight as int,
                rule: *rule,
            },
        }
    }
}

/// The records that the relations name: for each relation in order, its
/// source and then its target.
pub open spec fn ends_spec<P>(relations: Seq<RelationView<P>>) -> Seq<RecordRefView> {
    Seq::new(
        2 * relations.len(),
        |i: int|
            if i % 2 == 0 {
                RecordRefView { table: relations[i / 2].source.table, key: relations[i / 2].source.id }
            } else {
                RecordRefView { table: relations[i / 2].target.table, key: relations[i / 2].target.id }
            },
    )
}

/// The writes of the relations themselves: for each relation in order, both
/// of its ends are stored under their canonical records, and the relation is
/// written between them.
pub open spec fn relation_writes_spec<P>(
    relations: Seq<RelationView<P>>,
    canonical: Seq<CanonicalView>,
    weight: int,
    rule: MergeRule,
) -> Seq<FeedWriteView<P>> {
    Seq::new(
        3 * relations.len(),
        |i: int|
            if i % 3 == 0 {
                FeedWriteView::Upsert {
                    record: canonical[2 * (i / 3)].record,
                    content: relations[i / 3].source.content,
                }
            } else if i % 3 == 1 {
                FeedWriteView::Upsert {
                    record: canonical[2 * (i / 3) + 1].record,
                    content: relations[i / 3].target.content,
                }
            } else {
                FeedWriteView::Relate {
                    from: canonical[2 * (i / 3)].record,
                    relation: relations[i / 3].relation,
                    to: canonical[2 * (i / 3) + 1].record,
                    weight,
                    rule,
                }
            },
    )
}

/// The texts of the canonical records, in order.
pub open spec fn canonical_texts(canonical: Seq<CanonicalView>) -> Seq<Seq<char>> {
    canonical.map_values(|c: CanonicalView| c.text)
}

/// The mentions of the document: one for each canonical record, however
/// often the relations touch it.
pub open spec fn feed_mentions_spec<P>(
    canonical: Seq<CanonicalView>,
    weight: int,
    rule: MergeRule,
) -> Seq<FeedWriteView<P>> {
    distinct(canonical_texts(canonical)).map_values(
        |t: Seq<char>| FeedWriteView::Mention { text: t, weight, rule },
    )
}

/// The writes of a feed, given its relations and the canonical records of
/// their ends: the writes of the relations, then the mentions. Every weight
/// is the weight of the feed, clamped into the unit interval, and every edge
/// is written under the given rule. There is no plan where the canonical
/// records are not two for each relation.
pub open spec fn plan_feed_spec<P>(
    relations: Seq<RelationView<P>>,
    canonical: Seq<CanonicalView>,
    weight: int,
    rule: MergeRule,
) -> Option<Seq<FeedWriteView<P>>> {
    if canonical.len() == 2 * relations.len() {
        Some(
            relation_writes_spec(relations, canonical, clamp_unit_spec(weight), rule)
                + feed_mentions_spec(canonical, clamp_unit_spec(weight), rule),
        )
    } else {
        None
    }
}

/// The records to resolve for a feed: both ends of every relation.
pub fn ends<P>(relations: &Vec<Relation<P>>) -> (r: Vec<RecordRef>)
    ensures
        views(r@) == ends_spec(views(relations@)),
{
    let ghost rs = views(relations@);
    let mut out: Vec<RecordRef> = Vec::new();
    let mut k: usize = 0;
    while k < relations.len()
        invariant
            k <= relations.len(),
            rs == views(relations@),
            views(out@) == ends_spec(rs).take(2 * k),
        decreases relations.len() - k,
    {
        let source = RecordRef {
            table: relations[k].source.table.clone(),
            key: relations[k].source.id.clone(),
        };
        let target = RecordRef {
            table: relations[k].target.table.clone(),
            key: relations[k].target.id.clone(),
        };
        proof {
            assert(rs[k as int] == relations@[k as int]@);
            assert((2 * k) % 2 == 0 && (2 * k) / 2 == k);
            assert((2 * k + 1) % 2 == 1 && (2 * k + 1) / 2 == k);
            lemma_views_push(out@, source);
            lemma_views_push(out@.push(source), target);
            assert(ends_spec(rs).take(2 * k + 2) == ends_spec(rs).take(2 * k).push(source@).push(
                target@,
            ));
        }
        out.push(source);
        out.push(target);
        k += 1;
    }
    out
}

/// Plans the writes of a feed from its relations and the canonical records
/// of their ends, as [`ends`] lists them.
pub fn plan_feed<P>(
    relations: Vec<Relation<P>>,
    canonical: &Vec<Canonical>,
    weight: i64,
    rule: MergeRule,
) -> (r: Option<Vec<FeedWrite<P>>>)
    ensures
        match plan_feed_spec(views(relations@), views(canonical@), weight as int, rule) {
            Some(writes) => r matches Some(w) && views(w@) == writes,
            None => r is None,
        },
{
    let n: usize = relations.len();
    if canonical.len() / 2 != n || canonical.len() % 2 != 0 {
        return None;
    }
    let weight: i64 = clamp_unit(weight);
    let ghost rs = views(relations@);
    let ghost cs = views(canonical@);
    let ghost expected = relation_writes_spec(rs, cs, weight as int, rule);
    let mut out: Vec<FeedWrite<P>> = Vec::new();
    for item in it: relations
        invariant
            views(it.seq()) == rs,
            cs == views(canonical@),
            cs.len() == 2 * rs.len(),
            expected == relation_writes_spec(rs, cs, weight as int, rule),
            out@.len() == 3 * it.index(),
            views(out@) == expected.take(3 * it.index()),
    {
        let ghost k = it.index() as int;
        let i: usize = out.len() / 3;
        assert(i == k);
        let ghost item_view = item@;
        let Relation { source, relation, target } = item;
        let first = FeedWrite::Upsert { record: canonical[2 * i].record.clone(), content: source.content };
        let second = FeedWrite::Upsert {
            record: canonical[2 * i + 1].record.clone(),
            content: target.content,
        };
        let third = FeedWrite::Relate {
            from: canonical[2 * i].record.clone(),
            relation,
            to: canonical[2 * i + 1].record.clone(),
            weight,
            rule,
        };
        proof {
            assert(rs[k] == item_view);
            assert(cs[2 * k] == canonical@[2 * k]@);
            assert(cs[2 * k + 1] == canonical@[2 * k + 1]@);
            assert((3 * k) % 3 == 0 && (3 * k) / 3 == k);
            assert((3 * k + 1) % 3 == 1 && (3 * k + 1) / 3 == k);
            assert((3 * k + 2) % 3 == 2 && (3 * k + 2) / 3 == k);
            lemma_views_push(out@, first);
            lemma_views_push(out@.push(first), second);
            lemma_views_push(out@.push(first).push(second), third);
            assert(expected.take(3 * k + 3) == expected.take(3 * k).push(first@).push(second@).push(
                third@,
            ));
        }
        out.push(first);
        out.push(second);
        out.push(third);
    }
    assert(expected.take(expected.len() as int) == expected);
    let ghost ts = canonical_texts(cs);
    let mut texts: Vec<String> = Vec::new();
    let mut j: usize = 0;
    assert(views(texts@) == distinct(ts.take(0)));
    while j < canonical.len()
        invariant
            j <= canonical.len(),
            cs == views(canonical@),
            ts == canonical_texts(cs),
            views(texts@) == distinct(ts.take(j as int)),
        decreases canonical.len() - j,
    {
        proof {
            assert(cs[j as int] == canonical@[j as int]@);
            assert(ts.take(j + 1).drop_last() == ts.take(j as int));
        }
        push_distinct(&mut texts, canonical[j].text.clone());
        j += 1;
    }
    assert(ts.take(ts.len() as int) == ts);
    let ghost once = views(texts@);
    let ghost mentions = feed_mentions_spec::<P>(cs, weight as int, rule);
    for text in it: texts
        invariant
            views(it.seq()) == once,
            once == distinct(canonical_texts(cs)),
            mentions == feed_mentions_spec::<P>(cs, weight as int, rule),
            views(out@) == expected + mentions.take(it.index() as int),
    {
        let mention = FeedWrite::Mention { text, weight, rule };
        proof {
            let m = it.index() as int;
            lemma_views_push(out@, mention);
            assert(once[m] == text@);
            assert(mentions.take(m + 1) == mentions.take(m).push(mention@));
            assert(expected + mentions.take(m + 1) == (expected + mentions.take(m)).push(mention@));
        }
        out.push(mention);
    }
    assert(mentions.take(mentions.len() as int) == mentions);
    Some(out)
}

/// The document of a feed mentions every canonical record exactly once,
/// however often the relations touch it.
pub proof fn lemma_feed_mentions_once<P>(
    canonical: Seq<CanonicalView>,
    weight: int,
    rule: MergeRule,
    k: int,
)
    requires
        0 <= k < canonical.len(),
    ensures
        ({
            let mentions = feed_mentions_spec::<P>(canonical, weight, rule);
            let mention = FeedWriteView::<P>::Mention { text: canonical[k].text, weight, rule };
            &&& mentions.contains(mention)
            &&& forall|i: int, j: int|
                0 <= i < mentions.len() && 0 <= j < mentions.len() && #[trigger] mentions[i]
                    == #[trigger] mentions[j] ==> i == j
        }),
{
    let texts = canonical_texts(canonical);
    let once = distinct(texts);
    let mentions = feed_mentions_spec::<P>(canonical, weight, rule);
    lemma_distinct(texts);
    assert(texts[k] == canonical[k].text);
    assert(texts.contains(canonical[k].text));
    let i = choose|i: int| 0 <= i < once.len() && once[i] == canonical[k].text;
    assert(mentions[i] == FeedWriteView::<P>::Mention { text: canonical[k].text, weight, rule });
    assert forall|i: int, j: int|
        0 <= i < mentions.len() && 0 <= j < mentions.len() && #[trigger] mentions[i]
            == #[trigger] mentions[j] implies i == j by {
        assert(mentions[i] == FeedWriteView::<P>::Mention { text: once[i], weight, rule });
        assert(mentions[j] == FeedWriteView::<P>::Mention { text: once[j], weight, rule });
    }
}

} // verus!
