//! The candidate graph that the extraction returns for a text, and the
//! labels that it mentions.

use vstd::prelude::*;
use crate::models::views;

verus! {

/// A candidate entity: its label and its payload. The payload is carried
/// through and never read.
#[derive(Debug, PartialEq)]
pub struct Entity<P> {
    pub title: String,
    pub data: P,
}

/// The mathematical value of an [`Entity`].
pub struct EntityView<P> {
    pub title: Seq<char>,
    pub data: P,
}

impl<P> View for Entity<P> {
    type V = EntityView<P>;

    open spec fn view(&self) -> EntityView<P> {
        EntityView { title: self.title@, data: self.data }
    }
}

/// A candidate relation between two labels.
#[derive(Debug, PartialEq)]
pub struct Relation {
    pub from: String,
    pub to: String,
    pub relation: String,
}

/// The mathematical value of a [`Relation`].
pub struct RelationView {
    pub from: Seq<char>,
    pub to: Seq<char>,
    pub relation: Seq<char>,
}

impl View for Relation {
    type V = RelationView;

    open spec fn view(&self) -> RelationView {
        RelationView { from: self.from@, to: self.to@, relation: self.relation@ }
    }
}

/// The candidate graph of a text.
#[derive(Debug, PartialEq)]
pub struct TextGraph<P> {
    pub entities: Vec<Entity<P>>,
    pub relations: Vec<Relation>,
}

/// The mathematical value of a [`TextGraph`].
pub struct TextGraphView<P> {
    pub entities: Seq<EntityView<P>>,
    pub relations: Seq<RelationView>,
}

impl<P> View for TextGraph<P> {
    type V = TextGraphView<P>;

    open spec fn view(&self) -> TextGraphView<P> {
        TextGraphView {
            entities: views(self.entities@),
            relations: views(self.relations@),
        }
    }
}

/// The labels of the candidate entities, in order.
pub open spec fn titles<P>(es: Seq<EntityView<P>>) -> Seq<Seq<char>> {
    es.map_values(|e: EntityView<P>| e.title)
}

/// The labels at the ends of the candidate relations: for each relation in
/// order, where it starts and then where it ends.
pub open spec fn endpoints(rs: Seq<RelationView>) -> Seq<Seq<char>> {
    Seq::new(
        2 * rs.len(),
        |i: int|
            if i % 2 == 0 {
                rs[i / 2].from
            } else {
                rs[i / 2].to
            },
    )
}

/// Every label that the graph mentions: those of the entities, then those of
/// the relations.
pub open spec fn labels_of<P>(g: TextGraphView<P>) -> Seq<Seq<char>> {
    titles(g.entities) + endpoints(g.relations)
}

/// The values of a list without repetition, each at the place where it first
/// occurs.
pub open spec fn distinct<A>(s: Seq<A>) -> Seq<A>
    decreases s.len(),
{
    if s.len() == 0 {
        Seq::empty()
    } else {
        let d = distinct(s.drop_last());
        if d.contains(s.last()) {
            d
        } else {
            d.push(s.last())
        }
    }
}

/// No value occurs twice in `distinct(s)`, and the values that occur in it
/// are those of `s`.
pub proof fn lemma_distinct<A>(s: Seq<A>)
    ensures
        distinct(s).no_duplicates(),
        forall|x: A| distinct(s).contains(x) <==> s.contains(x),
        distinct(s).len() <= s.len(),
    decreases s.len(),
{
    if s.len() > 0 {
        let head = s.drop_last();
        let last = s.last();
        let d = distinct(head);
        let ds = distinct(s);
        lemma_distinct(head);
        assert forall|x: A| ds.contains(x) implies s.contains(x) by {
            let j = choose|j: int| 0 <= j < ds.len() && ds[j] == x;
            if j < d.len() {
                assert(d[j] == x);
                assert(d.contains(x));
                assert(head.contains(x));
                let i = choose|i: int| 0 <= i < head.len() && head[i] == x;
                assert(s[i] == x);
            } else {
                assert(s[s.len() - 1] == x);
            }
        }
        assert forall|x: A| s.contains(x) implies ds.contains(x) by {
            let i = choose|i: int| 0 <= i < s.len() && s[i] == x;
            if i < head.len() {
                assert(head[i] == x);
                assert(head.contains(x));
                assert(d.contains(x));
                let j = choose|j: int| 0 <= j < d.len() && d[j] == x;
                assert(ds[j] == x);
            } else {
                assert(x == last);
                if !d.contains(last) {
                    assert(ds[d.len() as int] == x);
                }
            }
        }
        assert forall|i: int, j: int| 0 <= i < ds.len() && 0 <= j < ds.len() && i != j implies ds[i]
            != ds[j] by {
            if i < d.len() && j < d.len() {
                assert(d[i] != d[j]);
            } else if i < d.len() {
                assert(d.contains(d[i]));
            } else if j < d.len() {
                assert(d.contains(d[j]));
            }
        }
    }
}

/// Whether a text occurs in a list of strings.
pub fn contains_text(v: &Vec<String>, t: &String) -> (b: bool)
    ensures
        b == views(v@).contains(t@),
{
    let mut i: usize = 0;
    while i < v.len()
        invariant
            i <= v.len(),
            forall|j: int| 0 <= j < i ==> views(v@)[j] != t@,
        decreases v.len() - i,
    {
        if v[i] == *t {
            assert(views(v@)[i as int] == t@);
            return true;
        }
        i += 1;
    }
    false
}

/// Appends a text to a list unless the list holds it already.
pub fn push_distinct(out: &mut Vec<String>, t: String)
    ensures
        views(final(out)@) == (if views(old(out)@).contains(t@) {
            views(old(out)@)
        } else {
            views(old(out)@).push(t@)
        }),
{
    if !contains_text(out, &t) {
        assert(views(out@.push(t)) == views(out@).push(t@));
        out.push(t);
    }
}

/// The distinct labels of a graph, each where it first occurs.
pub fn graph_labels<P>(graph: &TextGraph<P>) -> (r: Vec<String>)
    ensures
        views(r@) == distinct(labels_of(graph@)),
{
    let ghost ts = titles(graph@.entities);
    let ghost es = endpoints(graph@.relations);
    let mut out: Vec<String> = Vec::new();
    let mut i: usize = 0;
    assert(views(out@) == distinct(ts.take(0)));
    while i < graph.entities.len()
        invariant
            i <= graph.entities.len(),
            ts == titles(graph@.entities),
            views(out@) == distinct(ts.take(i as int)),
        decreases graph.entities.len() - i,
    {
        assert(ts.take(i + 1).drop_last() == ts.take(i as int));
        push_distinct(&mut out, graph.entities[i].title.clone());
        i += 1;
    }
    assert(ts.take(ts.len() as int) == ts);
    assert(ts + es.take(0) == ts);
    let mut k: usize = 0;
    while k < graph.relations.len()
        invariant
            k <= graph.relations.len(),
            ts == titles(graph@.entities),
            es == endpoints(graph@.relations),
            views(out@) == distinct(ts + es.take(2 * k)),
        decreases graph.relations.len() - k,
    {
        proof {
            let rs = graph@.relations;
            let a = ts + es.take(2 * k);
            let b = ts + es.take(2 * k + 1);
            let c = ts + es.take(2 * k + 2);
            assert(rs[k as int] == graph.relations@[k as int]@);
            assert((2 * k) % 2 == 0 && (2 * k) / 2 == k);
            assert((2 * k + 1) % 2 == 1 && (2 * k + 1) / 2 == k);
            assert(es[2 * k] == rs[k as int].from);
            assert(es[2 * k + 1] == rs[k as int].to);
            assert(b.drop_last() == a);
            assert(c.drop_last() == b);
            assert(b.last() == es[2 * k]);
            assert(c.last() == es[2 * k + 1]);
        }
        push_distinct(&mut out, graph.relations[k].from.clone());
        assert(views(out@) == distinct(ts + es.take(2 * k + 1)));
        push_distinct(&mut out, graph.relations[k].to.clone());
        assert(views(out@) == distinct(ts + es.take(2 * k + 2)));
        k += 1;
    }
    assert(es.take(es.len() as int) == es);
    out
}

} // verus!
