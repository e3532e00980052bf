//! The neighborhood of a node: every edge that touches it, seen from the
//! node, whatever the direction in which the edge was stored.

use vstd::prelude::*;
use crate::error::QueryError;
use crate::models::views;
use crate::rank::{lemma_sorted_by_rank, sort_by_rank, sorted_by_rank, Direction, Ranked};
use crate::record::{RecordRef, RecordRefView};

verus! {

/// A stored edge: it leads from `source` to `target`, is of the type
/// `relation` and carries a weight.
#[derive(Debug, PartialEq)]
pub struct Edge {
    pub source: RecordRef,
    pub target: RecordRef,
    pub relation: String,
    pub weight: i64,
}

/// The mathematical value of an [`Edge`].
pub struct EdgeView {
    pub source: RecordRefView,
    pub target: RecordRefView,
    pub relation: Seq<char>,
    pub weight: int,
}

impl View for Edge {
    type V = EdgeView;

    open spec fn view(&self) -> EdgeView {
        EdgeView {
            source: self.source@,
            target: self.target@,
            relation: self.relation@,
            weight: self.weight as int,
        }
    }
}

/// One entry of a neighborhood: the record at the other end of an edge, the
/// weight of the edge and its type.
#[derive(Debug, PartialEq)]
pub struct Neighbor {
    pub references: RecordRef,
    pub weight: i64,
    pub relation_type: String,
}

/// The mathematical value of a [`Neighbor`].
pub struct NeighborView {
    pub references: RecordRefView,
    pub weight: int,
    pub relation_type: Seq<char>,
}

impl View for Neighbor {
    type V = NeighborView;

    open spec fn view(&self) -> NeighborView {
        NeighborView {
            references: self.references@,
            weight: self.weight as int,
            relation_type: self.relation_type@,
        }
    }
}

impl Ranked for Neighbor {
    open spec fn rank_of(v: NeighborView) -> int {
        v.weight
    }

    fn rank(&self) -> (k: i64) {
        self.weight
    }
}

/// Whether an edge starts or ends at the node.
pub open spec fn touches(e: EdgeView, node: RecordRefView) -> bool {
    e.source == node || e.target == node
}

/// An edge seen from the node: the entry names the end that is not the node.
/// An edge from the node to itself names the node.
pub open spec fn seen_from(e: EdgeView, node: RecordRefView) -> NeighborView {
    NeighborView {
        references: if e.target == node { e.source } else { e.target },
        weight: e.weight,
        relation_type: e.relation,
    }
}

/// The entries of the edges that touch the node, in the order of the edges.
pub open spec fn entries(edges: Seq<EdgeView>, node: RecordRefView) -> Seq<NeighborView> {
    edges.filter(|e: EdgeView| touches(e, node)).map_values(|e: EdgeView| seen_from(e, node))
}

/// The neighborhood of the node over the given edges: one entry for each
/// edge that touches the node, weakest first; entries of equal weight stand
/// in the order of their edges.
pub open spec fn neighborhood(edges: Seq<EdgeView>, node: RecordRefView) -> Seq<NeighborView> {
    sorted_by_rank::<Neighbor>(entries(edges, node), Direction::Ascending)
}

/// The weights of a neighborhood do not fall from one entry to the next,
/// and the neighborhood holds the entry of every edge that touches the
/// node, as often as the edge occurs, and no other entry.
pub proof fn lemma_neighborhood(edges: Seq<EdgeView>, node: RecordRefView)
    ensures
        forall|i: int, j: int|
            0 <= i <= j < neighborhood(edges, node).len() ==> neighborhood(edges, node)[i].weight
                <= neighborhood(edges, node)[j].weight,
        neighborhood(edges, node).to_multiset() == entries(edges, node).to_multiset(),
        neighborhood(edges, node).len() == entries(edges, node).len(),
{
    lemma_sorted_by_rank::<Neighbor>(entries(edges, node), Direction::Ascending);
    let n = neighborhood(edges, node);
    assert forall|i: int, j: int| 0 <= i <= j < n.len() implies n[i].weight <= n[j].weight by {
        assert(Direction::Ascending.admits(Neighbor::rank_of(n[i]), Neighbor::rank_of(n[j])));
    }
}

/// Turns an edge into the entry seen from the node.
pub fn normalize_edge(edge: Edge, node: &RecordRef) -> (n: Neighbor)
    ensures
        n@ == seen_from(edge@, node@),
{
    let Edge { source, target, relation, weight } = edge;
    if target.same(node) {
        Neighbor { references: source, weight, relation_type: relation }
    } else {
        Neighbor { references: target, weight, relation_type: relation }
    }
}

/// Computes the neighborhood of a node from stored edges. Edges that do not
/// touch the node are left out; the entries come weakest first.
pub fn neighbors(node: &RecordRef, edges: Vec<Edge>) -> (r: Vec<Neighbor>)
    ensures
        views(r@) == neighborhood(views(edges@), node@),
{
    let ghost all = edges@;
    let mut found: Vec<Neighbor> = Vec::new();
    proof {
        assert(views(all.take(0)) == Seq::<EdgeView>::empty());
        assert(views(found@) == Seq::<NeighborView>::empty());
        assert(Seq::<EdgeView>::empty().filter(|e: EdgeView| touches(e, node@)) == Seq::<
            EdgeView,
        >::empty());
    }
    for edge in it: edges
        invariant
            it.seq() == all,
            views(found@) == entries(views(all.take(it.index() as int)), node@),
    {
        proof {
            let touching = |e: EdgeView| touches(e, node@);
            let seen = |e: EdgeView| seen_from(e, node@);
            let i = it.index() as int;
            let head = views(all.take(i));
            assert(all.take(i + 1) == all.take(i).push(edge));
            assert(views(all.take(i + 1)) == head.push(edge@));
            Seq::lemma_filter_push(head, edge@, touching);
            if touching(edge@) {
                assert(head.filter(touching).push(edge@).map_values(seen) == head.filter(
                    touching,
                ).map_values(seen).push(seen(edge@)));
            }
        }
        if edge.source.same(node) || edge.target.same(node) {
            let entry: Neighbor = normalize_edge(edge, node);
            proof {
                assert(views(found@.push(entry)) == views(found@).push(entry@));
            }
            found.push(entry);
        }
    }
    proof {
        assert(all.take(all.len() as int) == all);
    }
    sort_by_rank(found, Direction::Ascending)
}

/// What is known of a node: its neighborhood and its stored content as
/// structured text.
#[derive(Debug, PartialEq)]
pub struct NodeView {
    pub neighbors: Vec<Neighbor>,
    pub content: Option<String>,
}

/// The message of the failure to find a node.
pub const NODE_NOT_FOUND: &'static str = "node not found";

/// The message of the failure to read the content of a node.
pub const CONTENT_UNREADABLE: &'static str = "error executing query on database";

/// Whether the answer to a node query is the right one, given what the store
/// returned: the edges that touch the node, absent where the node is not
/// stored, and the content of the node, or the failure to read it.
pub open spec fn is_node_answer(
    answer: Result<NodeView, QueryError>,
    node: RecordRefView,
    edges: Option<Seq<EdgeView>>,
    content: Result<Option<String>, String>,
) -> bool {
    match edges {
        None => answer matches Err(QueryError::NotFound(m)) && m@ == NODE_NOT_FOUND@,
        Some(es) => match content {
            Err(_) => answer matches Err(QueryError::Internal(m)) && m@ == CONTENT_UNREADABLE@,
            Ok(text) => answer matches Ok(view) && views(view.neighbors@) == neighborhood(es, node)
                && view.content == text,
        },
    }
}

/// Answers a node query from what the store returned for it. A node that is
/// not stored is not found, whatever the second read gave.
pub fn get_node(
    node: &RecordRef,
    edges: Option<Vec<Edge>>,
    content: Result<Option<String>, String>,
) -> (r: Result<NodeView, QueryError>)
    ensures
        is_node_answer(
            r,
            node@,
            match edges {
                Some(es) => Some(views(es@)),
                None => None,
            },
            content,
        ),
{
    match edges {
        None => Err(QueryError::NotFound(NODE_NOT_FOUND.to_owned())),
        Some(es) => match content {
            Err(_) => Err(QueryError::Internal(CONTENT_UNREADABLE.to_owned())),
            Ok(text) => Ok(NodeView { neighbors: neighbors(node, es), content: text }),
        },
    }
}

} // verus!
