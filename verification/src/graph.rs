//! Directed graphs as plain data, and the topological order that `petgraph`
//! computes for them.
//!
//! A graph here is a number of vertices, numbered from zero, and a sequence of
//! links `(from, to)`. The engine keeps its vertices and links in its own
//! tables; `petgraph` is asked for the one thing only it computes, a
//! topological order or the verdict that there is none.

use petgraph::graph::Graph;
use petgraph::graph::NodeIndex;
use petgraph::Directed;
use vstd::prelude::*;

verus! {

/// `petgraph`'s adjacency-list graph, opaque to the verifier.
#[verifier::external_type_specification]
#[verifier::external_body]
#[verifier::reject_recursive_types(N)]
#[verifier::reject_recursive_types(E)]
#[verifier::reject_recursive_types(Ty)]
#[verifier::reject_recursive_types(Ix)]
pub struct ExGraph<N, E, Ty, Ix>(Graph<N, E, Ty, Ix>);

/// `petgraph`'s marker for directed edges.
#[verifier::external_type_specification]
#[verifier::external_body]
pub struct ExDirected(Directed);

/// The links of a `petgraph` graph, in the order they were added, each as the
/// indices of the vertex it leaves and the vertex it enters.
pub uninterp spec fn graph_links(g: Graph<(), (), Directed, u32>) -> Seq<(usize, usize)>;

/// The number of vertices of a `petgraph` graph.
pub uninterp spec fn graph_order(g: Graph<(), (), Directed, u32>) -> nat;

/// The largest number of vertices, and of links, that a graph indexed by
/// `u32` holds: one index is kept back as the end marker.
pub open spec fn graph_capacity() -> nat {
    0xffff_ffff
}

/// Every link joins two of the `n` vertices.
pub open spec fn links_in_range(n: nat, links: Seq<(usize, usize)>) -> bool {
    forall|k: int| 0 <= k < links.len() ==> (#[trigger] links[k]).0 < n && links[k].1 < n
}

/// Some link leads from `a` to `b`.
pub open spec fn linked(links: Seq<(usize, usize)>, a: usize, b: usize) -> bool {
    links.contains((a, b))
}

/// `walk` follows links from its first vertex to its last, over at least one
/// link.
pub open spec fn is_walk(links: Seq<(usize, usize)>, walk: Seq<usize>) -> bool {
    &&& walk.len() >= 2
    &&& forall|k: int| 0 <= k < walk.len() - 1 ==> #[trigger] linked(links, walk[k], walk[k + 1])
}

/// Vertex `v` lies on a cycle: a walk leads from `v` back to `v`. A link from
/// a vertex to itself is such a walk.
pub open spec fn on_cycle(links: Seq<(usize, usize)>, v: usize) -> bool {
    exists|walk: Seq<usize>|
        #[trigger] is_walk(links, walk) && walk[0] == v && walk[walk.len() - 1] == v
}

/// The graph has a cycle.
pub open spec fn has_cycle(links: Seq<(usize, usize)>) -> bool {
    exists|v: usize| #[trigger] on_cycle(links, v)
}

/// `a` stands at an earlier position of `order` than `b`.
pub open spec fn comes_before(order: Seq<usize>, a: usize, b: usize) -> bool {
    exists|i: int, j: int|
        0 <= i < j < order.len() && #[trigger] order[i] == a && #[trigger] order[j] == b
}

/// `order` lists each of the `n` vertices once, and every link leads from an
/// earlier vertex of it to a later one.
pub open spec fn is_topological_order(
    order: Seq<usize>,
    n: nat,
    links: Seq<(usize, usize)>,
) -> bool {
    &&& order.len() == n
    &&& order.no_duplicates()
    &&& forall|i: int| 0 <= i < order.len() ==> #[trigger] order[i] < n
    &&& forall|k: int|
        0 <= k < links.len() ==> comes_before(order, (#[trigger] links[k]).0, links[k].1)
}

/// In a sequence without repetitions, "comes before" is transitive.
pub proof fn lemma_comes_before_transitive(order: Seq<usize>, a: usize, b: usize, c: usize)
    requires
        order.no_duplicates(),
        comes_before(order, a, b),
        comes_before(order, b, c),
    ensures
        comes_before(order, a, c),
{
    let (i, j) = choose|i: int, j: int|
        0 <= i < j < order.len() && #[trigger] order[i] == a && #[trigger] order[j] == b;
    let (k, l) = choose|k: int, l: int|
        0 <= k < l < order.len() && #[trigger] order[k] == b && #[trigger] order[l] == c;
    assert(j == k);
    assert(0 <= i < l < order.len() && order[i] == a && order[l] == c);
}

/// Along any walk of a topologically ordered graph, the first vertex comes
/// before the last.
pub proof fn lemma_walk_goes_forward(
    order: Seq<usize>,
    n: nat,
    links: Seq<(usize, usize)>,
    walk: Seq<usize>,
)
    requires
        is_topological_order(order, n, links),
        is_walk(links, walk),
    ensures
        comes_before(order, walk[0], walk[walk.len() - 1]),
    decreases walk.len(),
{
    let last = walk.len() - 1;
    assert(linked(links, walk[last - 1], walk[last - 1 + 1]));
    let k = choose|k: int| 0 <= k < links.len() && links[k] == (walk[last - 1], walk[last]);
    assert(comes_before(order, links[k].0, links[k].1));
    if walk.len() > 2 {
        let shorter = walk.subrange(0, last);
        assert forall|k: int| 0 <= k < shorter.len() - 1 implies #[trigger] linked(
            links,
            shorter[k],
            shorter[k + 1],
        ) by {
            assert(linked(links, walk[k], walk[k + 1]));
        }
        lemma_walk_goes_forward(order, n, links, shorter);
        lemma_comes_before_transitive(order, walk[0], walk[last - 1], walk[last]);
    }
}

/// A graph that has a topological order has no cycle.
pub proof fn lemma_ordered_graph_is_acyclic(order: Seq<usize>, n: nat, links: Seq<(usize, usize)>)
    requires
        is_topological_order(order, n, links),
    ensures
        !has_cycle(links),
{
    if has_cycle(links) {
        let v = choose|v: usize| #[trigger] on_cycle(links, v);
        let walk = choose|walk: Seq<usize>|
            #[trigger] is_walk(links, walk) && walk[0] == v && walk[walk.len() - 1] == v;
        lemma_walk_goes_forward(order, n, links, walk);
        let (i, j) = choose|i: int, j: int|
            0 <= i < j < order.len() && #[trigger] order[i] == v && #[trigger] order[j] == v;
        assert(false);
    }
}

/// `Graph::new` of `petgraph`: a directed graph without vertices or links.
#[verifier::external_body]
fn graph_new() -> (g: Graph<(), (), Directed, u32>)
    ensures
        graph_order(g) == 0,
        graph_links(g) == Seq::<(usize, usize)>::empty(),
{
    Graph::new()
}

/// `Graph::add_node` of `petgraph`: the graph gains one vertex, whose index is
/// the number of vertices it had; the links stay. The call panics on a graph
/// that is full, which the precondition leaves out.
#[verifier::external_body]
fn graph_add_node(g: &mut Graph<(), (), Directed, u32>) -> (index: usize)
    requires
        graph_order(*old(g)) < graph_capacity(),
    ensures
        graph_order(*final(g)) == graph_order(*old(g)) + 1,
        graph_links(*final(g)) == graph_links(*old(g)),
        index == graph_order(*old(g)),
{
    g.add_node(()).index()
}

/// `Graph::add_edge` of `petgraph`: the graph gains the link from `a` to `b`
/// behind those it had; a link may repeat. The call panics when an end is no
/// vertex of the graph or the graph holds as many links as it can, which the
/// precondition leaves out.
#[verifier::external_body]
fn graph_add_edge(g: &mut Graph<(), (), Directed, u32>, a: usize, b: usize)
    requires
        a < graph_order(*old(g)),
        b < graph_order(*old(g)),
        graph_links(*old(g)).len() < graph_capacity(),
    ensures
        graph_order(*final(g)) == graph_order(*old(g)),
        graph_links(*final(g)) == graph_links(*old(g)).push((a, b)),
{
    g.add_edge(NodeIndex::new(a), NodeIndex::new(b), ());
}

/// What `petgraph::algo::toposort` returns for the graph with that many
/// vertices and those links, added in that order: the order it puts the
/// vertices in, or the vertex on a cycle that it names.
pub uninterp spec fn toposorted(order: nat, links: Seq<(usize, usize)>) -> Result<Seq<usize>, usize>;

/// The result by its view.
pub open spec fn sort_view(r: Result<Vec<usize>, usize>) -> Result<Seq<usize>, usize> {
    match r {
        Ok(order) => Ok(order@),
        Err(v) => Err(v),
    }
}

/// `petgraph::algo::toposort`: for a graph without cycles, its vertices in an
/// order in which each stands before its successors; otherwise a vertex that
/// lies on a cycle. Which order, and which vertex, the graph alone decides:
/// the result is the named one.
#[verifier::external_body]
fn graph_toposort(g: &Graph<(), (), Directed, u32>) -> (r: Result<Vec<usize>, usize>)
    ensures
        match r {
            Ok(order) => is_topological_order(order@, graph_order(*g), graph_links(*g)),
            Err(v) => v < graph_order(*g) && on_cycle(graph_links(*g), v),
        },
        sort_view(r) == toposorted(graph_order(*g), graph_links(*g)),
{
    match petgraph::algo::toposort(g, None) {
        Ok(order) => Ok(order.into_iter().map(|node| node.index()).collect()),
        Err(cycle) => Err(cycle.node_id().index()),
    }
}

/// Whether a graph of `n` vertices and `links` fits the index type.
pub open spec fn fits(n: nat, links: Seq<(usize, usize)>) -> bool {
    n < graph_capacity() && links.len() < graph_capacity()
}

/// A topological order of the graph with `n` vertices and the given links, or
/// a vertex on one of its cycles.
///
/// The result is `Ok` exactly when the graph has no cycle.
pub fn topological_order(n: usize, links: &Vec<(usize, usize)>) -> (r: Result<Vec<usize>, usize>)
    requires
        fits(n as nat, links@),
        links_in_range(n as nat, links@),
    ensures
        match r {
            Ok(order) => is_topological_order(order@, n as nat, links@),
            Err(v) => v < n && on_cycle(links@, v),
        },
        r is Ok <==> !has_cycle(links@),
        sort_view(r) == toposorted(n as nat, links@),
{
    let mut g = graph_new();
    let mut i: usize = 0;
    while i < n
        invariant
            i <= n,
            n < graph_capacity(),
            graph_order(g) == i,
            graph_links(g) == Seq::<(usize, usize)>::empty(),
        decreases n - i,
    {
        let _ = graph_add_node(&mut g);
        i += 1;
    }
    let mut k: usize = 0;
    while k < links.len()
        invariant
            k <= links.len(),
            links.len() < graph_capacity(),
            links_in_range(n as nat, links@),
            graph_order(g) == n,
            graph_links(g) == links@.subrange(0, k as int),
        decreases links.len() - k,
    {
        let link = links[k];
        graph_add_edge(&mut g, link.0, link.1);
        assert(links@.subrange(0, k as int).push(link) == links@.subrange(0, k + 1));
        k += 1;
    }
    assert(links@.subrange(0, links.len() as int) == links@);
    let r = graph_toposort(&g);
    proof {
        if let Ok(order) = &r {
            lemma_ordered_graph_is_acyclic(order@, n as nat, links@);
        }
    }
    r
}

} // verus!
