//! The prototype of a workflow: its validated, acyclic execution graph.
//!
//! The vertices of the graph are the functions that the nodes call and the
//! values that literals give to their inputs. A link leads from the vertex
//! that supplies a value to the function that takes it, and carries the name
//! of the input. The function of node `i` is vertex `i`; the values follow.

use crate::graph;
use crate::names::ComponentName;
use crate::names::InputName;
use crate::names::NodeId;
use crate::workflow;
use crate::workflow::Edge;
use vstd::prelude::*;
use wasmtime::component::Component;
use wasmtime::component::ComponentExportIndex;
use wasmtime::component::Val;

verus! {

/// A call of an exported function: one vertex per node.
#[derive(Debug)]
pub struct Function {
    pub component_name: ComponentName,
    pub index: ComponentExportIndex,
    pub node_id: NodeId,
    /// The names of the declared parameters, in their order.
    pub params: Vec<InputName>,
    /// The number of declared results.
    pub results: usize,
    /// What the call returned; empty until it has.
    pub val: Option<Val>,
}

/// A vertex of the graph.
#[derive(Debug)]
pub enum NodeType {
    Function(Function),
    Value(Val),
}

/// A link of the graph: the value of vertex `source` is the input `input` of
/// the function at vertex `target`.
#[derive(Debug)]
pub struct Link {
    pub source: usize,
    pub target: usize,
    pub input: InputName,
}

/// A compiled component under the name that the manifest gives it.
pub struct Compiled {
    pub name: ComponentName,
    pub component: Component,
}

/// A declared parameter of a node's function, with the value of the literal
/// that the node gives it, if it gives one.
#[derive(Debug)]
pub struct Argument {
    pub name: InputName,
    pub literal: Option<Val>,
}

/// A node whose function has been found among the exports of its component.
#[derive(Debug)]
pub struct Resolved {
    pub node_id: NodeId,
    pub component_name: ComponentName,
    pub index: ComponentExportIndex,
    pub arguments: Vec<Argument>,
    pub results: usize,
}

impl NodeType {
    /// Fills the output of a function with a value. A value vertex keeps the
    /// value it has.
    pub fn set_val(&mut self, val: Val)
        ensures
            match *old(self) {
                NodeType::Function(function) => *final(self) == NodeType::Function(
                    Function { val: Some(val), ..function },
                ),
                NodeType::Value(_) => *final(self) == *old(self),
            },
    {
        match self {
            NodeType::Function(function) => {
                function.val = Some(val);
            },
            NodeType::Value(_) => {},
        }
    }
}

/// Why a workflow was rejected.
#[derive(Debug)]
pub enum Error {
    /// The graph has a cycle; the vertex lies on one.
    Cycle(usize),
    /// A node uses a component that is no dependency of the workflow.
    DependencyNotFound(ComponentName),
    /// The bytes of a component were not had.
    FileSource(crate::file_source::Error),
    /// An edge joins nodes that do not exist, or names an input that the
    /// target does not have or that already has its value.
    InvalidEdge(Edge),
    /// The function of the node is no function export of its component.
    InvalidNode(NodeId),
    /// An input of a node gets no value, neither from a literal nor over an
    /// edge.
    MissingInput(InputName),
    /// The literal given to an input is no value of the input's type.
    LiteralDecode(InputName, String),
    /// The VM rejected a component.
    Wasmtime(String),
    /// The graph has more vertices or links than can be indexed.
    GraphTooLarge,
}

/// A link as plain data.
pub struct Wire {
    pub source: usize,
    pub target: usize,
    pub input: Seq<char>,
}

/// A literal as plain data: the node it belongs to, the input it is given
/// to, and its value.
pub struct Literal {
    pub target: usize,
    pub input: Seq<char>,
    pub value: Val,
}

impl View for Link {
    type V = Wire;

    open spec fn view(&self) -> Wire {
        Wire { source: self.source, target: self.target, input: self.input@ }
    }
}

/// The links as plain data.
pub open spec fn wires(links: Seq<Link>) -> Seq<Wire> {
    Seq::new(links.len(), |k: int| links[k]@)
}

/// The ends of the links: the graph without the names.
pub open spec fn ends(wires: Seq<Wire>) -> Seq<(usize, usize)> {
    Seq::new(wires.len(), |k: int| (wires[k].source, wires[k].target))
}

/// Some link supplies the input `input` of vertex `target`.
pub open spec fn taken(wires: Seq<Wire>, target: int, input: Seq<char>) -> bool {
    exists|k: int| 0 <= k < wires.len() && supplies(wires, k, target, input)
}

/// Link `k` supplies the input `input` of vertex `target`.
pub open spec fn supplies(wires: Seq<Wire>, k: int, target: int, input: Seq<char>) -> bool {
    wires[k].target == target && wires[k].input == input
}

/// Link `k` is the first that supplies the input it supplies.
pub open spec fn is_first_supplier(wires: Seq<Wire>, k: int) -> bool {
    forall|j: int| 0 <= j < k ==> !#[trigger] supplies(wires, j, wires[k].target as int, wires[k].input)
}

/// The keys of the resolved nodes, in their order.
pub open spec fn ids(nodes: Seq<Resolved>) -> Seq<Seq<char>> {
    Seq::new(nodes.len(), |i: int| nodes[i].node_id@)
}

/// The literals among the first `upto` arguments of node `target`.
pub open spec fn node_literals(target: usize, arguments: Seq<Argument>, upto: int) -> Seq<Literal>
    decreases upto,
{
    if upto <= 0 {
        Seq::empty()
    } else {
        let rest = node_literals(target, arguments, upto - 1);
        match arguments[upto - 1].literal {
            Some(value) => rest.push(
                Literal { target, input: arguments[upto - 1].name@, value },
            ),
            None => rest,
        }
    }
}

/// The literals of the first `upto` nodes, node by node.
pub open spec fn literals(nodes: Seq<Resolved>, upto: int) -> Seq<Literal>
    decreases upto,
{
    if upto <= 0 {
        Seq::empty()
    } else {
        literals(nodes, upto - 1) + node_literals(
            (upto - 1) as usize,
            nodes[upto - 1].arguments@,
            nodes[upto - 1].arguments.len() as int,
        )
    }
}

/// All literals of the nodes.
pub open spec fn all_literals(nodes: Seq<Resolved>) -> Seq<Literal> {
    literals(nodes, nodes.len() as int)
}

/// The links from the values of the literals to the functions they belong
/// to: literal `k` is vertex `n + k`, where `n` is the number of nodes.
pub open spec fn literal_wires(nodes: Seq<Resolved>) -> Seq<Wire> {
    Seq::new(
        all_literals(nodes).len(),
        |k: int|
            Wire {
                source: (nodes.len() + k) as usize,
                target: all_literals(nodes)[k].target,
                input: all_literals(nodes)[k].input,
            },
    )
}

/// The position of a node, or zero where no node has the key.
pub open spec fn place(nodes: Seq<Resolved>, id: Seq<char>) -> usize {
    match workflow::position(ids(nodes), id) {
        Some(i) => i as usize,
        None => 0,
    }
}

/// The link that an edge asks for.
pub open spec fn edge_wire(nodes: Seq<Resolved>, edge: Edge) -> Wire {
    Wire {
        source: place(nodes, edge.source@),
        target: place(nodes, edge.target@),
        input: edge.input@,
    }
}

/// The links of the graph once the first `upto` edges are in: those of the
/// literals, then one for each edge.
pub open spec fn planned(nodes: Seq<Resolved>, edges: Seq<Edge>, upto: int) -> Seq<Wire>
    decreases upto,
{
    if upto <= 0 {
        literal_wires(nodes)
    } else {
        planned(nodes, edges, upto - 1).push(edge_wire(nodes, edges[upto - 1]))
    }
}

/// All links of the graph.
pub open spec fn plan(nodes: Seq<Resolved>, edges: Seq<Edge>) -> Seq<Wire> {
    planned(nodes, edges, edges.len() as int)
}

/// The function of the node has a parameter of that name.
pub open spec fn is_argument(node: Resolved, input: Seq<char>) -> bool {
    exists|j: int| 0 <= j < node.arguments.len() && #[trigger] node.arguments[j].name@ == input
}

/// Edge `k` cannot be: an end of it is no node, or the target has no input
/// of that name, or the input has its value already, from a literal or over
/// an earlier edge.
pub open spec fn faulty(nodes: Seq<Resolved>, edges: Seq<Edge>, k: int) -> bool {
    let source = workflow::position(ids(nodes), edges[k].source@);
    let target = workflow::position(ids(nodes), edges[k].target@);
    ||| source is None
    ||| target is None
    ||| !is_argument(nodes[target->0], edges[k].input@)
    ||| taken(planned(nodes, edges, k), target->0, edges[k].input@)
}

/// No edge before `upto` is faulty.
pub open spec fn sound(nodes: Seq<Resolved>, edges: Seq<Edge>, upto: int) -> bool {
    forall|k: int| 0 <= k < upto ==> !#[trigger] faulty(nodes, edges, k)
}

/// Argument `j` of node `i` gets no value.
pub open spec fn missing(nodes: Seq<Resolved>, edges: Seq<Edge>, i: int, j: int) -> bool {
    !taken(plan(nodes, edges), i, nodes[i].arguments[j].name@)
}

/// `(i, j)` comes before `(a, b)`: an earlier node, or an earlier argument of
/// the same node.
pub open spec fn earlier(i: int, j: int, a: int, b: int) -> bool {
    i < a || (i == a && j < b)
}

/// Every argument before argument `b` of node `a` gets a value.
pub open spec fn supplied_before(nodes: Seq<Resolved>, edges: Seq<Edge>, a: int, b: int) -> bool {
    forall|i: int, j: int|
        0 <= i < nodes.len() && 0 <= j < nodes[i].arguments.len() && earlier(i, j, a, b)
            ==> !#[trigger] missing(nodes, edges, i, j)
}

/// Every argument of every node gets a value.
pub open spec fn complete(nodes: Seq<Resolved>, edges: Seq<Edge>) -> bool {
    supplied_before(nodes, edges, nodes.len() as int, 0)
}

/// The graph can be indexed: it has fewer vertices and fewer links than the
/// index type has values.
pub open spec fn fits(nodes: Seq<Resolved>, edges: Seq<Edge>) -> bool {
    &&& nodes.len() + all_literals(nodes).len() < graph::graph_capacity()
    &&& all_literals(nodes).len() + edges.len() < graph::graph_capacity()
}

/// How the assembly of a graph ends.
pub enum Verdict {
    /// The graph is too large.
    TooLarge,
    /// The edge at this position is the first faulty one.
    InvalidEdge(int),
    /// This argument of this node is the first without a value.
    MissingInput(int, int),
    /// The graph has a cycle, and this vertex, which lies on one, is the one
    /// that the sort names.
    Cycle(usize),
    /// The graph stands.
    Accepted,
}

/// Whether the assembly of the graph of these nodes and edges may end so.
/// The graph is examined in this order: the size, the edges one by one, the
/// arguments one by one, the cycles. Exactly one kind of verdict holds of any
/// nodes and edges.
pub open spec fn holds(verdict: Verdict, nodes: Seq<Resolved>, edges: Seq<Edge>) -> bool {
    match verdict {
        Verdict::TooLarge => !fits(nodes, edges),
        Verdict::InvalidEdge(k) => {
            &&& fits(nodes, edges)
            &&& 0 <= k < edges.len()
            &&& sound(nodes, edges, k)
            &&& faulty(nodes, edges, k)
        },
        Verdict::MissingInput(i, j) => {
            &&& fits(nodes, edges)
            &&& sound(nodes, edges, edges.len() as int)
            &&& 0 <= i < nodes.len()
            &&& 0 <= j < nodes[i].arguments.len()
            &&& supplied_before(nodes, edges, i, j)
            &&& missing(nodes, edges, i, j)
        },
        Verdict::Cycle(v) => {
            &&& fits(nodes, edges)
            &&& sound(nodes, edges, edges.len() as int)
            &&& complete(nodes, edges)
            &&& graph::on_cycle(ends(plan(nodes, edges)), v)
            &&& graph::toposorted(
                (nodes.len() + all_literals(nodes).len()) as nat,
                ends(plan(nodes, edges)),
            ) == Err::<Seq<usize>, usize>(v)
        },
        Verdict::Accepted => {
            &&& fits(nodes, edges)
            &&& sound(nodes, edges, edges.len() as int)
            &&& complete(nodes, edges)
            &&& !graph::has_cycle(ends(plan(nodes, edges)))
        },
    }
}

/// The vertex is the function of the node, with its output still empty.
pub open spec fn is_function_of(vertex: NodeType, node: Resolved) -> bool {
    match vertex {
        NodeType::Function(function) => {
            &&& function.node_id@ == node.node_id@
            &&& function.component_name@ == node.component_name@
            &&& function.index == node.index
            &&& function.results == node.results
            &&& function.val is None
            &&& function.params@.len() == node.arguments@.len()
            &&& forall|j: int|
                0 <= j < function.params@.len() ==> #[trigger] function.params@[j]@
                    == node.arguments@[j].name@
        },
        NodeType::Value(_) => false,
    }
}

/// The vertices are those of the nodes: the function of node `i` at `i`, then
/// the values of the literals.
pub open spec fn laid_out(vertices: Seq<NodeType>, nodes: Seq<Resolved>) -> bool {
    &&& vertices.len() == nodes.len() + all_literals(nodes).len()
    &&& forall|i: int| 0 <= i < nodes.len() ==> is_function_of(#[trigger] vertices[i], nodes[i])
    &&& forall|k: int|
        0 <= k < all_literals(nodes).len() ==> #[trigger] vertices[nodes.len() + k]
            == NodeType::Value(all_literals(nodes)[k].value)
}

/// The first arguments of a node hold no more literals than all of them.
proof fn lemma_node_literals_grow(target: usize, arguments: Seq<Argument>, a: int, b: int)
    requires
        0 <= a <= b,
    ensures
        node_literals(target, arguments, a).len() <= node_literals(target, arguments, b).len(),
    decreases b - a,
{
    if a < b {
        lemma_node_literals_grow(target, arguments, a, b - 1);
    }
}

/// The first nodes hold no more literals than all of them.
proof fn lemma_literals_grow(nodes: Seq<Resolved>, a: int, b: int)
    requires
        0 <= a <= b,
    ensures
        literals(nodes, a).len() <= literals(nodes, b).len(),
    decreases b - a,
{
    if a < b {
        lemma_literals_grow(nodes, a, b - 1);
    }
}

/// The names of the parameters that the arguments are for.
fn parameter_names(arguments: &Vec<Argument>) -> (r: Vec<InputName>)
    ensures
        r@.len() == arguments@.len(),
        forall|j: int| 0 <= j < r@.len() ==> #[trigger] r@[j]@ == arguments@[j].name@,
{
    let mut names: Vec<InputName> = Vec::new();
    let mut j: usize = 0;
    while j < arguments.len()
        invariant
            j <= arguments.len(),
            names@.len() == j,
            forall|k: int| 0 <= k < j ==> #[trigger] names@[k]@ == arguments@[k].name@,
        decreases arguments.len() - j,
    {
        names.push(arguments[j].name.clone());
        j += 1;
    }
    names
}

/// The vertex of a node's function, its output empty.
fn function_vertex(node: &Resolved) -> (r: NodeType)
    ensures
        is_function_of(r, *node),
{
    NodeType::Function(
        Function {
            component_name: node.component_name.clone(),
            index: node.index,
            node_id: node.node_id.clone(),
            params: parameter_names(&node.arguments),
            results: node.results,
            val: None,
        },
    )
}

/// The largest number of vertices, and of links, that the graph may have
/// stays below this.
pub const GRAPH_LIMIT: usize = 0xffff_ffff;

/// The vertices of the nodes and the links from their literals, or `None`
/// where there are too many vertices.
fn lay_out(nodes: &Vec<Resolved>) -> (r: Option<(Vec<NodeType>, Vec<Link>)>)
    ensures
        match r {
            Some((vertices, links)) => {
                &&& nodes@.len() + all_literals(nodes@).len() < graph::graph_capacity()
                &&& laid_out(vertices@, nodes@)
                &&& wires(links@) == literal_wires(nodes@)
                &&& forall|k: int|
                    0 <= k < links@.len() ==> nodes@.len() <= (#[trigger] links@[k]).source
                        < vertices@.len() && links@[k].target < nodes@.len()
            },
            None => nodes@.len() + all_literals(nodes@).len() >= graph::graph_capacity(),
        },
{
    let n = nodes.len();
    if n >= GRAPH_LIMIT {
        return None;
    }
    let mut vertices: Vec<NodeType> = Vec::new();
    let mut i: usize = 0;
    while i < n
        invariant
            i <= n,
            n == nodes@.len(),
            vertices@.len() == i,
            forall|k: int| 0 <= k < i ==> is_function_of(#[trigger] vertices@[k], nodes@[k]),
        decreases n - i,
    {
        vertices.push(function_vertex(&nodes[i]));
        i += 1;
    }
    let mut links: Vec<Link> = Vec::new();
    let mut i: usize = 0;
    while i < n
        invariant
            i <= n,
            n == nodes@.len(),
            n < GRAPH_LIMIT,
            vertices@.len() == n + literals(nodes@, i as int).len(),
            vertices@.len() < GRAPH_LIMIT,
            links@.len() == literals(nodes@, i as int).len(),
            forall|k: int| 0 <= k < n ==> is_function_of(#[trigger] vertices@[k], nodes@[k]),
            forall|k: int|
                0 <= k < links@.len() ==> #[trigger] vertices@[n + k] == NodeType::Value(
                    literals(nodes@, i as int)[k].value,
                ),
            forall|k: int|
                0 <= k < links@.len() ==> (#[trigger] links@[k])@ == (Wire {
                    source: (n + k) as usize,
                    target: literals(nodes@, i as int)[k].target,
                    input: literals(nodes@, i as int)[k].input,
                }),
            forall|k: int| 0 <= k < links@.len() ==> (#[trigger] links@[k]).target < n,
        decreases n - i,
    {
        let arguments = &nodes[i].arguments;
        let ghost before = literals(nodes@, i as int);
        let mut j: usize = 0;
        while j < arguments.len()
            invariant
                i < n,
                n == nodes@.len(),
                n < GRAPH_LIMIT,
                j <= arguments.len(),
                *arguments == nodes@[i as int].arguments,
                before == literals(nodes@, i as int),
                vertices@.len() == n + before.len() + node_literals(
                    i,
                    arguments@,
                    j as int,
                ).len(),
                vertices@.len() < GRAPH_LIMIT,
                links@.len() == before.len() + node_literals(i, arguments@, j as int).len(),
                forall|k: int| 0 <= k < n ==> is_function_of(#[trigger] vertices@[k], nodes@[k]),
                forall|k: int|
                    0 <= k < links@.len() ==> #[trigger] vertices@[n + k] == NodeType::Value(
                        (before + node_literals(i, arguments@, j as int))[k].value,
                    ),
                forall|k: int|
                    0 <= k < links@.len() ==> (#[trigger] links@[k])@ == (Wire {
                        source: (n + k) as usize,
                        target: (before + node_literals(i, arguments@, j as int))[k].target,
                        input: (before + node_literals(i, arguments@, j as int))[k].input,
                    }),
                forall|k: int| 0 <= k < links@.len() ==> (#[trigger] links@[k]).target < n,
            decreases arguments.len() - j,
        {
            if let Some(value) = &arguments[j].literal {
                if vertices.len() >= GRAPH_LIMIT - 1 {
                    proof {
                        lemma_node_literals_grow(
                            i,
                            arguments@,
                            j + 1,
                            arguments@.len() as int,
                        );
                        lemma_literals_grow(nodes@, i + 1, n as int);
                    }
                    return None;
                }
                links.push(
                    Link { source: vertices.len(), target: i, input: arguments[j].name.clone() },
                );
                vertices.push(NodeType::Value(value.clone()));
            }
            j += 1;
        }
        i += 1;
    }
    proof {
        assert(wires(links@) =~= literal_wires(nodes@));
    }
    Some((vertices, links))
}

/// The position of the node with that key, if there is one.
fn find_node(nodes: &Vec<Resolved>, id: &NodeId) -> (r: Option<usize>)
    ensures
        match r {
            Some(i) => i < nodes@.len() && workflow::position(ids(nodes@), id@) == Some(i as int),
            None => workflow::position(ids(nodes@), id@) is None,
        },
{
    let mut i: usize = 0;
    while i < nodes.len()
        invariant
            i <= nodes.len(),
            forall|j: int| 0 <= j < i ==> ids(nodes@)[j] != id@,
        decreases nodes.len() - i,
    {
        if nodes[i].node_id.same(id) {
            proof {
                workflow::lemma_position_found(ids(nodes@), id@, i as int);
            }
            return Some(i);
        }
        i += 1;
    }
    proof {
        workflow::lemma_position_absent(ids(nodes@), id@);
    }
    None
}

/// Whether the function of the node has a parameter of that name.
fn has_argument(node: &Resolved, input: &InputName) -> (r: bool)
    ensures
        r == is_argument(*node, input@),
{
    let mut j: usize = 0;
    while j < node.arguments.len()
        invariant
            j <= node.arguments.len(),
            forall|k: int| 0 <= k < j ==> #[trigger] node.arguments[k].name@ != input@,
        decreases node.arguments.len() - j,
    {
        if node.arguments[j].name.same(input) {
            return true;
        }
        j += 1;
    }
    false
}

/// The first link that supplies that input of that vertex, if one does.
pub fn find_supplier(links: &Vec<Link>, target: usize, input: &InputName) -> (r: Option<usize>)
    ensures
        match r {
            Some(k) => {
                &&& k < links@.len()
                &&& supplies(wires(links@), k as int, target as int, input@)
                &&& forall|j: int|
                    0 <= j < k ==> !#[trigger] supplies(wires(links@), j, target as int, input@)
            },
            None => !taken(wires(links@), target as int, input@),
        },
        r is Some <==> taken(wires(links@), target as int, input@),
{
    let mut k: usize = 0;
    while k < links.len()
        invariant
            k <= links.len(),
            forall|j: int| 0 <= j < k ==> !#[trigger] supplies(wires(links@), j, target as int, input@),
        decreases links.len() - k,
    {
        if links[k].target == target && links[k].input.same(input) {
            assert(supplies(wires(links@), k as int, target as int, input@));
            return Some(k);
        }
        k += 1;
    }
    None
}

/// Adds the links that the edges ask for, one by one, and stops at the first
/// edge that cannot be, whose position it returns.
fn wire_edges(nodes: &Vec<Resolved>, links: &mut Vec<Link>, edges: &Vec<Edge>) -> (r: Option<usize>)
    requires
        wires(old(links)@) == literal_wires(nodes@),
        old(links)@.len() + edges@.len() < graph::graph_capacity(),
        forall|k: int| 0 <= k < old(links)@.len() ==> (#[trigger] old(links)@[k]).target < nodes@.len(),
    ensures
        match r {
            None => {
                &&& sound(nodes@, edges@, edges@.len() as int)
                &&& wires(final(links)@) == plan(nodes@, edges@)
                &&& final(links)@.len() == old(links)@.len() + edges@.len()
            },
            Some(k) => k < edges@.len() && sound(nodes@, edges@, k as int) && faulty(
                nodes@,
                edges@,
                k as int,
            ),
        },
        forall|k: int|
            0 <= k < old(links)@.len() && k < final(links)@.len() ==> final(links)@[k] == old(
                links,
            )@[k],
        forall|k: int|
            old(links)@.len() <= k < final(links)@.len() ==> (#[trigger] final(links)@[k]).source
                < nodes@.len() && final(links)@[k].target < nodes@.len() && is_first_supplier(
                wires(final(links)@),
                k,
            ),
{
    let ghost first = links@;
    let mut k: usize = 0;
    while k < edges.len()
        invariant
            k <= edges.len(),
            first == old(links)@,
            first.len() + edges@.len() < graph::graph_capacity(),
            links@.len() == first.len() + k,
            wires(links@) == planned(nodes@, edges@, k as int),
            sound(nodes@, edges@, k as int),
            forall|j: int| 0 <= j < first.len() ==> links@[j] == first[j],
            forall|j: int|
                first.len() <= j < links@.len() ==> (#[trigger] links@[j]).source < nodes@.len()
                    && links@[j].target < nodes@.len() && is_first_supplier(wires(links@), j),
        decreases edges.len() - k,
    {
        let edge = &edges[k];
        let source = match find_node(nodes, &edge.source) {
            Some(source) => source,
            None => {
                return Some(k);
            },
        };
        let target = match find_node(nodes, &edge.target) {
            Some(target) => target,
            None => {
                return Some(k);
            },
        };
        assert(*edge == edges@[k as int]);
        assert(workflow::position(ids(nodes@), edges@[k as int].source@) == Some(source as int));
        assert(workflow::position(ids(nodes@), edges@[k as int].target@) == Some(target as int));
        if !has_argument(&nodes[target], &edge.input) {
            assert(!is_argument(nodes@[target as int], edges@[k as int].input@));
            assert(faulty(nodes@, edges@, k as int));
            return Some(k);
        }
        if find_supplier(links, target, &edge.input).is_some() {
            assert(faulty(nodes@, edges@, k as int));
            return Some(k);
        }
        assert(!faulty(nodes@, edges@, k as int));
        let ghost before = links@;
        links.push(Link { source, target, input: edge.input.clone() });
        proof {
            assert(wires(links@) =~= wires(before).push(edge_wire(nodes@, edges@[k as int])));
            assert forall|j: int| first.len() <= j < links@.len() implies is_first_supplier(
                wires(links@),
                j,
            ) by {
                if j < before.len() {
                    assert(is_first_supplier(wires(before), j));
                    assert forall|i: int| 0 <= i < j implies !#[trigger] supplies(
                        wires(links@),
                        i,
                        wires(links@)[j].target as int,
                        wires(links@)[j].input,
                    ) by {
                        assert(!supplies(
                            wires(before),
                            i,
                            wires(before)[j].target as int,
                            wires(before)[j].input,
                        ));
                    }
                } else {
                    assert forall|i: int| 0 <= i < j implies !#[trigger] supplies(
                        wires(links@),
                        i,
                        wires(links@)[j].target as int,
                        wires(links@)[j].input,
                    ) by {
                        if supplies(wires(before), i, target as int, edge.input@) {
                            assert(taken(wires(before), target as int, edge.input@));
                        }
                    }
                }
            }
        }
        k += 1;
    }
    None
}

/// The first argument, node by node, that no link supplies.
fn find_missing(nodes: &Vec<Resolved>, links: &Vec<Link>, Ghost(edges): Ghost<Seq<Edge>>) -> (r:
    Option<(usize, usize)>)
    requires
        wires(links@) == plan(nodes@, edges),
    ensures
        match r {
            Some((i, j)) => {
                &&& i < nodes@.len()
                &&& j < nodes@[i as int].arguments@.len()
                &&& supplied_before(nodes@, edges, i as int, j as int)
                &&& missing(nodes@, edges, i as int, j as int)
            },
            None => complete(nodes@, edges),
        },
{
    let mut i: usize = 0;
    while i < nodes.len()
        invariant
            i <= nodes.len(),
            wires(links@) == plan(nodes@, edges),
            supplied_before(nodes@, edges, i as int, 0),
        decreases nodes.len() - i,
    {
        let mut j: usize = 0;
        while j < nodes[i].arguments.len()
            invariant
                i < nodes.len(),
                j <= nodes@[i as int].arguments@.len(),
                wires(links@) == plan(nodes@, edges),
                supplied_before(nodes@, edges, i as int, j as int),
            decreases nodes@[i as int].arguments@.len() - j,
        {
            if find_supplier(links, i, &nodes[i].arguments[j].name).is_none() {
                return Some((i, j));
            }
            assert(!missing(nodes@, edges, i as int, j as int));
            j += 1;
        }
        i += 1;
    }
    None
}

/// The ends of the links.
pub fn link_ends(links: &Vec<Link>) -> (r: Vec<(usize, usize)>)
    ensures
        r@ == ends(wires(links@)),
{
    let mut pairs: Vec<(usize, usize)> = Vec::new();
    let mut k: usize = 0;
    while k < links.len()
        invariant
            k <= links.len(),
            pairs@.len() == k,
            forall|j: int| 0 <= j < k ==> pairs@[j] == (links@[j].source, links@[j].target),
        decreases links.len() - k,
    {
        pairs.push((links[k].source, links[k].target));
        k += 1;
    }
    assert(pairs@ =~= ends(wires(links@)));
    pairs
}

/// What a graph must be for a task to run it: it can be indexed, its links
/// join its vertices, every parameter of every function is supplied, no
/// output is filled, it has no cycle, and a link that comes from a function
/// is the first to supply its input.
pub open spec fn well_formed(vertices: Seq<NodeType>, links: Seq<Link>) -> bool {
    &&& vertices.len() < graph::graph_capacity()
    &&& links.len() < graph::graph_capacity()
    &&& forall|k: int|
        0 <= k < links.len() ==> (#[trigger] links[k]).source < vertices.len() && links[k].target
            < vertices.len()
    &&& forall|v: int, j: int|
        0 <= v < vertices.len() && vertices[v] is Function && 0 <= j
            < vertices[v]->Function_0.params@.len() ==> taken(
            wires(links),
            v,
            #[trigger] vertices[v]->Function_0.params@[j]@,
        )
    &&& forall|v: int|
        0 <= v < vertices.len() && (#[trigger] vertices[v]) is Function
            ==> vertices[v]->Function_0.val is None
    &&& !graph::has_cycle(ends(wires(links)))
    &&& forall|k: int|
        0 <= k < links.len() && vertices[(#[trigger] links[k]).source as int] is Function
            ==> is_first_supplier(wires(links), k) && is_parameter(
            vertices[links[k].target as int],
            links[k].input@,
        )
}

/// The vertex is a function with a parameter of that name.
pub open spec fn is_parameter(vertex: NodeType, input: Seq<char>) -> bool {
    match vertex {
        NodeType::Function(function) => exists|j: int|
            0 <= j < function.params@.len() && #[trigger] function.params@[j]@ == input,
        NodeType::Value(_) => false,
    }
}

/// A validated workflow: the compiled components and the execution graph.
pub struct Prototype {
    components: Vec<Compiled>,
    vertices: Vec<NodeType>,
    links: Vec<Link>,
}

/// The verdict that a result of the assembly stands for.
pub open spec fn verdict_of(
    result: Result<Prototype, Error>,
    nodes: Seq<Resolved>,
    edges: Seq<Edge>,
) -> bool {
    match result {
        Ok(prototype) => {
            &&& holds(Verdict::Accepted, nodes, edges)
            &&& laid_out(prototype.vertices(), nodes)
            &&& wires(prototype.links()) == plan(nodes, edges)
        },
        Err(Error::GraphTooLarge) => holds(Verdict::TooLarge, nodes, edges),
        Err(Error::InvalidEdge(edge)) => exists|k: int|
            #[trigger] holds(Verdict::InvalidEdge(k), nodes, edges) && edge == edges[k],
        Err(Error::MissingInput(name)) => exists|i: int, j: int|
            #[trigger] holds(Verdict::MissingInput(i, j), nodes, edges) && name
                == nodes[i].arguments[j].name,
        Err(Error::Cycle(vertex)) => holds(Verdict::Cycle(vertex), nodes, edges),
        Err(_) => false,
    }
}

impl Prototype {
    #[verifier::type_invariant]
    spec fn sound_graph(&self) -> bool {
        well_formed(self.vertices@, self.links@)
    }

    /// The vertices of the graph.
    pub closed spec fn vertices(&self) -> Seq<NodeType> {
        self.vertices@
    }

    /// The links of the graph.
    pub closed spec fn links(&self) -> Seq<Link> {
        self.links@
    }

    /// The compiled components.
    pub closed spec fn components(&self) -> Seq<Compiled> {
        self.components@
    }

    /// The vertices and the links of the graph, which is well formed.
    pub fn graph(&self) -> (r: (&Vec<NodeType>, &Vec<Link>))
        ensures
            r.0@ == self.vertices(),
            r.1@ == self.links(),
            well_formed(self.vertices(), self.links()),
    {
        proof {
            use_type_invariant(self);
        }
        (&self.vertices, &self.links)
    }

    /// The compiled components, each under its name.
    pub fn compiled(&self) -> (r: &Vec<Compiled>)
        ensures
            r@ == self.components(),
    {
        &self.components
    }

    /// Assembles the graph of resolved nodes and edges, and examines it: its
    /// size, its edges one by one, that every argument gets a value, and
    /// that it has no cycle. The first fault found decides the error.
    pub fn assemble(components: Vec<Compiled>, nodes: &Vec<Resolved>, edges: &Vec<Edge>) -> (r:
        Result<Prototype, Error>)
        ensures
            verdict_of(r, nodes@, edges@),
            r matches Ok(prototype) ==> prototype.components() == components@,
    {
        let (vertices, mut links) = match lay_out(nodes) {
            Some(parts) => parts,
            None => {
                return Err(Error::GraphTooLarge);
            },
        };
        assert(links@.len() == wires(links@).len());
        assert(links@.len() == all_literals(nodes@).len());
        if edges.len() >= GRAPH_LIMIT - links.len() {
            return Err(Error::GraphTooLarge);
        }
        assert(fits(nodes@, edges@));
        let ghost literal_links = links@;
        if let Some(k) = wire_edges(nodes, &mut links, edges) {
            assert(holds(Verdict::InvalidEdge(k as int), nodes@, edges@));
            return Err(Error::InvalidEdge(edges[k].clone()));
        }
        if let Some((i, j)) = find_missing(nodes, &links, Ghost(edges@)) {
            assert(holds(Verdict::MissingInput(i as int, j as int), nodes@, edges@));
            return Err(Error::MissingInput(nodes[i].arguments[j].name.clone()));
        }
        let pairs = link_ends(&links);
        match graph::topological_order(vertices.len(), &pairs) {
            Err(vertex) => Err(Error::Cycle(vertex)),
            Ok(_) => {
                proof {
                    assert forall|v: int, j: int|
                        0 <= v < vertices@.len() && vertices@[v] is Function && 0 <= j
                            < vertices@[v]->Function_0.params@.len() implies taken(
                        wires(links@),
                        v,
                        #[trigger] vertices@[v]->Function_0.params@[j]@,
                    ) by {
                        if v >= nodes@.len() {
                            assert(vertices@[nodes@.len() + (v - nodes@.len())] is Value);
                        } else {
                            assert(is_function_of(vertices@[v], nodes@[v]));
                            assert(!missing(nodes@, edges@, v, j));
                        }
                    }
                    lemma_planned(nodes@, edges@, edges@.len() as int);
                    assert forall|k: int|
                        0 <= k < links@.len() && vertices@[(#[trigger] links@[k]).source as int]
                            is Function implies is_first_supplier(wires(links@), k)
                        && is_parameter(vertices@[links@[k].target as int], links@[k].input@) by {
                        if k < literal_links.len() {
                            let s = links@[k].source;
                            assert(vertices@[nodes@.len() + (s - nodes@.len())] is Value);
                        } else {
                            let e = k - literal_links.len();
                            assert(!faulty(nodes@, edges@, e));
                            assert(wires(links@)[literal_links.len() + e] == edge_wire(
                                nodes@,
                                edges@[e],
                            ));
                            let t = links@[k].target as int;
                            assert(is_function_of(vertices@[t], nodes@[t]));
                            let j = choose|j: int|
                                0 <= j < nodes@[t].arguments.len()
                                    && #[trigger] nodes@[t].arguments[j].name@
                                    == edges@[e].input@;
                            assert(vertices@[t]->Function_0.params@[j]@ == links@[k].input@);
                        }
                    }
                }
                proof {
                    assert forall|v: int|
                        0 <= v < vertices@.len() && (#[trigger] vertices@[v]) is Function implies vertices@[v]->Function_0.val is None by {
                        if v >= nodes@.len() {
                            assert(vertices@[nodes@.len() + (v - nodes@.len())] is Value);
                        } else {
                            assert(is_function_of(vertices@[v], nodes@[v]));
                        }
                    }
                }
                Ok(Prototype { components, vertices, links })
            },
        }
    }
}

/// The dependency graph of the nodes alone: one link per edge, from the
/// position of its source to the position of its target.
pub open spec fn node_graph(nodes: Seq<Resolved>, edges: Seq<Edge>) -> Seq<(usize, usize)> {
    Seq::new(
        edges.len(),
        |k: int| (place(nodes, edges[k].source@), place(nodes, edges[k].target@)),
    )
}

/// The planned links are those of the literals, then one per edge.
pub proof fn lemma_planned(nodes: Seq<Resolved>, edges: Seq<Edge>, upto: int)
    requires
        0 <= upto,
    ensures
        planned(nodes, edges, upto).len() == literal_wires(nodes).len() + upto,
        forall|k: int|
            0 <= k < literal_wires(nodes).len() ==> planned(nodes, edges, upto)[k]
                == literal_wires(nodes)[k],
        forall|k: int|
            0 <= k < upto ==> #[trigger] planned(nodes, edges, upto)[literal_wires(nodes).len() + k]
                == edge_wire(nodes, edges[k]),
    decreases upto,
{
    if upto > 0 {
        lemma_planned(nodes, edges, upto - 1);
    }
}

/// A literal among the first arguments of a node is the literal of one of
/// them.
proof fn lemma_node_literal_is_of_an_argument(
    target: usize,
    arguments: Seq<Argument>,
    upto: int,
    k: int,
)
    requires
        0 <= upto <= arguments.len(),
        0 <= k < node_literals(target, arguments, upto).len(),
    ensures
        node_literals(target, arguments, upto)[k].target == target,
        exists|a: int|
            0 <= a < upto && (#[trigger] arguments[a]).literal is Some && node_literals(
                target,
                arguments,
                upto,
            )[k].input == arguments[a].name@,
    decreases upto,
{
    let rest = node_literals(target, arguments, upto - 1);
    if k < rest.len() {
        lemma_node_literal_is_of_an_argument(target, arguments, upto - 1, k);
        let a = choose|a: int|
            0 <= a < upto - 1 && (#[trigger] arguments[a]).literal is Some && rest[k].input
                == arguments[a].name@;
        assert(arguments[a].literal is Some);
    } else {
        assert(arguments[upto - 1].literal is Some);
    }
}

/// A literal of the nodes is the literal that a node gives to one of its
/// arguments.
pub proof fn lemma_literal_is_of_an_argument(nodes: Seq<Resolved>, upto: int, k: int)
    requires
        0 <= upto <= nodes.len(),
        nodes.len() <= usize::MAX,
        0 <= k < literals(nodes, upto).len(),
    ensures
        exists|t: int, a: int|
            0 <= t < upto && 0 <= a < nodes[t].arguments.len() && (#[trigger] nodes[t].arguments[a]).literal is Some
                && literals(nodes, upto)[k].target == t && literals(nodes, upto)[k].input
                == nodes[t].arguments[a].name@,
    decreases upto,
{
    let rest = literals(nodes, upto - 1);
    if k < rest.len() {
        lemma_literal_is_of_an_argument(nodes, upto - 1, k);
        let (t, a) = choose|t: int, a: int|
            0 <= t < upto - 1 && 0 <= a < nodes[t].arguments.len() && (#[trigger] nodes[t].arguments[a]).literal is Some
                && rest[k].target == t && rest[k].input == nodes[t].arguments[a].name@;
        assert(nodes[t].arguments[a].literal is Some);
    } else {
        let t = upto - 1;
        let arguments = nodes[t].arguments@;
        lemma_node_literal_is_of_an_argument(
            t as usize,
            arguments,
            arguments.len() as int,
            k - rest.len(),
        );
        let a = choose|a: int|
            0 <= a < arguments.len() && (#[trigger] arguments[a]).literal is Some && node_literals(
                t as usize,
                arguments,
                arguments.len() as int,
            )[k - rest.len()].input == arguments[a].name@;
        assert(nodes[t].arguments[a].literal is Some);
    }
}

/// A cycle among the nodes is a cycle of the whole graph.
pub proof fn lemma_node_cycle_is_graph_cycle(nodes: Seq<Resolved>, edges: Seq<Edge>)
    requires
        graph::has_cycle(node_graph(nodes, edges)),
    ensures
        graph::has_cycle(ends(plan(nodes, edges))),
{
    let small = node_graph(nodes, edges);
    let large = ends(plan(nodes, edges));
    let v = choose|v: usize| #[trigger] graph::on_cycle(small, v);
    let walk = choose|walk: Seq<usize>|
        #[trigger] graph::is_walk(small, walk) && walk[0] == v && walk[walk.len() - 1] == v;
    lemma_planned(nodes, edges, edges.len() as int);
    let base = literal_wires(nodes).len();
    assert forall|k: int| 0 <= k < walk.len() - 1 implies #[trigger] graph::linked(
        large,
        walk[k],
        walk[k + 1],
    ) by {
        assert(graph::linked(small, walk[k], walk[k + 1]));
        let e = choose|e: int| 0 <= e < small.len() && small[e] == (walk[k], walk[k + 1]);
        assert(plan(nodes, edges)[base + e] == edge_wire(nodes, edges[e]));
        assert(large[base + e] == (walk[k], walk[k + 1]));
    }
    assert(graph::is_walk(large, walk));
    assert(graph::on_cycle(large, v));
}

/// Which verdict holds is decided by the faults of the graph, asked for in
/// the order of the examination: its size, a faulty edge, an argument
/// without a value, a cycle.
pub proof fn lemma_verdict_by_faults(verdict: Verdict, nodes: Seq<Resolved>, edges: Seq<Edge>)
    requires
        holds(verdict, nodes, edges),
    ensures
        verdict is TooLarge <==> !fits(nodes, edges),
        verdict is InvalidEdge <==> fits(nodes, edges) && !sound(
            nodes,
            edges,
            edges.len() as int,
        ),
        verdict is MissingInput <==> fits(nodes, edges) && sound(nodes, edges, edges.len() as int)
            && !complete(nodes, edges),
        verdict is Cycle <==> fits(nodes, edges) && sound(nodes, edges, edges.len() as int)
            && complete(nodes, edges) && graph::has_cycle(ends(plan(nodes, edges))),
        verdict is Accepted <==> fits(nodes, edges) && sound(nodes, edges, edges.len() as int)
            && complete(nodes, edges) && !graph::has_cycle(ends(plan(nodes, edges))),
{
    match verdict {
        Verdict::InvalidEdge(k) => {
            assert(faulty(nodes, edges, k));
        },
        Verdict::MissingInput(i, j) => {
            assert(missing(nodes, edges, i, j));
            assert(earlier(i, j, nodes.len() as int, 0));
        },
        Verdict::Cycle(v) => {
            assert(graph::on_cycle(ends(plan(nodes, edges)), v));
        },
        _ => {},
    }
}

/// The verdict that a result of the assembly stands for: it holds, and it is
/// of the kind of the result.
pub proof fn lemma_verdict_behind(
    result: Result<Prototype, Error>,
    nodes: Seq<Resolved>,
    edges: Seq<Edge>,
) -> (verdict: Verdict)
    requires
        verdict_of(result, nodes, edges),
    ensures
        holds(verdict, nodes, edges),
        verdict is Accepted <==> result is Ok,
        verdict is TooLarge <==> result matches Err(Error::GraphTooLarge),
        verdict is InvalidEdge <==> result matches Err(Error::InvalidEdge(_)),
        verdict is MissingInput <==> result matches Err(Error::MissingInput(_)),
        verdict is Cycle <==> result matches Err(Error::Cycle(_)),
{
    match result {
        Ok(_) => Verdict::Accepted,
        Err(Error::InvalidEdge(edge)) => {
            let k = choose|k: int|
                #[trigger] holds(Verdict::InvalidEdge(k), nodes, edges) && edge == edges[k];
            Verdict::InvalidEdge(k)
        },
        Err(Error::MissingInput(name)) => {
            let (i, j) = choose|i: int, j: int|
                #[trigger] holds(Verdict::MissingInput(i, j), nodes, edges) && name
                    == nodes[i].arguments[j].name;
            Verdict::MissingInput(i, j)
        },
        Err(Error::Cycle(vertex)) => Verdict::Cycle(vertex),
        _ => Verdict::TooLarge,
    }
}

/// A manifest whose node graph has a cycle is rejected for the cycle,
/// provided nothing before the cycles rejects it: the graph can be indexed, no edge is
/// faulty and every argument gets a value.
pub proof fn lemma_cycle_is_rejected(
    result: Result<Prototype, Error>,
    nodes: Seq<Resolved>,
    edges: Seq<Edge>,
)
    requires
        verdict_of(result, nodes, edges),
        fits(nodes, edges),
        sound(nodes, edges, edges.len() as int),
        complete(nodes, edges),
        graph::has_cycle(node_graph(nodes, edges)),
    ensures
        result matches Err(Error::Cycle(_)),
{
    lemma_node_cycle_is_graph_cycle(nodes, edges);
    let verdict = lemma_verdict_behind(result, nodes, edges);
    lemma_verdict_by_faults(verdict, nodes, edges);
}

/// A graph that can be indexed, in which no edge is faulty, every argument
/// gets a value and no cycle runs, is accepted.
pub proof fn lemma_sound_graph_is_accepted(
    result: Result<Prototype, Error>,
    nodes: Seq<Resolved>,
    edges: Seq<Edge>,
)
    requires
        verdict_of(result, nodes, edges),
        fits(nodes, edges),
        sound(nodes, edges, edges.len() as int),
        complete(nodes, edges),
        !graph::has_cycle(ends(plan(nodes, edges))),
    ensures
        result is Ok,
{
    let verdict = lemma_verdict_behind(result, nodes, edges);
    lemma_verdict_by_faults(verdict, nodes, edges);
}

/// A graph whose nodes depend on each other in a cycle is never accepted.
pub proof fn lemma_cycle_is_never_accepted(
    result: Result<Prototype, Error>,
    nodes: Seq<Resolved>,
    edges: Seq<Edge>,
)
    requires
        verdict_of(result, nodes, edges),
        graph::has_cycle(node_graph(nodes, edges)),
    ensures
        result is Err,
{
    lemma_node_cycle_is_graph_cycle(nodes, edges);
    let verdict = lemma_verdict_behind(result, nodes, edges);
    lemma_verdict_by_faults(verdict, nodes, edges);
}

/// A graph in which an argument of a node gets no value is never accepted.
pub proof fn lemma_missing_input_is_never_accepted(
    result: Result<Prototype, Error>,
    nodes: Seq<Resolved>,
    edges: Seq<Edge>,
    i: int,
    j: int,
)
    requires
        verdict_of(result, nodes, edges),
        0 <= i < nodes.len(),
        0 <= j < nodes[i].arguments.len(),
        missing(nodes, edges, i, j),
    ensures
        result is Err,
{
    assert(earlier(i, j, nodes.len() as int, 0));
    let verdict = lemma_verdict_behind(result, nodes, edges);
    lemma_verdict_by_faults(verdict, nodes, edges);
}

/// A manifest in which an argument of a node gets no value, neither from a
/// literal nor over an edge, is rejected for the missing input, provided no
/// earlier fault rejects it: the graph can be indexed and no edge is faulty.
pub proof fn lemma_missing_input_is_rejected(
    result: Result<Prototype, Error>,
    nodes: Seq<Resolved>,
    edges: Seq<Edge>,
    i: int,
    j: int,
)
    requires
        verdict_of(result, nodes, edges),
        fits(nodes, edges),
        sound(nodes, edges, edges.len() as int),
        0 <= i < nodes.len(),
        0 <= j < nodes[i].arguments.len(),
        missing(nodes, edges, i, j),
    ensures
        result matches Err(Error::MissingInput(_)),
{
    assert(earlier(i, j, nodes.len() as int, 0));
    let verdict = lemma_verdict_behind(result, nodes, edges);
    lemma_verdict_by_faults(verdict, nodes, edges);
}

/// Two verdicts that hold of the same nodes and edges are of the same kind,
/// and name the same edge, the same argument or the same vertex.
pub proof fn lemma_verdict_is_unique(
    a: Verdict,
    b: Verdict,
    nodes: Seq<Resolved>,
    edges: Seq<Edge>,
)
    requires
        holds(a, nodes, edges),
        holds(b, nodes, edges),
    ensures
        a is TooLarge <==> b is TooLarge,
        a is Accepted <==> b is Accepted,
        a is Cycle <==> b is Cycle,
        a is Cycle ==> a == b,
        a is InvalidEdge ==> a == b,
        a is MissingInput ==> a == b,
{
    lemma_verdict_by_faults(a, nodes, edges);
    lemma_verdict_by_faults(b, nodes, edges);
    match (a, b) {
        (Verdict::InvalidEdge(k), Verdict::InvalidEdge(l)) => {
            assert(faulty(nodes, edges, k));
            assert(faulty(nodes, edges, l));
        },
        (Verdict::MissingInput(i, j), Verdict::MissingInput(x, y)) => {
            assert(missing(nodes, edges, i, j));
            assert(missing(nodes, edges, x, y));
            assert(earlier(i, j, x, y) || earlier(x, y, i, j) || (i == x && j == y));
        },
        _ => {},
    }
}

} // verus!
