//! A task: one run of a prototype.
//!
//! The task decides; whoever drives it makes the calls. It walks the graph in
//! topological order, gathers the inputs of the next function and hands out
//! the call. Told how the call ended, it keeps the output and goes on. Every
//! decision leaves an event in the task's log, in the order the decisions
//! were made.

use crate::graph;
use crate::names::ComponentName;
use crate::names::NodeId;
use crate::prototype::ends;
use crate::prototype::find_supplier;
use crate::prototype::is_first_supplier;
use crate::prototype::link_ends;
use crate::prototype::supplies;
use crate::prototype::well_formed;
use crate::prototype::wires;
use crate::prototype::Link;
use crate::prototype::NodeType;
use crate::prototype::Prototype;
use crate::vm;
use std::sync::Arc;
use vstd::prelude::*;
use vstd::string::*;
use wasmtime::component::ComponentExportIndex;
use wasmtime::component::Val;

verus! {

/// What happened to a node.
#[derive(Clone, Debug)]
pub enum Event {
    /// The call failed, or was not made because an input had no value.
    ExecutionFailed(NodeId, String),
    /// The call is about to be made, with these inputs.
    ExecutionStarted(NodeId, Vec<Val>),
    /// The call returned this value.
    ExecutionSucceeded(NodeId, Val),
}

/// An event together with the vertex of the function it is about.
#[derive(Clone, Debug)]
pub struct Emitted {
    pub origin: usize,
    pub event: Event,
}

/// A call to make.
#[derive(Debug)]
pub struct Call {
    /// The vertex of the function.
    pub vertex: usize,
    pub component_name: ComponentName,
    pub index: ComponentExportIndex,
    pub node_id: NodeId,
    /// The inputs, one for each declared parameter, in their order.
    pub params: Vec<Val>,
    /// The number of declared results.
    pub results: usize,
}

/// What the driver of a task is to do next.
#[derive(Debug)]
pub enum Step {
    /// Make this call and report how it ended.
    Invoke(Call),
    /// A call is under way: report how it ended first.
    Waiting,
    /// Nothing is left to do.
    Done,
}

/// The number of events that the channel of a task holds for a subscriber
/// that lags; older ones are lost to it.
pub const CHANNEL_CAPACITY: usize = 32;

/// The message of the failure of a node that was not called because one of
/// its inputs had no value.
pub const INPUT_UNAVAILABLE: &'static str = "an input has no value: its source produced none";

/// What stands for a value that cannot be written as a literal.
pub const OPAQUE_VALUE: &'static str = "<opaque>";

/// The text that a value is written as: its literal, or the stand-in where
/// a handle to a resource occurs in it or the VM reports that it cannot
/// write it.
pub open spec fn written(value: Val) -> Seq<char> {
    if vm::has_handle(value) {
        OPAQUE_VALUE@
    } else {
        match vm::wave_text(value) {
            Some(text) => text,
            None => OPAQUE_VALUE@,
        }
    }
}

/// The value as literal text, or the stand-in where the VM cannot write it.
fn value_text(value: &Val) -> (r: String)
    ensures
        r@ == written(*value),
{
    if vm::holds_handle(value) {
        String::from_str(OPAQUE_VALUE)
    } else {
        match vm::render(value) {
            Ok(text) => text,
            Err(_) => String::from_str(OPAQUE_VALUE),
        }
    }
}

/// The line that reports a failure.
pub open spec fn failure_line(id: NodeId, message: Seq<char>) -> Seq<char> {
    NodeId::prefix() + id@ + " failed with error: "@ + message
}

/// The start of the line that reports a start; the inputs follow, separated
/// by commas, and a closing bracket ends the line.
pub open spec fn start_line(id: NodeId) -> Seq<char> {
    NodeId::prefix() + id@ + " started with params: ["@
}

/// The first `upto` values as they are written in a line: each as its text,
/// a comma and a blank between two.
pub open spec fn joined(values: Seq<Val>, upto: int) -> Seq<char>
    decreases upto,
{
    if upto <= 0 {
        Seq::empty()
    } else if upto == 1 {
        written(values[0])
    } else {
        joined(values, upto - 1) + ", "@ + written(values[upto - 1])
    }
}

/// The start of the line that reports a success; the output follows.
pub open spec fn success_line(id: NodeId) -> Seq<char> {
    NodeId::prefix() + id@ + " succeeded with output: "@
}

impl Event {
    /// The event as a line of text: the node, what happened to it, and the
    /// values or the message, values written as literals.
    pub fn to_string(&self) -> (r: String)
        ensures
            match *self {
                Event::ExecutionFailed(id, message) => r@ == failure_line(id, message@),
                Event::ExecutionStarted(id, values) => r@ == start_line(id) + joined(
                    values@,
                    values@.len() as int,
                ) + "]"@,
                Event::ExecutionSucceeded(id, value) => r@ == success_line(id) + written(value),
            },
    {
        match self {
            Event::ExecutionFailed(id, message) => id.to_string().concat(
                " failed with error: ",
            ).concat(message.as_str()),
            Event::ExecutionStarted(id, values) => {
                let mut line = id.to_string().concat(" started with params: [");
                let ghost head = line@;
                let mut i: usize = 0;
                assert(line@ =~= head + joined(values@, 0));
                while i < values.len()
                    invariant
                        i <= values.len(),
                        line@ == head + joined(values@, i as int),
                    decreases values.len() - i,
                {
                    let ghost before = line@;
                    if i > 0 {
                        line.append(", ");
                    }
                    let text = value_text(&values[i]);
                    line.append(text.as_str());
                    proof {
                        if i > 0 {
                            assert(line@ =~= head + (joined(values@, i as int) + ", "@ + written(
                                values@[i as int],
                            )));
                        } else {
                            assert(line@ =~= head + written(values@[0]));
                        }
                    }
                    i += 1;
                }
                line.append("]");
                line
            },
            Event::ExecutionSucceeded(id, value) => {
                let text = value_text(value);
                id.to_string().concat(" succeeded with output: ").concat(text.as_str())
            },
        }
    }
}

/// The node that an event is about.
pub open spec fn subject(event: Event) -> NodeId {
    match event {
        Event::ExecutionFailed(id, _) => id,
        Event::ExecutionStarted(id, _) => id,
        Event::ExecutionSucceeded(id, _) => id,
    }
}

/// The value that a vertex supplies, if it has one: a value vertex its
/// value, a function its output.
pub open spec fn available(vertices: Seq<NodeType>, outputs: Seq<Option<Val>>, v: int) -> Option<
    Val,
> {
    match vertices[v] {
        NodeType::Value(value) => Some(value),
        NodeType::Function(_) => outputs[v],
    }
}

/// Link `k` is the first that supplies the input `input` of vertex `v`.
pub open spec fn first_supplies(links: Seq<Link>, k: int, v: int, input: Seq<char>) -> bool {
    &&& 0 <= k < links.len()
    &&& supplies(wires(links), k, v, input)
    &&& forall|j: int| 0 <= j < k ==> !#[trigger] supplies(wires(links), j, v, input)
}

/// `values` are the inputs of the function at vertex `v`: for each of the
/// first `upto` parameters, the value that the source of its first supplier
/// has.
pub open spec fn gathered(
    vertices: Seq<NodeType>,
    links: Seq<Link>,
    outputs: Seq<Option<Val>>,
    v: int,
    values: Seq<Val>,
    upto: int,
) -> bool {
    &&& values.len() == upto
    &&& forall|j: int, k: int|
        0 <= j < upto && #[trigger] first_supplies(
            links,
            k,
            v,
            #[trigger] vertices[v]->Function_0.params@[j]@,
        ) ==> available(vertices, outputs, links[k].source as int) == Some(values[j])
}

/// Some parameter of the function at vertex `v` has a first supplier whose
/// source has no value.
pub open spec fn blocked(
    vertices: Seq<NodeType>,
    links: Seq<Link>,
    outputs: Seq<Option<Val>>,
    v: int,
) -> bool {
    exists|j: int, k: int|
        0 <= j < vertices[v]->Function_0.params@.len() && #[trigger] first_supplies(
            links,
            k,
            v,
            #[trigger] vertices[v]->Function_0.params@[j]@,
        ) && available(vertices, outputs, links[k].source as int) is None
}

/// The function at vertex `v` has succeeded before position `k` of the log.
pub open spec fn succeeded_before(log: Seq<Emitted>, v: int, k: int) -> bool {
    exists|j: int| 0 <= j < k && #[trigger] log[j].event is ExecutionSucceeded && log[j].origin == v
}

/// What holds between the graph, the outputs and the log of a task.
///
/// Every event is about a function of the graph and carries its node. An
/// output is only there once its function has succeeded. And a function only
/// starts once every function that a link leads from to it has succeeded.
pub open spec fn coherent(
    vertices: Seq<NodeType>,
    links: Seq<Link>,
    outputs: Seq<Option<Val>>,
    log: Seq<Emitted>,
) -> bool {
    &&& outputs.len() == vertices.len()
    &&& forall|k: int|
        0 <= k < log.len() ==> (#[trigger] log[k]).origin < vertices.len()
            && vertices[log[k].origin as int] is Function && subject(log[k].event)@
            == vertices[log[k].origin as int]->Function_0.node_id@
    &&& forall|v: int|
        0 <= v < outputs.len() && (#[trigger] outputs[v]) is Some ==> vertices[v] is Function
            && succeeded_before(log, v, log.len() as int)
    &&& forall|k: int, l: int|
        0 <= k < log.len() && 0 <= l < links.len() && (#[trigger] log[k]).event
            is ExecutionStarted && (#[trigger] links[l]).target == log[k].origin
            && vertices[links[l].source as int] is Function ==> succeeded_before(
            log,
            links[l].source as int,
            k,
        )
}

/// One run of a prototype.
pub struct Task {
    prototype: Arc<Prototype>,
    outputs: Vec<Option<Val>>,
    order: Vec<usize>,
    cursor: usize,
    pending: Option<usize>,
    log: Vec<Emitted>,
    delivered: usize,
}

/// The inputs of the function at vertex `v`, or `None` where one of them has
/// no value.
fn gather(vertices: &Vec<NodeType>, links: &Vec<Link>, outputs: &Vec<Option<Val>>, v: usize) -> (r:
    Option<Vec<Val>>)
    requires
        well_formed(vertices@, links@),
        outputs@.len() == vertices@.len(),
        v < vertices@.len(),
        vertices@[v as int] is Function,
    ensures
        match r {
            Some(values) => gathered(
                vertices@,
                links@,
                outputs@,
                v as int,
                values@,
                vertices@[v as int]->Function_0.params@.len() as int,
            ),
            None => blocked(vertices@, links@, outputs@, v as int),
        },
        r is Some ==> !blocked(vertices@, links@, outputs@, v as int),
{
    let function = match &vertices[v] {
        NodeType::Function(function) => function,
        NodeType::Value(_) => {
            proof {
                assert(false);
            }
            return None;
        },
    };
    let mut values: Vec<Val> = Vec::new();
    let mut j: usize = 0;
    while j < function.params.len()
        invariant
            well_formed(vertices@, links@),
            outputs@.len() == vertices@.len(),
            v < vertices@.len(),
            vertices@[v as int] == NodeType::Function(*function),
            j <= function.params@.len(),
            gathered(vertices@, links@, outputs@, v as int, values@, j as int),
        decreases function.params@.len() - j,
    {
        let k = match find_supplier(links, v, &function.params[j]) {
            Some(k) => k,
            None => {
                proof {
                    assert(false);
                }
                return None;
            },
        };
        assert(first_supplies(links@, k as int, v as int, function.params@[j as int]@));
        let source = links[k].source;
        let value = match &vertices[source] {
            NodeType::Value(value) => value.clone(),
            NodeType::Function(_) => match &outputs[source] {
                Some(value) => value.clone(),
                None => {
                    return None;
                },
            },
        };
        let ghost before = values@;
        values.push(value);
        proof {
            assert forall|i: int, l: int|
                0 <= i < j + 1 && #[trigger] first_supplies(
                    links@,
                    l,
                    v as int,
                    #[trigger] vertices@[v as int]->Function_0.params@[i]@,
                ) implies available(vertices@, outputs@, links@[l].source as int) == Some(
                values@[i],
            ) by {
                if i < j {
                    assert(values@[i] == before[i]);
                } else {
                    lemma_first_supplier_is_one(
                        links@,
                        k as int,
                        l,
                        v as int,
                        function.params@[j as int]@,
                    );
                }
            }
        }
        j += 1;
    }
    proof {
        assert forall|i: int, l: int|
            0 <= i < function.params@.len() && #[trigger] first_supplies(
                links@,
                l,
                v as int,
                #[trigger] vertices@[v as int]->Function_0.params@[i]@,
            ) implies available(vertices@, outputs@, links@[l].source as int) is Some by {}
    }
    Some(values)
}

/// An input has one first supplier.
pub proof fn lemma_first_supplier_is_one(links: Seq<Link>, a: int, b: int, v: int, input: Seq<char>)
    requires
        first_supplies(links, a, v, input),
        first_supplies(links, b, v, input),
    ensures
        a == b,
{
    if a < b {
        assert(!supplies(wires(links), a, v, input));
    }
    if b < a {
        assert(!supplies(wires(links), b, v, input));
    }
}

/// What a scan of the order finds from a position on.
pub struct Scan {
    /// The position behind the function that is to be called, or the end of
    /// the order.
    pub cursor: int,
    /// The functions that were passed over because an input had no value.
    pub skipped: Seq<usize>,
    /// The function that is to be called, if one is left.
    pub call: Option<usize>,
}

/// Scans the order from `cursor` on for the next function to call. Values
/// and functions that have their output are passed by. A function with an
/// input that has no value is passed over and noted. The first function whose
/// inputs all have values is the one to call.
pub open spec fn scan(
    vertices: Seq<NodeType>,
    links: Seq<Link>,
    outputs: Seq<Option<Val>>,
    order: Seq<usize>,
    cursor: int,
) -> Scan
    decreases order.len() - cursor,
{
    if cursor < 0 || cursor >= order.len() {
        Scan { cursor, skipped: Seq::empty(), call: None }
    } else {
        let v = order[cursor];
        if !(vertices[v as int] is Function) || outputs[v as int] is Some {
            scan(vertices, links, outputs, order, cursor + 1)
        } else if blocked(vertices, links, outputs, v as int) {
            let rest = scan(vertices, links, outputs, order, cursor + 1);
            Scan { cursor: rest.cursor, skipped: seq![v] + rest.skipped, call: rest.call }
        } else {
            Scan { cursor: cursor + 1, skipped: Seq::empty(), call: Some(v) }
        }
    }
}

/// A scan of an empty order finds nothing: a task of a graph without
/// vertices is done at once, and notes nothing.
pub proof fn lemma_nothing_to_scan(
    vertices: Seq<NodeType>,
    links: Seq<Link>,
    outputs: Seq<Option<Val>>,
    order: Seq<usize>,
    cursor: int,
)
    requires
        order.len() == 0,
    ensures
        scan(vertices, links, outputs, order, cursor).call is None,
        scan(vertices, links, outputs, order, cursor).skipped.len() == 0,
{
}

/// The event that notes a function passed over.
pub open spec fn is_skip(emitted: Emitted, vertices: Seq<NodeType>, v: usize) -> bool {
    &&& emitted.origin == v
    &&& emitted.event matches Event::ExecutionFailed(id, message)
    &&& id == vertices[v as int]->Function_0.node_id
    &&& message@ == INPUT_UNAVAILABLE@
}

/// The event that notes the start of a call.
pub open spec fn is_start(emitted: Emitted, vertices: Seq<NodeType>, call: Call) -> bool {
    &&& emitted.origin == call.vertex
    &&& emitted.event matches Event::ExecutionStarted(id, values)
    &&& id == vertices[call.vertex as int]->Function_0.node_id
    &&& values@ == call.params@
}

/// The call is the call of the function at its vertex.
pub open spec fn is_call_of(call: Call, vertices: Seq<NodeType>) -> bool {
    &&& call.vertex < vertices.len()
    &&& vertices[call.vertex as int] matches NodeType::Function(function)
    &&& call.component_name == function.component_name
    &&& call.index == function.index
    &&& call.node_id == function.node_id
    &&& call.results == function.results
}

/// What one step of a task that waits for no call does: it scans the order
/// from its cursor on, notes every function it passes over with a failure,
/// and either starts the call of the function it finds, with the inputs
/// gathered for it, or is done.
pub open spec fn advanced(
    vertices: Seq<NodeType>,
    links: Seq<Link>,
    outputs: Seq<Option<Val>>,
    order: Seq<usize>,
    cursor: int,
    log: Seq<Emitted>,
    next_cursor: int,
    next_pending: Option<usize>,
    next_log: Seq<Emitted>,
    step: Step,
) -> bool {
    let found = scan(vertices, links, outputs, order, cursor);
    &&& next_cursor == found.cursor
    &&& next_pending == found.call
    &&& next_log.len() == log.len() + found.skipped.len() + (if found.call is Some {
        1int
    } else {
        0int
    })
    &&& next_log.subrange(0, log.len() as int) == log
    &&& forall|i: int|
        0 <= i < found.skipped.len() ==> is_skip(
            #[trigger] next_log[log.len() + i],
            vertices,
            found.skipped[i],
        )
    &&& match found.call {
        Some(v) => {
            &&& step matches Step::Invoke(call)
            &&& call.vertex == v
            &&& is_call_of(call, vertices)
            &&& gathered(
                vertices,
                links,
                outputs,
                v as int,
                call.params@,
                vertices[v as int]->Function_0.params@.len() as int,
            )
            &&& is_start(next_log[next_log.len() - 1], vertices, call)
        },
        None => step is Done,
    }
}

/// The two events say the same: the same thing happened to the same node,
/// with the same values or the same message.
pub open spec fn same_event(a: Event, b: Event) -> bool {
    match (a, b) {
        (Event::ExecutionFailed(x, m), Event::ExecutionFailed(y, n)) => x == y && m@ == n@,
        (Event::ExecutionStarted(x, v), Event::ExecutionStarted(y, w)) => x == y && v@ == w@,
        (Event::ExecutionSucceeded(x, v), Event::ExecutionSucceeded(y, w)) => x == y && v == w,
        _ => false,
    }
}

/// A copy of the event.
fn copy_event(event: &Event) -> (r: Event)
    ensures
        same_event(r, *event),
{
    match event {
        Event::ExecutionFailed(id, message) => Event::ExecutionFailed(id.clone(), message.clone()),
        Event::ExecutionStarted(id, values) => Event::ExecutionStarted(
            id.clone(),
            copy_values(values),
        ),
        Event::ExecutionSucceeded(id, value) => Event::ExecutionSucceeded(
            id.clone(),
            value.clone(),
        ),
    }
}

/// A copy of the values.
fn copy_values(values: &Vec<Val>) -> (r: Vec<Val>)
    ensures
        r@ == values@,
{
    let mut copy: Vec<Val> = Vec::new();
    let mut i: usize = 0;
    while i < values.len()
        invariant
            i <= values.len(),
            copy@ == values@.subrange(0, i as int),
        decreases values.len() - i,
    {
        copy.push(values[i].clone());
        assert(copy@ == values@.subrange(0, i + 1));
        i += 1;
    }
    assert(values@.subrange(0, values@.len() as int) == values@);
    copy
}

/// Pushing events that are about functions of the graph, and are no starts,
/// keeps the log coherent.
proof fn lemma_push_keeps_coherent(
    vertices: Seq<NodeType>,
    links: Seq<Link>,
    outputs: Seq<Option<Val>>,
    log: Seq<Emitted>,
    emitted: Emitted,
)
    requires
        coherent(vertices, links, outputs, log),
        emitted.origin < vertices.len(),
        vertices[emitted.origin as int] is Function,
        subject(emitted.event)@ == vertices[emitted.origin as int]->Function_0.node_id@,
        emitted.event is ExecutionStarted ==> forall|l: int|
            0 <= l < links.len() && (#[trigger] links[l]).target == emitted.origin
                && vertices[links[l].source as int] is Function ==> succeeded_before(
                log,
                links[l].source as int,
                log.len() as int,
            ),
    ensures
        coherent(vertices, links, outputs, log.push(emitted)),
{
    let after = log.push(emitted);
    assert forall|v: int|
        0 <= v < outputs.len() && (#[trigger] outputs[v]) is Some implies vertices[v] is Function
        && succeeded_before(after, v, after.len() as int) by {
        let j = choose|j: int|
            0 <= j < log.len() && #[trigger] log[j].event is ExecutionSucceeded && log[j].origin
                == v;
        assert(after[j].event is ExecutionSucceeded && after[j].origin == v);
    }
    assert forall|k: int, l: int|
        0 <= k < after.len() && 0 <= l < links.len() && (#[trigger] after[k]).event
            is ExecutionStarted && (#[trigger] links[l]).target == after[k].origin
            && vertices[links[l].source as int] is Function implies succeeded_before(
        after,
        links[l].source as int,
        k,
    ) by {
        let s = links[l].source as int;
        if k < log.len() {
            assert(log[k] == after[k]);
            assert(succeeded_before(log, s, k));
        } else {
            assert(succeeded_before(log, s, log.len() as int));
        }
        let j = choose|j: int|
            0 <= j < k && #[trigger] log[j].event is ExecutionSucceeded && log[j].origin == s;
        assert(after[j].event is ExecutionSucceeded && after[j].origin == s);
    }
}

/// Topological execution: when a function starts, every function that a
/// link leads from to it has succeeded before, and the event of that
/// success carries the node of that function.
pub proof fn lemma_sources_succeed_first(
    vertices: Seq<NodeType>,
    links: Seq<Link>,
    outputs: Seq<Option<Val>>,
    log: Seq<Emitted>,
    k: int,
    l: int,
)
    requires
        coherent(vertices, links, outputs, log),
        0 <= k < log.len(),
        log[k].event is ExecutionStarted,
        0 <= l < links.len(),
        links[l].target == log[k].origin,
        vertices[links[l].source as int] is Function,
    ensures
        exists|j: int|
            0 <= j < k && #[trigger] log[j].event is ExecutionSucceeded && log[j].origin
                == links[l].source && subject(log[j].event)@
                == vertices[links[l].source as int]->Function_0.node_id@,
{
    assert(succeeded_before(log, links[l].source as int, k));
    let j = choose|j: int|
        0 <= j < k && #[trigger] log[j].event is ExecutionSucceeded && log[j].origin
            == links[l].source;
    assert(log[j].origin < vertices.len());
}

impl Task {
    #[verifier::type_invariant]
    spec fn sane(&self) -> bool {
        &&& coherent(self.prototype.vertices(), self.prototype.links(), self.outputs@, self.log@)
        &&& graph::is_topological_order(
            self.order@,
            self.prototype.vertices().len(),
            ends(wires(self.prototype.links())),
        )
        &&& self.cursor <= self.order@.len()
        &&& self.delivered <= self.log@.len()
        &&& match self.pending {
            Some(v) => v < self.prototype.vertices().len() && self.prototype.vertices()[v as int]
                is Function && self.outputs@[v as int] is None,
            None => true,
        }
    }

    /// The prototype that the task runs.
    pub closed spec fn prototype(&self) -> Prototype {
        *self.prototype
    }

    /// The outputs of the functions, by vertex; empty where a function has
    /// not succeeded, and for values.
    pub closed spec fn outputs(&self) -> Seq<Option<Val>> {
        self.outputs@
    }

    /// The order in which the vertices are visited.
    pub closed spec fn order(&self) -> Seq<usize> {
        self.order@
    }

    /// The position in the order that the task has come to.
    pub closed spec fn cursor(&self) -> int {
        self.cursor as int
    }

    /// The function whose call is under way, if one is.
    pub closed spec fn pending(&self) -> Option<usize> {
        self.pending
    }

    /// The events so far, in their order.
    pub closed spec fn log(&self) -> Seq<Emitted> {
        self.log@
    }

    /// The number of events that have been handed out for delivery.
    pub closed spec fn delivered(&self) -> int {
        self.delivered as int
    }

    /// A task for the prototype: no output is there, nothing has happened,
    /// and the vertices will be visited in the topological order that the
    /// sort gives the graph, which is the same for every task of it.
    pub fn new(prototype: Arc<Prototype>) -> (r: Task)
        ensures
            r.prototype() == *prototype,
            r.log().len() == 0,
            r.cursor() == 0,
            r.delivered() == 0,
            r.pending() is None,
            r.outputs().len() == prototype.vertices().len(),
            forall|v: int| 0 <= v < r.outputs().len() ==> r.outputs()[v] is None,
            graph::is_topological_order(
                r.order(),
                prototype.vertices().len(),
                ends(wires(prototype.links())),
            ),
            graph::toposorted(prototype.vertices().len(), ends(wires(prototype.links())))
                == Ok::<Seq<usize>, usize>(r.order()),
    {
        let (vertices, links) = prototype.graph();
        let mut outputs: Vec<Option<Val>> = Vec::new();
        let mut v: usize = 0;
        while v < vertices.len()
            invariant
                v <= vertices.len(),
                outputs@.len() == v,
                forall|i: int| 0 <= i < v ==> outputs@[i] is None,
            decreases vertices.len() - v,
        {
            outputs.push(None);
            v += 1;
        }
        let pairs = link_ends(links);
        let order = match graph::topological_order(vertices.len(), &pairs) {
            Ok(order) => order,
            Err(_) => {
                proof {
                    assert(false);
                }
                Vec::new()
            },
        };
        Task {
            prototype,
            outputs,
            order,
            cursor: 0,
            pending: None,
            log: Vec::new(),
            delivered: 0,
        }
    }

    /// What to do next. The task comes back with the step.
    ///
    /// While a call is under way the task waits and changes nothing.
    /// Otherwise it goes on in the order: it notes every function that
    /// cannot be called because an input has no value, and hands out the
    /// call of the first function whose inputs all have values, which it
    /// notes as started; or it is done.
    pub fn next(self) -> (r: (Task, Step))
        ensures
            r.0.prototype() == self.prototype(),
            r.0.order() == self.order(),
            r.0.outputs() == self.outputs(),
            r.0.delivered() == self.delivered(),
            self.pending() is Some ==> r.1 is Waiting && r.0.log() == self.log() && r.0.cursor()
                == self.cursor() && r.0.pending() == self.pending(),
            self.pending() is None ==> advanced(
                self.prototype().vertices(),
                self.prototype().links(),
                self.outputs(),
                self.order(),
                self.cursor(),
                self.log(),
                r.0.cursor(),
                r.0.pending(),
                r.0.log(),
                r.1,
            ),
    {
        proof {
            use_type_invariant(&self);
        }
        if self.pending.is_some() {
            return (self, Step::Waiting);
        }
        let Task { prototype, outputs, order, mut cursor, pending, mut log, delivered } = self;
        let ghost first = log@;
        let ghost start = cursor as int;
        let ghost skipped: Seq<usize> = Seq::empty();
        while cursor < order.len()
            invariant
                prototype == self.prototype,
                order == self.order,
                outputs == self.outputs,
                pending is None,
                self.pending is None,
                delivered == self.delivered,
                delivered <= log@.len(),
                cursor <= order@.len(),
                start == self.cursor,
                first == self.log@,
                coherent(prototype.vertices(), prototype.links(), outputs@, log@),
                graph::is_topological_order(
                    order@,
                    prototype.vertices().len(),
                    ends(wires(prototype.links())),
                ),
                log@.len() == first.len() + skipped.len(),
                log@.subrange(0, first.len() as int) == first,
                forall|i: int|
                    0 <= i < skipped.len() ==> is_skip(
                        #[trigger] log@[first.len() + i],
                        prototype.vertices(),
                        skipped[i],
                    ),
                scan(prototype.vertices(), prototype.links(), outputs@, order@, start) == (Scan {
                    skipped: skipped + scan(
                        prototype.vertices(),
                        prototype.links(),
                        outputs@,
                        order@,
                        cursor as int,
                    ).skipped,
                    ..scan(prototype.vertices(), prototype.links(), outputs@, order@, cursor as int)
                }),
            decreases order@.len() - cursor,
        {
            let (vertices, links) = prototype.graph();
            let v = order[cursor];
            if let NodeType::Function(function) = &vertices[v] {
                if outputs[v].is_none() {
                    match gather(vertices, links, &outputs, v) {
                        Some(params) => {
                            let call = Call {
                                vertex: v,
                                component_name: function.component_name.clone(),
                                index: function.index,
                                node_id: function.node_id.clone(),
                                params,
                                results: function.results,
                            };
                            let emitted = Emitted {
                                origin: v,
                                event: Event::ExecutionStarted(
                                    function.node_id.clone(),
                                    copy_values(&call.params),
                                ),
                            };
                            proof {
                                assert forall|l: int|
                                    0 <= l < links@.len() && (#[trigger] links@[l]).target == v
                                        && vertices@[links@[l].source as int]
                                        is Function implies succeeded_before(
                                    log@,
                                    links@[l].source as int,
                                    log@.len() as int,
                                ) by {
                                    let input = links@[l].input@;
                                    let j = choose|j: int|
                                        0 <= j < function.params@.len()
                                            && #[trigger] function.params@[j]@ == input;
                                    assert(is_first_supplier(wires(links@), l));
                                    assert(first_supplies(
                                        links@,
                                        l,
                                        v as int,
                                        function.params@[j]@,
                                    ));
                                }
                                lemma_push_keeps_coherent(
                                    vertices@,
                                    links@,
                                    outputs@,
                                    log@,
                                    emitted,
                                );
                                assert(skipped + Seq::<usize>::empty() == skipped);
                            }
                            let ghost before = log@;
                            log.push(emitted);
                            proof {
                                assert(log@.subrange(0, first.len() as int) =~= first);
                                assert forall|i: int| 0 <= i < skipped.len() implies is_skip(
                                    #[trigger] log@[first.len() + i],
                                    prototype.vertices(),
                                    skipped[i],
                                ) by {
                                    assert(log@[first.len() + i] == before[first.len() + i]);
                                }
                                assert(!blocked(vertices@, links@, outputs@, v as int));
                                assert(is_start(log@[log@.len() - 1], vertices@, call));
                                assert(is_call_of(call, vertices@));
                            }
                            return (
                                Task {
                                    prototype,
                                    outputs,
                                    order,
                                    cursor: cursor + 1,
                                    pending: Some(v),
                                    log,
                                    delivered,
                                },
                                Step::Invoke(call),
                            );
                        },
                        None => {
                            let emitted = Emitted {
                                origin: v,
                                event: Event::ExecutionFailed(
                                    function.node_id.clone(),
                                    String::from_str(INPUT_UNAVAILABLE),
                                ),
                            };
                            proof {
                                lemma_push_keeps_coherent(
                                    vertices@,
                                    links@,
                                    outputs@,
                                    log@,
                                    emitted,
                                );
                                let rest = scan(vertices@, links@, outputs@, order@, cursor + 1);
                                assert(skipped + (seq![v] + rest.skipped) == skipped.push(v)
                                    + rest.skipped);
                            }
                            let ghost before = log@;
                            log.push(emitted);
                            proof {
                                assert(log@.subrange(0, first.len() as int) =~= first);
                                assert forall|i: int| 0 <= i < skipped.len() + 1 implies is_skip(
                                    #[trigger] log@[first.len() + i],
                                    prototype.vertices(),
                                    skipped.push(v)[i],
                                ) by {
                                    if i < skipped.len() {
                                        assert(log@[first.len() + i] == before[first.len() + i]);
                                    }
                                }
                                skipped = skipped.push(v);
                            }
                        },
                    }
                }
            }
            cursor = cursor + 1;
        }
        proof {
            assert(skipped + Seq::<usize>::empty() == skipped);
        }
        (Task { prototype, outputs, order, cursor, pending: None, log, delivered }, Step::Done)
    }

    /// Tells the task how the call that is under way ended.
    ///
    /// A call that returned results has succeeded: the first result is the
    /// output of the function, and the success is noted with it. A call that
    /// returned no result leaves no output and no event. A call that failed
    /// is noted as failed, with the message, and the run goes on. Where no
    /// call is under way, nothing changes.
    pub fn complete(self, outcome: Result<Vec<Val>, String>) -> (r: Task)
        ensures
            r.prototype() == self.prototype(),
            r.order() == self.order(),
            r.cursor() == self.cursor(),
            r.delivered() == self.delivered(),
            r.pending() is None,
            match self.pending() {
                None => r.log() == self.log() && r.outputs() == self.outputs(),
                Some(v) => match outcome {
                    Ok(results) => if results@.len() > 0 {
                        &&& r.outputs() == self.outputs().update(v as int, Some(results@[0]))
                        &&& r.log() == self.log().push(
                            Emitted {
                                origin: v,
                                event: Event::ExecutionSucceeded(
                                    self.prototype().vertices()[v as int]->Function_0.node_id,
                                    results@[0],
                                ),
                            },
                        )
                    } else {
                        r.log() == self.log() && r.outputs() == self.outputs()
                    },
                    Err(message) => {
                        &&& r.outputs() == self.outputs()
                        &&& r.log() == self.log().push(
                            Emitted {
                                origin: v,
                                event: Event::ExecutionFailed(
                                    self.prototype().vertices()[v as int]->Function_0.node_id,
                                    message,
                                ),
                            },
                        )
                    },
                },
            },
    {
        proof {
            use_type_invariant(&self);
        }
        let Task { prototype, mut outputs, order, cursor, pending, mut log, delivered } = self;
        let v = match pending {
            Some(v) => v,
            None => {
                return Task { prototype, outputs, order, cursor, pending: None, log, delivered };
            },
        };
        let (vertices, links) = prototype.graph();
        let function = match &vertices[v] {
            NodeType::Function(function) => function,
            NodeType::Value(_) => {
                proof {
                    assert(false);
                }
                return Task { prototype, outputs, order, cursor, pending: None, log, delivered };
            },
        };
        match outcome {
            Ok(results) => {
                if results.len() > 0 {
                    let emitted = Emitted {
                        origin: v,
                        event: Event::ExecutionSucceeded(
                            function.node_id.clone(),
                            results[0].clone(),
                        ),
                    };
                    proof {
                        lemma_push_keeps_coherent(vertices@, links@, outputs@, log@, emitted);
                    }
                    let ghost before = outputs@;
                    log.push(emitted);
                    outputs.set(v, Some(results[0].clone()));
                    proof {
                        assert(outputs@ =~= before.update(v as int, Some(results@[0])));
                        assert forall|u: int|
                            0 <= u < outputs@.len() && (#[trigger] outputs@[u])
                                is Some implies vertices@[u] is Function && succeeded_before(
                            log@,
                            u,
                            log@.len() as int,
                        ) by {
                            if u == v {
                                assert(log@[log@.len() - 1].event is ExecutionSucceeded
                                    && log@[log@.len() - 1].origin == v);
                            } else {
                                assert(before[u] is Some);
                            }
                        }
                    }
                }
            },
            Err(message) => {
                let emitted = Emitted {
                    origin: v,
                    event: Event::ExecutionFailed(function.node_id.clone(), message),
                };
                proof {
                    lemma_push_keeps_coherent(vertices@, links@, outputs@, log@, emitted);
                }
                log.push(emitted);
            },
        }
        Task { prototype, outputs, order, cursor, pending: None, log, delivered }
    }

    /// Hands out, for delivery, the events that were noted since events
    /// were last handed out, in their order. Every event is handed out
    /// once: a subscriber that is sent what is handed out, and loses none
    /// of it, sees the log.
    pub fn take_events(self) -> (r: (Task, Vec<Event>))
        ensures
            r.0.prototype() == self.prototype(),
            r.0.order() == self.order(),
            r.0.outputs() == self.outputs(),
            r.0.cursor() == self.cursor(),
            r.0.pending() == self.pending(),
            r.0.log() == self.log(),
            r.0.delivered() == self.log().len(),
            0 <= self.delivered() <= self.log().len(),
            r.1@.len() == self.log().len() - self.delivered(),
            forall|i: int|
                0 <= i < r.1@.len() ==> same_event(
                    #[trigger] r.1@[i],
                    self.log()[self.delivered() + i].event,
                ),
    {
        proof {
            use_type_invariant(&self);
        }
        let Task { prototype, outputs, order, cursor, pending, log, delivered } = self;
        let mut events: Vec<Event> = Vec::new();
        let mut i: usize = delivered;
        while i < log.len()
            invariant
                delivered <= i <= log@.len(),
                events@.len() == i - delivered,
                forall|k: int|
                    0 <= k < events@.len() ==> same_event(
                        #[trigger] events@[k],
                        log@[delivered + k].event,
                    ),
            decreases log@.len() - i,
        {
            events.push(copy_event(&log[i].event));
            i += 1;
        }
        let handed = log.len();
        (Task { prototype, outputs, order, cursor, pending, log, delivered: handed }, events)
    }

    /// Whether a call is under way.
    pub fn is_waiting(&self) -> (r: bool)
        ensures
            r == self.pending() is Some,
    {
        self.pending.is_some()
    }

    /// The events so far, in their order. The log is coherent with the graph
    /// and the outputs.
    pub fn events(&self) -> (r: &Vec<Emitted>)
        ensures
            r@ == self.log(),
            coherent(
                self.prototype().vertices(),
                self.prototype().links(),
                self.outputs(),
                self.log(),
            ),
    {
        proof {
            use_type_invariant(self);
        }
        &self.log
    }

    /// The output of the function at a vertex, if it has succeeded.
    pub fn output(&self, vertex: usize) -> (r: Option<&Val>)
        ensures
            match r {
                Some(value) => vertex < self.outputs().len() && self.outputs()[vertex as int]
                    == Some(*value),
                None => vertex >= self.outputs().len() || self.outputs()[vertex as int] is None,
            },
    {
        if vertex < self.outputs.len() {
            match &self.outputs[vertex] {
                Some(value) => Some(value),
                None => None,
            }
        } else {
            None
        }
    }
}

/// The events that the first `upto` handings hand out, one behind the
/// other, where handing `i` hands out the events of the log from mark `i` up
/// to mark `i + 1`: the marks are what had been delivered before each
/// handing, and after the last.
pub open spec fn handed_out(log: Seq<Emitted>, marks: Seq<int>, upto: int) -> Seq<Emitted>
    decreases upto,
{
    if upto <= 0 {
        Seq::empty()
    } else {
        handed_out(log, marks, upto - 1) + log.subrange(marks[upto - 1], marks[upto])
    }
}

/// Handing the log out in batches loses no event, repeats none and reorders
/// none: where the marks start at the beginning of the log and never fall,
/// what the handings hand out, one behind the other, is the log up to the
/// last mark.
pub proof fn lemma_batches_make_the_log(log: Seq<Emitted>, marks: Seq<int>, upto: int)
    requires
        0 <= upto < marks.len(),
        marks[0] == 0,
        forall|i: int| 0 <= i < upto ==> marks[i] <= #[trigger] marks[i + 1],
        marks[upto] <= log.len(),
    ensures
        0 <= marks[upto],
        handed_out(log, marks, upto) == log.subrange(0, marks[upto]),
    decreases upto,
{
    if upto > 0 {
        assert(marks[upto - 1] <= marks[(upto - 1) + 1]);
        lemma_batches_make_the_log(log, marks, upto - 1);
        assert(log.subrange(0, marks[upto - 1]) + log.subrange(marks[upto - 1], marks[upto])
            =~= log.subrange(0, marks[upto]));
    } else {
        assert(handed_out(log, marks, 0) =~= log.subrange(0, 0));
    }
}

} // verus!
