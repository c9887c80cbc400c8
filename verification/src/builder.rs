//! Building a prototype from a manifest, node by node.
//!
//! The builder decides; whoever drives it does the loading. It resolves the
//! nodes in the order of the manifest until a node uses a component that is
//! not compiled yet, and then asks for that component's bytes. Given the
//! bytes it compiles them and goes on. When every node is resolved it
//! assembles the graph and examines it.

use crate::file_source::FileSource;
use crate::names::ComponentName;
use crate::names::InputName;
use crate::names::NodeId;
use crate::prototype::verdict_of;
use crate::prototype::Argument;
use crate::prototype::Compiled;
use crate::prototype::Error;
use crate::prototype::Prototype;
use crate::prototype::Resolved;
use crate::vm;
use crate::vm::Export;
use crate::vm::Parameter;
use crate::workflow;
use crate::workflow::Entry;
use crate::workflow::Node;
use crate::workflow::Workflow;
use vstd::prelude::*;
use wasmtime::component::Component;
use wasmtime::component::ComponentExportIndex;
use wasmtime::component::Val;
use wasmtime::Engine;

verus! {

/// The node gives a literal to that input.
pub open spec fn assigns(node: Node, input: Seq<char>) -> bool {
    workflow::position(workflow::assigned_inputs(node.with@), input) is Some
}

/// The text of the literal that the node gives to that input, if it gives
/// one.
pub open spec fn literal_text(node: Node, input: Seq<char>) -> Option<Seq<char>> {
    match workflow::position(workflow::assigned_inputs(node.with@), input) {
        Some(i) => Some(node.with@[i].literal@),
        None => None,
    }
}

/// What the VM reads from the literal that the node gives to a parameter:
/// nothing where the node gives none, else the value or the VM's message.
pub open spec fn reading(node: Node, parameter: Parameter) -> Option<Result<Val, Seq<char>>> {
    match literal_text(node, parameter.name@) {
        Some(text) => Some(vm::decoded(parameter.ty, text)),
        None => None,
    }
}

/// The node gives parameter `j` a literal that the VM cannot read.
pub open spec fn unreadable(node: Node, params: Seq<Parameter>, j: int) -> bool {
    reading(node, params[j]) matches Some(Err(_))
}

/// The VM can read every literal that the node gives to one of the first
/// `upto` parameters.
pub open spec fn readable(node: Node, params: Seq<Parameter>, upto: int) -> bool {
    forall|k: int| 0 <= k < upto ==> !#[trigger] unreadable(node, params, k)
}

/// The argument that stands for a parameter: its name, and the value that the
/// VM read from the node's literal for it, if the node gives one.
pub open spec fn is_argument_for(argument: Argument, node: Node, parameter: Parameter) -> bool {
    &&& argument.name@ == parameter.name@
    &&& argument.literal == match reading(node, parameter) {
        Some(Ok(value)) => Some(value),
        _ => None::<Val>,
    }
}

/// The resolved node is the node of the manifest, called through the
/// function with that handle, those parameters and that many results: the
/// same key and component, and one argument for each parameter, in their
/// order.
pub open spec fn faithful(
    resolved: Resolved,
    id: NodeId,
    node: Node,
    index: ComponentExportIndex,
    params: Seq<Parameter>,
    results: usize,
) -> bool {
    &&& resolved.node_id@ == id@
    &&& resolved.component_name@ == node.uses@
    &&& resolved.index == index
    &&& resolved.results == results
    &&& resolved.arguments@.len() == params.len()
    &&& forall|j: int|
        0 <= j < params.len() ==> is_argument_for(#[trigger] resolved.arguments@[j], node, params[j])
}

/// The names of the compiled components, in the order they were compiled.
pub open spec fn component_names(components: Seq<Compiled>) -> Seq<Seq<char>> {
    Seq::new(components.len(), |i: int| components[i].name@)
}

/// A component is compiled under that name.
pub open spec fn is_compiled(components: Seq<Compiled>, name: Seq<char>) -> bool {
    workflow::position(component_names(components), name) is Some
}

/// What the component that is compiled under the node's component name
/// exports under the name of the node's function; nothing where no component
/// is compiled under that name.
pub open spec fn export_for(components: Seq<Compiled>, node: Node) -> Option<Export> {
    match workflow::position(component_names(components), node.uses@) {
        Some(c) => vm::exported(components[c].component, None, node.run.0@),
        None => None,
    }
}

/// The resolved node is the entry of the manifest, called through the
/// function that the compiled components export for it.
pub open spec fn faithful_entry(resolved: Resolved, entry: Entry, components: Seq<Compiled>) -> bool {
    match export_for(components, entry.node) {
        Some(Export::Function { index, params, results }) => faithful(
            resolved,
            entry.id,
            entry.node,
            index,
            params@,
            results,
        ),
        _ => false,
    }
}

/// The key of node `i` is taken by an earlier node.
pub open spec fn repeated(manifest: Workflow, i: int) -> bool {
    workflow::position(workflow::node_ids(manifest.nodes@), manifest.nodes@[i].id@) != Some(i)
}

/// Where the resolving of the nodes comes to a halt.
pub enum Halt {
    /// At this node: its component is no dependency of the manifest.
    Missing(int),
    /// At this node: its component is a dependency and is not compiled yet.
    Load(int),
    /// At this node: its key is taken by an earlier node, or its function is
    /// no function export of its component.
    Invalid(int),
    /// At this node: the VM cannot read one of its literals.
    Unreadable(int),
    /// Behind the last node: all are resolved.
    End,
}

/// Where the resolving of the nodes from node `from` on comes to a halt,
/// given the components that are compiled. The nodes are taken in their
/// order, and of each node is asked, in this order: whether its key is its
/// own, whether its component is a dependency, whether the component is
/// compiled, whether its function is exported as a function, and whether its
/// literals can be read.
pub open spec fn halt(manifest: Workflow, components: Seq<Compiled>, from: int) -> Halt
    decreases manifest.nodes@.len() - from,
{
    if from < 0 || from >= manifest.nodes@.len() {
        Halt::End
    } else {
        let node = manifest.nodes@[from].node;
        if repeated(manifest, from) {
            Halt::Invalid(from)
        } else if workflow::position(
            workflow::dependency_names(manifest.dependencies@),
            node.uses@,
        ) is None {
            Halt::Missing(from)
        } else if !is_compiled(components, node.uses@) {
            Halt::Load(from)
        } else {
            match export_for(components, node) {
                Some(Export::Function { index, params, results }) => if readable(
                    node,
                    params@,
                    params@.len() as int,
                ) {
                    halt(manifest, components, from + 1)
                } else {
                    Halt::Unreadable(from)
                },
                _ => Halt::Invalid(from),
            }
        }
    }
}

/// The error names the first literal of the node that the VM cannot read,
/// and carries the VM's message.
pub open spec fn reports_unreadable(
    node: Node,
    params: Seq<Parameter>,
    name: Seq<char>,
    message: Seq<char>,
) -> bool {
    exists|j: int|
        0 <= j < params.len() && readable(node, params, j) && name == (#[trigger] params[j]).name@
            && reading(node, params[j]) == Some(Err::<Val, Seq<char>>(message))
}

/// Node `i` of the manifest uses the component of that name.
pub open spec fn uses(manifest: Workflow, i: int, name: Seq<char>) -> bool {
    0 <= i < manifest.nodes@.len() && manifest.nodes@[i].node.uses@ == name
}

/// Some node of the manifest uses the component of that name.
pub open spec fn is_used(manifest: Workflow, name: Seq<char>) -> bool {
    exists|i: int| uses(manifest, i, name)
}

/// Every compiled component is one that a node of the manifest uses.
pub open spec fn all_used(manifest: Workflow, components: Seq<Compiled>) -> bool {
    forall|k: int| 0 <= k < components.len() ==> is_used(manifest, (#[trigger] components[k]).name@)
}

/// The result is what the assembly of the manifest's graph ends with: every
/// node resolved through the function that the compiled components export
/// for it, in the order of the manifest, and the edges as they are.
pub open spec fn built(
    manifest: Workflow,
    components: Seq<Compiled>,
    result: Result<Prototype, Error>,
) -> bool {
    exists|nodes: Seq<Resolved>|
        {
            &&& nodes.len() == manifest.nodes@.len()
            &&& forall|i: int|
                0 <= i < nodes.len() ==> faithful_entry(
                    #[trigger] nodes[i],
                    manifest.nodes@[i],
                    components,
                )
            &&& #[trigger] verdict_of(result, nodes, manifest.edges@)
        }
}

/// The position of the node with that key in the manifest, or zero where no
/// node has the key.
pub open spec fn node_place(manifest: Workflow, id: Seq<char>) -> usize {
    match workflow::position(workflow::node_ids(manifest.nodes@), id) {
        Some(i) => i as usize,
        None => 0,
    }
}

/// The dependency graph of the manifest's nodes: one link per edge, from the
/// position of its source to the position of its target.
pub open spec fn manifest_graph(manifest: Workflow) -> Seq<(usize, usize)> {
    Seq::new(
        manifest.edges@.len(),
        |k: int|
            (
                node_place(manifest, manifest.edges@[k].source@),
                node_place(manifest, manifest.edges@[k].target@),
            ),
    )
}

/// Acyclicity: a manifest whose nodes depend on each other in a cycle is
/// never built into a prototype.
pub proof fn lemma_cyclic_manifest_is_never_built(
    manifest: Workflow,
    components: Seq<Compiled>,
    result: Result<Prototype, Error>,
)
    requires
        built(manifest, components, result),
        crate::graph::has_cycle(manifest_graph(manifest)),
    ensures
        result is Err,
{
    let nodes = choose|nodes: Seq<Resolved>|
        {
            &&& nodes.len() == manifest.nodes@.len()
            &&& forall|i: int|
                0 <= i < nodes.len() ==> faithful_entry(
                    #[trigger] nodes[i],
                    manifest.nodes@[i],
                    components,
                )
            &&& #[trigger] verdict_of(result, nodes, manifest.edges@)
        };
    assert forall|i: int| 0 <= i < nodes.len() implies crate::prototype::ids(nodes)[i]
        == workflow::node_ids(manifest.nodes@)[i] by {
        assert(faithful_entry(nodes[i], manifest.nodes@[i], components));
    }
    assert(crate::prototype::ids(nodes) =~= workflow::node_ids(manifest.nodes@));
    assert(crate::prototype::node_graph(nodes, manifest.edges@) =~= manifest_graph(manifest));
    crate::prototype::lemma_cycle_is_never_accepted(result, nodes, manifest.edges@);
}

/// An edge of the manifest carries a value to that input of the node with
/// that key.
pub open spec fn wired(manifest: Workflow, id: Seq<char>, input: Seq<char>) -> bool {
    exists|k: int|
        0 <= k < manifest.edges@.len() && (#[trigger] manifest.edges@[k]).target@ == id
            && manifest.edges@[k].input@ == input
}

/// Parameter `j` of the function of node `i` gets no value: the node gives
/// it no literal, and no edge carries a value to it.
pub open spec fn unsupplied(manifest: Workflow, components: Seq<Compiled>, i: int, j: int) -> bool {
    match export_for(components, manifest.nodes@[i].node) {
        Some(Export::Function { params, .. }) => {
            &&& 0 <= j < params@.len()
            &&& !assigns(manifest.nodes@[i].node, params@[j].name@)
            &&& !wired(manifest, manifest.nodes@[i].id@, params@[j].name@)
        },
        _ => false,
    }
}

/// Missing inputs: a manifest in which a parameter of a node's function gets
/// no value, neither from a literal nor over an edge, is never built into a
/// prototype.
pub proof fn lemma_manifest_with_a_missing_input_is_never_built(
    manifest: Workflow,
    components: Seq<Compiled>,
    result: Result<Prototype, Error>,
    i: int,
    j: int,
)
    requires
        built(manifest, components, result),
        0 <= i < manifest.nodes@.len(),
        unsupplied(manifest, components, i, j),
    ensures
        result is Err,
{
    let nodes = choose|nodes: Seq<Resolved>|
        {
            &&& nodes.len() == manifest.nodes@.len()
            &&& forall|i: int|
                0 <= i < nodes.len() ==> faithful_entry(
                    #[trigger] nodes[i],
                    manifest.nodes@[i],
                    components,
                )
            &&& #[trigger] verdict_of(result, nodes, manifest.edges@)
        };
    let edges = manifest.edges@;
    let verdict = crate::prototype::lemma_verdict_behind(result, nodes, edges);
    crate::prototype::lemma_verdict_by_faults(verdict, nodes, edges);
    if result is Ok {
        let node = manifest.nodes@[i].node;
        let params = export_for(components, node)->Some_0->Function_params@;
        assert(faithful_entry(nodes[i], manifest.nodes@[i], components));
        let name = nodes[i].arguments@[j].name@;
        assert(is_argument_for(nodes[i].arguments@[j], node, params[j]));
        assert(name == params[j].name@);
        let plan = crate::prototype::plan(nodes, edges);
        crate::prototype::lemma_planned(nodes, edges, edges.len() as int);
        let base = crate::prototype::literal_wires(nodes).len();
        assert forall|k: int| 0 <= k < plan.len() implies !crate::prototype::supplies(
            plan,
            k,
            i,
            name,
        ) by {
            if crate::prototype::supplies(plan, k, i, name) {
                if k < base {
                    crate::prototype::lemma_literal_is_of_an_argument(
                        nodes,
                        nodes.len() as int,
                        k,
                    );
                    let (t, a) = choose|t: int, a: int|
                        0 <= t < nodes.len() && 0 <= a < nodes[t].arguments.len() && (
                        #[trigger] nodes[t].arguments[a]).literal is Some
                            && crate::prototype::all_literals(nodes)[k].target == t
                            && crate::prototype::all_literals(nodes)[k].input
                            == nodes[t].arguments[a].name@;
                    assert(plan[k] == crate::prototype::literal_wires(nodes)[k]);
                    assert(t == i);
                    assert(is_argument_for(nodes[i].arguments@[a], node, params[a]));
                    assert(assigns(node, params[j].name@));
                } else {
                    let e = k - base;
                    assert(plan[base + e] == crate::prototype::edge_wire(nodes, edges[e]));
                    assert(!crate::prototype::faulty(nodes, edges, e));
                    workflow::lemma_position(crate::prototype::ids(nodes), edges[e].target@);
                    assert(crate::prototype::ids(nodes)[i] == nodes[i].node_id@);
                    assert(edges[e].target@ == manifest.nodes@[i].id@);
                    assert(wired(manifest, manifest.nodes@[i].id@, params[j].name@));
                }
            }
        }
        assert(crate::prototype::missing(nodes, edges, i, j));
        crate::prototype::lemma_missing_input_is_never_accepted(result, nodes, edges, i, j);
    }
}

/// What becomes of the value that the VM read from a literal, or of its
/// complaint: the value is the argument; the complaint is the error, under
/// the name of the input.
pub fn literal_value(input: &InputName, outcome: Result<Val, String>) -> (r: Result<Val, Error>)
    ensures
        match outcome {
            Ok(value) => r == Ok::<Val, Error>(value),
            Err(message) => r matches Err(Error::LiteralDecode(name, text)) && name == *input
                && text == message,
        },
{
    match outcome {
        Ok(value) => Ok(value),
        Err(message) => Err(Error::LiteralDecode(input.clone(), message)),
    }
}

/// Resolves a node, given what its component exports under the name of its
/// function.
///
/// Anything but a function makes the node invalid. For a function, every
/// parameter becomes an argument; where the node gives the parameter a
/// literal, the VM reads it as a value of the parameter's type, and the value
/// it reads is the argument's. The first literal that the VM cannot read is
/// the error, with the VM's message.
pub fn resolve_node(id: &NodeId, node: &Node, export: Option<Export>) -> (r: Result<
    Resolved,
    Error,
>)
    ensures
        !(export matches Some(Export::Function { .. })) ==> (r matches Err(
            Error::InvalidNode(key),
        ) && key == *id),
        export matches Some(Export::Function { index, params, results }) ==> (readable(
            *node,
            params@,
            params@.len() as int,
        ) ==> (r matches Ok(resolved) && faithful(
            resolved,
            *id,
            *node,
            index,
            params@,
            results,
        ))),
        export matches Some(Export::Function { params, .. }) ==> (!readable(
            *node,
            params@,
            params@.len() as int,
        ) ==> (r matches Err(Error::LiteralDecode(name, message)) && reports_unreadable(
            *node,
            params@,
            name@,
            message@,
        ))),
{
    match &export {
        Some(Export::Function { index, params, results }) => {
            let mut arguments: Vec<Argument> = Vec::new();
            let mut j: usize = 0;
            while j < params.len()
                invariant
                    j <= params.len(),
                    export == Some(
                        Export::Function { index: *index, params: *params, results: *results },
                    ),
                    arguments@.len() == j,
                    readable(*node, params@, j as int),
                    forall|k: int|
                        0 <= k < j ==> is_argument_for(
                            #[trigger] arguments@[k],
                            *node,
                            params@[k],
                        ),
                decreases params.len() - j,
            {
                let name = InputName(params[j].name.clone());
                let literal = match node.literal(&name) {
                    Some(text) => {
                        match literal_value(&name, vm::decode(&params[j].ty, text.as_str())) {
                            Ok(value) => Some(value),
                            Err(error) => {
                                proof {
                                    assert(export matches Some(
                                        Export::Function { params: p, .. },
                                    ) && p == *params);
                                    assert(unreadable(*node, params@, j as int));
                                    assert(error matches Error::LiteralDecode(n, m)
                                        && reports_unreadable(*node, params@, n@, m@));
                                }
                                return Err(error);
                            },
                        }
                    },
                    None => None,
                };
                arguments.push(Argument { name, literal });
                proof {
                    assert(!unreadable(*node, params@, j as int));
                }
                j += 1;
            }
            Ok(
                Resolved {
                    node_id: id.clone(),
                    component_name: node.uses.clone(),
                    index: *index,
                    arguments,
                    results: *results,
                },
            )
        },
        _ => Err(Error::InvalidNode(id.clone())),
    }
}

/// The compiled component of that name, if there is one: the first that was
/// compiled under it.
pub fn find_component<'a>(components: &'a Vec<Compiled>, name: &ComponentName) -> (r: Option<
    &'a Compiled,
>)
    ensures
        match workflow::position(component_names(components@), name@) {
            Some(i) => 0 <= i < components@.len() && r == Some(&components@[i]),
            None => r is None,
        },
{
    let mut i: usize = 0;
    while i < components.len()
        invariant
            i <= components.len(),
            forall|k: int| 0 <= k < i ==> component_names(components@)[k] != name@,
        decreases components.len() - i,
    {
        if components[i].name.same(name) {
            proof {
                workflow::lemma_position_found(component_names(components@), name@, i as int);
            }
            return Some(&components[i]);
        }
        i += 1;
    }
    proof {
        workflow::lemma_position_absent(component_names(components@), name@);
    }
    None
}

/// A component that is compiled stays the one that is found under its name
/// when another is compiled after it.
pub proof fn lemma_compiled_stays(components: Seq<Compiled>, added: Compiled, name: Seq<char>)
    requires
        is_compiled(components, name),
    ensures
        workflow::position(component_names(components.push(added)), name) == workflow::position(
            component_names(components),
            name,
        ),
{
    let before = component_names(components);
    let after = component_names(components.push(added));
    workflow::lemma_position(before, name);
    let i = workflow::position(before, name)->0;
    assert(after[i] == before[i]);
    assert forall|j: int| 0 <= j < i implies after[j] != name by {
        assert(after[j] == before[j]);
    }
    workflow::lemma_position_found(after, name, i);
}

/// A prototype in the making.
pub struct Builder {
    workflow: Workflow,
    components: Vec<Compiled>,
    resolved: Vec<Resolved>,
}

/// A builder that waits for the bytes of a component.
pub struct Pending {
    builder: Builder,
    component: ComponentName,
    source: FileSource,
}

/// How far the building has come.
pub enum Stage {
    /// A component must be loaded before the building can go on.
    Load(Pending),
    /// The prototype is built.
    Ready(Prototype),
}

/// What holds of a builder: the nodes it has resolved are the first nodes of
/// the manifest, each resolved through what the compiled components export
/// for it, and every compiled component is one that a node uses.
pub open spec fn in_step(
    manifest: Workflow,
    components: Seq<Compiled>,
    resolved: Seq<Resolved>,
) -> bool {
    &&& resolved.len() <= manifest.nodes@.len()
    &&& forall|i: int|
        0 <= i < resolved.len() ==> faithful_entry(
            #[trigger] resolved[i],
            manifest.nodes@[i],
            components,
        )
    &&& all_used(manifest, components)
}

impl Builder {
    #[verifier::type_invariant]
    spec fn sane(&self) -> bool {
        in_step(self.workflow, self.components@, self.resolved@)
    }

    /// The manifest that is being built.
    pub closed spec fn manifest(&self) -> Workflow {
        self.workflow
    }

    /// The number of nodes resolved so far.
    pub closed spec fn done(&self) -> nat {
        self.resolved@.len()
    }

    /// The components compiled so far, in the order they were compiled.
    pub closed spec fn components(&self) -> Seq<Compiled> {
        self.components@
    }

    /// Starts the building of a manifest: nothing is compiled, nothing
    /// resolved.
    pub fn new(workflow: Workflow) -> (r: Builder)
        ensures
            r.manifest() == workflow,
            r.done() == 0,
            r.components().len() == 0,
    {
        Builder { workflow, components: Vec::new(), resolved: Vec::new() }
    }

    /// Goes on with the building: resolves node after node, in the order of
    /// the manifest, until the resolving comes to a halt, and answers by
    /// where it halts.
    ///
    /// At a node whose component is no dependency, that is the error. At a
    /// node whose component is a dependency and not compiled yet, the
    /// component is asked for, and nothing else has changed. At a node whose
    /// key an earlier node has, or whose function is no function export, the
    /// node is invalid. At a node with a literal that the VM cannot read, the
    /// first such literal is the error. Behind the last node the graph is
    /// assembled from the resolved nodes and examined, and the prototype
    /// holds the components that were compiled.
    pub fn resume(self) -> (r: Result<Stage, Error>)
        ensures
            halt(self.manifest(), self.components(), self.done() as int) matches Halt::Missing(i)
                ==> (r matches Err(Error::DependencyNotFound(name)) && name
                == self.manifest().nodes@[i].node.uses),
            halt(self.manifest(), self.components(), self.done() as int) matches Halt::Load(i)
                ==> (r matches Ok(Stage::Load(pending)) && {
                &&& pending.manifest() == self.manifest()
                &&& pending.components() == self.components()
                &&& pending.done() == i
                &&& pending.wanted() == self.manifest().nodes@[i].node.uses
                &&& match workflow::position(
                    workflow::dependency_names(self.manifest().dependencies@),
                    pending.wanted()@,
                ) {
                    Some(d) => pending.origin() == self.manifest().dependencies@[d].source,
                    None => false,
                }
            }),
            halt(self.manifest(), self.components(), self.done() as int) matches Halt::Invalid(i)
                ==> (r matches Err(Error::InvalidNode(id)) && id == self.manifest().nodes@[i].id),
            halt(
                self.manifest(),
                self.components(),
                self.done() as int,
            ) matches Halt::Unreadable(i) ==> (r matches Err(Error::LiteralDecode(name, message))
                && export_for(self.components(), self.manifest().nodes@[i].node) matches Some(
                Export::Function { params, .. },
            ) && reports_unreadable(self.manifest().nodes@[i].node, params@, name@, message@)),
            halt(self.manifest(), self.components(), self.done() as int) is End ==> (match r {
                Ok(Stage::Ready(prototype)) => prototype.components() == self.components()
                    && all_used(self.manifest(), prototype.components()) && built(
                    self.manifest(),
                    self.components(),
                    Ok(prototype),
                ),
                Ok(Stage::Load(_)) => false,
                Err(error) => built(self.manifest(), self.components(), Err(error)),
            }),
    {
        proof {
            use_type_invariant(&self);
        }
        let Builder { workflow, components, mut resolved } = self;
        while resolved.len() < workflow.nodes.len()
            invariant
                in_step(workflow, components@, resolved@),
                workflow == self.manifest(),
                components@ == self.components(),
                halt(workflow, components@, self.done() as int) == halt(
                    workflow,
                    components@,
                    resolved@.len() as int,
                ),
            decreases workflow.nodes@.len() - resolved@.len(),
        {
            let at = resolved.len();
            let entry = &workflow.nodes[at];
            match workflow.position(&entry.id) {
                Some(first) => {
                    if first != at {
                        return Err(Error::InvalidNode(entry.id.clone()));
                    }
                },
                None => {
                    return Err(Error::InvalidNode(entry.id.clone()));
                },
            }
            let source = match workflow.dependency(&entry.node.uses) {
                Some(source) => source,
                None => {
                    return Err(Error::DependencyNotFound(entry.node.uses.clone()));
                },
            };
            let export = match find_component(&components, &entry.node.uses) {
                Some(compiled) => vm::find_export(&compiled.component, None, entry.node.run.0.as_str()),
                None => {
                    let component = entry.node.uses.clone();
                    let source = source.clone();
                    assert(uses(workflow, at as int, component@));
                    return Ok(
                        Stage::Load(
                            Pending {
                                builder: Builder { workflow, components, resolved },
                                component,
                                source,
                            },
                        ),
                    );
                },
            };
            assert(export == export_for(components@, entry.node));
            match resolve_node(&entry.id, &entry.node, export) {
                Ok(node) => {
                    resolved.push(node);
                },
                Err(error) => {
                    return Err(error);
                },
            }
        }
        match Prototype::assemble(components, &resolved, &workflow.edges) {
            Ok(prototype) => {
                proof {
                    assert(verdict_of(Ok(prototype), resolved@, workflow.edges@));
                    assert(built(workflow, self.components(), Ok(prototype)));
                }
                Ok(Stage::Ready(prototype))
            },
            Err(error) => {
                proof {
                    assert(verdict_of(Err(error), resolved@, workflow.edges@));
                    assert(built(workflow, self.components(), Err(error)));
                }
                Err(error)
            },
        }
    }
}

impl Pending {
    #[verifier::type_invariant]
    spec fn wants_a_used_component(&self) -> bool {
        is_used(self.builder.workflow, self.component@)
    }

    /// The component whose bytes are wanted.
    pub closed spec fn wanted(&self) -> ComponentName {
        self.component
    }

    /// Where the bytes of the wanted component come from.
    pub closed spec fn origin(&self) -> FileSource {
        self.source
    }

    /// The component whose bytes are wanted.
    pub fn component(&self) -> (r: &ComponentName)
        ensures
            *r == self.wanted(),
    {
        &self.component
    }

    /// Where the bytes of the wanted component come from.
    pub fn source(&self) -> (r: &FileSource)
        ensures
            *r == self.origin(),
    {
        &self.source
    }

    /// The manifest that is being built.
    pub closed spec fn manifest(&self) -> Workflow {
        self.builder.manifest()
    }

    /// The number of nodes resolved so far.
    pub closed spec fn done(&self) -> nat {
        self.builder.done()
    }

    /// The components compiled so far, in the order they were compiled.
    pub closed spec fn components(&self) -> Seq<Compiled> {
        self.builder.components()
    }

    /// Hands over the bytes of the wanted component. The VM compiles them,
    /// and the builder takes what the compiling gave: on a success it holds
    /// the component under the name that was wanted, behind the components it
    /// had, and is otherwise where it was; the VM's complaint is the error.
    pub fn supply(self, engine: &Engine, binary: &Vec<u8>) -> (r: Result<Builder, Error>)
        ensures
            match r {
                Ok(builder) => {
                    &&& builder.manifest() == self.manifest()
                    &&& builder.done() == self.done()
                    &&& builder.components().len() == self.components().len() + 1
                    &&& builder.components().drop_last() == self.components()
                    &&& builder.components().last().name == self.wanted()
                },
                Err(error) => error is Wasmtime,
            },
    {
        let ghost before = self.components();
        let r = self.accept(vm::compile(engine, binary));
        proof {
            if let Ok(builder) = &r {
                assert(builder.components().drop_last() =~= before);
            }
        }
        r
    }

    /// Takes what the compiling of the wanted component gave. A component is
    /// kept under the name that was wanted, behind the components the builder
    /// had, and the builder is otherwise where it was. A complaint of the VM
    /// ends the building with that complaint.
    pub fn accept(self, compiled: Result<Component, String>) -> (r: Result<Builder, Error>)
        ensures
            match compiled {
                Ok(component) => r matches Ok(builder) && {
                    &&& builder.manifest() == self.manifest()
                    &&& builder.done() == self.done()
                    &&& builder.components() == self.components().push(
                        Compiled { name: self.wanted(), component },
                    )
                },
                Err(message) => r matches Err(error) && error == Error::Wasmtime(message),
            },
    {
        proof {
            use_type_invariant(&self);
        }
        let Pending { builder, component, source: _ } = self;
        proof {
            use_type_invariant(&builder);
        }
        let Builder { workflow, mut components, resolved } = builder;
        match compiled {
            Ok(compiled) => {
                let ghost before = components@;
                let added = Compiled { name: component, component: compiled };
                proof {
                    assert forall|i: int| 0 <= i < resolved@.len() implies faithful_entry(
                        #[trigger] resolved@[i],
                        workflow.nodes@[i],
                        before.push(added),
                    ) by {
                        assert(faithful_entry(resolved@[i], workflow.nodes@[i], before));
                        lemma_compiled_stays(before, added, workflow.nodes@[i].node.uses@);
                    }
                    assert forall|k: int| 0 <= k < before.push(added).len() implies is_used(
                        workflow,
                        (#[trigger] before.push(added)[k]).name@,
                    ) by {
                        if k < before.len() {
                            assert(before.push(added)[k] == before[k]);
                        }
                    }
                }
                components.push(added);
                Ok(Builder { workflow, components, resolved })
            },
            Err(message) => Err(Error::Wasmtime(message)),
        }
    }

    /// Gives up the building because the bytes of the wanted component were
    /// not had: the loader's error is the error of the building.
    pub fn fail(self, error: crate::file_source::Error) -> (r: Error)
        ensures
            r == Error::FileSource(error),
    {
        Error::FileSource(error)
    }
}

} // verus!
