//! What the components of a workflow offer, described for inspection: the
//! exported functions of each, with their inputs and the schema of each
//! input.
//!
//! The description keeps one entry for each component, under the text of its
//! reference; of the components that share a reference, the first is the one
//! described. Functions and inputs stand in the order in which the component
//! declares them, each to be found by its name.

use crate::names::FunctionName;
use crate::names::InputName;
use crate::schema::representable;
use crate::schema::schema;
use crate::schema::Json;
use crate::schema::Unrepresentable;
use crate::schema::ValueType;
use crate::text;
use crate::workflow::position;
use vstd::prelude::*;
use vstd::string::*;

verus! {

/// A declared parameter of an exported function.
#[derive(Debug)]
pub struct Parameter {
    pub name: String,
    pub ty: ValueType,
}

/// What stands behind the name of an export.
#[derive(Debug)]
pub enum Item {
    /// A function, with its parameters in declaration order.
    Function(Vec<Parameter>),
    /// Anything else.
    Other,
}

/// An export of a component.
#[derive(Debug)]
pub struct Exported {
    pub name: String,
    pub item: Item,
}

/// An input of a function: its name and the schema of its values.
#[derive(Debug)]
pub struct Input {
    pub name: InputName,
    pub schema: Json,
}

/// An exported function and its inputs.
#[derive(Debug)]
pub struct Func {
    pub inputs: Vec<Input>,
    pub name: FunctionName,
}

/// What one component exports, under the text of its reference.
#[derive(Debug)]
pub struct Offered {
    pub source: String,
    pub exports: Vec<Exported>,
}

/// The functions of the components of a workflow, component by component.
#[derive(Debug)]
pub struct Metadata {
    pub sources: Vec<Described>,
}

/// The functions of one component, under the text of its reference.
#[derive(Debug)]
pub struct Described {
    pub source: String,
    pub functions: Vec<Func>,
}

/// The input describes the parameter: the same name, and the schema of the
/// parameter's type.
pub open spec fn describes_parameter(input: Input, parameter: Parameter) -> bool {
    input.name@ == parameter.name@ && input.schema@ == schema(parameter.ty)
}

/// The function is the one of that name with those parameters: one input for
/// each parameter, in their order.
pub open spec fn describes_function(func: Func, name: Seq<char>, params: Seq<Parameter>) -> bool {
    &&& func.name@ == name
    &&& func.inputs@.len() == params.len()
    &&& forall|j: int|
        0 <= j < params.len() ==> describes_parameter(#[trigger] func.inputs@[j], params[j])
}

/// Every parameter has a type whose values a schema describes.
pub open spec fn all_representable(params: Seq<Parameter>) -> bool {
    forall|j: int| 0 <= j < params.len() ==> representable((#[trigger] params[j]).ty)
}

/// The positions, among the first `upto` exports, of those that are
/// functions.
pub open spec fn function_positions(exports: Seq<Exported>, upto: int) -> Seq<int>
    decreases upto,
{
    if upto <= 0 {
        Seq::empty()
    } else if exports[upto - 1].item is Function {
        function_positions(exports, upto - 1).push(upto - 1)
    } else {
        function_positions(exports, upto - 1)
    }
}

impl Func {
    /// Describes a function: each parameter becomes an input with the
    /// schema of its type. A parameter whose type holds a handle to a
    /// resource cannot be described, and so the function cannot.
    pub fn describe(name: &str, params: &Vec<Parameter>) -> (r: Result<Func, Unrepresentable>)
        ensures
            r is Ok <==> all_representable(params@),
            r matches Ok(func) ==> describes_function(func, name@, params@),
    {
        let mut inputs: Vec<Input> = Vec::new();
        let mut j: usize = 0;
        while j < params.len()
            invariant
                j <= params.len(),
                inputs@.len() == j,
                forall|k: int| 0 <= k < j ==> representable((#[trigger] params@[k]).ty),
                forall|k: int|
                    0 <= k < j ==> describes_parameter(#[trigger] inputs@[k], params@[k]),
            decreases params.len() - j,
        {
            match params[j].ty.to_json_schema() {
                Ok(schema) => {
                    inputs.push(Input { name: InputName(params[j].name.clone()), schema });
                },
                Err(error) => {
                    assert(!representable(params@[j as int].ty));
                    return Err(error);
                },
            }
            j += 1;
        }
        Ok(Func { inputs, name: FunctionName(String::from_str(name)) })
    }
}

/// Every function among the exports can be described.
pub open spec fn describable(exports: Seq<Exported>) -> bool {
    forall|i: int|
        0 <= i < exports.len() && (#[trigger] exports[i]).item is Function ==> all_representable(
            exports[i].item->Function_0@,
        )
}

/// The functions are those among the exports, in the order of the exports.
pub open spec fn describes_exports(funcs: Seq<Func>, exports: Seq<Exported>) -> bool {
    let positions = function_positions(exports, exports.len() as int);
    &&& funcs.len() == positions.len()
    &&& forall|k: int|
        0 <= k < funcs.len() ==> describes_function(
            #[trigger] funcs[k],
            exports[positions[k]].name@,
            exports[positions[k]].item->Function_0@,
        )
}

/// The references of the components, in their order.
pub open spec fn references(offered: Seq<Offered>) -> Seq<Seq<char>> {
    Seq::new(offered.len(), |i: int| offered[i].source@)
}

/// Component `i` is the first with its reference.
pub open spec fn leads(offered: Seq<Offered>, i: int) -> bool {
    position(references(offered), offered[i].source@) == Some(i)
}

/// The positions, among the first `upto` components, of those that are the
/// first with their reference.
pub open spec fn leading_positions(offered: Seq<Offered>, upto: int) -> Seq<int>
    decreases upto,
{
    if upto <= 0 {
        Seq::empty()
    } else if leads(offered, upto - 1) {
        leading_positions(offered, upto - 1).push(upto - 1)
    } else {
        leading_positions(offered, upto - 1)
    }
}

/// The entry describes the component: the same reference, and the functions
/// among its exports.
pub open spec fn describes_component(entry: Described, component: Offered) -> bool {
    entry.source@ == component.source@ && describes_exports(entry.functions@, component.exports@)
}

/// The description is that of the components: one entry for each component
/// that is the first with its reference, in their order.
pub open spec fn describes(metadata: Metadata, offered: Seq<Offered>) -> bool {
    let positions = leading_positions(offered, offered.len() as int);
    &&& metadata.sources@.len() == positions.len()
    &&& forall|k: int|
        0 <= k < positions.len() ==> describes_component(
            #[trigger] metadata.sources@[k],
            offered[positions[k]],
        )
}

/// The leading positions are positions of leading components, in rising
/// order.
pub proof fn lemma_leading_positions(offered: Seq<Offered>, upto: int)
    requires
        0 <= upto <= offered.len(),
    ensures
        leading_positions(offered, upto).len() <= upto,
        forall|k: int|
            0 <= k < leading_positions(offered, upto).len() ==> 0 <= (#[trigger] leading_positions(
                offered,
                upto,
            )[k]) < upto && leads(offered, leading_positions(offered, upto)[k]),
        forall|k: int, l: int|
            0 <= k < l < leading_positions(offered, upto).len() ==> leading_positions(
                offered,
                upto,
            )[k] < leading_positions(offered, upto)[l],
    decreases upto,
{
    if upto > 0 {
        lemma_leading_positions(offered, upto - 1);
    }
}

/// No two entries of a description stand under the same reference.
pub proof fn lemma_one_entry_for_a_reference(
    metadata: Metadata,
    offered: Seq<Offered>,
    k: int,
    l: int,
)
    requires
        describes(metadata, offered),
        0 <= k < l < metadata.sources@.len(),
    ensures
        metadata.sources@[k].source@ != metadata.sources@[l].source@,
{
    let positions = leading_positions(offered, offered.len() as int);
    lemma_leading_positions(offered, offered.len() as int);
    let a = positions[k];
    let b = positions[l];
    assert(leads(offered, a) && leads(offered, b) && a < b);
    assert(describes_component(metadata.sources@[k], offered[a]));
    assert(describes_component(metadata.sources@[l], offered[b]));
    if offered[a].source@ == offered[b].source@ {
        crate::workflow::lemma_position(references(offered), offered[b].source@);
        assert(references(offered)[a] == offered[a].source@);
    }
}

/// Whether component `i` is the first with its reference.
fn is_leading(offered: &Vec<Offered>, i: usize) -> (r: bool)
    requires
        i < offered@.len(),
    ensures
        r == leads(offered@, i as int),
{
    let mut j: usize = 0;
    while j < i
        invariant
            j <= i,
            i < offered@.len(),
            forall|k: int| 0 <= k < j ==> references(offered@)[k] != offered@[i as int].source@,
        decreases i - j,
    {
        if text::same(offered[j].source.as_str(), offered[i].source.as_str()) {
            proof {
                crate::workflow::lemma_position(references(offered@), offered@[i as int].source@);
                assert(references(offered@)[j as int] == offered@[i as int].source@);
            }
            return false;
        }
        j += 1;
    }
    proof {
        assert(references(offered@)[i as int] == offered@[i as int].source@);
        crate::workflow::lemma_position_found(
            references(offered@),
            offered@[i as int].source@,
            i as int,
        );
    }
    true
}

impl Metadata {
    /// Describes the functions among the exports of a component, in the
    /// order of the exports. Exports that are no functions are passed over.
    /// The first function that cannot be described is the error.
    pub fn functions(exports: &Vec<Exported>) -> (r: Result<Vec<Func>, Unrepresentable>)
        ensures
            r is Ok <==> describable(exports@),
            r matches Ok(funcs) ==> describes_exports(funcs@, exports@),
    {
        let mut funcs: Vec<Func> = Vec::new();
        let mut i: usize = 0;
        while i < exports.len()
            invariant
                i <= exports.len(),
                forall|k: int|
                    0 <= k < i && (#[trigger] exports@[k]).item is Function ==> all_representable(
                        exports@[k].item->Function_0@,
                    ),
                funcs@.len() == function_positions(exports@, i as int).len(),
                forall|k: int|
                    0 <= k < funcs@.len() ==> describes_function(
                        #[trigger] funcs@[k],
                        exports@[function_positions(exports@, i as int)[k]].name@,
                        exports@[function_positions(exports@, i as int)[k]].item->Function_0@,
                    ),
            decreases exports.len() - i,
        {
            if let Item::Function(params) = &exports[i].item {
                match Func::describe(exports[i].name.as_str(), params) {
                    Ok(func) => {
                        funcs.push(func);
                    },
                    Err(error) => {
                        return Err(error);
                    },
                }
            }
            i += 1;
        }
        Ok(funcs)
    }

    /// Describes the components of a workflow: for each component that is
    /// the first with its reference, in their order, the functions among its
    /// exports. A function that cannot be described, in a component that is
    /// described, is the error.
    pub fn new(offered: &Vec<Offered>) -> (r: Result<Metadata, Unrepresentable>)
        ensures
            r is Ok <==> forall|i: int|
                0 <= i < offered@.len() && leads(offered@, i) ==> describable(
                    (#[trigger] offered@[i]).exports@,
                ),
            r matches Ok(metadata) ==> describes(metadata, offered@),
    {
        let mut sources: Vec<Described> = Vec::new();
        let mut i: usize = 0;
        while i < offered.len()
            invariant
                i <= offered.len(),
                forall|k: int|
                    0 <= k < i && leads(offered@, k) ==> describable(
                        (#[trigger] offered@[k]).exports@,
                    ),
                sources@.len() == leading_positions(offered@, i as int).len(),
                forall|k: int|
                    0 <= k < sources@.len() ==> describes_component(
                        #[trigger] sources@[k],
                        offered@[leading_positions(offered@, i as int)[k]],
                    ),
            decreases offered.len() - i,
        {
            if is_leading(offered, i) {
                match Metadata::functions(&offered[i].exports) {
                    Ok(functions) => {
                        sources.push(Described { source: offered[i].source.clone(), functions });
                    },
                    Err(error) => {
                        return Err(error);
                    },
                }
            }
            i += 1;
        }
        Ok(Metadata { sources })
    }
}

} // verus!
