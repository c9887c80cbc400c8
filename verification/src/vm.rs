//! The component VM, as far as the engine computes with it: compiling a
//! component, finding a function among its exports, and turning literal text
//! into values and back.
//!
//! What the VM hands out is carried from one call to the next, and the
//! engine decides on what the calls report. What a call returns for given
//! arguments has a name where the arguments alone decide it.

use vstd::prelude::*;
use wasmtime::component::types::ComponentItem;
use wasmtime::component::Component;
use wasmtime::component::ComponentExportIndex;
use wasmtime::component::Type;
use wasmtime::component::Val;
use wasmtime::Engine;

verus! {

/// The VM's engine: configuration and compiler.
#[verifier::external_type_specification]
#[verifier::external_body]
pub struct ExEngine(Engine);

/// A compiled component.
#[verifier::external_type_specification]
#[verifier::external_body]
pub struct ExComponent(Component);

/// The handle of one export of a compiled component.
#[verifier::external_type_specification]
#[verifier::external_body]
pub struct ExComponentExportIndex(ComponentExportIndex);

/// An interface type of the component model.
#[verifier::external_type_specification]
#[verifier::external_body]
pub struct ExType(Type);

/// A value of the component model, with its cases and what they hold.
#[verifier::external_type_specification]
pub struct ExVal(Val);

/// A handle to a resource that a guest or the host owns.
#[verifier::external_type_specification]
#[verifier::external_body]
pub struct ExResourceAny(wasmtime::component::ResourceAny);

/// Whether a handle to a resource occurs in the value: it is one, or one of
/// the values it is made of holds one.
pub open spec fn has_handle(value: Val) -> bool
    decreases value,
{
    match value {
        Val::Resource(_) => true,
        Val::List(items) => exists|i: int|
            0 <= i < items.len() && has_handle(#[trigger] items[i]),
        Val::Tuple(items) => exists|i: int|
            0 <= i < items.len() && has_handle(#[trigger] items[i]),
        Val::Record(fields) => exists|i: int|
            0 <= i < fields.len() && has_handle((#[trigger] fields[i]).1),
        Val::Variant(_, payload) => match payload {
            Some(inner) => has_handle(*inner),
            None => false,
        },
        Val::Option(payload) => match payload {
            Some(inner) => has_handle(*inner),
            None => false,
        },
        Val::Result(outcome) => match outcome {
            Ok(Some(inner)) => has_handle(*inner),
            Err(Some(inner)) => has_handle(*inner),
            _ => false,
        },
        _ => false,
    }
}

/// One declared parameter of an exported function.
pub struct Parameter {
    pub name: String,
    pub ty: Type,
}

/// What a component exports under a name.
pub enum Export {
    /// A function, with its handle, its parameters in declaration order and
    /// the number of its results.
    Function { index: ComponentExportIndex, params: Vec<Parameter>, results: usize },
    /// An instance, which holds the exports of an interface, with its handle.
    Instance { index: ComponentExportIndex },
    /// Anything else: a module, a type, a resource.
    Other,
}

/// `Component::from_binary` of `wasmtime`: compiles the binary image of a
/// component; a failure comes back as the message of the VM's error. Every
/// compilation gives a component of its own identity, and whether it
/// succeeds is the VM's to say: nothing is claimed of the outcome.
#[verifier::external_body]
pub(crate) fn compile(engine: &Engine, binary: &Vec<u8>) -> (r: Result<Component, String>) {
    match Component::from_binary(engine, binary) {
        Ok(component) => Ok(component),
        Err(error) => Err(error.to_string()),
    }
}

/// What a component exports under a name, as `Component::export_index` of
/// `wasmtime` finds it: at the root of the component, or among the exports of
/// the instance with the handle `within`.
pub uninterp spec fn exported(
    component: Component,
    within: Option<ComponentExportIndex>,
    name: Seq<char>,
) -> Option<Export>;

/// `Component::export_index` of `wasmtime`: the export under `name`, if there
/// is one, at the root of the component or within an instance of it. For a
/// function the parameters come from `ComponentFunc::params` and the count
/// from `ComponentFunc::results`. The outcome is the named one.
#[verifier::external_body]
pub(crate) fn find_export(
    component: &Component,
    within: Option<ComponentExportIndex>,
    name: &str,
) -> (r: Option<Export>)
    ensures
        r == exported(*component, within, name@),
{
    match component.export_index(within.as_ref(), name) {
        Some((ComponentItem::ComponentFunc(func), index)) => Some(
            Export::Function {
                index,
                params: func.params().map(|(n, ty)| Parameter { name: n.to_string(), ty }).collect(),
                results: func.results().len(),
            },
        ),
        Some((ComponentItem::ComponentInstance(_), index)) => Some(Export::Instance { index }),
        Some(_) => Some(Export::Other),
        None => None,
    }
}

/// What `Val::from_wave` of `wasmtime` reads from literal text as a value of
/// a type: the value, or the message of its error.
pub uninterp spec fn decoded(ty: Type, text: Seq<char>) -> Result<Val, Seq<char>>;

/// `Val::from_wave` of `wasmtime`: reads literal text as a value of the given
/// type; a failure comes back as the message of the VM's error. The outcome
/// is the named one.
#[verifier::external_body]
pub(crate) fn decode(ty: &Type, text: &str) -> (r: Result<Val, String>)
    ensures
        decoded(*ty, text@) == match r {
            Ok(value) => Ok::<Val, Seq<char>>(value),
            Err(message) => Err::<Val, Seq<char>>(message@),
        },
{
    match Val::from_wave(ty, text) {
        Ok(value) => Ok(value),
        Err(error) => Err(error.to_string()),
    }
}

/// What `Val::to_wave` of `wasmtime` makes of a value in which no handle
/// occurs: the literal text, or nothing where it reports an error.
pub uninterp spec fn wave_text(value: Val) -> Option<Seq<char>>;

/// `Val::to_wave` of `wasmtime`: writes a value as literal text; a failure
/// comes back as the message of the VM's error. The writer panics on a handle
/// to a resource, wherever in the value it stands, which the precondition
/// leaves out. The outcome is the named one.
#[verifier::external_body]
pub(crate) fn render(value: &Val) -> (r: Result<String, String>)
    requires
        !has_handle(*value),
    ensures
        wave_text(*value) == match r {
            Ok(text) => Some(text@),
            Err(_) => None,
        },
{
    match value.to_wave() {
        Ok(text) => Ok(text),
        Err(error) => Err(error.to_string()),
    }
}

/// Whether a handle to a resource occurs in the value.
pub fn holds_handle(value: &Val) -> (r: bool)
    ensures
        r == has_handle(*value),
    decreases value,
{
    match value {
        Val::Resource(_) => true,
        Val::List(items) => any_holds_handle(items),
        Val::Tuple(items) => any_holds_handle(items),
        Val::Record(fields) => {
            let mut i: usize = 0;
            while i < fields.len()
                invariant
                    i <= fields.len(),
                    value matches Val::Record(inner) && inner == fields,
                    forall|k: int| 0 <= k < i ==> !has_handle((#[trigger] fields[k]).1),
                decreases fields.len() - i,
            {
                assert(decreases_to!(value => fields));
                assert(decreases_to!(fields => fields[i as int]));
                assert(decreases_to!(fields[i as int] => fields[i as int].1));
                if holds_handle(&fields[i].1) {
                    return true;
                }
                i += 1;
            }
            false
        },
        Val::Variant(_, payload) => match payload {
            Some(inner) => holds_handle(inner),
            None => false,
        },
        Val::Option(payload) => match payload {
            Some(inner) => holds_handle(inner),
            None => false,
        },
        Val::Result(outcome) => match outcome {
            Ok(Some(inner)) => holds_handle(inner),
            Err(Some(inner)) => holds_handle(inner),
            _ => false,
        },
        _ => false,
    }
}

/// Whether a handle to a resource occurs in one of the values.
fn any_holds_handle(items: &Vec<Val>) -> (r: bool)
    ensures
        r == exists|i: int| 0 <= i < items.len() && has_handle(#[trigger] items[i]),
    decreases items,
{
    let mut i: usize = 0;
    while i < items.len()
        invariant
            i <= items.len(),
            forall|k: int| 0 <= k < i ==> !has_handle(#[trigger] items[k]),
        decreases items.len() - i,
    {
        assert(decreases_to!(items => items[i as int]));
        if holds_handle(&items[i]) {
            return true;
        }
        i += 1;
    }
    false
}

/// `Val::clone` of `wasmtime`, which the type derives: the copy is the value.
pub assume_specification[ <Val as Clone>::clone ](value: &Val) -> (r: Val)
    ensures
        r == *value,
;

} // verus!
