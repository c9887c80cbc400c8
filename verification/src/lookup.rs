//! Finding a function among the exports of a component: at the root of the
//! component, or within an interface that the component exports under a
//! name.

use crate::names::FunctionName;
use crate::names::InterfaceName;
use crate::vm;
use crate::vm::Export;
use vstd::prelude::*;
use wasmtime::component::Component;
use wasmtime::component::ComponentExportIndex;

verus! {

/// Why no function was found.
#[derive(Debug)]
pub enum Error {
    /// What stands under the name of the function is no function, or, at the
    /// root of the component, nothing stands under it.
    FunctionNotFound(FunctionName),
    /// The component exports nothing under the name of the interface.
    InterfaceExportNotFound(InterfaceName),
    /// Nothing stands under the name of the function within what the
    /// component exports under the name of the interface.
    InterfaceFunctionNotFound(FunctionName, InterfaceName),
}

/// The export if it is a function; any other export is not the function
/// that was asked for.
pub open spec fn as_function(export: Export, function: FunctionName) -> Result<Export, Error> {
    if export is Function {
        Ok(export)
    } else {
        Err(Error::FunctionNotFound(function))
    }
}

/// The function of that name within the instance with the handle `within`.
pub open spec fn found_within(
    component: Component,
    within: ComponentExportIndex,
    function: FunctionName,
    interface: InterfaceName,
) -> Result<Export, Error> {
    match vm::exported(component, Some(within), function@) {
        Some(export) => as_function(export, function),
        None => Err(Error::InterfaceFunctionNotFound(function, interface)),
    }
}

/// The function of that name that the component exports: at its root where
/// no interface is named, else within the instance that it exports under the
/// name of the interface. An export that is no instance holds no function.
pub open spec fn found(
    component: Component,
    function: FunctionName,
    interface: Option<InterfaceName>,
) -> Result<Export, Error> {
    match interface {
        None => match vm::exported(component, None, function@) {
            Some(export) => as_function(export, function),
            None => Err(Error::FunctionNotFound(function)),
        },
        Some(interface) => match vm::exported(component, None, interface@) {
            Some(Export::Instance { index }) => found_within(component, index, function, interface),
            Some(_) => Err(Error::InterfaceFunctionNotFound(function, interface)),
            None => Err(Error::InterfaceExportNotFound(interface)),
        },
    }
}

/// The export as the function that was asked for.
fn function_of(export: Export, function_name: FunctionName) -> (r: Result<Export, Error>)
    ensures
        r == as_function(export, function_name),
{
    match export {
        Export::Function { index, params, results } => Ok(
            Export::Function { index, params, results },
        ),
        _ => Err(Error::FunctionNotFound(function_name)),
    }
}

/// Finds the function of that name among the exports of a component: at its
/// root where no interface is named, else within the interface of that name.
pub fn get_func(
    component: &Component,
    function_name: FunctionName,
    interface_name: Option<InterfaceName>,
) -> (r: Result<Export, Error>)
    ensures
        r == found(*component, function_name, interface_name),
        r matches Ok(export) ==> export is Function,
{
    match interface_name {
        None => match vm::find_export(component, None, function_name.0.as_str()) {
            Some(export) => function_of(export, function_name),
            None => Err(Error::FunctionNotFound(function_name)),
        },
        Some(interface) => match vm::find_export(component, None, interface.0.as_str()) {
            Some(Export::Instance { index }) => match vm::find_export(
                component,
                Some(index),
                function_name.0.as_str(),
            ) {
                Some(export) => function_of(export, function_name),
                None => Err(Error::InterfaceFunctionNotFound(function_name, interface)),
            },
            Some(_) => Err(Error::InterfaceFunctionNotFound(function_name, interface)),
            None => Err(Error::InterfaceExportNotFound(interface)),
        },
    }
}

} // verus!
