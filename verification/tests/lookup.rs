use wasmtime::component::{Component, Linker, Val};
use wasmtime::{Config, Engine, Store};
use workflow_engine::lookup::{get_func, Error};
use workflow_engine::names::{FunctionName, InterfaceName};
use workflow_engine::vm::Export;

const SHELVES: &str = r#"
(component
  (core module $m
    (func (export "seven") (result i32) i32.const 7)
    (func (export "twice") (param i32) (result i32) local.get 0 i32.const 2 i32.mul)
  )
  (core instance $i (instantiate $m))
  (func $seven (result u32) (canon lift (core func $i "seven")))
  (func $twice (param "x" u32) (result u32) (canon lift (core func $i "twice")))
  (instance $drawer)
  (instance $shelf
    (export "twice" (func $twice))
    (export "drawer" (instance $drawer))
  )
  (export "seven" (func $seven))
  (export "shelf" (instance $shelf))
)
"#;

fn small_engine() -> Engine {
    let mut config = Config::new();
    config.memory_reservation(0);
    config.memory_reservation_for_growth(0);
    config.memory_guard_size(0);
    Engine::new(&config).unwrap()
}

fn shelves(engine: &Engine) -> Component {
    Component::from_binary(engine, &wat::parse_str(SHELVES).unwrap()).unwrap()
}

fn function(name: &str) -> FunctionName {
    FunctionName(name.to_string())
}

fn interface(name: &str) -> Option<InterfaceName> {
    Some(InterfaceName(name.to_string()))
}

#[test]
fn a_function_at_the_root_is_found() {
    let engine = small_engine();
    match get_func(&shelves(&engine), function("seven"), None) {
        Ok(Export::Function { params, results, .. }) => {
            assert!(params.is_empty());
            assert_eq!(results, 1);
        }
        _ => panic!("the function was not found"),
    }
}

#[test]
fn a_name_that_nothing_stands_under_is_no_function() {
    let engine = small_engine();
    match get_func(&shelves(&engine), function("eight"), None) {
        Err(Error::FunctionNotFound(name)) => assert_eq!(name.0, "eight"),
        _ => panic!("unexpected outcome"),
    }
}

#[test]
fn an_instance_at_the_root_is_no_function() {
    let engine = small_engine();
    match get_func(&shelves(&engine), function("shelf"), None) {
        Err(Error::FunctionNotFound(name)) => assert_eq!(name.0, "shelf"),
        _ => panic!("unexpected outcome"),
    }
}

#[test]
fn a_function_within_an_interface_is_found_and_can_be_called() {
    let engine = small_engine();
    let component = shelves(&engine);
    let index = match get_func(&component, function("twice"), interface("shelf")) {
        Ok(Export::Function { index, params, results }) => {
            assert_eq!(params.len(), 1);
            assert_eq!(params[0].name, "x");
            assert_eq!(results, 1);
            index
        }
        _ => panic!("the function was not found"),
    };
    let mut store = Store::new(&engine, ());
    let instance = Linker::new(&engine).instantiate(&mut store, &component).unwrap();
    let func = instance.get_func(&mut store, index).unwrap();
    let mut results = vec![Val::U32(0)];
    func.call(&mut store, &[Val::U32(21)], &mut results).unwrap();
    assert_eq!(results, vec![Val::U32(42)]);
}

#[test]
fn a_function_of_the_root_is_not_within_the_interface() {
    let engine = small_engine();
    match get_func(&shelves(&engine), function("seven"), interface("shelf")) {
        Err(Error::InterfaceFunctionNotFound(name, within)) => {
            assert_eq!(name.0, "seven");
            assert_eq!(within.0, "shelf");
        }
        _ => panic!("unexpected outcome"),
    }
}

#[test]
fn a_function_of_the_interface_is_not_at_the_root() {
    let engine = small_engine();
    assert!(matches!(
        get_func(&shelves(&engine), function("twice"), None),
        Err(Error::FunctionNotFound(_))
    ));
}

#[test]
fn an_interface_that_is_not_exported_is_not_found() {
    let engine = small_engine();
    match get_func(&shelves(&engine), function("twice"), interface("attic")) {
        Err(Error::InterfaceExportNotFound(within)) => assert_eq!(within.0, "attic"),
        _ => panic!("unexpected outcome"),
    }
}

#[test]
fn a_function_holds_no_function() {
    let engine = small_engine();
    match get_func(&shelves(&engine), function("twice"), interface("seven")) {
        Err(Error::InterfaceFunctionNotFound(name, within)) => {
            assert_eq!(name.0, "twice");
            assert_eq!(within.0, "seven");
        }
        _ => panic!("unexpected outcome"),
    }
}

#[test]
fn an_instance_within_the_interface_is_no_function() {
    let engine = small_engine();
    match get_func(&shelves(&engine), function("drawer"), interface("shelf")) {
        Err(Error::FunctionNotFound(name)) => assert_eq!(name.0, "drawer"),
        _ => panic!("unexpected outcome"),
    }
}
