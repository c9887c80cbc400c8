use std::sync::Arc;

use wasmtime::component::{Component, Instance, Linker, Resource, ResourceAny, Val};
use wasmtime::{Config, Engine, Store};
use workflow_engine::builder::{Builder, Stage};
use workflow_engine::file_source::FileSource;
use workflow_engine::names::{ComponentName, FunctionName, InputName, NodeId};
use workflow_engine::prototype::{Error, NodeType, Prototype};
use workflow_engine::task::{Event, Step, Task};
use workflow_engine::vm::holds_handle;
use workflow_engine::workflow::{Assignment, Dependency, Edge, Entry, Node, Workflow};

const NUMBERS: &str = r#"
(component
  (core module $m
    (func (export "add-one") (param i32) (result i32) local.get 0 i32.const 1 i32.add)
    (func (export "sum") (param i32 i32) (result i32) local.get 0 local.get 1 i32.add)
    (func (export "answer") (result i32) i32.const 42)
    (func (export "boom") (param i32) (result i32) unreachable)
  )
  (core instance $i (instantiate $m))
  (func (export "add-one") (param "x" u32) (result u32) (canon lift (core func $i "add-one")))
  (func (export "sum") (param "a" u32) (param "b" u32) (result u32) (canon lift (core func $i "sum")))
  (func (export "answer") (result u32) (canon lift (core func $i "answer")))
  (func (export "boom") (param "x" u32) (result u32) (canon lift (core func $i "boom")))
  (instance $nested)
  (export "nested" (instance $nested))
)
"#;

const WORDS: &str = r#"
(component
  (core module $m
    (memory (export "memory") 1)
    (global $next (mut i32) (i32.const 1024))
    (data (i32.const 16) "hello, ")
    (func (export "realloc") (param i32 i32 i32 i32) (result i32)
      (local $p i32)
      global.get $next
      local.set $p
      global.get $next
      local.get 3
      i32.add
      global.set $next
      local.get $p)
    (func (export "greet") (param $ptr i32) (param $len i32) (result i32)
      (local $out i32)
      global.get $next
      local.set $out
      global.get $next
      local.get $len
      i32.add
      i32.const 7
      i32.add
      global.set $next
      (memory.copy (local.get $out) (i32.const 16) (i32.const 7))
      (memory.copy (i32.add (local.get $out) (i32.const 7)) (local.get $ptr) (local.get $len))
      (i32.store (i32.const 0) (local.get $out))
      (i32.store (i32.const 4) (i32.add (local.get $len) (i32.const 7)))
      i32.const 0)
    (func (export "forty-two") (result i32)
      (i32.store8 (i32.const 64) (i32.const 52))
      (i32.store8 (i32.const 65) (i32.const 50))
      (i32.store (i32.const 8) (i32.const 64))
      (i32.store (i32.const 12) (i32.const 2))
      i32.const 8)
  )
  (core instance $i (instantiate $m))
  (func (export "greet") (param "name" string) (result string)
    (canon lift (core func $i "greet") (memory (core memory $i "memory")) (realloc (core func $i "realloc"))))
  (func (export "forty-two") (result string)
    (canon lift (core func $i "forty-two") (memory (core memory $i "memory")) (realloc (core func $i "realloc"))))
  (func (export "echo") (param "input" string) (result string)
    (canon lift (core func $i "greet") (memory (core memory $i "memory")) (realloc (core func $i "realloc"))))
)
"#;

/// An engine whose memories reserve no more address space than they use.
fn engine() -> Engine {
    let mut config = Config::new();
    config.memory_reservation(0);
    config.memory_reservation_for_growth(0);
    config.memory_guard_size(0);
    Engine::new(&config).unwrap()
}

/// The type of a host resource that guests cannot look into.
struct Secret;

fn component(name: &str) -> ComponentName {
    ComponentName(name.to_string())
}

fn node_id(name: &str) -> NodeId {
    NodeId(name.to_string())
}

fn node(uses: &str, run: &str, with: &[(&str, &str)]) -> Node {
    Node {
        run: FunctionName(run.to_string()),
        uses: component(uses),
        with: with
            .iter()
            .map(|(input, literal)| Assignment {
                input: InputName(input.to_string()),
                literal: literal.to_string(),
            })
            .collect(),
    }
}

fn edge(source: &str, target: &str, input: &str) -> Edge {
    Edge { input: InputName(input.to_string()), source: node_id(source), target: node_id(target) }
}

fn workflow(nodes: Vec<(&str, Node)>, edges: Vec<Edge>) -> Workflow {
    Workflow {
        dependencies: vec![
            Dependency { name: component("numbers"), source: FileSource::local("./numbers.wasm".into()) },
            Dependency { name: component("words"), source: FileSource::local("./words.wasm".into()) },
        ],
        edges,
        nodes: nodes.into_iter().map(|(id, node)| Entry { id: node_id(id), node }).collect(),
    }
}

fn bytes_of(source: &FileSource) -> Vec<u8> {
    let text = match source.to_string().as_str() {
        "./numbers.wasm" => NUMBERS,
        "./words.wasm" => WORDS,
        other => panic!("no such artifact: {other}"),
    };
    wat::parse_str(text).unwrap()
}

/// Drives a builder to its end, loading what it asks for, and notes the
/// components it asked for.
fn build(engine: &Engine, workflow: Workflow) -> (Result<Prototype, Error>, Vec<String>) {
    let mut asked = Vec::new();
    let mut builder = Builder::new(workflow);
    loop {
        match builder.resume() {
            Ok(Stage::Ready(prototype)) => return (Ok(prototype), asked),
            Ok(Stage::Load(pending)) => {
                asked.push(pending.component().0.clone());
                let bytes = bytes_of(pending.source());
                builder = match pending.supply(engine, &bytes) {
                    Ok(builder) => builder,
                    Err(error) => return (Err(error), asked),
                };
            }
            Err(error) => return (Err(error), asked),
        }
    }
}

fn prototype(engine: &Engine, workflow: Workflow) -> Prototype {
    match build(engine, workflow).0 {
        Ok(prototype) => prototype,
        Err(error) => panic!("rejected: {error:?}"),
    }
}

fn rejection(workflow: Workflow) -> Error {
    match build(&engine(), workflow).0 {
        Ok(_) => panic!("the workflow was accepted"),
        Err(error) => error,
    }
}

/// Runs a task to its end, making the calls it hands out, and returns the
/// lines of its events.
fn run(engine: &Engine, prototype: Prototype) -> Vec<String> {
    let prototype = Arc::new(prototype);
    let mut store = Store::new(engine, ());
    let linker = Linker::<()>::new(engine);
    let instances: Vec<(String, Instance)> = prototype
        .compiled()
        .iter()
        .map(|c| (c.name.0.clone(), linker.instantiate(&mut store, &c.component).unwrap()))
        .collect();
    let mut task = Task::new(prototype.clone());
    loop {
        let (next, step) = task.next();
        task = next;
        match step {
            Step::Invoke(call) => {
                let instance =
                    &instances.iter().find(|(name, _)| *name == call.component_name.0).unwrap().1;
                let func = instance.get_func(&mut store, call.index).unwrap();
                let mut results = vec![Val::S32(0); call.results];
                let outcome = match func.call(&mut store, &call.params, &mut results) {
                    Ok(()) => {
                        func.post_return(&mut store).unwrap();
                        Ok(results)
                    }
                    Err(error) => Err(error.to_string()),
                };
                task = task.complete(outcome);
            }
            Step::Waiting => panic!("the task waits though every call was completed"),
            Step::Done => break,
        }
    }
    task.events().iter().map(|emitted| emitted.event.to_string()).collect()
}

#[test]
fn workflow_without_nodes_is_accepted_and_emits_nothing() {
    let engine = engine();
    let (result, asked) = build(&engine, workflow(vec![], vec![]));
    let prototype = result.unwrap();
    assert!(asked.is_empty());
    assert!(prototype.compiled().is_empty());
    assert_eq!(prototype.graph().0.len(), 0);
    assert_eq!(prototype.graph().1.len(), 0);
    assert!(run(&engine, prototype).is_empty());
}

#[test]
fn single_node_hello() {
    let engine = engine();
    let manifest = workflow(vec![("n1", node("words", "greet", &[("name", "\"world\"")]))], vec![]);
    let lines = run(&engine, prototype(&engine, manifest));
    assert_eq!(
        lines,
        vec![
            "node:n1 started with params: [\"world\"]".to_string(),
            "node:n1 succeeded with output: \"hello, world\"".to_string(),
        ]
    );
}

#[test]
fn two_node_pipeline() {
    let engine = engine();
    let manifest = workflow(
        vec![("a", node("words", "forty-two", &[])), ("b", node("words", "echo", &[]))],
        vec![edge("a", "b", "input")],
    );
    let lines = run(&engine, prototype(&engine, manifest));
    assert_eq!(
        lines,
        vec![
            "node:a started with params: []".to_string(),
            "node:a succeeded with output: \"42\"".to_string(),
            "node:b started with params: [\"42\"]".to_string(),
            "node:b succeeded with output: \"hello, 42\"".to_string(),
        ]
    );
}

#[test]
fn pipeline_runs_sources_first_whatever_the_order_of_the_nodes() {
    let engine = engine();
    let manifest = workflow(
        vec![
            ("last", node("numbers", "sum", &[])),
            ("middle", node("numbers", "add-one", &[])),
            ("first", node("numbers", "answer", &[])),
        ],
        vec![
            edge("middle", "last", "a"),
            edge("first", "last", "b"),
            edge("first", "middle", "x"),
        ],
    );
    let lines = run(&engine, prototype(&engine, manifest));
    assert_eq!(
        lines,
        vec![
            "node:first started with params: []".to_string(),
            "node:first succeeded with output: 42".to_string(),
            "node:middle started with params: [42]".to_string(),
            "node:middle succeeded with output: 43".to_string(),
            "node:last started with params: [43, 42]".to_string(),
            "node:last succeeded with output: 85".to_string(),
        ]
    );
}

#[test]
fn cycle_rejection() {
    let manifest = workflow(
        vec![("a", node("numbers", "add-one", &[])), ("b", node("numbers", "add-one", &[]))],
        vec![edge("a", "b", "x"), edge("b", "a", "x")],
    );
    match rejection(manifest) {
        Error::Cycle(vertex) => assert!(vertex < 2),
        other => panic!("unexpected: {other:?}"),
    }
}

#[test]
fn an_edge_from_a_node_to_itself_is_a_cycle() {
    let manifest =
        workflow(vec![("a", node("numbers", "add-one", &[]))], vec![edge("a", "a", "x")]);
    assert!(matches!(rejection(manifest), Error::Cycle(0)));
}

#[test]
fn missing_edge_input() {
    let manifest = workflow(vec![("b", node("words", "echo", &[]))], vec![]);
    match rejection(manifest) {
        Error::MissingInput(input) => assert_eq!(input.0, "input"),
        other => panic!("unexpected: {other:?}"),
    }
}

#[test]
fn the_first_missing_input_is_the_one_reported() {
    let manifest = workflow(
        vec![
            ("one", node("numbers", "sum", &[("a", "1")])),
            ("two", node("numbers", "add-one", &[])),
        ],
        vec![],
    );
    match rejection(manifest) {
        Error::MissingInput(input) => assert_eq!(input.0, "b"),
        other => panic!("unexpected: {other:?}"),
    }
}

#[test]
fn a_missing_input_is_found_before_a_cycle() {
    let manifest = workflow(
        vec![
            ("a", node("numbers", "add-one", &[])),
            ("b", node("numbers", "add-one", &[])),
            ("c", node("numbers", "sum", &[("a", "1")])),
        ],
        vec![edge("a", "b", "x"), edge("b", "a", "x")],
    );
    assert!(matches!(rejection(manifest), Error::MissingInput(_)));
}

#[test]
fn edge_to_an_unknown_node_is_invalid() {
    let manifest =
        workflow(vec![("a", node("numbers", "answer", &[]))], vec![edge("a", "ghost", "x")]);
    match rejection(manifest) {
        Error::InvalidEdge(edge) => assert_eq!(edge.target.0, "ghost"),
        other => panic!("unexpected: {other:?}"),
    }
}

#[test]
fn edge_from_an_unknown_node_is_invalid() {
    let manifest =
        workflow(vec![("a", node("numbers", "add-one", &[]))], vec![edge("ghost", "a", "x")]);
    assert!(matches!(rejection(manifest), Error::InvalidEdge(_)));
}

#[test]
fn edge_to_an_input_that_the_target_does_not_have_is_invalid() {
    let manifest = workflow(
        vec![("a", node("numbers", "answer", &[])), ("b", node("numbers", "add-one", &[]))],
        vec![edge("a", "b", "y")],
    );
    match rejection(manifest) {
        Error::InvalidEdge(edge) => assert_eq!(edge.input.0, "y"),
        other => panic!("unexpected: {other:?}"),
    }
}

#[test]
fn edge_to_an_input_that_a_literal_supplies_is_invalid() {
    let manifest = workflow(
        vec![
            ("a", node("numbers", "answer", &[])),
            ("b", node("numbers", "add-one", &[("x", "1")])),
        ],
        vec![edge("a", "b", "x")],
    );
    assert!(matches!(rejection(manifest), Error::InvalidEdge(_)));
}

#[test]
fn second_edge_to_the_same_input_is_invalid() {
    let manifest = workflow(
        vec![
            ("a", node("numbers", "answer", &[])),
            ("b", node("numbers", "answer", &[])),
            ("c", node("numbers", "add-one", &[])),
        ],
        vec![edge("a", "c", "x"), edge("b", "c", "x")],
    );
    match rejection(manifest) {
        Error::InvalidEdge(edge) => assert_eq!(edge.source.0, "b"),
        other => panic!("unexpected: {other:?}"),
    }
}

#[test]
fn component_that_is_no_dependency_is_not_found() {
    let manifest = workflow(vec![("a", node("nowhere", "answer", &[]))], vec![]);
    let (result, asked) = build(&engine(), manifest);
    match result {
        Err(Error::DependencyNotFound(name)) => assert_eq!(name.0, "nowhere"),
        _ => panic!("the component was found"),
    }
    assert!(asked.is_empty());
}

#[test]
fn function_that_is_not_exported_makes_the_node_invalid() {
    let manifest = workflow(vec![("a", node("numbers", "subtract", &[]))], vec![]);
    match rejection(manifest) {
        Error::InvalidNode(id) => assert_eq!(id.0, "a"),
        other => panic!("unexpected: {other:?}"),
    }
}

#[test]
fn export_that_is_no_function_makes_the_node_invalid() {
    let manifest = workflow(vec![("a", node("numbers", "nested", &[]))], vec![]);
    assert!(matches!(rejection(manifest), Error::InvalidNode(_)));
}

#[test]
fn literal_of_the_wrong_type_is_reported_with_its_input() {
    let manifest = workflow(vec![("a", node("numbers", "add-one", &[("x", "\"one\"")]))], vec![]);
    match rejection(manifest) {
        Error::LiteralDecode(input, message) => {
            assert_eq!(input.0, "x");
            assert!(!message.is_empty());
        }
        other => panic!("unexpected: {other:?}"),
    }
}

#[test]
fn literal_with_a_syntax_error_is_reported() {
    let manifest = workflow(vec![("a", node("words", "greet", &[("name", "\"open")]))], vec![]);
    assert!(matches!(rejection(manifest), Error::LiteralDecode(_, _)));
}

#[test]
fn literal_for_no_parameter_is_ignored() {
    let engine = engine();
    let manifest = workflow(vec![("a", node("numbers", "answer", &[("stray", "1")]))], vec![]);
    let lines = run(&engine, prototype(&engine, manifest));
    assert_eq!(lines.len(), 2);
}

#[test]
fn bytes_that_are_no_component_are_the_vm_s_error() {
    let manifest = workflow(vec![("a", node("numbers", "answer", &[]))], vec![]);
    let builder = Builder::new(manifest);
    let pending = match builder.resume() {
        Ok(Stage::Load(pending)) => pending,
        _ => panic!("nothing was asked for"),
    };
    match pending.supply(&engine(), &b"not wasm".to_vec()) {
        Err(Error::Wasmtime(message)) => assert!(!message.is_empty()),
        _ => panic!("the bytes were compiled"),
    }
}

#[test]
fn a_complaint_of_the_vm_ends_the_building_with_that_complaint() {
    let manifest = workflow(vec![("a", node("numbers", "answer", &[]))], vec![]);
    let pending = match Builder::new(manifest).resume() {
        Ok(Stage::Load(pending)) => pending,
        _ => panic!("nothing was asked for"),
    };
    match pending.accept(Err("the image is torn".to_string())) {
        Err(Error::Wasmtime(message)) => assert_eq!(message, "the image is torn"),
        _ => panic!("the complaint was lost"),
    }
}

#[test]
fn a_compiled_component_is_kept_under_the_name_that_was_wanted() {
    let engine = engine();
    let manifest = workflow(vec![("a", node("words", "forty-two", &[]))], vec![]);
    let pending = match Builder::new(manifest).resume() {
        Ok(Stage::Load(pending)) => pending,
        _ => panic!("nothing was asked for"),
    };
    assert_eq!(pending.component().0, "words");
    let compiled = Component::from_binary(&engine, &bytes_of(pending.source())).unwrap();
    let builder = match pending.accept(Ok(compiled)) {
        Ok(builder) => builder,
        Err(_) => panic!("the component was refused"),
    };
    let prototype = match builder.resume() {
        Ok(Stage::Ready(prototype)) => prototype,
        _ => panic!("the building did not end"),
    };
    let names: Vec<&str> = prototype.compiled().iter().map(|c| c.name.0.as_str()).collect();
    assert_eq!(names, vec!["words"]);
    assert_eq!(run(&engine, prototype).len(), 2);
}

#[test]
fn loader_failure_ends_the_building() {
    let manifest = workflow(vec![("a", node("numbers", "answer", &[]))], vec![]);
    let pending = match Builder::new(manifest).resume() {
        Ok(Stage::Load(pending)) => pending,
        _ => panic!("nothing was asked for"),
    };
    let error = pending.fail(workflow_engine::file_source::Error::Http(404));
    assert!(matches!(
        error,
        Error::FileSource(workflow_engine::file_source::Error::Http(404))
    ));
}

#[test]
fn components_are_loaded_when_first_used_and_only_once() {
    let manifest = workflow(
        vec![
            ("a", node("words", "forty-two", &[])),
            ("b", node("numbers", "answer", &[])),
            ("c", node("words", "forty-two", &[])),
        ],
        vec![],
    );
    let (result, asked) = build(&engine(), manifest);
    assert!(result.is_ok());
    assert_eq!(asked, vec!["words".to_string(), "numbers".to_string()]);
}

#[test]
fn a_component_behind_a_faulty_node_is_not_loaded() {
    let manifest = workflow(
        vec![
            ("a", node("numbers", "subtract", &[])),
            ("b", node("words", "forty-two", &[])),
        ],
        vec![],
    );
    let (result, asked) = build(&engine(), manifest);
    assert!(matches!(result, Err(Error::InvalidNode(_))));
    assert_eq!(asked, vec!["numbers".to_string()]);
}

#[test]
fn graph_has_the_functions_first_and_the_values_behind() {
    let engine = engine();
    let manifest = workflow(
        vec![
            ("a", node("numbers", "sum", &[("b", "2"), ("a", "1")])),
            ("b", node("numbers", "add-one", &[])),
        ],
        vec![edge("a", "b", "x")],
    );
    let prototype = prototype(&engine, manifest);
    let (vertices, links) = prototype.graph();
    assert_eq!(vertices.len(), 4);
    match &vertices[0] {
        NodeType::Function(function) => {
            assert_eq!(function.node_id.0, "a");
            assert_eq!(function.component_name.0, "numbers");
            assert_eq!(function.results, 1);
            assert!(function.val.is_none());
            let params: Vec<&str> = function.params.iter().map(|p| p.0.as_str()).collect();
            assert_eq!(params, vec!["a", "b"]);
        }
        other => panic!("unexpected: {other:?}"),
    }
    assert!(matches!(&vertices[1], NodeType::Function(function) if function.node_id.0 == "b"));
    assert!(matches!(&vertices[2], NodeType::Value(Val::U32(1))));
    assert!(matches!(&vertices[3], NodeType::Value(Val::U32(2))));
    let shape: Vec<(usize, usize, &str)> =
        links.iter().map(|l| (l.source, l.target, l.input.0.as_str())).collect();
    assert_eq!(shape, vec![(2, 0, "a"), (3, 0, "b"), (0, 1, "x")]);
    assert_eq!(prototype.compiled().len(), 1);
}

#[test]
fn guest_failure_continues() {
    let engine = engine();
    let manifest = workflow(
        vec![
            ("a", node("numbers", "answer", &[])),
            ("b", node("numbers", "boom", &[])),
            ("c", node("numbers", "add-one", &[])),
            ("d", node("numbers", "add-one", &[])),
        ],
        vec![edge("a", "b", "x"), edge("b", "c", "x"), edge("a", "d", "x")],
    );
    let prototype = Arc::new(prototype(&engine, manifest));
    let mut task = Task::new(prototype.clone());
    let mut seen = Vec::new();
    loop {
        let (next, step) = task.next();
        task = next;
        match step {
            Step::Invoke(call) => {
                seen.push(call.node_id.0.clone());
                let outcome = match call.node_id.0.as_str() {
                    "a" => Ok(vec![Val::U32(42)]),
                    "b" => Err("wasm trap: unreachable".to_string()),
                    _ => Ok(vec![Val::U32(43)]),
                };
                task = task.complete(outcome);
            }
            Step::Waiting => panic!("nothing is under way"),
            Step::Done => break,
        }
    }
    seen.sort();
    assert_eq!(seen, vec!["a", "b", "d"]);
    let lines: Vec<String> = task.events().iter().map(|e| e.event.to_string()).collect();
    let at = |line: &str| lines.iter().position(|l| l == line).unwrap_or_else(|| panic!("{line}"));
    assert_eq!(lines.len(), 7);
    assert_eq!(at("node:a started with params: []"), 0);
    assert_eq!(at("node:a succeeded with output: 42"), 1);
    let started = at("node:b started with params: [42]");
    let failed = at("node:b failed with error: wasm trap: unreachable");
    let skipped =
        at("node:c failed with error: an input has no value: its source produced none");
    assert_eq!(failed, started + 1);
    assert!(failed < skipped);
    assert_eq!(
        at("node:d succeeded with output: 43"),
        at("node:d started with params: [42]") + 1
    );
    for emitted in task.events() {
        let node = match &emitted.event {
            Event::ExecutionFailed(id, _) => id,
            Event::ExecutionStarted(id, _) => id,
            Event::ExecutionSucceeded(id, _) => id,
        };
        assert_eq!(["a", "b", "c", "d"][emitted.origin], node.0);
    }
    assert!(matches!(task.output(0), Some(Val::U32(42))));
    assert!(task.output(1).is_none());
    assert!(task.output(2).is_none());
    assert!(task.output(99).is_none());
}

#[test]
fn a_trapping_guest_is_reported_and_the_run_goes_on() {
    let engine = engine();
    let manifest = workflow(
        vec![
            ("b", node("numbers", "boom", &[("x", "1")])),
            ("z", node("numbers", "answer", &[])),
        ],
        vec![],
    );
    let lines = run(&engine, prototype(&engine, manifest));
    assert_eq!(lines.len(), 4);
    let started = lines.iter().position(|l| l == "node:b started with params: [1]").unwrap();
    assert!(lines[started + 1].starts_with("node:b failed with error: "));
    let other = lines.iter().position(|l| l == "node:z started with params: []").unwrap();
    assert_eq!(lines[other + 1], "node:z succeeded with output: 42");
}

#[test]
fn a_task_waits_while_a_call_is_under_way() {
    let engine = engine();
    let manifest = workflow(vec![("a", node("numbers", "answer", &[]))], vec![]);
    let task = Task::new(Arc::new(prototype(&engine, manifest)));
    assert!(!task.is_waiting());
    let (task, step) = task.next();
    assert!(matches!(step, Step::Invoke(_)));
    assert!(task.is_waiting());
    let (task, step) = task.next();
    assert!(matches!(step, Step::Waiting));
    assert_eq!(task.events().len(), 1);
    let task = task.complete(Ok(vec![Val::U32(42)]));
    assert!(!task.is_waiting());
    let (task, step) = task.next();
    assert!(matches!(step, Step::Done));
    assert_eq!(task.events().len(), 2);
    let (task, step) = task.next();
    assert!(matches!(step, Step::Done));
    assert_eq!(task.events().len(), 2);
}

#[test]
fn completing_when_nothing_is_under_way_changes_nothing() {
    let engine = engine();
    let manifest = workflow(vec![("a", node("numbers", "answer", &[]))], vec![]);
    let task = Task::new(Arc::new(prototype(&engine, manifest)));
    let task = task.complete(Ok(vec![Val::U32(1)]));
    assert!(task.events().is_empty());
    assert!(task.output(0).is_none());
}

#[test]
fn a_call_without_results_leaves_no_output_and_no_event() {
    let engine = engine();
    let manifest = workflow(
        vec![("a", node("numbers", "answer", &[])), ("b", node("numbers", "add-one", &[]))],
        vec![edge("a", "b", "x")],
    );
    let task = Task::new(Arc::new(prototype(&engine, manifest)));
    let (task, _) = task.next();
    let task = task.complete(Ok(vec![]));
    assert_eq!(task.events().len(), 1);
    let (task, step) = task.next();
    assert!(matches!(step, Step::Done));
    let lines: Vec<String> = task.events().iter().map(|e| e.event.to_string()).collect();
    assert_eq!(
        lines[1],
        "node:b failed with error: an input has no value: its source produced none"
    );
}

#[test]
fn only_the_first_result_is_the_output() {
    let engine = engine();
    let manifest = workflow(vec![("a", node("numbers", "answer", &[]))], vec![]);
    let task = Task::new(Arc::new(prototype(&engine, manifest)));
    let (task, _) = task.next();
    let task = task.complete(Ok(vec![Val::U32(7), Val::U32(8)]));
    assert!(matches!(task.output(0), Some(Val::U32(7))));
    assert!(matches!(
        &task.events()[1].event,
        Event::ExecutionSucceeded(id, Val::U32(7)) if id.0 == "a"
    ));
}

#[test]
fn tasks_of_one_prototype_do_not_share_outputs() {
    let engine = engine();
    let manifest = workflow(vec![("a", node("numbers", "answer", &[]))], vec![]);
    let prototype = Arc::new(prototype(&engine, manifest));
    let (first, _) = Task::new(prototype.clone()).next();
    let first = first.complete(Ok(vec![Val::U32(1)]));
    let second = Task::new(prototype.clone());
    assert!(first.output(0).is_some());
    assert!(second.output(0).is_none());
    assert!(second.events().is_empty());
}

#[test]
fn literals_are_read_and_written_back_in_their_normal_form() {
    let engine = engine();
    for (literal, written) in [
        ("\"world\"", "\"world\""),
        ("  \"a b\"  ", "\"a b\""),
        ("\"tab\\there\"", "\"tab\\there\""),
        ("\"\"", "\"\""),
    ] {
        let manifest = workflow(vec![("n", node("words", "greet", &[("name", literal)]))], vec![]);
        let task = Task::new(Arc::new(prototype(&engine, manifest)));
        let (task, _) = task.next();
        let line = task.events()[0].event.to_string();
        assert_eq!(line, format!("node:n started with params: [{written}]"));
    }
    for (literal, written) in [("7", "7"), (" 42 ", "42"), ("4294967295", "4294967295")] {
        let manifest = workflow(vec![("n", node("numbers", "add-one", &[("x", literal)]))], vec![]);
        let task = Task::new(Arc::new(prototype(&engine, manifest)));
        let (task, _) = task.next();
        let line = task.events()[0].event.to_string();
        assert_eq!(line, format!("node:n started with params: [{written}]"));
    }
}

#[test]
fn event_lines() {
    let id = node_id("n");
    assert_eq!(
        Event::ExecutionFailed(id.clone(), "boom".to_string()).to_string(),
        "node:n failed with error: boom"
    );
    assert_eq!(
        Event::ExecutionStarted(id.clone(), vec![Val::Bool(true), Val::String("x".into())])
            .to_string(),
        "node:n started with params: [true, \"x\"]"
    );
    assert_eq!(
        Event::ExecutionSucceeded(id.clone(), Val::List(vec![Val::U8(1), Val::U8(2)])).to_string(),
        "node:n succeeded with output: [1, 2]"
    );
    assert_eq!(
        Event::ExecutionSucceeded(id, Val::Option(None)).to_string(),
        "node:n succeeded with output: none"
    );
}

#[test]
fn set_val_fills_a_function_and_leaves_a_value() {
    let engine = engine();
    let manifest = workflow(vec![("a", node("numbers", "add-one", &[("x", "1")]))], vec![]);
    let prototype = prototype(&engine, manifest);
    let (vertices, _) = prototype.graph();
    let mut function = match &vertices[0] {
        NodeType::Function(function) => NodeType::Function(
            workflow_engine::prototype::Function {
                component_name: function.component_name.clone(),
                index: function.index,
                node_id: function.node_id.clone(),
                params: function.params.clone(),
                results: function.results,
                val: None,
            },
        ),
        other => panic!("unexpected: {other:?}"),
    };
    function.set_val(Val::U32(5));
    assert!(matches!(&function, NodeType::Function(f) if matches!(f.val, Some(Val::U32(5)))));
    let mut value = NodeType::Value(Val::U32(1));
    value.set_val(Val::U32(9));
    assert!(matches!(value, NodeType::Value(Val::U32(1))));
}

#[test]
fn events_are_handed_out_once_and_in_order() {
    let engine = engine();
    let manifest = workflow(
        vec![("a", node("numbers", "answer", &[])), ("b", node("numbers", "add-one", &[]))],
        vec![edge("a", "b", "x")],
    );
    let task = Task::new(Arc::new(prototype(&engine, manifest)));
    let (task, nothing) = task.take_events();
    assert!(nothing.is_empty());
    let mut handed = Vec::new();
    let (task, _) = task.next();
    let (task, events) = task.take_events();
    handed.extend(events.iter().map(|e| e.to_string()));
    assert_eq!(handed, vec!["node:a started with params: []"]);
    let (task, again) = task.take_events();
    assert!(again.is_empty());
    let task = task.complete(Ok(vec![Val::U32(42)]));
    let (task, _) = task.next();
    let task = task.complete(Err("no".to_string()));
    let (task, events) = task.take_events();
    handed.extend(events.iter().map(|e| e.to_string()));
    let log: Vec<String> = task.events().iter().map(|e| e.event.to_string()).collect();
    assert_eq!(handed, log);
    assert_eq!(
        log,
        vec![
            "node:a started with params: []",
            "node:a succeeded with output: 42",
            "node:b started with params: [42]",
            "node:b failed with error: no",
        ]
    );
    let (_, rest) = task.take_events();
    assert!(rest.is_empty());
}

#[test]
fn channel_holds_thirty_two_events() {
    assert_eq!(workflow_engine::task::CHANNEL_CAPACITY, 32);
}

#[test]
fn a_value_with_a_handle_in_it_is_written_as_opaque() {
    let engine = engine();
    let mut store = Store::new(&engine, ());
    let handle = ResourceAny::try_from_resource(Resource::<Secret>::new_own(7), &mut store).unwrap();
    let bare = Val::Resource(handle);
    assert!(holds_handle(&bare));
    assert!(holds_handle(&Val::List(vec![Val::U8(1), bare.clone()])));
    assert!(holds_handle(&Val::Tuple(vec![bare.clone()])));
    assert!(holds_handle(&Val::Record(vec![("h".to_string(), bare.clone())])));
    assert!(holds_handle(&Val::Variant("h".to_string(), Some(Box::new(bare.clone())))));
    assert!(holds_handle(&Val::Option(Some(Box::new(bare.clone())))));
    assert!(holds_handle(&Val::Result(Ok(Some(Box::new(bare.clone()))))));
    assert!(holds_handle(&Val::Result(Err(Some(Box::new(bare.clone()))))));
    let deep = Val::Option(Some(Box::new(Val::List(vec![Val::Tuple(vec![bare.clone()])]))));
    assert!(holds_handle(&deep));
    let id = node_id("n");
    assert_eq!(
        Event::ExecutionSucceeded(id.clone(), deep).to_string(),
        "node:n succeeded with output: <opaque>"
    );
    assert_eq!(
        Event::ExecutionStarted(id, vec![Val::U8(1), bare, Val::Bool(false)]).to_string(),
        "node:n started with params: [1, <opaque>, false]"
    );
}

#[test]
fn values_without_a_handle_are_written_as_literals() {
    let plain = [
        Val::Bool(true),
        Val::S64(-3),
        Val::Char('x'),
        Val::String("s".to_string()),
        Val::List(vec![]),
        Val::List(vec![Val::U8(1)]),
        Val::Tuple(vec![Val::U8(1), Val::Bool(false)]),
        Val::Record(vec![("a".to_string(), Val::U8(1))]),
        Val::Variant("v".to_string(), None),
        Val::Variant("v".to_string(), Some(Box::new(Val::U8(1)))),
        Val::Enum("e".to_string()),
        Val::Option(None),
        Val::Option(Some(Box::new(Val::U8(1)))),
        Val::Result(Ok(None)),
        Val::Result(Err(None)),
        Val::Result(Ok(Some(Box::new(Val::U8(1))))),
        Val::Flags(vec!["f".to_string()]),
    ];
    let written = [
        "true", "-3", "'x'", "\"s\"", "[]", "[1]", "(1, false)", "{a: 1}", "v", "v(1)", "e",
        "none", "some(1)", "ok", "err", "ok(1)", "{f}",
    ];
    for (value, text) in plain.iter().zip(written) {
        assert!(!holds_handle(value));
        assert_eq!(
            Event::ExecutionSucceeded(node_id("n"), value.clone()).to_string(),
            format!("node:n succeeded with output: {text}")
        );
    }
}

#[test]
fn a_node_key_that_an_earlier_node_has_makes_the_node_invalid() {
    let manifest = workflow(
        vec![
            ("a", node("numbers", "answer", &[])),
            ("b", node("numbers", "answer", &[])),
            ("a", node("words", "forty-two", &[])),
        ],
        vec![],
    );
    let (result, asked) = build(&engine(), manifest);
    match result {
        Err(Error::InvalidNode(id)) => assert_eq!(id.0, "a"),
        _ => panic!("the repeated key was accepted"),
    }
    assert_eq!(asked, vec!["numbers".to_string()]);
}

#[test]
fn the_prototype_holds_the_components_that_its_nodes_use() {
    let manifest = workflow(
        vec![
            ("a", node("words", "forty-two", &[])),
            ("b", node("words", "echo", &[("input", "\"x\"")])),
        ],
        vec![],
    );
    let prototype = prototype(&engine(), manifest);
    let names: Vec<&str> = prototype.compiled().iter().map(|c| c.name.0.as_str()).collect();
    assert_eq!(names, vec!["words"]);
}

#[test]
fn the_value_kept_for_a_literal_is_the_one_the_vm_reads() {
    let manifest = workflow(
        vec![("a", node("numbers", "sum", &[("a", "7"), ("b", "35")]))],
        vec![],
    );
    let prototype = prototype(&engine(), manifest);
    let (vertices, _) = prototype.graph();
    assert!(matches!(&vertices[1], NodeType::Value(Val::U32(7))));
    assert!(matches!(&vertices[2], NodeType::Value(Val::U32(35))));
}

#[test]
fn the_first_literal_that_cannot_be_read_is_the_one_reported() {
    let manifest = workflow(
        vec![("a", node("numbers", "sum", &[("b", "no"), ("a", "-1")]))],
        vec![],
    );
    match rejection(manifest) {
        Error::LiteralDecode(input, message) => {
            assert_eq!(input.0, "a");
            assert!(!message.is_empty());
        }
        other => panic!("unexpected: {other:?}"),
    }
}

#[test]
fn every_task_of_a_prototype_visits_the_vertices_in_the_same_order() {
    let engine = engine();
    let manifest = workflow(
        vec![
            ("a", node("numbers", "answer", &[])),
            ("b", node("numbers", "answer", &[])),
            ("c", node("numbers", "answer", &[])),
            ("d", node("numbers", "sum", &[])),
        ],
        vec![edge("c", "d", "a"), edge("a", "d", "b")],
    );
    let prototype = Arc::new(prototype(&engine, manifest));
    let mut runs = Vec::new();
    for _ in 0..3 {
        let mut task = Task::new(prototype.clone());
        let mut seen = Vec::new();
        loop {
            let (next, step) = task.next();
            task = next;
            match step {
                Step::Invoke(call) => {
                    seen.push(call.node_id.0.clone());
                    task = task.complete(Ok(vec![Val::U32(1)]));
                }
                _ => break,
            }
        }
        runs.push(seen);
    }
    assert_eq!(runs[0].len(), 4);
    assert_eq!(runs[0], runs[1]);
    assert_eq!(runs[1], runs[2]);
}
