//! A workflow engine for directed acyclic graphs of calls into sandboxed
//! WebAssembly components: reference classification, loading policy,
//! validation of a manifest against the components' typed exports, and the
//! serial schedule that carries values along the edges.
//!
//! The library decides and the program around it acts: it fetches the bytes
//! that the builder asks for, makes the calls that a task hands out, and
//! sends the events on.

pub mod builder;
pub mod file_source;
pub mod graph;
pub mod loader;
pub mod lookup;
pub mod metadata;
pub mod names;
pub mod prototype;
pub mod schema;
pub mod task;
pub mod text;
pub mod vm;
pub mod workflow;
