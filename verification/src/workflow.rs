//! The workflow manifest: the components a workflow depends on, its nodes,
//! and the edges that carry one node's output to an input of another.
//!
//! The manifest's mappings are kept as sequences of entries. An entry is
//! found by its key; where a key occurs more than once, the first entry is
//! the one that counts, and a node whose key an earlier node has is refused
//! when the manifest is built. Nodes are visited in the order of their
//! entries.

use crate::file_source::FileSource;
use crate::names::ComponentName;
use crate::names::FunctionName;
use crate::names::InputName;
use crate::names::NodeId;
use crate::text;
use vstd::prelude::*;
use vstd::string::*;

verus! {

/// An edge: the output of `source` is the input `input` of `target`.
#[derive(Debug)]
pub struct Edge {
    pub input: InputName,
    pub source: NodeId,
    pub target: NodeId,
}

/// A literal given to an input of a node, as text.
#[derive(Debug)]
pub struct Assignment {
    pub input: InputName,
    pub literal: String,
}

/// A node: a call of one exported function of one component.
#[derive(Debug)]
pub struct Node {
    /// The function to run.
    pub run: FunctionName,
    /// The component to use, by its name among the dependencies.
    pub uses: ComponentName,
    /// The literals given to inputs of the function.
    pub with: Vec<Assignment>,
}

/// A component that the workflow depends on.
#[derive(Debug)]
pub struct Dependency {
    pub name: ComponentName,
    pub source: FileSource,
}

/// A node under its key.
#[derive(Debug)]
pub struct Entry {
    pub id: NodeId,
    pub node: Node,
}

/// A workflow manifest.
#[derive(Debug)]
pub struct Workflow {
    pub dependencies: Vec<Dependency>,
    pub edges: Vec<Edge>,
    pub nodes: Vec<Entry>,
}

/// The format that a manifest is written in.
#[derive(Debug, PartialEq, Eq, Clone, Copy)]
pub enum Format {
    Json,
    Yaml,
}

/// The name of the file that a path leads to: its last component, which is
/// what follows the last `/` of the path once the `/` at its end are left
/// off.
pub open spec fn file_name(path: Seq<char>) -> Seq<char> {
    let stem = text::without_trailing(path, '/');
    stem.subrange(text::after_last(stem, '/'), stem.len() as int)
}

/// The extension of the file that a path leads to: what follows the last
/// dot of the file's name. A name without a dot has none, nor has a name
/// whose only dot is its first character.
pub open spec fn extension_of(path: Seq<char>) -> Option<Seq<char>> {
    let name = file_name(path);
    let dot = text::after_last(name, '.');
    if dot <= 1 {
        None
    } else {
        Some(name.subrange(dot, name.len() as int))
    }
}

/// The format that the name of a manifest's file stands for: the extension
/// `json` for JSON, `yaml` or `yml` for YAML, anything else for none.
pub open spec fn format_for(path: Seq<char>) -> Option<Format> {
    match extension_of(path) {
        Some(extension) => if extension == "json"@ {
            Some(Format::Json)
        } else if extension == "yaml"@ || extension == "yml"@ {
            Some(Format::Yaml)
        } else {
            None
        },
        None => None,
    }
}

/// The extension of the file that a path leads to, if it has one.
pub fn extension(path: &str) -> (r: Option<&str>)
    ensures
        match extension_of(path@) {
            Some(extension) => r is Some && r->0@ == extension,
            None => r is None,
        },
{
    let stem = text::trim_end_of(path, '/');
    let start = text::find_after_last(stem, '/');
    let name = stem.substring_char(start, stem.unicode_len());
    let dot = text::find_after_last(name, '.');
    if dot <= 1 {
        None
    } else {
        Some(name.substring_char(dot, name.unicode_len()))
    }
}

/// The format of the manifest in the file of that name, if the name tells.
pub fn format_of(path: &str) -> (r: Option<Format>)
    ensures
        r == format_for(path@),
{
    match extension(path) {
        Some(found) => {
            if text::same(found, "json") {
                Some(Format::Json)
            } else if text::same(found, "yaml") || text::same(found, "yml") {
                Some(Format::Yaml)
            } else {
                None
            }
        },
        None => None,
    }
}

/// `key` stands at position `i` of `keys` and at no earlier one.
pub open spec fn is_first(keys: Seq<Seq<char>>, key: Seq<char>, i: int) -> bool {
    &&& 0 <= i < keys.len()
    &&& keys[i] == key
    &&& forall|j: int| 0 <= j < i ==> keys[j] != key
}

/// The first position of `key` among `keys`, if it occurs.
pub open spec fn position(keys: Seq<Seq<char>>, key: Seq<char>) -> Option<int> {
    if exists|i: int| is_first(keys, key, i) {
        Some(choose|i: int| is_first(keys, key, i))
    } else {
        None
    }
}

/// A key has one first position.
pub proof fn lemma_position_found(keys: Seq<Seq<char>>, key: Seq<char>, i: int)
    requires
        is_first(keys, key, i),
    ensures
        position(keys, key) == Some(i),
{
    let j = choose|j: int| is_first(keys, key, j);
    assert(is_first(keys, key, j));
    if j < i {
        assert(keys[j] != key);
    }
    if i < j {
        assert(keys[i] != key);
    }
}

/// A key that stands nowhere has no position.
pub proof fn lemma_position_absent(keys: Seq<Seq<char>>, key: Seq<char>)
    requires
        forall|j: int| 0 <= j < keys.len() ==> keys[j] != key,
    ensures
        position(keys, key) is None,
{
}

/// What a position says: the key stands there first; no position, the key
/// stands nowhere.
pub proof fn lemma_position(keys: Seq<Seq<char>>, key: Seq<char>)
    ensures
        match position(keys, key) {
            Some(i) => is_first(keys, key, i),
            None => forall|j: int| 0 <= j < keys.len() ==> keys[j] != key,
        },
{
    if !(exists|i: int| is_first(keys, key, i)) {
        assert forall|j: int| 0 <= j < keys.len() implies keys[j] != key by {
            if keys[j] == key {
                lemma_first_exists(keys, key, j);
            }
        }
    }
}

/// A key that stands somewhere stands somewhere first.
proof fn lemma_first_exists(keys: Seq<Seq<char>>, key: Seq<char>, j: int)
    requires
        0 <= j < keys.len(),
        keys[j] == key,
    ensures
        exists|i: int| is_first(keys, key, i),
    decreases j,
{
    if exists|k: int| 0 <= k < j && keys[k] == key {
        let k = choose|k: int| 0 <= k < j && keys[k] == key;
        lemma_first_exists(keys, key, k);
    } else {
        assert(is_first(keys, key, j));
    }
}

/// The keys of the nodes, in the order of the entries.
pub open spec fn node_ids(nodes: Seq<Entry>) -> Seq<Seq<char>> {
    Seq::new(nodes.len(), |i: int| nodes[i].id@)
}

/// The names of the dependencies, in the order of the entries.
pub open spec fn dependency_names(dependencies: Seq<Dependency>) -> Seq<Seq<char>> {
    Seq::new(dependencies.len(), |i: int| dependencies[i].name@)
}

/// The inputs that literals are given to, in the order of the entries.
pub open spec fn assigned_inputs(with: Seq<Assignment>) -> Seq<Seq<char>> {
    Seq::new(with.len(), |i: int| with[i].input@)
}

impl Clone for Edge {
    fn clone(&self) -> (r: Self)
        ensures
            r == *self,
    {
        Edge { input: self.input.clone(), source: self.source.clone(), target: self.target.clone() }
    }
}

impl Node {
    /// The literal given to an input, if one is given.
    pub fn literal(&self, input: &InputName) -> (r: Option<&String>)
        ensures
            match position(assigned_inputs(self.with@), input@) {
                Some(i) => 0 <= i < self.with@.len() && r == Some(&self.with[i].literal),
                None => r is None,
            },
    {
        let mut i: usize = 0;
        while i < self.with.len()
            invariant
                i <= self.with.len(),
                forall|j: int| 0 <= j < i ==> assigned_inputs(self.with@)[j] != input@,
            decreases self.with.len() - i,
        {
            if self.with[i].input.same(input) {
                proof {
                    lemma_position_found(assigned_inputs(self.with@), input@, i as int);
                }
                return Some(&self.with[i].literal);
            }
            i += 1;
        }
        proof {
            lemma_position_absent(assigned_inputs(self.with@), input@);
        }
        None
    }
}

impl Workflow {
    /// A workflow without dependencies, nodes or edges.
    pub fn new() -> (r: Self)
        ensures
            r.dependencies@.len() == 0,
            r.edges@.len() == 0,
            r.nodes@.len() == 0,
    {
        Workflow { dependencies: Vec::new(), edges: Vec::new(), nodes: Vec::new() }
    }

    /// Where the component of that name comes from, if the workflow depends
    /// on one.
    pub fn dependency(&self, name: &ComponentName) -> (r: Option<&FileSource>)
        ensures
            match position(dependency_names(self.dependencies@), name@) {
                Some(i) => 0 <= i < self.dependencies@.len() && r == Some(
                    &self.dependencies[i].source,
                ),
                None => r is None,
            },
    {
        let mut i: usize = 0;
        while i < self.dependencies.len()
            invariant
                i <= self.dependencies.len(),
                forall|j: int| 0 <= j < i ==> dependency_names(self.dependencies@)[j] != name@,
            decreases self.dependencies.len() - i,
        {
            if self.dependencies[i].name.same(name) {
                proof {
                    lemma_position_found(dependency_names(self.dependencies@), name@, i as int);
                }
                return Some(&self.dependencies[i].source);
            }
            i += 1;
        }
        proof {
            lemma_position_absent(dependency_names(self.dependencies@), name@);
        }
        None
    }

    /// The position of the node with that key, if there is one.
    pub fn position(&self, id: &NodeId) -> (r: Option<usize>)
        ensures
            match r {
                Some(i) => i < self.nodes@.len() && position(node_ids(self.nodes@), id@) == Some(
                    i as int,
                ),
                None => position(node_ids(self.nodes@), id@) is None,
            },
    {
        let mut i: usize = 0;
        while i < self.nodes.len()
            invariant
                i <= self.nodes.len(),
                forall|j: int| 0 <= j < i ==> node_ids(self.nodes@)[j] != id@,
            decreases self.nodes.len() - i,
        {
            if self.nodes[i].id.same(id) {
                proof {
                    lemma_position_found(node_ids(self.nodes@), id@, i as int);
                }
                return Some(i);
            }
            i += 1;
        }
        proof {
            lemma_position_absent(node_ids(self.nodes@), id@);
        }
        None
    }
}

} // verus!
