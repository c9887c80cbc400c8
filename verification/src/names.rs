use vstd::prelude::*;
use vstd::string::*;

verus! {

/// Key of a dependency within one workflow manifest.
///
/// The name is an opaque string; two names are the same name when they hold
/// the same characters, which is what the view exposes.
#[derive(Debug, PartialEq, Eq, Hash)]
pub struct ComponentName(pub String);

impl View for ComponentName {
    type V = Seq<char>;

    open spec fn view(&self) -> Seq<char> {
        self.0@
    }
}

impl Clone for ComponentName {
    fn clone(&self) -> (r: Self)
        ensures
            r == *self,
    {
        ComponentName(self.0.clone())
    }
}

impl ComponentName {
    /// The prefix that marks this kind of name in diagnostics.
    pub open spec fn prefix() -> Seq<char> {
        "component:"@
    }

    /// Whether both names hold the same characters.
    pub fn same(&self, other: &ComponentName) -> (r: bool)
        ensures
            r == (self@ == other@),
    {
        self.0 == other.0
    }

    /// The name as diagnostics show it: the kind's prefix, then the name.
    pub fn to_string(&self) -> (r: String)
        ensures
            r@ == Self::prefix() + self@,
    {
        String::from_str("component:").concat(self.0.as_str())
    }
}

/// Name of a function that a component exports.
///
/// The name is an opaque string; two names are the same name when they hold
/// the same characters, which is what the view exposes.
#[derive(Debug, PartialEq, Eq, Hash)]
pub struct FunctionName(pub String);

impl View for FunctionName {
    type V = Seq<char>;

    open spec fn view(&self) -> Seq<char> {
        self.0@
    }
}

impl Clone for FunctionName {
    fn clone(&self) -> (r: Self)
        ensures
            r == *self,
    {
        FunctionName(self.0.clone())
    }
}

impl FunctionName {
    /// The prefix that marks this kind of name in diagnostics.
    pub open spec fn prefix() -> Seq<char> {
        "func:"@
    }

    /// Whether both names hold the same characters.
    pub fn same(&self, other: &FunctionName) -> (r: bool)
        ensures
            r == (self@ == other@),
    {
        self.0 == other.0
    }

    /// The name as diagnostics show it: the kind's prefix, then the name.
    pub fn to_string(&self) -> (r: String)
        ensures
            r@ == Self::prefix() + self@,
    {
        String::from_str("func:").concat(self.0.as_str())
    }
}

/// Name of a parameter of an exported function.
///
/// The name is an opaque string; two names are the same name when they hold
/// the same characters, which is what the view exposes.
#[derive(Debug, PartialEq, Eq, Hash)]
pub struct InputName(pub String);

impl View for InputName {
    type V = Seq<char>;

    open spec fn view(&self) -> Seq<char> {
        self.0@
    }
}

impl Clone for InputName {
    fn clone(&self) -> (r: Self)
        ensures
            r == *self,
    {
        InputName(self.0.clone())
    }
}

impl InputName {
    /// The prefix that marks this kind of name in diagnostics.
    pub open spec fn prefix() -> Seq<char> {
        "input:"@
    }

    /// Whether both names hold the same characters.
    pub fn same(&self, other: &InputName) -> (r: bool)
        ensures
            r == (self@ == other@),
    {
        self.0 == other.0
    }

    /// The name as diagnostics show it: the kind's prefix, then the name.
    pub fn to_string(&self) -> (r: String)
        ensures
            r@ == Self::prefix() + self@,
    {
        String::from_str("input:").concat(self.0.as_str())
    }
}

/// Key of a node within one workflow manifest.
///
/// The name is an opaque string; two names are the same name when they hold
/// the same characters, which is what the view exposes.
#[derive(Debug, PartialEq, Eq, Hash)]
pub struct NodeId(pub String);

impl View for NodeId {
    type V = Seq<char>;

    open spec fn view(&self) -> Seq<char> {
        self.0@
    }
}

impl Clone for NodeId {
    fn clone(&self) -> (r: Self)
        ensures
            r == *self,
    {
        NodeId(self.0.clone())
    }
}

impl NodeId {
    /// The prefix that marks this kind of name in diagnostics.
    pub open spec fn prefix() -> Seq<char> {
        "node:"@
    }

    /// Whether both names hold the same characters.
    pub fn same(&self, other: &NodeId) -> (r: bool)
        ensures
            r == (self@ == other@),
    {
        self.0 == other.0
    }

    /// The name as diagnostics show it: the kind's prefix, then the name.
    pub fn to_string(&self) -> (r: String)
        ensures
            r@ == Self::prefix() + self@,
    {
        String::from_str("node:").concat(self.0.as_str())
    }
}

/// Name of an interface that a component exports.
///
/// The name is an opaque string; two names are the same name when they hold
/// the same characters, which is what the view exposes.
#[derive(Debug, PartialEq, Eq, Hash)]
pub struct InterfaceName(pub String);

impl View for InterfaceName {
    type V = Seq<char>;

    open spec fn view(&self) -> Seq<char> {
        self.0@
    }
}

impl Clone for InterfaceName {
    fn clone(&self) -> (r: Self)
        ensures
            r == *self,
    {
        InterfaceName(self.0.clone())
    }
}

impl InterfaceName {
    /// The prefix that marks this kind of name in diagnostics.
    pub open spec fn prefix() -> Seq<char> {
        "interface:"@
    }

    /// Whether both names hold the same characters.
    pub fn same(&self, other: &InterfaceName) -> (r: bool)
        ensures
            r == (self@ == other@),
    {
        self.0 == other.0
    }

    /// The name as diagnostics show it: the kind's prefix, then the name.
    pub fn to_string(&self) -> (r: String)
        ensures
            r@ == Self::prefix() + self@,
    {
        String::from_str("interface:").concat(self.0.as_str())
    }
}

/// Key of an edge within one workflow manifest.
///
/// The name is an opaque string; two names are the same name when they hold
/// the same characters, which is what the view exposes.
#[derive(Debug, PartialEq, Eq, Hash)]
pub struct EdgeId(pub String);

impl View for EdgeId {
    type V = Seq<char>;

    open spec fn view(&self) -> Seq<char> {
        self.0@
    }
}

impl Clone for EdgeId {
    fn clone(&self) -> (r: Self)
        ensures
            r == *self,
    {
        EdgeId(self.0.clone())
    }
}

impl EdgeId {
    /// The prefix that marks this kind of name in diagnostics.
    pub open spec fn prefix() -> Seq<char> {
        "edge:"@
    }

    /// Whether both names hold the same characters.
    pub fn same(&self, other: &EdgeId) -> (r: bool)
        ensures
            r == (self@ == other@),
    {
        self.0 == other.0
    }

    /// The name as diagnostics show it: the kind's prefix, then the name.
    pub fn to_string(&self) -> (r: String)
        ensures
            r@ == Self::prefix() + self@,
    {
        String::from_str("edge:").concat(self.0.as_str())
    }
}

} // verus!
