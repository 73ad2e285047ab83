//! The library's model of a debug-information tree.
//!
//! A compilation unit is a flat arena of tree nodes plus the unit's
//! depth-first traversal order, each traversal step carrying the signed
//! depth delta that the producer's cursor reported for it.  Back-references
//! (an inline call site's abstract origin) are indices into the same unit's
//! arena and are meaningless outside it.

use vstd::prelude::*;

verus! {

/// The node kinds the traversal reacts to; every other kind is `Other`.
#[derive(Clone, Copy, PartialEq, Eq, Structural, Debug)]
pub enum Tag {
    /// A function definition.
    Subprogram,
    /// One inlining instance of a function at a particular call site.
    InlinedSubroutine,
    /// Any node the walk ignores.
    Other,
}

/// The attribute names the extractors read; every other name is `Other`.
#[derive(Clone, Copy, PartialEq, Eq, Structural, Debug)]
pub enum AttrName {
    LowPc,
    HighPc,
    LinkageName,
    Name,
    Inline,
    AbstractOrigin,
    Ranges,
    CallFile,
    CallLine,
    Other,
}

/// A typed attribute value, preserving the encoding class the producer
/// used, so that a value in an unexpected form can be rejected.
pub enum AttrValue {
    /// A machine address.
    Addr(u64),
    /// An unsigned constant in the direct unsigned encoding.
    Udata(u64),
    /// An unsigned constant in one of the other convertible encodings.
    OtherConstant(u64),
    /// A resolved string (a name).
    StrRef(String),
    /// A back-reference to another node of the same unit, by arena index.
    UnitRef(usize),
    /// A resolved range list: the `[begin, end)` pairs it holds.
    RangeList(Vec<(u64, u64)>),
    /// An index into the unit's file table.
    FileIndex(u64),
    /// The "is inlined" marker: true when the definition exists only as a
    /// template for inlining.
    InlineFlag(bool),
    /// Any encoding the extractors do not read.
    OtherForm,
}

/// One attribute of a tree node.
pub struct Attr {
    pub name: AttrName,
    pub value: AttrValue,
}

/// One node of the debug-information tree.
pub struct Node {
    pub tag: Tag,
    pub attrs: Vec<Attr>,
}

/// One step of the depth-first traversal: the signed depth delta the
/// cursor reported, and the visited node's arena index.
#[derive(Clone, Copy, PartialEq, Eq, Structural, Debug)]
pub struct Step {
    pub delta: isize,
    pub node: usize,
}

/// A compilation unit: its node arena and its traversal order.  The root
/// node is part of the arena but has no step: the walk never processes it.
pub struct Unit {
    pub nodes: Vec<Node>,
    pub steps: Vec<Step>,
}

/// A half-open interval `[lo, hi)` of 64-bit instruction addresses.
#[derive(Clone, Copy, PartialEq, Eq, Structural, Debug)]
pub struct AddrRange {
    pub lo: u64,
    pub hi: u64,
}

/// Where a function definition's code lives: an address span, or nowhere
/// because the definition is only an inlining template.
#[derive(Clone, Copy, PartialEq, Eq, Structural, Debug)]
pub enum Span {
    Pc(AddrRange),
    Inlined,
}

/// Why a pass over malformed debug information aborts.
#[derive(Clone, Copy, PartialEq, Eq, Structural, Debug)]
pub enum Error {
    /// A unit's tree has no root node.
    EmptyDebugInfo,
    /// The node at arena index `node` lacks an attribute its tag
    /// contractually requires.
    MissingRequiredAttribute { node: usize, attr: AttrName },
    /// An attribute is present but encoded in a form the reader does not
    /// expect for that attribute.
    UnexpectedAttributeForm { attr: AttrName },
    /// An inline call site's abstract-origin reference does not yield a
    /// usable function definition.
    UnresolvedOrigin,
    /// A live function definition was met while the walk was still inside
    /// another live function's subtree.
    NestedLiveSubprogram,
}

// ---------------------------------------------------------------------------
// Spec mirrors of the owning types, with `String` as `Seq<char>` and
// `Vec` as `Seq`.
// ---------------------------------------------------------------------------

/// Spec view of an attribute value.
pub enum AttrValueSpec {
    Addr(u64),
    Udata(u64),
    OtherConstant(u64),
    StrRef(Seq<char>),
    UnitRef(usize),
    RangeList(Seq<(u64, u64)>),
    FileIndex(u64),
    InlineFlag(bool),
    OtherForm,
}

/// Spec view of an attribute.
pub struct AttrSpec {
    pub name: AttrName,
    pub value: AttrValueSpec,
}

/// Spec view of a node.
pub struct NodeSpec {
    pub tag: Tag,
    pub attrs: Seq<AttrSpec>,
}

/// Spec view of a unit.
pub struct UnitSpec {
    pub nodes: Seq<NodeSpec>,
    pub steps: Seq<Step>,
}

impl View for AttrValue {
    type V = AttrValueSpec;

    open spec fn view(&self) -> AttrValueSpec {
        match self {
            AttrValue::Addr(a) => AttrValueSpec::Addr(*a),
            AttrValue::Udata(v) => AttrValueSpec::Udata(*v),
            AttrValue::OtherConstant(v) => AttrValueSpec::OtherConstant(*v),
            AttrValue::StrRef(s) => AttrValueSpec::StrRef(s@),
            AttrValue::UnitRef(i) => AttrValueSpec::UnitRef(*i),
            AttrValue::RangeList(rs) => AttrValueSpec::RangeList(rs@),
            AttrValue::FileIndex(i) => AttrValueSpec::FileIndex(*i),
            AttrValue::InlineFlag(b) => AttrValueSpec::InlineFlag(*b),
            AttrValue::OtherForm => AttrValueSpec::OtherForm,
        }
    }
}

impl View for Attr {
    type V = AttrSpec;

    open spec fn view(&self) -> AttrSpec {
        AttrSpec { name: self.name, value: self.value@ }
    }
}

impl View for Node {
    type V = NodeSpec;

    open spec fn view(&self) -> NodeSpec {
        NodeSpec { tag: self.tag, attrs: self.attrs@.map_values(|a: Attr| a@) }
    }
}

impl View for Unit {
    type V = UnitSpec;

    open spec fn view(&self) -> UnitSpec {
        UnitSpec {
            nodes: self.nodes@.map_values(|n: Node| n@),
            steps: self.steps@,
        }
    }
}

} // verus!
