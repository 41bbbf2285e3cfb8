//! The declaration tree handed in by the C front end, reduced to the plain
//! values the extraction logic reads.
//!
//! The front end parses one file and reports, for every node of its
//! declaration tree: the declaration kind, an optional spelled name, the
//! textual rendering of the type the node declares or aliases, the signed
//! value of an enumerator constant, whether the node lies in the parsed file
//! itself (rather than in an included header), whether the node is merely a
//! forward declaration whose full definition stands elsewhere in the tree,
//! and the ordered list of immediate children.

use vstd::prelude::*;

verus! {

/// The declaration kinds the extraction distinguishes. Every other kind of
/// node the front end may report is `Other`.
#[derive(Clone, Copy, Debug, PartialEq, Eq, Structural)]
pub enum NodeKind {
    /// A type-alias declaration (`typedef`).
    Alias,
    /// A structure declaration.
    Struct,
    /// An enumeration declaration.
    Enum,
    /// A union declaration.
    Union,
    /// Any other node: members, enumerator constants, containers, ...
    Other,
}

/// One node of the declaration tree.
pub struct Node {
    /// The declaration kind.
    pub kind: NodeKind,
    /// The node's spelled name, when it has one. Anonymous aggregates have
    /// none.
    pub name: Option<String>,
    /// The textual rendering of the type this node declares: for an alias,
    /// the underlying type; for a member, the member's declared type.
    pub type_display: Option<String>,
    /// The signed 64-bit value of an enumerator-constant node.
    pub enum_value: Option<i64>,
    /// True when the node is located in the parsed file itself; false for
    /// nodes that come from included headers.
    pub in_main_file: bool,
    /// True when the front end reports the node as a mere forward
    /// declaration and links a separate full definition node, which stands
    /// elsewhere in the same tree. The walker leaves extraction to that
    /// definition node, so the declaration is extracted exactly once, with
    /// the definition's member list.
    pub is_forward_decl: bool,
    /// The immediate child nodes, in source order.
    pub children: Vec<Node>,
}

} // verus!
