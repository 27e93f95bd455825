//! Marker types that select how a traversal runs and in which order it visits nodes.

use vstd::prelude::*;

verus! {

/// Traversals that run one call at a time on the caller's thread.
pub struct Synchronous;

/// Traversals meant for closures that may be shared between tasks (`Sync + Send`).
pub struct Asynchronous;

/// An order in which a visiting traversal calls its closure.
pub trait Order {
    /// Whether a node is visited before its children.
    spec fn parent_first_spec() -> bool;

    /// Whether a node is visited before its children.
    fn parent_first() -> (b: bool)
        ensures
            b == Self::parent_first_spec(),
    ;
}

/// Visit a node, then its children from first to last.
pub struct Preorder;

/// Visit the children of a node from first to last, then the node.
pub struct Postorder;

impl Order for Preorder {
    open spec fn parent_first_spec() -> bool {
        true
    }

    fn parent_first() -> (b: bool) {
        true
    }
}

impl Order for Postorder {
    open spec fn parent_first_spec() -> bool {
        false
    }

    fn parent_first() -> (b: bool) {
        false
    }
}

} // verus!
