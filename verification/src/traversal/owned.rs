//! A traversal that owns its tree, such as the one `map` builds.

use vstd::prelude::*;
use std::marker::PhantomData;
use crate::node::Node;
use crate::strategy::{Asynchronous, Synchronous};

verus! {

/// A tree owned by the traversal, traversed with strategy `S`.
pub struct TraverseOwned<T, S> {
    node: Node<T>,
    strategy: PhantomData<S>,
}

impl<T, S> View for TraverseOwned<T, S> {
    type V = Node<T>;

    /// The tree this traversal owns.
    closed spec fn view(&self) -> Node<T> {
        self.node
    }
}

impl<T> TraverseOwned<T, Synchronous> {
    /// A synchronous traversal that owns `node`.
    pub fn new(node: Node<T>) -> (t: Self)
        ensures
            t@ == node,
    {
        TraverseOwned { node, strategy: PhantomData }
    }
}

impl<T> TraverseOwned<T, Asynchronous> {
    /// An asynchronous traversal that owns `node`.
    pub fn new_async(node: Node<T>) -> (t: Self)
        ensures
            t@ == node,
    {
        TraverseOwned { node, strategy: PhantomData }
    }
}

impl<T, S> TraverseOwned<T, S> {
    /// The root of the owned tree.
    pub fn node(&self) -> (n: &Node<T>)
        ensures
            *n == self@,
    {
        &self.node
    }
}

} // verus!
