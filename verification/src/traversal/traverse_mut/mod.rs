//! An exclusive view of a tree, whose traversals hand each node to the closure
//! by mutable reference.

use vstd::prelude::*;
use std::marker::PhantomData;
use crate::node::Node;
use crate::strategy::{Asynchronous, Synchronous};

mod asynchronous;

verus! {

/// An exclusive view of the tree rooted at a node, traversed with strategy `S`.
pub struct TraverseMut<'a, T, S> {
    node: &'a mut Node<T>,
    strategy: PhantomData<S>,
}

impl<'a, T, S> View for TraverseMut<'a, T, S> {
    type V = Node<T>;

    /// The tree this view traverses, as it stands now.
    open spec fn view(&self) -> Node<T> {
        *self.borrowed()
    }
}

impl<'a, T, S> TraverseMut<'a, T, S> {
    /// The mutable borrow of the root this view holds: what is written through the
    /// view is what the lender of that borrow finds when the view is gone.
    pub closed spec fn borrowed(&self) -> &'a mut Node<T> {
        self.node
    }
}

/// Once a view is no longer used, the tree it was handed is left as the view last saw it.
pub proof fn lemma_released<'a, T, S>(t: TraverseMut<'a, T, S>)
    requires
        has_resolved(t),
    ensures
        *final(t.borrowed()) == t@,
{
}

impl<'a, T> TraverseMut<'a, T, Synchronous> {
    /// A synchronous traversal of the tree rooted at `node`.
    pub fn new(node: &'a mut Node<T>) -> (t: Self)
        ensures
            t@ == *old(node),
            *final(t.borrowed()) == *final(node),
    {
        TraverseMut { node, strategy: PhantomData }
    }
}

impl<'a, T> TraverseMut<'a, T, Synchronous>
    where T: Sync + Send,
{
    /// Converts the synchronous traverse into an asynchronous one over the same tree.
    pub fn into_async(self) -> (t: TraverseMut<'a, T, Asynchronous>)
        ensures
            t@ == self@,
            *final(t.borrowed()) == *final(self.borrowed()),
    {
        TraverseMut { node: self.node, strategy: PhantomData }
    }
}

impl<'a, T> TraverseMut<'a, T, Asynchronous> {
    /// Converts the asynchronous traverse into a synchronous one over the same tree.
    pub fn into_sync(self) -> (t: TraverseMut<'a, T, Synchronous>)
        ensures
            t@ == self@,
            *final(t.borrowed()) == *final(self.borrowed()),
    {
        TraverseMut { node: self.node, strategy: PhantomData }
    }
}

impl<'a, T: Sync + Send> TraverseMut<'a, T, Asynchronous> {
    /// An asynchronous traversal of the tree rooted at `node`.
    pub fn new_async(node: &'a mut Node<T>) -> (t: Self)
        ensures
            t@ == *old(node),
            *final(t.borrowed()) == *final(node),
    {
        TraverseMut { node, strategy: PhantomData }
    }
}

impl<T> Node<T> {
    /// A synchronous traversal of the tree rooted at this node, which may change it.
    pub fn traverse_mut(&mut self) -> (t: TraverseMut<'_, T, Synchronous>)
        ensures
            t@ == *old(self),
            *final(t.borrowed()) == *final(self),
    {
        TraverseMut::new(self)
    }
}

} // verus!
