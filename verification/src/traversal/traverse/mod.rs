//! A shared view of a tree.

use vstd::prelude::*;
use std::marker::PhantomData;
use crate::node::Node;
use crate::strategy::{Asynchronous, Synchronous};
use vstd::std_specs::convert::FromSpecImpl;

mod synchronous;
mod asynchronous;

verus! {

/// A shared view of the tree rooted at a node, traversed with strategy `S`.
pub struct Traverse<'a, T, S> {
    node: &'a Node<T>,
    strategy: PhantomData<S>,
}

impl<'a, T, S> View for Traverse<'a, T, S> {
    type V = Node<T>;

    /// The tree this view traverses.
    closed spec fn view(&self) -> Node<T> {
        *self.node
    }
}

impl<'a, T> From<Traverse<'a, T, Asynchronous>> for Traverse<'a, T, Synchronous> {
    fn from(value: Traverse<'a, T, Asynchronous>) -> (t: Self) {
        Traverse::new(value.node)
    }
}

impl<'a, T> FromSpecImpl<Traverse<'a, T, Asynchronous>> for Traverse<'a, T, Synchronous> {
    open spec fn obeys_from_spec() -> bool {
        true
    }

    closed spec fn from_spec(v: Traverse<'a, T, Asynchronous>) -> Self {
        Traverse { node: v.node, strategy: PhantomData }
    }
}

impl<'a, T> Traverse<'a, T, Synchronous>
    where T: Sync + Send,
{
    /// Converts the synchronous traverse into an asynchronous one over the same tree.
    pub fn into_async(self) -> (t: Traverse<'a, T, Asynchronous>)
        ensures
            t@ == self@,
    {
        Traverse::<'a, T, Asynchronous>::from(self)
    }
}

impl<'a, T> Traverse<'a, T, Synchronous> {
    /// A synchronous traversal of the tree rooted at `node`.
    pub fn new(node: &'a Node<T>) -> (t: Self)
        ensures
            t@ == *node,
    {
        Traverse { node, strategy: PhantomData }
    }
}

impl<'a, T> From<Traverse<'a, T, Synchronous>> for Traverse<'a, T, Asynchronous>
    where T: Sync + Send,
{
    fn from(value: Traverse<'a, T, Synchronous>) -> (t: Self) {
        Traverse::new_async(value.node)
    }
}

impl<'a, T> FromSpecImpl<Traverse<'a, T, Synchronous>> for Traverse<'a, T, Asynchronous>
    where T: Sync + Send,
{
    open spec fn obeys_from_spec() -> bool {
        true
    }

    closed spec fn from_spec(v: Traverse<'a, T, Synchronous>) -> Self {
        Traverse { node: v.node, strategy: PhantomData }
    }
}

impl<'a, T> Traverse<'a, T, Asynchronous> {
    /// Converts the asynchronous traverse into a synchronous one over the same tree.
    pub fn into_sync(self) -> (t: Traverse<'a, T, Synchronous>)
        ensures
            t@ == self@,
    {
        self.into()
    }
}

impl<'a, T: Sync + Send> Traverse<'a, T, Asynchronous> {
    /// An asynchronous traversal of the tree rooted at `node`.
    pub fn new_async(node: &'a Node<T>) -> (t: Self)
        ensures
            t@ == *node,
    {
        Traverse { node, strategy: PhantomData }
    }
}

impl<T> Node<T> {
    /// A synchronous traversal of the tree rooted at this node.
    pub fn traverse(&self) -> (t: Traverse<'_, T, Synchronous>)
        ensures
            t@ == *self,
    {
        Traverse::new(self)
    }
}

} // verus!
