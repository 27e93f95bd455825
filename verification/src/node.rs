//! The tree itself: a value and an ordered list of subtrees.

use vstd::prelude::*;

verus! {

/// A node of an n-ary tree: the value it holds and its children, in order.
#[derive(Debug, PartialEq, Eq)]
pub struct Node<T> {
    pub value: T,
    pub children: Vec<Node<T>>,
}

/// The two trees have the same shape: every node has as many children in one as in the other.
pub open spec fn same_shape<A, B>(a: Node<A>, b: Node<B>) -> bool
    decreases a,
{
    &&& a.children@.len() == b.children@.len()
    &&& forall|i: int|
        0 <= i < a.children@.len() ==> same_shape(#[trigger] a.children@[i], b.children@[i])
}

impl<T> Node<T> {
    /// Creates a leaf holding `value`.
    pub fn new(value: T) -> (n: Self)
        ensures
            n.value == value,
            n.children@ == Seq::<Node<T>>::empty(),
    {
        Node { value, children: Vec::new() }
    }

    /// Replaces the children of this node.
    pub fn with_children(self, children: Vec<Node<T>>) -> (n: Self)
        ensures
            n.value == self.value,
            n.children == children,
    {
        Node { value: self.value, children }
    }

    /// The value held by this node.
    pub fn value(&self) -> (v: &T)
        ensures
            *v == self.value,
    {
        &self.value
    }

    /// Replaces the value held by this node, keeping its children.
    pub fn set_value(&mut self, value: T)
        ensures
            final(self).value == value,
            final(self).children == old(self).children,
    {
        self.value = value;
    }

    /// The children of this node, in order.
    pub fn children(&self) -> (c: &Vec<Node<T>>)
        ensures
            *c == self.children,
    {
        &self.children
    }
}

} // verus!
