//! Synchronous traversal of a shared tree.

use vstd::prelude::*;
use crate::node::Node;
use crate::strategy::Synchronous;
use crate::traversal::immersion::{visit_each, map_tree, reduce_tree, cascade_tree};
use crate::traversal::order::{postorder_seq, deref_all};
use crate::traversal::owned::TraverseOwned;
use crate::traversal::relations::{
    cascaded, visit_admits, map_rel, reduce_rel, reduce_admits, cascade_admits,
};
use crate::traversal::traverse::Traverse;

verus! {

impl<'a, T> Traverse<'a, T, Synchronous> {
    /// Calls the given closure for each node in the tree rooted by self, each node
    /// after its children (post-order): on the nodes of `postorder_seq(self@)`, from
    /// first to last.
    pub fn for_each<F>(self, f: F)
        where F: FnMut(&Node<T>),
        requires
            forall|i: int|
                0 <= i < postorder_seq(self@).len() ==> call_requires(
                    f,
                    (&#[trigger] postorder_seq(self@)[i],),
                ),
        ensures
            forall|i: int|
                0 <= i < postorder_seq(self@).len() ==> call_ensures(
                    f,
                    (&#[trigger] postorder_seq(self@)[i],),
                    (),
                ),
    {
        let mut f = f;
        let nodes = self.node.postorder_nodes();
        assert forall|i: int| 0 <= i < nodes@.len() implies call_requires(f, (#[trigger] nodes@[i],)) by {
            assert(deref_all(nodes@)[i] == *nodes@[i]);
            assert(postorder_seq(self@)[i] == *nodes@[i]);
        }
        visit_each(&nodes, &mut f);
        assert forall|i: int| 0 <= i < postorder_seq(self@).len() implies call_ensures(
            f,
            (&#[trigger] postorder_seq(self@)[i],),
            (),
        ) by {
            assert(deref_all(nodes@)[i] == *nodes@[i]);
        }
    }

    /// Builds a new tree by calling the given closure along the tree rooted by self.
    pub fn map<F, R>(self, f: F) -> (t: TraverseOwned<R, Synchronous>)
        where F: FnMut(&Node<T>) -> R,
        requires
            visit_admits(f, self@),
        ensures
            map_rel(f, self@, t@),
    {
        let mut f = f;
        let m = map_tree(self.node, &mut f);
        TraverseOwned::new(m)
    }

    /// Calls the given closure along the tree rooted by self, reducing it into a single
    /// value: each node is handed to the closure together with the results of its
    /// children, in order.
    pub fn reduce<F, R>(self, f: F) -> (r: R)
        where F: FnMut(&Node<T>, Vec<R>) -> R,
        requires
            reduce_admits(f, self@),
        ensures
            reduce_rel(f, self@, r),
    {
        let mut f = f;
        reduce_tree(self.node, &mut f)
    }

    /// Calls the given closure along the tree rooted by self, providing the parent's
    /// result to its children (`base` to the root).
    pub fn cascade<F, R>(self, base: R, f: F) -> (t: Self)
        where F: FnMut(&Node<T>, &R) -> R,
        requires
            cascade_admits(f, self@, base),
        ensures
            t@ == self@,
            cascaded(f, self@, base),
    {
        let mut f = f;
        cascade_tree(self.node, &base, &mut f);
        self
    }
}

} // verus!
