//! Traversal of a shared tree with closures that may be shared between tasks.

use vstd::prelude::*;
use crate::node::Node;
use crate::strategy::{Asynchronous, Order};
use crate::traversal::immersion::{visit_each, map_tree, reduce_tree, cascade_tree};
use crate::traversal::order::{preorder_seq, postorder_seq, deref_all};
use crate::traversal::owned::TraverseOwned;
use crate::traversal::relations::{
    cascaded, visit_admits, map_rel, reduce_rel, reduce_admits, cascade_admits,
};
use crate::traversal::traverse::Traverse;

verus! {

impl<'a, T: Sync + Send> Traverse<'a, T, Asynchronous> {
    /// Calls the given closure on every node of the tree rooted by self, in the order
    /// `O` names: `Preorder` hands each node before its children (the nodes of
    /// `preorder_seq(self@)`, first to last), `Postorder` after them (those of
    /// `postorder_seq(self@)`).
    pub fn for_each<O, F>(&self, f: F) -> (t: &Self)
        where O: Order, F: Fn(&Node<T>) + Sync + Send,
        requires
            forall|i: int|
                0 <= i < Self::visiting_order::<O>(self@).len() ==> call_requires(
                    f,
                    (&#[trigger] Self::visiting_order::<O>(self@)[i],),
                ),
        ensures
            t == self,
            forall|i: int|
                0 <= i < Self::visiting_order::<O>(self@).len() ==> call_ensures(
                    f,
                    (&#[trigger] Self::visiting_order::<O>(self@)[i],),
                    (),
                ),
    {
        let mut f = f;
        let nodes = if O::parent_first() {
            self.node.preorder_nodes()
        } else {
            self.node.postorder_nodes()
        };
        assert forall|i: int| 0 <= i < nodes@.len() implies call_requires(f, (#[trigger] nodes@[i],)) by {
            assert(deref_all(nodes@)[i] == *nodes@[i]);
            assert(Self::visiting_order::<O>(self@)[i] == *nodes@[i]);
        }
        visit_each(&nodes, &mut f);
        assert forall|i: int| 0 <= i < Self::visiting_order::<O>(self@).len() implies call_ensures(
            f,
            (&#[trigger] Self::visiting_order::<O>(self@)[i],),
            (),
        ) by {
            assert(deref_all(nodes@)[i] == *nodes@[i]);
        }
        self
    }

    /// The nodes of `n` in the order `O` names.
    pub open spec fn visiting_order<O: Order>(n: Node<T>) -> Seq<Node<T>> {
        if O::parent_first_spec() {
            preorder_seq(n)
        } else {
            postorder_seq(n)
        }
    }

    /// Builds a new tree by calling the given closure along the tree rooted by self,
    /// each node before its children.
    pub fn map<F, R>(&self, f: F) -> (t: TraverseOwned<R, Asynchronous>)
        where F: Fn(&Node<T>) -> R + Sync + Send, R: Sized + Sync + Send,
        requires
            visit_admits(f, self@),
        ensures
            map_rel(f, self@, t@),
    {
        let mut f = f;
        let m = map_tree(self.node, &mut f);
        TraverseOwned::new_async(m)
    }

    /// Calls the given closure along the tree rooted by self, reducing it into a single
    /// value: the tree is traversed in post-order, and each node is handed to the
    /// closure together with the results of its children, in order.
    pub fn reduce<F, R>(&self, f: F) -> (r: R)
        where F: Fn(&Node<T>, Vec<R>) -> R + Sync + Send, R: Sized + Sync + Send,
        requires
            reduce_admits(f, self@),
        ensures
            reduce_rel(f, self@, r),
    {
        let mut f = f;
        reduce_tree(self.node, &mut f)
    }

    /// Calls the given closure along the tree rooted by self, providing the parent's
    /// result to its children (`base` to the root): the tree is traversed in pre-order.
    pub fn cascade<F, R>(&self, base: R, f: F)
        where F: Fn(&Node<T>, &R) -> R + Sync + Send, R: Sized + Sync + Send,
        requires
            cascade_admits(f, self@, base),
        ensures
            cascaded(f, self@, base),
    {
        let mut f = f;
        cascade_tree(self.node, &base, &mut f);
    }
}

} // verus!
