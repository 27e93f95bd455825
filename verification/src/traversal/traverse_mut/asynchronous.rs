//! Traversal of an exclusively borrowed tree with closures that may be shared
//! between tasks; each node is handed to the closure by mutable reference.

use vstd::prelude::*;
use crate::node::Node;
use crate::strategy::Asynchronous;
use crate::traversal::immersion::{
    visit_preorder_mut, visit_postorder_mut, reduce_tree_mut, cascade_tree_mut,
};
use crate::traversal::relations::{
    preorder_rel, postorder_rel, reduce_mut_rel, cascade_mut_rel, preorder_bounded, cascade_bounded,
};
use crate::traversal::traverse_mut::TraverseMut;

verus! {

impl<'a, T: Sync + Send> TraverseMut<'a, T, Asynchronous> {
    /// Calls the given closure for each node in the tree rooted by self following the
    /// pre-order traversal: each node is handed over before the children it has after
    /// that call.
    ///
    /// The closure may add or remove children, and the traversal goes on into whatever
    /// children each node has after its call. Any closure whose run is finite is
    /// admitted: there must be a relation `bound` that every call of the closure keeps
    /// (the node before, the node after) under which no run from the root goes more
    /// than `usize::MAX` levels down (`preorder_bounded`); each level of a run is a
    /// nested call, so no deeper run can be carried out. A closure under which the run
    /// goes down forever, such as one that adds a child to every leaf, is not admitted.
    pub fn preorder<F>(&mut self, f: F) -> (t: &mut Self)
        where F: Fn(&mut Node<T>) + Sync + Send,
        requires
            forall|a: &mut Node<T>| call_requires(f, (a,)),
            exists|bound: spec_fn(Node<T>, Node<T>) -> bool|
                {
                    &&& forall|a: &mut Node<T>|
                        call_ensures(f, (a,), ()) ==> #[trigger] bound(*a, *final(a))
                    &&& preorder_bounded(bound, old(self)@, usize::MAX as nat)
                },
        ensures
            forall|rel: spec_fn(Node<T>, Node<T>) -> bool|
                (forall|a: &mut Node<T>| call_ensures(f, (a,), ()) ==> #[trigger] rel(*a, *final(a)))
                    ==> preorder_rel(rel, old(self)@, t@),
            *final(t) == *final(self),
            *final(t.borrowed()) == *final(old(self).borrowed()),
    {
        let mut f = f;
        visit_preorder_mut(self.node, &mut f, usize::MAX);
        self
    }

    /// Calls the given closure for each node in the tree rooted by self following the
    /// post-order traversal: each node is handed over after its children.
    pub fn postorder<F>(&mut self, f: F) -> (t: &mut Self)
        where F: Fn(&mut Node<T>) + Sync + Send,
        requires
            forall|a: &mut Node<T>| call_requires(f, (a,)),
        ensures
            forall|rel: spec_fn(Node<T>, Node<T>) -> bool|
                (forall|a: &mut Node<T>| call_ensures(f, (a,), ()) ==> #[trigger] rel(*a, *final(a)))
                    ==> postorder_rel(rel, old(self)@, t@),
            *final(t) == *final(self),
            *final(t.borrowed()) == *final(old(self).borrowed()),
    {
        let mut f = f;
        visit_postorder_mut(self.node, &mut f);
        self
    }

    /// Calls the given closure recursively along the tree rooted by self, reducing it
    /// into a single value: the tree is traversed in post-order, and each node, holding
    /// its reduced children, is handed to the closure together with their results, in
    /// order.
    pub fn reduce<F, R>(&mut self, f: F) -> (r: R)
        where F: Fn(&mut Node<T>, Vec<R>) -> R + Sync + Send, R: Sized + Sync + Send,
        requires
            forall|a: &mut Node<T>, rs: Vec<R>|
                rs@.len() == a.children@.len() ==> #[trigger] call_requires(f, (a, rs)),
        ensures
            forall|rel: spec_fn(Node<T>, Vec<R>, Node<T>, R) -> bool|
                (forall|a: &mut Node<T>, rs: Vec<R>, x: R|
                    call_ensures(f, (a, rs), x) ==> #[trigger] rel(*a, rs, *final(a), x))
                    ==> reduce_mut_rel(rel, old(self)@, final(self)@, r),
            *final(final(self).borrowed()) == *final(old(self).borrowed()),
    {
        let mut f = f;
        reduce_tree_mut(self.node, &mut f)
    }

    /// Calls the given closure recursively along the tree rooted by self, providing the
    /// parent's result to its children (`base` to the root): the tree is traversed in
    /// pre-order, each node before the children it has after that call.
    ///
    /// The closure may add or remove children, and the cascade goes on into whatever
    /// children each node has after its call. Any closure whose run is finite is
    /// admitted: there must be a relation `bound` that every call of the closure keeps
    /// (the node before, the parent's result, the node after, the result) under which
    /// no cascade from the root goes more than `usize::MAX` levels down
    /// (`cascade_bounded`); each level of a run is a nested call, so no deeper run can
    /// be carried out. A closure under which the run goes down forever is not admitted.
    pub fn cascade<F, R>(&mut self, base: R, f: F)
        where F: Fn(&mut Node<T>, &R) -> R + Sync + Send, R: Sized + Sync + Send,
        requires
            forall|a: &mut Node<T>, b: &R| call_requires(f, (a, b)),
            exists|bound: spec_fn(Node<T>, R, Node<T>, R) -> bool|
                {
                    &&& forall|a: &mut Node<T>, b: &R, x: R|
                        call_ensures(f, (a, b), x) ==> #[trigger] bound(*a, *b, *final(a), x)
                    &&& cascade_bounded(bound, old(self)@, base, usize::MAX as nat)
                },
        ensures
            forall|rel: spec_fn(Node<T>, R, Node<T>, R) -> bool|
                (forall|a: &mut Node<T>, b: &R, x: R|
                    call_ensures(f, (a, b), x) ==> #[trigger] rel(*a, *b, *final(a), x))
                    ==> cascade_mut_rel(rel, old(self)@, base, final(self)@),
            *final(final(self).borrowed()) == *final(old(self).borrowed()),
    {
        let mut f = f;
        cascade_tree_mut(self.node, &base, &mut f, usize::MAX);
    }
}

} // verus!
