//! The orders in which the visiting traversals hand out the nodes of a tree.

use vstd::prelude::*;
use crate::node::Node;

verus! {

/// The nodes of the tree rooted at `n`, each before its children, children from first
/// to last.
pub open spec fn preorder_seq<T>(n: Node<T>) -> Seq<Node<T>>
    decreases n, n.children@.len() + 1,
{
    seq![n] + children_preorder(n, n.children@.len())
}

/// The pre-order sequences of the first `k` children of `n`, one after the other.
pub open spec fn children_preorder<T>(n: Node<T>, k: nat) -> Seq<Node<T>>
    decreases n, k,
{
    if k == 0 || k > n.children@.len() {
        Seq::empty()
    } else {
        proof { assert(decreases_to!(n => n.children@[k - 1])); }
        children_preorder(n, (k - 1) as nat) + preorder_seq(n.children@[k - 1])
    }
}

/// The nodes of the tree rooted at `n`, each after its children, children from first
/// to last.
pub open spec fn postorder_seq<T>(n: Node<T>) -> Seq<Node<T>>
    decreases n, n.children@.len() + 1,
{
    children_postorder(n, n.children@.len()) + seq![n]
}

/// The post-order sequences of the first `k` children of `n`, one after the other.
pub open spec fn children_postorder<T>(n: Node<T>, k: nat) -> Seq<Node<T>>
    decreases n, k,
{
    if k == 0 || k > n.children@.len() {
        Seq::empty()
    } else {
        proof { assert(decreases_to!(n => n.children@[k - 1])); }
        children_postorder(n, (k - 1) as nat) + postorder_seq(n.children@[k - 1])
    }
}

/// The nodes a sequence of references points to.
pub open spec fn deref_all<T>(s: Seq<&Node<T>>) -> Seq<Node<T>> {
    s.map_values(|r: &Node<T>| *r)
}

proof fn lemma_deref_push<'b, T>(s: Seq<&'b Node<T>>, r: &'b Node<T>)
    ensures
        deref_all(s.push(r)) == deref_all(s).push(*r),
{
    assert(deref_all(s.push(r)) =~= deref_all(s).push(*r));
}

/// Appends references to the nodes of the tree rooted at `n` in pre-order.
fn collect_preorder<'b, T>(n: &'b Node<T>, out: &mut Vec<&'b Node<T>>)
    ensures
        deref_all(final(out)@) == deref_all(old(out)@) + preorder_seq(*n),
    decreases n,
{
    proof { lemma_deref_push(out@, n); }
    out.push(n);
    let ghost start = deref_all(old(out)@) + seq![*n];
    assert(deref_all(out@) =~= start + children_preorder(*n, 0));
    let len = n.children.len();
    let mut i: usize = 0;
    while i < len
        invariant
            len == n.children@.len(),
            0 <= i <= len,
            start == deref_all(old(out)@) + seq![*n],
            deref_all(out@) == start + children_preorder(*n, i as nat),
        decreases len - i,
    {
        proof { assert(decreases_to!(*n => n.children@[i as int])); }
        let ghost before = deref_all(out@);
        collect_preorder(&n.children[i], out);
        assert(children_preorder(*n, (i + 1) as nat)
            == children_preorder(*n, i as nat) + preorder_seq(n.children@[i as int]));
        assert(deref_all(out@) =~= start + children_preorder(*n, (i + 1) as nat));
        i = i + 1;
    }
    assert(deref_all(out@) =~= deref_all(old(out)@) + preorder_seq(*n));
}

/// Appends references to the nodes of the tree rooted at `n` in post-order.
fn collect_postorder<'b, T>(n: &'b Node<T>, out: &mut Vec<&'b Node<T>>)
    ensures
        deref_all(final(out)@) == deref_all(old(out)@) + postorder_seq(*n),
    decreases n,
{
    let ghost start = deref_all(old(out)@);
    assert(deref_all(out@) =~= start + children_postorder(*n, 0));
    let len = n.children.len();
    let mut i: usize = 0;
    while i < len
        invariant
            len == n.children@.len(),
            0 <= i <= len,
            start == deref_all(old(out)@),
            deref_all(out@) == start + children_postorder(*n, i as nat),
        decreases len - i,
    {
        proof { assert(decreases_to!(*n => n.children@[i as int])); }
        collect_postorder(&n.children[i], out);
        assert(children_postorder(*n, (i + 1) as nat)
            == children_postorder(*n, i as nat) + postorder_seq(n.children@[i as int]));
        assert(deref_all(out@) =~= start + children_postorder(*n, (i + 1) as nat));
        i = i + 1;
    }
    proof { lemma_deref_push(out@, n); }
    out.push(n);
    assert(deref_all(out@) =~= deref_all(old(out)@) + postorder_seq(*n));
}

impl<T> Node<T> {
    /// References to the nodes of the tree rooted at this node, each before its
    /// children, children from first to last.
    pub fn preorder_nodes(&self) -> (v: Vec<&Node<T>>)
        ensures
            deref_all(v@) == preorder_seq(*self),
    {
        let mut v: Vec<&Node<T>> = Vec::new();
        assert(deref_all(v@) =~= Seq::<Node<T>>::empty());
        collect_preorder(self, &mut v);
        assert(deref_all(v@) =~= preorder_seq(*self));
        v
    }

    /// References to the nodes of the tree rooted at this node, each after its
    /// children, children from first to last.
    pub fn postorder_nodes(&self) -> (v: Vec<&Node<T>>)
        ensures
            deref_all(v@) == postorder_seq(*self),
    {
        let mut v: Vec<&Node<T>> = Vec::new();
        assert(deref_all(v@) =~= Seq::<Node<T>>::empty());
        collect_postorder(self, &mut v);
        assert(deref_all(v@) =~= postorder_seq(*self));
        v
    }
}

} // verus!
