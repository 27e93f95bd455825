//! The recursive workers behind the traversals.

use vstd::prelude::*;
use crate::node::Node;
use crate::traversal::relations::{
    cascaded, visit_admits, map_rel, reduce_rel, reduce_admits, cascade_admits,
    postorder_rel, preorder_rel, reduce_mut_rel, cascade_mut_rel, preorder_bounded,
    cascade_bounded,
};

verus! {

/// Calls `f` on each of the given nodes, from first to last.
pub(crate) fn visit_each<T, F: FnMut(&Node<T>)>(nodes: &Vec<&Node<T>>, f: &mut F)
    requires
        forall|i: int| 0 <= i < nodes@.len() ==> call_requires(*old(f), (#[trigger] nodes@[i],)),
    ensures
        *final(f) == *old(f),
        forall|i: int| 0 <= i < nodes@.len() ==> call_ensures(*old(f), (#[trigger] nodes@[i],), ()),
{
    let len = nodes.len();
    let mut i: usize = 0;
    while i < len
        invariant
            len == nodes@.len(),
            0 <= i <= len,
            *f == *old(f),
            forall|j: int| 0 <= j < nodes@.len() ==> call_requires(*f, (#[trigger] nodes@[j],)),
            forall|j: int| 0 <= j < i ==> call_ensures(*f, (#[trigger] nodes@[j],), ()),
        decreases len - i,
    {
        f(nodes[i]);
        i = i + 1;
    }
}

/// Builds the tree of what `f` returns on each node, each node before its children.
pub(crate) fn map_tree<T, R, F: FnMut(&Node<T>) -> R>(n: &Node<T>, f: &mut F) -> (m: Node<R>)
    requires
        visit_admits(*old(f), *n),
    ensures
        *final(f) == *old(f),
        map_rel(*old(f), *n, m),
    decreases n,
{
    let value = f(n);
    let len = n.children.len();
    let mut children: Vec<Node<R>> = Vec::new();
    let mut i: usize = 0;
    while i < len
        invariant
            len == n.children@.len(),
            0 <= i <= len,
            *f == *old(f),
            visit_admits(*f, *n),
            children@.len() == i,
            forall|j: int| 0 <= j < i ==> map_rel(*f, #[trigger] n.children@[j], children@[j]),
        decreases len - i,
    {
        proof { assert(decreases_to!(*n => n.children@[i as int])); }
        let child = map_tree(&n.children[i], f);
        children.push(child);
        i = i + 1;
    }
    Node { value, children }
}

/// Reduces the tree rooted at `n`: `f` gets each node with the results of its children.
pub(crate) fn reduce_tree<T, R, F: FnMut(&Node<T>, Vec<R>) -> R>(n: &Node<T>, f: &mut F) -> (r: R)
    requires
        reduce_admits(*old(f), *n),
    ensures
        *final(f) == *old(f),
        reduce_rel(*old(f), *n, r),
    decreases n,
{
    let len = n.children.len();
    let mut results: Vec<R> = Vec::new();
    let mut i: usize = 0;
    while i < len
        invariant
            len == n.children@.len(),
            0 <= i <= len,
            *f == *old(f),
            reduce_admits(*f, *n),
            results@.len() == i,
            forall|j: int| 0 <= j < i ==> reduce_rel(*f, #[trigger] n.children@[j], results@[j]),
        decreases len - i,
    {
        proof { assert(decreases_to!(*n => n.children@[i as int])); }
        let r = reduce_tree(&n.children[i], f);
        results.push(r);
        i = i + 1;
    }
    let ghost rs = results;
    let r = f(n, results);
    assert(call_ensures(*f, (n, rs), r));
    r
}

/// Calls `f` on each node with what `f` returned on its parent (`base` for the root),
/// each node before its children.
pub(crate) fn cascade_tree<T, R, F: FnMut(&Node<T>, &R) -> R>(n: &Node<T>, base: &R, f: &mut F)
    requires
        cascade_admits(*old(f), *n, *base),
    ensures
        *final(f) == *old(f),
        cascaded(*old(f), *n, *base),
    decreases n,
{
    let next = f(n, base);
    let len = n.children.len();
    let mut i: usize = 0;
    while i < len
        invariant
            len == n.children@.len(),
            0 <= i <= len,
            *f == *old(f),
            cascade_admits(*f, *n, *base),
            call_ensures(*f, (n, base), next),
            forall|j: int| 0 <= j < i ==> cascaded(*f, #[trigger] n.children@[j], next),
        decreases len - i,
    {
        proof { assert(decreases_to!(*n => n.children@[i as int])); }
        cascade_tree(&n.children[i], &next, f);
        i = i + 1;
    }
    assert(call_ensures(*f, (n, base), next));
}

/// Hands every node of the tree rooted at `node` to `f`, children first.
pub(crate) fn visit_postorder_mut<T, F: FnMut(&mut Node<T>)>(node: &mut Node<T>, f: &mut F)
    requires
        forall|a: &mut Node<T>| call_requires(*old(f), (a,)),
    ensures
        *final(f) == *old(f),
        forall|rel: spec_fn(Node<T>, Node<T>) -> bool|
            (forall|a: &mut Node<T>| call_ensures(*old(f), (a,), ()) ==> #[trigger] rel(*a, *final(a)))
                ==> postorder_rel(rel, *old(node), *final(node)),
    decreases *old(node),
{
    let ghost before = *node;
    let len = node.children.len();
    let mut i: usize = 0;
    while i < len
        invariant
            before == *old(node),
            len == node.children@.len(),
            0 <= i <= len,
            *f == *old(f),
            forall|a: &mut Node<T>| call_requires(*f, (a,)),
            node.value == before.value,
            node.children@.len() == before.children@.len(),
            forall|j: int| i <= j < len ==> node.children@[j] == before.children@[j],
            forall|rel: spec_fn(Node<T>, Node<T>) -> bool, j: int|
                (forall|a: &mut Node<T>| call_ensures(*f, (a,), ()) ==> #[trigger] rel(*a, *final(a)))
                    && 0 <= j < i ==> postorder_rel(rel, before.children@[j], node.children@[j]),
        decreases len - i,
    {
        proof { assert(decreases_to!(before => before.children@[i as int])); }
        visit_postorder_mut(&mut node.children[i], f);
        i = i + 1;
    }
    let ghost mid = *node;
    f(node);
    assert forall|rel: spec_fn(Node<T>, Node<T>) -> bool|
        (forall|a: &mut Node<T>| call_ensures(*old(f), (a,), ()) ==> #[trigger] rel(*a, *final(a)))
        implies postorder_rel(rel, *old(node), *final(node)) by {
        assert(rel(mid, *final(node)));
        assert(forall|j: int|
            0 <= j < len ==> postorder_rel(rel, #[trigger] before.children@[j], mid.children@[j]));
    }
}

/// Hands every node of the tree rooted at `node` to `f`, each node before the children
/// it has after that call.
pub(crate) fn visit_preorder_mut<T, F: FnMut(&mut Node<T>)>(
    node: &mut Node<T>,
    f: &mut F,
    levels: usize,
)
    requires
        forall|a: &mut Node<T>| call_requires(*old(f), (a,)),
        exists|bound: spec_fn(Node<T>, Node<T>) -> bool|
            {
                &&& forall|a: &mut Node<T>|
                    call_ensures(*old(f), (a,), ()) ==> #[trigger] bound(*a, *final(a))
                &&& preorder_bounded(bound, *old(node), levels as nat)
            },
    ensures
        *final(f) == *old(f),
        forall|rel: spec_fn(Node<T>, Node<T>) -> bool|
            (forall|a: &mut Node<T>| call_ensures(*old(f), (a,), ()) ==> #[trigger] rel(*a, *final(a)))
                ==> preorder_rel(rel, *old(node), *final(node)),
    decreases levels,
{
    let ghost bound = choose|bound: spec_fn(Node<T>, Node<T>) -> bool|
        {
            &&& forall|a: &mut Node<T>|
                call_ensures(*old(f), (a,), ()) ==> #[trigger] bound(*a, *final(a))
            &&& preorder_bounded(bound, *old(node), levels as nat)
        };
    let ghost before = *node;
    f(node);
    let ghost mid = *node;
    assert(bound(before, mid));
    let below = levels - 1;
    let len = node.children.len();
    let mut i: usize = 0;
    while i < len
        invariant
            before == *old(node),
            len == node.children@.len(),
            len == mid.children@.len(),
            0 <= i <= len,
            *f == *old(f),
            forall|a: &mut Node<T>| call_requires(*f, (a,)),
            forall|a: &mut Node<T>| call_ensures(*f, (a,), ()) ==> #[trigger] bound(*a, *final(a)),
            forall|j: int|
                0 <= j < len ==> preorder_bounded(bound, #[trigger] mid.children@[j], below as nat),
            below < levels,
            node.value == mid.value,
            forall|j: int| i <= j < len ==> node.children@[j] == mid.children@[j],
            forall|rel: spec_fn(Node<T>, Node<T>) -> bool, j: int|
                (forall|a: &mut Node<T>| call_ensures(*f, (a,), ()) ==> #[trigger] rel(*a, *final(a)))
                    && 0 <= j < i ==> preorder_rel(rel, mid.children@[j], node.children@[j]),
        decreases len - i,
    {
        assert(preorder_bounded(bound, mid.children@[i as int], below as nat));
        visit_preorder_mut(&mut node.children[i], f, below);
        i = i + 1;
    }
    assert forall|rel: spec_fn(Node<T>, Node<T>) -> bool|
        (forall|a: &mut Node<T>| call_ensures(*old(f), (a,), ()) ==> #[trigger] rel(*a, *final(a)))
        implies preorder_rel(rel, *old(node), *final(node)) by {
        assert(rel(before, mid));
        assert(forall|j: int|
            0 <= j < len ==> preorder_rel(rel, mid.children@[j], #[trigger] node.children@[j]));
    }
}

/// Reduces the tree rooted at `node` in post-order: `f` gets each node, holding its
/// reduced children, with the results of its children.
pub(crate) fn reduce_tree_mut<T, R, F: FnMut(&mut Node<T>, Vec<R>) -> R>(
    node: &mut Node<T>,
    f: &mut F,
) -> (r: R)
    requires
        forall|a: &mut Node<T>, rs: Vec<R>|
            rs@.len() == a.children@.len() ==> #[trigger] call_requires(*old(f), (a, rs)),
    ensures
        *final(f) == *old(f),
        forall|rel: spec_fn(Node<T>, Vec<R>, Node<T>, R) -> bool|
            (forall|a: &mut Node<T>, rs: Vec<R>, x: R|
                call_ensures(*old(f), (a, rs), x) ==> #[trigger] rel(*a, rs, *final(a), x))
                ==> reduce_mut_rel(rel, *old(node), *final(node), r),
    decreases *old(node),
{
    let ghost before = *node;
    let len = node.children.len();
    let mut results: Vec<R> = Vec::new();
    let mut i: usize = 0;
    while i < len
        invariant
            before == *old(node),
            len == node.children@.len(),
            0 <= i <= len,
            *f == *old(f),
            forall|a: &mut Node<T>, rs: Vec<R>|
                rs@.len() == a.children@.len() ==> #[trigger] call_requires(*f, (a, rs)),
            node.value == before.value,
            node.children@.len() == before.children@.len(),
            results@.len() == i,
            forall|j: int| i <= j < len ==> node.children@[j] == before.children@[j],
            forall|rel: spec_fn(Node<T>, Vec<R>, Node<T>, R) -> bool, j: int|
                (forall|a: &mut Node<T>, rs: Vec<R>, x: R|
                    call_ensures(*f, (a, rs), x) ==> #[trigger] rel(*a, rs, *final(a), x))
                    && 0 <= j < i ==> reduce_mut_rel(
                    rel,
                    before.children@[j],
                    node.children@[j],
                    results@[j],
                ),
        decreases len - i,
    {
        proof { assert(decreases_to!(before => before.children@[i as int])); }
        let x = reduce_tree_mut(&mut node.children[i], f);
        results.push(x);
        i = i + 1;
    }
    let ghost mid = *node;
    let ghost rs = results;
    let r = f(node, results);
    assert forall|rel: spec_fn(Node<T>, Vec<R>, Node<T>, R) -> bool|
        (forall|a: &mut Node<T>, rs: Vec<R>, x: R|
            call_ensures(*old(f), (a, rs), x) ==> #[trigger] rel(*a, rs, *final(a), x))
        implies reduce_mut_rel(rel, *old(node), *final(node), r) by {
        assert(rel(mid, rs, *final(node), r));
        assert(forall|j: int|
            0 <= j < len ==> reduce_mut_rel(rel, #[trigger] before.children@[j], mid.children@[j], rs@[j]));
    }
    r
}

/// Hands each node of the tree rooted at `node` to `f` with what `f` returned on its
/// parent (`base` for the root), each node before the children it has after that call.
pub(crate) fn cascade_tree_mut<T, R, F: FnMut(&mut Node<T>, &R) -> R>(
    node: &mut Node<T>,
    base: &R,
    f: &mut F,
    levels: usize,
)
    requires
        forall|a: &mut Node<T>, b: &R| call_requires(*old(f), (a, b)),
        exists|bound: spec_fn(Node<T>, R, Node<T>, R) -> bool|
            {
                &&& forall|a: &mut Node<T>, b: &R, x: R|
                    call_ensures(*old(f), (a, b), x) ==> #[trigger] bound(*a, *b, *final(a), x)
                &&& cascade_bounded(bound, *old(node), *base, levels as nat)
            },
    ensures
        *final(f) == *old(f),
        forall|rel: spec_fn(Node<T>, R, Node<T>, R) -> bool|
            (forall|a: &mut Node<T>, b: &R, x: R|
                call_ensures(*old(f), (a, b), x) ==> #[trigger] rel(*a, *b, *final(a), x))
                ==> cascade_mut_rel(rel, *old(node), *base, *final(node)),
    decreases levels,
{
    let ghost bound = choose|bound: spec_fn(Node<T>, R, Node<T>, R) -> bool|
        {
            &&& forall|a: &mut Node<T>, b: &R, x: R|
                call_ensures(*old(f), (a, b), x) ==> #[trigger] bound(*a, *b, *final(a), x)
            &&& cascade_bounded(bound, *old(node), *base, levels as nat)
        };
    let ghost before = *node;
    let next = f(node, base);
    let ghost mid = *node;
    assert(bound(before, *base, mid, next));
    let below = levels - 1;
    let len = node.children.len();
    let mut i: usize = 0;
    while i < len
        invariant
            before == *old(node),
            len == node.children@.len(),
            len == mid.children@.len(),
            0 <= i <= len,
            *f == *old(f),
            forall|a: &mut Node<T>, b: &R| call_requires(*f, (a, b)),
            forall|a: &mut Node<T>, b: &R, x: R|
                call_ensures(*f, (a, b), x) ==> #[trigger] bound(*a, *b, *final(a), x),
            forall|j: int|
                0 <= j < len ==> cascade_bounded(bound, #[trigger] mid.children@[j], next, below as nat),
            below < levels,
            node.value == mid.value,
            forall|j: int| i <= j < len ==> node.children@[j] == mid.children@[j],
            forall|rel: spec_fn(Node<T>, R, Node<T>, R) -> bool, j: int|
                (forall|a: &mut Node<T>, b: &R, x: R|
                    call_ensures(*f, (a, b), x) ==> #[trigger] rel(*a, *b, *final(a), x))
                    && 0 <= j < i ==> cascade_mut_rel(rel, mid.children@[j], next, node.children@[j]),
        decreases len - i,
    {
        assert(cascade_bounded(bound, mid.children@[i as int], next, below as nat));
        cascade_tree_mut(&mut node.children[i], &next, f, below);
        i = i + 1;
    }
    assert forall|rel: spec_fn(Node<T>, R, Node<T>, R) -> bool|
        (forall|a: &mut Node<T>, b: &R, x: R|
            call_ensures(*old(f), (a, b), x) ==> #[trigger] rel(*a, *b, *final(a), x))
        implies cascade_mut_rel(rel, *old(node), *base, *final(node)) by {
        assert(rel(before, *base, mid, next));
        assert(forall|j: int|
            0 <= j < len ==> cascade_mut_rel(rel, mid.children@[j], next, #[trigger] node.children@[j]));
    }
}

} // verus!
