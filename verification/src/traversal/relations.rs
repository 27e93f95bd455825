//! What the traversals compute, stated over the trees they run on and the
//! closures they are given.

use vstd::prelude::*;
use crate::node::Node;

verus! {

/// `f` may be called on every node of the tree rooted at `n`.
pub open spec fn visit_admits<T, R, F: FnMut(&Node<T>) -> R>(f: F, n: Node<T>) -> bool
    decreases n,
{
    &&& call_requires(f, (&n,))
    &&& forall|i: int| 0 <= i < n.children@.len() ==> visit_admits(f, #[trigger] n.children@[i])
}

/// `m` is a tree of the same shape as `n` whose every value is what `f` returned
/// on the node of `n` at the same place.
pub open spec fn map_rel<T, R, F: FnMut(&Node<T>) -> R>(f: F, n: Node<T>, m: Node<R>) -> bool
    decreases n,
{
    &&& call_ensures(f, (&n,), m.value)
    &&& m.children@.len() == n.children@.len()
    &&& forall|i: int|
        0 <= i < n.children@.len() ==> map_rel(f, #[trigger] n.children@[i], m.children@[i])
}

/// `r` is what `f` returns on the root of `n` when handed, in order, the results of
/// reducing each of its children.
pub open spec fn reduce_rel<T, R, F: FnMut(&Node<T>, Vec<R>) -> R>(f: F, n: Node<T>, r: R) -> bool
    decreases n,
{
    exists|rs: Vec<R>|
        {
            &&& rs@.len() == n.children@.len()
            &&& forall|i: int|
                0 <= i < n.children@.len() ==> reduce_rel(f, #[trigger] n.children@[i], rs@[i])
            &&& #[trigger] call_ensures(f, (&n, rs), r)
        }
}

/// Reducing the tree rooted at `n` with `f` never hands `f` arguments it does not accept.
pub open spec fn reduce_admits<T, R, F: FnMut(&Node<T>, Vec<R>) -> R>(f: F, n: Node<T>) -> bool
    decreases n,
{
    &&& forall|i: int| 0 <= i < n.children@.len() ==> reduce_admits(f, #[trigger] n.children@[i])
    &&& forall|rs: Vec<R>|
        rs@.len() == n.children@.len() && (forall|i: int|
            0 <= i < n.children@.len() ==> reduce_rel(f, #[trigger] n.children@[i], rs@[i]))
            ==> #[trigger] call_requires(f, (&n, rs))
}

/// Cascading `base` down the tree rooted at `n` with `f` never hands `f` arguments it
/// does not accept: `f` accepts the root with `base`, and each child with whatever `f`
/// may return on the root.
pub open spec fn cascade_admits<T, R, F: FnMut(&Node<T>, &R) -> R>(f: F, n: Node<T>, base: R) -> bool
    decreases n,
{
    &&& call_requires(f, (&n, &base))
    &&& forall|r: R, i: int|
        #![trigger call_ensures(f, (&n, &base), r), n.children@[i]]
        call_ensures(f, (&n, &base), r) && 0 <= i < n.children@.len() ==> cascade_admits(
            f,
            n.children@[i],
            r,
        )
}

/// `f` has been called on the root of `n` with `base`, and on each child with what that
/// call returned, down to the leaves.
pub open spec fn cascaded<T, R, F: FnMut(&Node<T>, &R) -> R>(f: F, n: Node<T>, base: R) -> bool
    decreases n,
{
    exists|r: R|
        {
            &&& #[trigger] call_ensures(f, (&n, &base), r)
            &&& forall|i: int| 0 <= i < n.children@.len() ==> cascaded(f, #[trigger] n.children@[i], r)
        }
}

/// `m` is what a post-order traversal makes of the tree `n` when each call of the
/// closure turns the node it is given from `a` into `b` only if `rel(a, b)`: each child
/// is traversed first, then the node, holding the traversed children, is handed over.
pub open spec fn postorder_rel<T>(rel: spec_fn(Node<T>, Node<T>) -> bool, n: Node<T>, m: Node<T>) -> bool
    decreases n,
{
    exists|mid: Node<T>|
        {
            &&& mid.value == n.value
            &&& mid.children@.len() == n.children@.len()
            &&& forall|i: int|
                0 <= i < n.children@.len() ==> postorder_rel(rel, #[trigger] n.children@[i], mid.children@[i])
            &&& #[trigger] rel(mid, m)
        }
}

/// No pre-order run from `n` goes deeper than `depth` levels when each call of the
/// closure turns the node it is handed from `a` into some `b` with `rel(a, b)`: the
/// traversal descends into the children a node has after its call, so this bounds the
/// whole run, whatever the closure adds on the way.
pub open spec fn preorder_bounded<T>(
    rel: spec_fn(Node<T>, Node<T>) -> bool,
    n: Node<T>,
    depth: nat,
) -> bool
    decreases depth,
{
    &&& depth > 0
    &&& forall|mid: Node<T>, i: int|
        #![trigger rel(n, mid), mid.children@[i]]
        rel(n, mid) && 0 <= i < mid.children@.len() ==> preorder_bounded(
            rel,
            mid.children@[i],
            (depth - 1) as nat,
        )
}

/// `m` is what a pre-order traversal makes of the tree `n` when each call of the
/// closure turns the node it is given from `a` into `b` only if `rel(a, b)`: the node is
/// handed over first, then each of the children it has after that call is traversed.
pub open spec fn preorder_rel<T>(rel: spec_fn(Node<T>, Node<T>) -> bool, n: Node<T>, m: Node<T>) -> bool
    decreases m,
{
    exists|mid: Node<T>|
        {
            &&& #[trigger] rel(n, mid)
            &&& m.value == mid.value
            &&& m.children@.len() == mid.children@.len()
            &&& forall|i: int|
                0 <= i < m.children@.len() ==> preorder_rel(rel, mid.children@[i], #[trigger] m.children@[i])
        }
}

/// `m` and `r` are the tree and the result that reducing `n` in post-order gives when
/// each call of the closure, handed a node `a` and the results `rs` of its children,
/// turns the node into `b` and returns `r` only if `rel(a, rs, b, r)`.
pub open spec fn reduce_mut_rel<T, R>(
    rel: spec_fn(Node<T>, Vec<R>, Node<T>, R) -> bool,
    n: Node<T>,
    m: Node<T>,
    r: R,
) -> bool
    decreases n,
{
    exists|mid: Node<T>, rs: Vec<R>|
        {
            &&& mid.value == n.value
            &&& mid.children@.len() == n.children@.len()
            &&& rs@.len() == n.children@.len()
            &&& forall|i: int|
                0 <= i < n.children@.len() ==> reduce_mut_rel(
                    rel,
                    #[trigger] n.children@[i],
                    mid.children@[i],
                    rs@[i],
                )
            &&& #[trigger] rel(mid, rs, m, r)
        }
}

/// No cascade of `base` down from `n` goes deeper than `depth` levels when each call of
/// the closure, handed a node `a` and its parent's result `b`, turns the node into some
/// `c` and returns some `r` with `rel(a, b, c, r)`.
pub open spec fn cascade_bounded<T, R>(
    rel: spec_fn(Node<T>, R, Node<T>, R) -> bool,
    n: Node<T>,
    base: R,
    depth: nat,
) -> bool
    decreases depth,
{
    &&& depth > 0
    &&& forall|mid: Node<T>, r: R, i: int|
        #![trigger rel(n, base, mid, r), mid.children@[i]]
        rel(n, base, mid, r) && 0 <= i < mid.children@.len() ==> cascade_bounded(
            rel,
            mid.children@[i],
            r,
            (depth - 1) as nat,
        )
}

/// `m` is what cascading `base` down the tree `n` makes of it when each call of the
/// closure, handed a node `a` and its parent's result `b`, turns the node into `c` and
/// returns `r` only if `rel(a, b, c, r)`: the node is handed over first, then each of the
/// children it has after that call is cascaded with `r`.
pub open spec fn cascade_mut_rel<T, R>(
    rel: spec_fn(Node<T>, R, Node<T>, R) -> bool,
    n: Node<T>,
    base: R,
    m: Node<T>,
) -> bool
    decreases m,
{
    exists|mid: Node<T>, r: R|
        {
            &&& #[trigger] rel(n, base, mid, r)
            &&& m.value == mid.value
            &&& m.children@.len() == mid.children@.len()
            &&& forall|i: int|
                0 <= i < m.children@.len() ==> cascade_mut_rel(
                    rel,
                    mid.children@[i],
                    r,
                    #[trigger] m.children@[i],
                )
        }
}

} // verus!
