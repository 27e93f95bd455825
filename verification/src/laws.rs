//! Properties that hold of every traversal, whatever the tree.

use vstd::prelude::*;
use crate::node::{Node, same_shape};
use crate::traversal::{
    map_rel, reduce_rel, postorder_rel, preorder_rel, reduce_mut_rel, cascade_mut_rel,
    postorder_seq, children_postorder, preorder_seq, children_preorder,
};

verus! {

/// `m` holds at every place the value `g` gives of the value `n` holds there, and the
/// two trees have the same shape.
pub open spec fn values_mapped<T>(g: spec_fn(T) -> T, n: Node<T>, m: Node<T>) -> bool
    decreases n,
{
    &&& m.value == g(n.value)
    &&& m.children@.len() == n.children@.len()
    &&& forall|i: int|
        0 <= i < n.children@.len() ==> values_mapped(g, #[trigger] n.children@[i], m.children@[i])
}

/// Mapping a tree gives a tree of the same shape.
pub proof fn lemma_map_same_shape<T, R, F: FnMut(&Node<T>) -> R>(f: F, n: Node<T>, m: Node<R>)
    requires
        map_rel(f, n, m),
    ensures
        same_shape(n, m),
    decreases n,
{
    assert forall|i: int| 0 <= i < n.children@.len() implies same_shape(
        #[trigger] n.children@[i],
        m.children@[i],
    ) by {
        lemma_map_same_shape(f, n.children@[i], m.children@[i]);
    }
}

/// A post-order traversal whose closure never changes the children of the node it is
/// handed keeps the shape of the tree.
pub proof fn lemma_postorder_same_shape<T>(
    rel: spec_fn(Node<T>, Node<T>) -> bool,
    n: Node<T>,
    m: Node<T>,
)
    requires
        forall|a: Node<T>, b: Node<T>| #[trigger] rel(a, b) ==> b.children == a.children,
        postorder_rel(rel, n, m),
    ensures
        same_shape(n, m),
    decreases n,
{
    let mid = choose|mid: Node<T>|
        {
            &&& mid.value == n.value
            &&& mid.children@.len() == n.children@.len()
            &&& forall|i: int|
                0 <= i < n.children@.len() ==> postorder_rel(rel, #[trigger] n.children@[i], mid.children@[i])
            &&& #[trigger] rel(mid, m)
        };
    assert forall|i: int| 0 <= i < n.children@.len() implies same_shape(
        #[trigger] n.children@[i],
        m.children@[i],
    ) by {
        lemma_postorder_same_shape(rel, n.children@[i], mid.children@[i]);
    }
}

/// A pre-order traversal whose closure never changes the children of the node it is
/// handed keeps the shape of the tree.
pub proof fn lemma_preorder_same_shape<T>(
    rel: spec_fn(Node<T>, Node<T>) -> bool,
    n: Node<T>,
    m: Node<T>,
)
    requires
        forall|a: Node<T>, b: Node<T>| #[trigger] rel(a, b) ==> b.children == a.children,
        preorder_rel(rel, n, m),
    ensures
        same_shape(n, m),
    decreases m,
{
    let mid = choose|mid: Node<T>|
        {
            &&& #[trigger] rel(n, mid)
            &&& m.value == mid.value
            &&& m.children@.len() == mid.children@.len()
            &&& forall|i: int|
                0 <= i < m.children@.len() ==> preorder_rel(rel, mid.children@[i], #[trigger] m.children@[i])
        };
    assert forall|i: int| 0 <= i < n.children@.len() implies same_shape(
        #[trigger] n.children@[i],
        m.children@[i],
    ) by {
        lemma_preorder_same_shape(rel, mid.children@[i], m.children@[i]);
    }
}

/// A mutable reduction whose closure never changes the children of the node it is
/// handed keeps the shape of the tree.
pub proof fn lemma_reduce_mut_same_shape<T, R>(
    rel: spec_fn(Node<T>, Vec<R>, Node<T>, R) -> bool,
    n: Node<T>,
    m: Node<T>,
    r: R,
)
    requires
        forall|a: Node<T>, rs: Vec<R>, b: Node<T>, x: R|
            #[trigger] rel(a, rs, b, x) ==> b.children == a.children,
        reduce_mut_rel(rel, n, m, r),
    ensures
        same_shape(n, m),
    decreases n,
{
    let (mid, rs) = choose|mid: Node<T>, rs: Vec<R>|
        {
            &&& mid.value == n.value
            &&& mid.children@.len() == n.children@.len()
            &&& rs@.len() == n.children@.len()
            &&& forall|i: int|
                0 <= i < n.children@.len() ==> reduce_mut_rel(
                    rel,
                    #[trigger] n.children@[i],
                    mid.children@[i],
                    rs@[i],
                )
            &&& #[trigger] rel(mid, rs, m, r)
        };
    assert forall|i: int| 0 <= i < n.children@.len() implies same_shape(
        #[trigger] n.children@[i],
        m.children@[i],
    ) by {
        lemma_reduce_mut_same_shape(rel, n.children@[i], mid.children@[i], rs@[i]);
    }
}

/// A mutable cascade whose closure never changes the children of the node it is handed
/// keeps the shape of the tree.
pub proof fn lemma_cascade_mut_same_shape<T, R>(
    rel: spec_fn(Node<T>, R, Node<T>, R) -> bool,
    n: Node<T>,
    base: R,
    m: Node<T>,
)
    requires
        forall|a: Node<T>, b: R, c: Node<T>, x: R|
            #[trigger] rel(a, b, c, x) ==> c.children == a.children,
        cascade_mut_rel(rel, n, base, m),
    ensures
        same_shape(n, m),
    decreases m,
{
    let (mid, r) = choose|mid: Node<T>, r: R|
        {
            &&& #[trigger] rel(n, base, mid, r)
            &&& m.value == mid.value
            &&& m.children@.len() == mid.children@.len()
            &&& forall|i: int|
                0 <= i < m.children@.len() ==> cascade_mut_rel(
                    rel,
                    mid.children@[i],
                    r,
                    #[trigger] m.children@[i],
                )
        };
    assert forall|i: int| 0 <= i < n.children@.len() implies same_shape(
        #[trigger] n.children@[i],
        m.children@[i],
    ) by {
        lemma_cascade_mut_same_shape(rel, mid.children@[i], r, m.children@[i]);
    }
}

/// When the closure rewrites only the value of the node it is handed, by a function of
/// that value, a post-order traversal rewrites every value of the tree by that function.
pub proof fn lemma_postorder_maps_values<T>(
    rel: spec_fn(Node<T>, Node<T>) -> bool,
    g: spec_fn(T) -> T,
    n: Node<T>,
    m: Node<T>,
)
    requires
        forall|a: Node<T>, b: Node<T>|
            #[trigger] rel(a, b) ==> b.children == a.children && b.value == g(a.value),
        postorder_rel(rel, n, m),
    ensures
        values_mapped(g, n, m),
    decreases n,
{
    let mid = choose|mid: Node<T>|
        {
            &&& mid.value == n.value
            &&& mid.children@.len() == n.children@.len()
            &&& forall|i: int|
                0 <= i < n.children@.len() ==> postorder_rel(rel, #[trigger] n.children@[i], mid.children@[i])
            &&& #[trigger] rel(mid, m)
        };
    assert forall|i: int| 0 <= i < n.children@.len() implies values_mapped(
        g,
        #[trigger] n.children@[i],
        m.children@[i],
    ) by {
        lemma_postorder_maps_values(rel, g, n.children@[i], mid.children@[i]);
    }
}

/// When the closure rewrites only the value of the node it is handed, by a function of
/// that value, a pre-order traversal rewrites every value of the tree by that function:
/// the two orders make the same tree.
pub proof fn lemma_preorder_maps_values<T>(
    rel: spec_fn(Node<T>, Node<T>) -> bool,
    g: spec_fn(T) -> T,
    n: Node<T>,
    m: Node<T>,
)
    requires
        forall|a: Node<T>, b: Node<T>|
            #[trigger] rel(a, b) ==> b.children == a.children && b.value == g(a.value),
        preorder_rel(rel, n, m),
    ensures
        values_mapped(g, n, m),
    decreases m,
{
    let mid = choose|mid: Node<T>|
        {
            &&& #[trigger] rel(n, mid)
            &&& m.value == mid.value
            &&& m.children@.len() == mid.children@.len()
            &&& forall|i: int|
                0 <= i < m.children@.len() ==> preorder_rel(rel, mid.children@[i], #[trigger] m.children@[i])
        };
    assert forall|i: int| 0 <= i < n.children@.len() implies values_mapped(
        g,
        #[trigger] n.children@[i],
        m.children@[i],
    ) by {
        lemma_preorder_maps_values(rel, g, mid.children@[i], m.children@[i]);
    }
}

/// When the closure's result is determined by the node and the contents of the results
/// it is handed, reducing a tree has exactly one outcome.
pub proof fn lemma_reduce_deterministic<T, R, F: FnMut(&Node<T>, Vec<R>) -> R>(
    f: F,
    n: Node<T>,
    r1: R,
    r2: R,
)
    requires
        forall|a: &Node<T>, rs1: Vec<R>, rs2: Vec<R>, x: R, y: R|
            #![trigger call_ensures(f, (a, rs1), x), call_ensures(f, (a, rs2), y)]
            rs1@ == rs2@ && call_ensures(f, (a, rs1), x) && call_ensures(f, (a, rs2), y) ==> x == y,
        reduce_rel(f, n, r1),
        reduce_rel(f, n, r2),
    ensures
        r1 == r2,
    decreases n,
{
    let rs1 = choose|rs: Vec<R>|
        {
            &&& rs@.len() == n.children@.len()
            &&& forall|i: int|
                0 <= i < n.children@.len() ==> reduce_rel(f, #[trigger] n.children@[i], rs@[i])
            &&& #[trigger] call_ensures(f, (&n, rs), r1)
        };
    let rs2 = choose|rs: Vec<R>|
        {
            &&& rs@.len() == n.children@.len()
            &&& forall|i: int|
                0 <= i < n.children@.len() ==> reduce_rel(f, #[trigger] n.children@[i], rs@[i])
            &&& #[trigger] call_ensures(f, (&n, rs), r2)
        };
    assert forall|i: int| 0 <= i < n.children@.len() implies rs1@[i] == rs2@[i] by {
        lemma_reduce_deterministic(f, n.children@[i], rs1@[i], rs2@[i]);
    }
    assert(rs1@ =~= rs2@);
}

/// The sum of a sequence of integers.
pub open spec fn seq_sum(s: Seq<int>) -> int
    decreases s.len(),
{
    if s.len() == 0 {
        0
    } else {
        seq_sum(s.drop_last()) + s.last()
    }
}

/// The sum of `w` over the values of the tree rooted at `n` (with `w` constant 1, the
/// number of its nodes).
pub open spec fn tree_weight<T>(w: spec_fn(T) -> int, n: Node<T>) -> int {
    seq_sum(postorder_seq(n).map_values(|m: Node<T>| w(m.value)))
}

/// The two trees hold the same values at the same places.
pub open spec fn same_tree<T>(a: Node<T>, b: Node<T>) -> bool
    decreases a,
{
    &&& a.value == b.value
    &&& a.children@.len() == b.children@.len()
    &&& forall|i: int|
        0 <= i < a.children@.len() ==> same_tree(#[trigger] a.children@[i], b.children@[i])
}

proof fn lemma_seq_sum_concat(a: Seq<int>, b: Seq<int>)
    ensures
        seq_sum(a + b) == seq_sum(a) + seq_sum(b),
    decreases b.len(),
{
    if b.len() == 0 {
        assert(a + b =~= a);
    } else {
        lemma_seq_sum_concat(a, b.drop_last());
        assert((a + b).drop_last() =~= a + b.drop_last());
    }
}

proof fn lemma_seq_sum_ones<A>(s: Seq<A>)
    ensures
        seq_sum(s.map_values(|x: A| 1int)) == s.len(),
    decreases s.len(),
{
    if s.len() > 0 {
        lemma_seq_sum_ones(s.drop_last());
        assert(s.map_values(|x: A| 1int).drop_last() =~= s.drop_last().map_values(|x: A| 1int));
    }
}

/// With `w` constant 1, the weight of a tree is the number of nodes `for_each` visits.
pub proof fn lemma_tree_weight_counts<T>(n: Node<T>)
    ensures
        tree_weight(|v: T| 1int, n) == postorder_seq(n).len(),
{
    let s = postorder_seq(n);
    lemma_seq_sum_ones(s);
    assert(s.map_values(|m: Node<T>| (|v: T| 1int)(m.value)) =~= s.map_values(|x: Node<T>| 1int));
}

/// The weight of a tree is the weight of its root's value plus the weights of the
/// first `k` children.
proof fn lemma_children_weight<T>(w: spec_fn(T) -> int, n: Node<T>, k: nat)
    requires
        k <= n.children@.len(),
    ensures
        seq_sum(children_postorder(n, k).map_values(|m: Node<T>| w(m.value))) == seq_sum(
            Seq::new(k, |i: int| tree_weight(w, n.children@[i])),
        ),
    decreases k,
{
    let g = |m: Node<T>| w(m.value);
    if k > 0 {
        lemma_children_weight(w, n, (k - 1) as nat);
        let a = children_postorder(n, (k - 1) as nat);
        let b = postorder_seq(n.children@[k - 1]);
        assert(children_postorder(n, k) == a + b);
        assert((a + b).map_values(g) =~= a.map_values(g) + b.map_values(g));
        lemma_seq_sum_concat(a.map_values(g), b.map_values(g));
        assert(Seq::new(k, |i: int| tree_weight(w, n.children@[i])).drop_last() =~= Seq::new(
            (k - 1) as nat,
            |i: int| tree_weight(w, n.children@[i]),
        ));
    } else {
        assert(children_postorder(n, 0).map_values(g) =~= Seq::<int>::empty());
        assert(Seq::new(0, |i: int| tree_weight(w, n.children@[i])) =~= Seq::<int>::empty());
    }
}

/// The weight of a tree is the weight of its root's value plus those of its children.
pub proof fn lemma_tree_weight_unfold<T>(w: spec_fn(T) -> int, n: Node<T>)
    ensures
        tree_weight(w, n) == w(n.value) + seq_sum(
            Seq::new(n.children@.len(), |i: int| tree_weight(w, n.children@[i])),
        ),
{
    let g = |m: Node<T>| w(m.value);
    let a = children_postorder(n, n.children@.len());
    lemma_children_weight(w, n, n.children@.len());
    assert(postorder_seq(n) == a + seq![n]);
    assert(postorder_seq(n).map_values(|m: Node<T>| w(m.value)) =~= a.map_values(g) + seq![n].map_values(g));
    lemma_seq_sum_concat(a.map_values(g), seq![n].map_values(g));
    let single = seq![n].map_values(g);
    assert(single.len() == 1);
    assert(single[0] == w(n.value));
    assert(single.drop_last() =~= Seq::<int>::empty());
    assert(seq_sum(single.drop_last()) == 0);
    assert(seq_sum(single) == w(n.value));
}

/// Reducing a tree with a closure that adds the weight of the node's value to the
/// results of its children gives the weight of the whole tree: with weight 1, the
/// number of its nodes; with the value itself, the sum of its values.
pub proof fn lemma_reduce_weight<T, R, F: FnMut(&Node<T>, Vec<R>) -> R>(
    f: F,
    w: spec_fn(T) -> int,
    num: spec_fn(R) -> int,
    n: Node<T>,
    r: R,
)
    requires
        forall|a: &Node<T>, rs: Vec<R>, x: R|
            #[trigger] call_ensures(f, (a, rs), x) ==> num(x) == w(a.value) + seq_sum(
                rs@.map_values(num),
            ),
        reduce_rel(f, n, r),
    ensures
        num(r) == tree_weight(w, n),
    decreases n,
{
    let rs = choose|rs: Vec<R>|
        {
            &&& rs@.len() == n.children@.len()
            &&& forall|i: int|
                0 <= i < n.children@.len() ==> reduce_rel(f, #[trigger] n.children@[i], rs@[i])
            &&& #[trigger] call_ensures(f, (&n, rs), r)
        };
    assert forall|i: int| 0 <= i < n.children@.len() implies num(rs@[i]) == tree_weight(
        w,
        #[trigger] n.children@[i],
    ) by {
        lemma_reduce_weight(f, w, num, n.children@[i], rs@[i]);
    }
    assert(rs@.map_values(num) =~= Seq::new(
        n.children@.len(),
        |i: int| tree_weight(w, n.children@[i]),
    ));
    lemma_tree_weight_unfold(w, n);
}

/// Reducing a tree with a closure that returns one more than the sum of its children's
/// results counts the nodes: as many as `for_each` hands to its closure.
pub proof fn lemma_reduce_counts_nodes<T, R, F: FnMut(&Node<T>, Vec<R>) -> R>(
    f: F,
    num: spec_fn(R) -> int,
    n: Node<T>,
    r: R,
)
    requires
        forall|a: &Node<T>, rs: Vec<R>, x: R|
            #[trigger] call_ensures(f, (a, rs), x) ==> num(x) == 1 + seq_sum(rs@.map_values(num)),
        reduce_rel(f, n, r),
    ensures
        num(r) == postorder_seq(n).len(),
        num(r) == preorder_seq(n).len(),
{
    let one = |v: T| 1int;
    assert forall|a: &Node<T>, rs: Vec<R>, x: R|
        #[trigger] call_ensures(f, (a, rs), x) implies num(x) == one(a.value) + seq_sum(
            rs@.map_values(num),
        ) by {}
    lemma_reduce_weight(f, one, num, n, r);
    lemma_tree_weight_counts(n);
    lemma_orders_same_length(n);
}

/// Pre-order and post-order hand out the same number of nodes.
pub proof fn lemma_orders_same_length<T>(n: Node<T>)
    ensures
        preorder_seq(n).len() == postorder_seq(n).len(),
    decreases n, n.children@.len() + 1,
{
    lemma_children_same_length(n, n.children@.len());
}

proof fn lemma_children_same_length<T>(n: Node<T>, k: nat)
    ensures
        children_preorder(n, k).len() == children_postorder(n, k).len(),
    decreases n, k,
{
    if k > 0 && k <= n.children@.len() {
        lemma_children_same_length(n, (k - 1) as nat);
        assert(decreases_to!(n => n.children@[k - 1]));
        lemma_orders_same_length(n.children@[k - 1]);
    }
}

/// Pre-order hands out the root first, post-order hands it out last.
pub proof fn lemma_root_position<T>(n: Node<T>)
    ensures
        preorder_seq(n).len() >= 1,
        preorder_seq(n)[0] == n,
        postorder_seq(n).len() >= 1,
        postorder_seq(n).last() == n,
{
}

/// Pre-order and post-order hand out the same nodes, each as many times.
pub proof fn lemma_orders_permute<T>(n: Node<T>)
    ensures
        preorder_seq(n).to_multiset() == postorder_seq(n).to_multiset(),
    decreases n, n.children@.len() + 1,
{
    broadcast use vstd::seq_lib::lemma_multiset_commutative;
    lemma_children_permute(n, n.children@.len());
    let a = children_preorder(n, n.children@.len());
    let b = children_postorder(n, n.children@.len());
    assert((seq![n] + a).to_multiset() =~= seq![n].to_multiset().add(a.to_multiset()));
    assert((b + seq![n]).to_multiset() =~= b.to_multiset().add(seq![n].to_multiset()));
}

proof fn lemma_children_permute<T>(n: Node<T>, k: nat)
    ensures
        children_preorder(n, k).to_multiset() == children_postorder(n, k).to_multiset(),
    decreases n, k,
{
    broadcast use vstd::seq_lib::lemma_multiset_commutative;
    if k > 0 && k <= n.children@.len() {
        lemma_children_permute(n, (k - 1) as nat);
        assert(decreases_to!(n => n.children@[k - 1]));
        lemma_orders_permute(n.children@[k - 1]);
        let a = children_preorder(n, (k - 1) as nat);
        let b = children_postorder(n, (k - 1) as nat);
        let c = preorder_seq(n.children@[k - 1]);
        let d = postorder_seq(n.children@[k - 1]);
        assert((a + c).to_multiset() =~= a.to_multiset().add(c.to_multiset()));
        assert((b + d).to_multiset() =~= b.to_multiset().add(d.to_multiset()));
    } else {
        assert(children_preorder(n, k) =~= Seq::<Node<T>>::empty());
        assert(children_postorder(n, k) =~= Seq::<Node<T>>::empty());
    }
}

/// When the closure's result is determined by the node it is handed, mapping a tree
/// has exactly one outcome: the synchronous and asynchronous `map` build the same tree.
pub proof fn lemma_map_deterministic<T, R, F: FnMut(&Node<T>) -> R>(
    f: F,
    n: Node<T>,
    m1: Node<R>,
    m2: Node<R>,
)
    requires
        forall|a: &Node<T>, x: R, y: R|
            #![trigger call_ensures(f, (a,), x), call_ensures(f, (a,), y)]
            call_ensures(f, (a,), x) && call_ensures(f, (a,), y) ==> x == y,
        map_rel(f, n, m1),
        map_rel(f, n, m2),
    ensures
        same_tree(m1, m2),
    decreases n,
{
    assert forall|i: int| 0 <= i < m1.children@.len() implies same_tree(
        #[trigger] m1.children@[i],
        m2.children@[i],
    ) by {
        lemma_map_deterministic(f, n.children@[i], m1.children@[i], m2.children@[i]);
    }
}

} // verus!
