# ntree

Generic n-ary trees (`Node<T>`: a value and an ordered list of children) and
the traversals over them, verified with Verus.

- `src/node.rs`: the tree, its builders and getters, and the shape predicate.
- `src/strategy.rs`: the strategy markers (`Synchronous`, `Asynchronous`) and
  the visiting orders (`Preorder`, `Postorder`).
- `src/traversal/`: `Traverse` (shared view: `for_each`, `map`, `reduce`,
  `cascade`), `TraverseMut` (exclusive view: `preorder`, `postorder`,
  `reduce`, `cascade`) and `TraverseOwned` (the tree `map` builds);
  `order.rs` gives the pre-order and post-order node sequences (and the
  functions that list them), `relations.rs` states what each traversal
  computes, `immersion.rs` holds the recursive workers.
- `src/laws.rs`: properties proved of every traversal (shape preservation,
  agreement of the two orders on value rewrites, uniqueness of a reduction
  and of a map, node counts and value sums through `reduce`).

The traversals of the `Asynchronous` strategy run their children one after
the other, in order, on the caller's thread; they accept closures that are
`Sync + Send`.
