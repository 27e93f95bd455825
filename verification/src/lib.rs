//! Generic n-ary trees and the traversals over them: visiting every node,
//! mapping a tree into a new one, reducing it bottom-up into a single value
//! and cascading a value from the root down to the leaves.

mod node;
mod strategy;
mod traversal;
mod laws;

pub use node::{Node, same_shape};
pub use strategy::{Synchronous, Asynchronous, Order, Preorder, Postorder};
pub use traversal::{
    Traverse, TraverseMut, TraverseOwned, lemma_released, cascaded, visit_admits,
    map_rel, reduce_rel, reduce_admits, cascade_admits, postorder_rel, preorder_rel,
    reduce_mut_rel, cascade_mut_rel, preorder_bounded, cascade_bounded, preorder_seq,
    children_preorder, postorder_seq, children_postorder, deref_all,
};
pub use laws::{
    values_mapped, lemma_map_same_shape, lemma_postorder_same_shape, lemma_preorder_same_shape,
    lemma_reduce_mut_same_shape, lemma_cascade_mut_same_shape,
    lemma_postorder_maps_values, lemma_preorder_maps_values, lemma_reduce_deterministic,
    seq_sum, tree_weight, same_tree, lemma_tree_weight_counts, lemma_tree_weight_unfold,
    lemma_reduce_weight, lemma_map_deterministic, lemma_reduce_counts_nodes,
    lemma_orders_same_length, lemma_root_position, lemma_orders_permute,
};
