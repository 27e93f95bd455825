//! Traversals over a tree: a shared view (`Traverse`), an exclusive view
//! (`TraverseMut`) and an owned tree (`TraverseOwned`).

mod relations;
mod order;
mod immersion;
mod traverse;
mod traverse_mut;
mod owned;

pub use relations::{
    cascaded, visit_admits, map_rel, reduce_rel, reduce_admits, cascade_admits,
    postorder_rel, preorder_rel, reduce_mut_rel, cascade_mut_rel, preorder_bounded, cascade_bounded,
};
pub use order::{preorder_seq, children_preorder, postorder_seq, children_postorder, deref_all};
pub use traverse::Traverse;
pub use traverse_mut::{TraverseMut, lemma_released};
pub use owned::TraverseOwned;
