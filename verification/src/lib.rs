//! Fractal binary trees: the branch structure of a self-similar tree, built
//! in depth-first pre-order from a small set of options, and the rule that
//! decides when a tree has to be built again.
//!
//! The library works on integers only. A branch says where it starts by
//! naming its parent, and the real-valued options are carried as bit
//! patterns, so that everything stated here is stated exactly.

pub mod branch;
pub mod options;
pub mod shape;
pub mod tree;

pub use branch::{Branch, Stem, Turn};
pub use options::TreeOptions;
pub use tree::Tree;
