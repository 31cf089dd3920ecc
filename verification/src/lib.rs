//! A retained-mode flexbox layout tree.
//!
//! A mutable forest of styled boxes with stable numeric identities. Styles
//! are given as partial descriptions and resolved to a fully-defaulted
//! canonical record; a flexbox-style engine computes concrete geometry
//! (position, size, resolved padding and border) for a subtree, with
//! externally supplied intrinsic sizes for leaves and dirty-flag
//! invalidation for incremental use. All coordinates are integer units.

pub mod engine;
pub mod layout;
pub mod num;
pub mod style;
pub mod tree;
