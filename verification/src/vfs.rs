//! The virtual repository tree: nodes in an arena, expanded on demand.

pub mod arena;
pub mod expander;
pub mod nodes;
pub mod query;
pub mod tree;
