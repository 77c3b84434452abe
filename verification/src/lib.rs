//! Core of an editor backend for a remote source repository: session
//! registry, editable documents with highlighting, and the repository tree.

pub mod adt;
pub mod backend;
pub mod buffer;
pub mod context;
pub mod document;
pub mod edits;
pub mod methods;
pub mod syntax;
pub mod text;
pub mod tokens;
pub mod vfs;
