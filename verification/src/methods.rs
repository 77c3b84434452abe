//! The requests of the editor beyond the standard ones, and what decides
//! their answers.

pub mod connection;
pub mod filesystem;
