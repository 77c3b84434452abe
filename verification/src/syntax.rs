//! Parsing and highlighting on top of a grammar that the caller supplies.

pub mod cst;
pub mod parser;
