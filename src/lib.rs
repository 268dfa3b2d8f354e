//! A small model of single ownership: values that move, values that are
//! copied, borrows that share or exclude, and a registry that checks these
//! rules at run time.

pub mod laws;
pub mod ownership;
pub mod registry;
