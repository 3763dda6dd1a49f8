//! The host functions that work on the machine itself.

pub mod array;
pub mod function;
