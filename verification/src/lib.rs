//! The runtime core of a small interpreter for a dynamically typed,
//! prototype-based scripting language: the scope analyzer that prepares a
//! syntax tree for emission, the heap of shared values, and the stack machine
//! that executes the emitted bytecode.

pub mod arith;
pub mod builtin;
pub mod builtins;
pub mod bytecode_gen;
pub mod call;
pub mod free_laws;
pub mod fv_finder;
pub mod laws;
pub mod member;
pub mod name_set;
pub mod node;
pub mod number;
pub mod run;
pub mod scope_laws;
pub mod scope_ops;
pub mod scopes;
pub mod shape_laws;
pub mod stack_ops;
pub mod text;
pub mod value;
pub mod vm;
pub mod xorshift;
