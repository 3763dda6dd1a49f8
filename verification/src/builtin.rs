//! The identifiers of the host functions, as they index the host's dispatch table.

use vstd::prelude::*;

verus! {

/// `console.log`
pub const CONSOLE_LOG: usize = 0;

/// `process.stdout.write`
pub const PROCESS_STDOUT_WRITE: usize = 1;

/// `Array.prototype.push`
pub const ARRAY_PUSH: usize = 2;

/// `Math.floor`
pub const MATH_FLOOR: usize = 3;

/// `Math.random`
pub const MATH_RANDOM: usize = 4;

/// `Math.pow`
pub const MATH_POW: usize = 5;

/// `Function.prototype.call`
pub const FUNCTION_PROTOTYPE_CALL: usize = 6;

} // verus!
