//! The arithmetic and comparison instructions.
//!
//! The machine itself negates a number, compares two numbers, works on
//! numbers as integers, adds, subtracts, multiplies and divides whole
//! numbers, and concatenates strings with strings and with whole numbers.
//! What needs rounding arithmetic on doubles, or the text of a double that is
//! no whole number, it asks of the program that drives it.

use crate::node::BinOp;
use crate::number::{
    double_less, doubles_equal, encode_i64, encode_signed, equal_doubles, exact, exact_value,
    format_whole, less_doubles, negate, negated, remainder, remainder_of, rounded, sign_of,
    signed_double, truncate, truncated, whole_text, EXACT_SPAN, SIGN_BIT,
};
use crate::value::{HeapModel, RuntimeError, Value};
use crate::vm::{agrees, agrees_step, Machine, Signal, Step, VM};
use vstd::prelude::*;
use vstd::string::*;

verus! {

/// The result of the comparison `op` of the doubles `a` and `b`, where `op`
/// is a comparison. The strict comparisons `SEq` and `SNe` are `Eq` and `Ne`.
pub open spec fn compared(op: BinOp, a: u64, b: u64) -> Option<bool> {
    match op {
        BinOp::Lt => Some(double_less(a, b)),
        BinOp::Gt => Some(double_less(b, a)),
        BinOp::Le => Some(double_less(a, b) || doubles_equal(a, b)),
        BinOp::Ge => Some(double_less(b, a) || doubles_equal(a, b)),
        BinOp::Eq => Some(doubles_equal(a, b)),
        BinOp::Ne => Some(!doubles_equal(a, b)),
        BinOp::SEq => Some(doubles_equal(a, b)),
        BinOp::SNe => Some(!doubles_equal(a, b)),
        _ => None,
    }
}

/// The result of the comparison `op` of the doubles `a` and `b`.
pub fn compare(op: &BinOp, a: u64, b: u64) -> (r: Option<bool>)
    ensures
        r == compared(*op, a, b),
{
    match op {
        BinOp::Lt => Some(less_doubles(a, b)),
        BinOp::Gt => Some(less_doubles(b, a)),
        BinOp::Le => Some(less_doubles(a, b) || equal_doubles(a, b)),
        BinOp::Ge => Some(less_doubles(b, a) || equal_doubles(a, b)),
        BinOp::Eq => Some(equal_doubles(a, b)),
        BinOp::Ne => Some(!equal_doubles(a, b)),
        BinOp::SEq => Some(equal_doubles(a, b)),
        BinOp::SNe => Some(!equal_doubles(a, b)),
        _ => None,
    }
}

/// The absolute value of `k`.
pub open spec fn absolute(k: int) -> int {
    if k < 0 {
        -k
    } else {
        k
    }
}

/// The sum, difference, product or quotient of the doubles `a` and `b`, as
/// `op` says, where both are whole numbers below 2^53 in absolute value and
/// so is the result: then the result of the arithmetic on doubles is the
/// result of the arithmetic on whole numbers. A zero result has its sign bit
/// set where both terms of a sum have, and where one of the two operands of
/// a product or a quotient has. A quotient is whole where the divisor is not
/// zero and divides the dividend.
pub open spec fn exact_result(op: BinOp, a: u64, b: u64) -> Option<u64> {
    match (exact_value(a), exact_value(b)) {
        (Some(x), Some(y)) => {
            let (k, negative) = match op {
                BinOp::Add => (x + y, sign_of(a) && sign_of(b)),
                BinOp::Sub => (x - y, sign_of(a) && !sign_of(b)),
                BinOp::Mul => (x * y, sign_of(a) != sign_of(b)),
                BinOp::Div => (
                    if y != 0 && absolute(x) % absolute(y) == 0 {
                        if (x < 0) != (y < 0) {
                            -(absolute(x) / absolute(y))
                        } else {
                            absolute(x) / absolute(y)
                        }
                    } else {
                        EXACT_SPAN as int
                    },
                    sign_of(a) != sign_of(b),
                ),
                _ => (EXACT_SPAN as int, false),
            };
            if -(EXACT_SPAN as int) < k < EXACT_SPAN as int {
                Some(signed_double(k, negative))
            } else {
                None
            }
        },
        _ => None,
    }
}

/// The product of two whole numbers by their absolute values, and when it
/// stays below a bound.
proof fn lemma_product(x: int, y: int, mx: int, my: int, bound: int)
    requires
        mx == (if x < 0 {
            -x
        } else {
            x
        }),
        my == (if y < 0 {
            -y
        } else {
            y
        }),
        bound > 0,
    ensures
        mx * my >= 0,
        (my != 0 && mx > (bound - 1) / my) <==> mx * my >= bound,
        x * y == (if (x < 0) != (y < 0) {
            -(mx * my)
        } else {
            mx * my
        }),
{
    assert(mx * my >= 0) by (nonlinear_arith)
        requires
            mx >= 0,
            my >= 0,
    ;
    if my != 0 {
        let q = (bound - 1) / my;
        assert(q * my <= bound - 1 < (q + 1) * my) by (nonlinear_arith)
            requires
                q == (bound - 1) / my,
                my > 0,
        ;
        if mx > q {
            assert(mx * my >= (q + 1) * my) by (nonlinear_arith)
                requires
                    mx >= q + 1,
                    my > 0,
            ;
        } else {
            assert(mx * my <= q * my) by (nonlinear_arith)
                requires
                    mx <= q,
                    my > 0,
            ;
        }
    } else {
        assert(mx * my == 0) by (nonlinear_arith)
            requires
                my == 0,
        ;
    }
    assert(x * y == (if (x < 0) != (y < 0) {
        -(mx * my)
    } else {
        mx * my
    })) by (nonlinear_arith)
        requires
            mx == x || mx == -x,
            my == y || my == -y,
            (mx == x) == (x >= 0),
            (my == y) == (y >= 0),
    ;
}

/// The sum, difference, product or quotient of the doubles `a` and `b`,
/// where it is that of whole numbers.
pub fn exact_op(op: &BinOp, a: u64, b: u64) -> (r: Option<u64>)
    ensures
        r == exact_result(*op, a, b),
{
    let (x, y) = match (exact(a), exact(b)) {
        (Some(x), Some(y)) => (x, y),
        _ => {
            return None;
        },
    };
    let a_negative = a >= SIGN_BIT;
    let b_negative = b >= SIGN_BIT;
    let limit = EXACT_SPAN as i64;
    match op {
        BinOp::Add => {
            let k = x + y;
            if -limit < k && k < limit {
                Some(encode_signed(k, a_negative && b_negative))
            } else {
                None
            }
        },
        BinOp::Sub => {
            let k = x - y;
            if -limit < k && k < limit {
                Some(encode_signed(k, a_negative && !b_negative))
            } else {
                None
            }
        },
        BinOp::Mul => {
            let mx: i64 = if x < 0 {
                -x
            } else {
                x
            };
            let my: i64 = if y < 0 {
                -y
            } else {
                y
            };
            proof {
                lemma_product(x as int, y as int, mx as int, my as int, limit as int);
            }
            if my != 0 && mx > (limit - 1) / my {
                None
            } else {
                let product = mx * my;
                let k = if (x < 0) != (y < 0) {
                    -product
                } else {
                    product
                };
                Some(encode_signed(k, a_negative != b_negative))
            }
        },
        BinOp::Div => {
            let mx: i64 = if x < 0 {
                -x
            } else {
                x
            };
            let my: i64 = if y < 0 {
                -y
            } else {
                y
            };
            if my != 0 && mx % my == 0 {
                let quotient = mx / my;
                let k = if (x < 0) != (y < 0) {
                    -quotient
                } else {
                    quotient
                };
                Some(encode_signed(k, a_negative != b_negative))
            } else {
                None
            }
        },
        _ => None,
    }
}

/// The result of the operator `op` on the doubles `a` and `b`, where `op` is
/// one of `Rem`, `And` and `Or`: both operands are cut down to 64-bit
/// integers, and the result is the double nearest to the integer result. A
/// remainder by zero fails, and so does the one remainder that is out of
/// range.
pub open spec fn integral(op: BinOp, a: u64, b: u64) -> Option<Result<u64, RuntimeError>> {
    let x = truncated(a);
    let y = truncated(b);
    match op {
        BinOp::Rem => Some(
            if y == 0 {
                Err(RuntimeError::DivisionByZero)
            } else if x == i64::MIN && y == -1 {
                Err(RuntimeError::OutOfRange)
            } else {
                Ok(rounded(remainder(x as int, y as int)))
            },
        ),
        BinOp::And => Some(Ok(rounded((x & y) as int))),
        BinOp::Or => Some(Ok(rounded((x | y) as int))),
        _ => None,
    }
}

/// The result of the operator `op` on the doubles `a` and `b`, where `op` is
/// one of `Rem`, `And` and `Or`.
pub fn integer_op(op: &BinOp, a: u64, b: u64) -> (r: Option<Result<u64, RuntimeError>>)
    ensures
        r == integral(*op, a, b),
{
    let x = truncate(a);
    let y = truncate(b);
    match op {
        BinOp::Rem => {
            if y == 0 {
                Some(Err(RuntimeError::DivisionByZero))
            } else if x == i64::MIN && y == -1 {
                Some(Err(RuntimeError::OutOfRange))
            } else {
                Some(Ok(encode_i64(remainder_of(x, y))))
            }
        },
        BinOp::And => Some(Ok(encode_i64(x & y))),
        BinOp::Or => Some(Ok(encode_i64(x | y))),
        _ => None,
    }
}

impl Machine {
    /// `neg`: the number on top of the stack changes its sign.
    pub open spec fn neg(self) -> Result<Machine, RuntimeError> {
        if !self.fits(1) {
            Err(RuntimeError::BadProgramCounter)
        } else if self.stack.len() == 0 {
            Err(RuntimeError::StackUnderflow)
        } else {
            match self.stack.last() {
                Value::Number(n) => Ok(
                    Machine {
                        stack: self.stack.drop_last().push(Value::Number(negated(n))),
                        ..self.skip(1)
                    },
                ),
                _ => Err(RuntimeError::TypeError),
            }
        }
    }

    /// The machine after the two values on top of the stack gave way to a
    /// new string of the heap with the text `text`.
    pub open spec fn joined(self, text: Seq<char>) -> Result<(Machine, Signal), RuntimeError> {
        Ok(
            (
                Machine {
                    stack: self.stack.take(self.stack.len() - 2).push(
                        Value::String(self.heap.strings.len() as usize),
                    ),
                    heap: HeapModel { strings: self.heap.strings.push(text), ..self.heap },
                    ..self
                },
                Signal::Continue,
            ),
        )
    }

    /// The binary operator `op` on the two values on top of the stack, the
    /// right operand topmost.
    ///
    /// - Two numbers are taken off. For a comparison the truth value is
    ///   pushed, and for `Rem`, `And` and `Or` the number. So it is for
    ///   `Add`, `Sub`, `Mul` and `Div` on whole numbers with a whole result,
    ///   all below 2^53 in absolute value; for any other `Add`, `Sub`, `Mul`
    ///   and `Div` the driver is asked for the result.
    /// - For `Add` on two strings, they are taken off and their
    ///   concatenation, a new string of the heap, is pushed.
    /// - For `Add` on a string and a number, in either order, the same
    ///   happens with the text of the number, where the number is a whole
    ///   number below 2^53 in absolute value; for any other number the driver
    ///   is asked for its text, and nothing changes.
    /// - Any other pair stays where it is, and nothing is pushed.
    pub open spec fn binary(self, op: BinOp) -> Result<(Machine, Signal), RuntimeError> {
        let len = self.stack.len() as int;
        let rest = Machine { stack: self.stack.take(len - 2), ..self };
        if len < 2 {
            Err(RuntimeError::StackUnderflow)
        } else {
            match (self.stack[len - 2], self.stack[len - 1]) {
                (Value::Number(a), Value::Number(b)) => match compared(op, a, b) {
                    Some(v) => Ok((rest.push(Value::Bool(v)), Signal::Continue)),
                    None => match integral(op, a, b) {
                        Some(Ok(v)) => Ok((rest.push(Value::Number(v)), Signal::Continue)),
                        Some(Err(e)) => Err(e),
                        None => if op is LAnd || op is LOr {
                            Err(RuntimeError::TypeError)
                        } else {
                            match exact_result(op, a, b) {
                                Some(v) => Ok((rest.push(Value::Number(v)), Signal::Continue)),
                                None => Ok((rest, Signal::Arith(op, a, b))),
                            }
                        },
                    },
                },
                (Value::String(a), Value::Number(b)) => if !(op is Add) {
                    Err(RuntimeError::TypeError)
                } else if whole_text(b) is None {
                    Ok((self, Signal::FormatNumber((len - 1) as usize)))
                } else if a >= self.heap.strings.len() {
                    Err(RuntimeError::BadReference)
                } else {
                    self.joined(self.heap.strings[a as int] + whole_text(b)->Some_0)
                },
                (Value::Number(a), Value::String(b)) => if !(op is Add) {
                    Err(RuntimeError::TypeError)
                } else if whole_text(a) is None {
                    Ok((self, Signal::FormatNumber((len - 2) as usize)))
                } else if b >= self.heap.strings.len() {
                    Err(RuntimeError::BadReference)
                } else {
                    self.joined(whole_text(a)->Some_0 + self.heap.strings[b as int])
                },
                (Value::String(a), Value::String(b)) => if !(op is Add) {
                    Err(RuntimeError::TypeError)
                } else if a >= self.heap.strings.len() || b >= self.heap.strings.len() {
                    Err(RuntimeError::BadReference)
                } else {
                    self.joined(self.heap.strings[a as int] + self.heap.strings[b as int])
                },
                _ => Ok((self, Signal::Continue)),
            }
        }
    }

    /// The instruction of the binary operator `op`: the program counter moves
    /// on, unless the instruction has to run again.
    pub open spec fn binary_op(self, op: BinOp) -> Result<(Machine, Signal), RuntimeError> {
        if !self.fits(1) {
            Err(RuntimeError::BadProgramCounter)
        } else {
            match self.binary(op) {
                Ok(r) => if r.1 is FormatNumber {
                    Ok(r)
                } else {
                    Ok((r.0.skip(1), r.1))
                },
                Err(e) => Err(e),
            }
        }
    }
}

/// `neg`
pub fn neg(vm: &mut VM) -> (r: Result<(), RuntimeError>)
    ensures
        agrees(old(vm)@.neg(), old(vm)@, final(vm)@, r),
{
    let pc = vm.check(1)?;
    let len = vm.state.stack.len();
    if len == 0 {
        return Err(RuntimeError::StackUnderflow);
    }
    match &vm.state.stack[len - 1] {
        Value::Number(n) => {
            let negative = Value::Number(negate(*n));
            vm.state.stack[len - 1] = negative;
            vm.state.pc = (pc + 1) as isize;
            assert(vm@.stack =~= old(vm)@.stack.drop_last().push(negative));
            Ok(())
        },
        _ => Err(RuntimeError::TypeError),
    }
}

/// Lets the two values on top of the stack give way to a new string with the
/// text `text`.
fn join(vm: &mut VM, text: String) -> (r: Result<Step, RuntimeError>)
    requires
        old(vm)@.stack.len() >= 2,
    ensures
        agrees_step(old(vm)@.joined(text@), old(vm)@, final(vm)@, r),
{
    let len = vm.state.stack.len();
    let made = vm.heap.new_string(text);
    vm.state.stack.truncate(len - 2);
    vm.state.stack.push(Value::String(made));
    Ok(Step::Continue)
}

/// The binary operator `op` on the two values on top of the stack. The
/// program counter is left alone.
pub fn binary(vm: &mut VM, op: &BinOp) -> (r: Result<Step, RuntimeError>)
    ensures
        agrees_step(old(vm)@.binary(*op), old(vm)@, final(vm)@, r),
{
    let len = vm.state.stack.len();
    if len < 2 {
        return Err(RuntimeError::StackUnderflow);
    }
    let is_add = match op {
        BinOp::Add => true,
        _ => false,
    };
    let is_logical = match op {
        BinOp::LAnd => true,
        BinOp::LOr => true,
        _ => false,
    };
    match (&vm.state.stack[len - 2], &vm.state.stack[len - 1]) {
        (Value::Number(a), Value::Number(b)) => {
            let a = *a;
            let b = *b;
            match compare(op, a, b) {
                Some(v) => {
                    vm.state.stack.truncate(len - 2);
                    vm.state.stack.push(Value::Bool(v));
                    Ok(Step::Continue)
                },
                None => {
                    match integer_op(op, a, b) {
                        Some(Ok(v)) => {
                            vm.state.stack.truncate(len - 2);
                            vm.state.stack.push(Value::Number(v));
                            Ok(Step::Continue)
                        },
                        Some(Err(e)) => Err(e),
                        None => {
                            if is_logical {
                                return Err(RuntimeError::TypeError);
                            }
                            vm.state.stack.truncate(len - 2);
                            match exact_op(op, a, b) {
                                Some(v) => {
                                    vm.state.stack.push(Value::Number(v));
                                    Ok(Step::Continue)
                                },
                                None => Ok(Step::Arith(*op, a, b)),
                            }
                        },
                    }
                },
            }
        },
        (Value::String(a), Value::Number(b)) => {
            if !is_add {
                return Err(RuntimeError::TypeError);
            }
            let a = *a;
            match format_whole(*b) {
                None => Ok(Step::FormatNumber(len - 1)),
                Some(number) => {
                    if a >= vm.heap.strings.len() {
                        return Err(RuntimeError::BadReference);
                    }
                    let mut text = vm.heap.strings[a].clone();
                    text.append(number.as_str());
                    join(vm, text)
                },
            }
        },
        (Value::Number(a), Value::String(b)) => {
            if !is_add {
                return Err(RuntimeError::TypeError);
            }
            let b = *b;
            match format_whole(*a) {
                None => Ok(Step::FormatNumber(len - 2)),
                Some(number) => {
                    if b >= vm.heap.strings.len() {
                        return Err(RuntimeError::BadReference);
                    }
                    let mut text = number;
                    text.append(vm.heap.strings[b].as_str());
                    join(vm, text)
                },
            }
        },
        (Value::String(a), Value::String(b)) => {
            if !is_add {
                return Err(RuntimeError::TypeError);
            }
            let a = *a;
            let b = *b;
            if a >= vm.heap.strings.len() || b >= vm.heap.strings.len() {
                return Err(RuntimeError::BadReference);
            }
            let mut text = vm.heap.strings[a].clone();
            text.append(vm.heap.strings[b].as_str());
            join(vm, text)
        },
        _ => Ok(Step::Continue),
    }
}

/// The instruction of the binary operator `op`.
pub fn binary_op(vm: &mut VM, op: &BinOp) -> (r: Result<Step, RuntimeError>)
    ensures
        agrees_step(old(vm)@.binary_op(*op), old(vm)@, final(vm)@, r),
{
    let pc = vm.check(1)?;
    let step = binary(vm, op)?;
    match step {
        Step::FormatNumber(_) => {},
        _ => {
            vm.state.pc = (pc + 1) as isize;
        },
    }
    Ok(step)
}

/// `add`
pub fn add(vm: &mut VM) -> (r: Result<Step, RuntimeError>)
    ensures
        agrees_step(old(vm)@.binary_op(BinOp::Add), old(vm)@, final(vm)@, r),
{
    binary_op(vm, &BinOp::Add)
}

/// `sub`
pub fn sub(vm: &mut VM) -> (r: Result<Step, RuntimeError>)
    ensures
        agrees_step(old(vm)@.binary_op(BinOp::Sub), old(vm)@, final(vm)@, r),
{
    binary_op(vm, &BinOp::Sub)
}

/// `mul`
pub fn mul(vm: &mut VM) -> (r: Result<Step, RuntimeError>)
    ensures
        agrees_step(old(vm)@.binary_op(BinOp::Mul), old(vm)@, final(vm)@, r),
{
    binary_op(vm, &BinOp::Mul)
}

/// `div`
pub fn div(vm: &mut VM) -> (r: Result<Step, RuntimeError>)
    ensures
        agrees_step(old(vm)@.binary_op(BinOp::Div), old(vm)@, final(vm)@, r),
{
    binary_op(vm, &BinOp::Div)
}

/// `rem`
pub fn rem(vm: &mut VM) -> (r: Result<Step, RuntimeError>)
    ensures
        agrees_step(old(vm)@.binary_op(BinOp::Rem), old(vm)@, final(vm)@, r),
{
    binary_op(vm, &BinOp::Rem)
}

/// `lt`
pub fn lt(vm: &mut VM) -> (r: Result<Step, RuntimeError>)
    ensures
        agrees_step(old(vm)@.binary_op(BinOp::Lt), old(vm)@, final(vm)@, r),
{
    binary_op(vm, &BinOp::Lt)
}

/// `gt`
pub fn gt(vm: &mut VM) -> (r: Result<Step, RuntimeError>)
    ensures
        agrees_step(old(vm)@.binary_op(BinOp::Gt), old(vm)@, final(vm)@, r),
{
    binary_op(vm, &BinOp::Gt)
}

/// `le`
pub fn le(vm: &mut VM) -> (r: Result<Step, RuntimeError>)
    ensures
        agrees_step(old(vm)@.binary_op(BinOp::Le), old(vm)@, final(vm)@, r),
{
    binary_op(vm, &BinOp::Le)
}

/// `ge`
pub fn ge(vm: &mut VM) -> (r: Result<Step, RuntimeError>)
    ensures
        agrees_step(old(vm)@.binary_op(BinOp::Ge), old(vm)@, final(vm)@, r),
{
    binary_op(vm, &BinOp::Ge)
}

/// `eq`
pub fn eq(vm: &mut VM) -> (r: Result<Step, RuntimeError>)
    ensures
        agrees_step(old(vm)@.binary_op(BinOp::Eq), old(vm)@, final(vm)@, r),
{
    binary_op(vm, &BinOp::Eq)
}

/// `ne`
pub fn ne(vm: &mut VM) -> (r: Result<Step, RuntimeError>)
    ensures
        agrees_step(old(vm)@.binary_op(BinOp::Ne), old(vm)@, final(vm)@, r),
{
    binary_op(vm, &BinOp::Ne)
}

/// `seq`
pub fn seq(vm: &mut VM) -> (r: Result<Step, RuntimeError>)
    ensures
        agrees_step(old(vm)@.binary_op(BinOp::SEq), old(vm)@, final(vm)@, r),
{
    binary_op(vm, &BinOp::SEq)
}

/// `sne`
pub fn sne(vm: &mut VM) -> (r: Result<Step, RuntimeError>)
    ensures
        agrees_step(old(vm)@.binary_op(BinOp::SNe), old(vm)@, final(vm)@, r),
{
    binary_op(vm, &BinOp::SNe)
}

/// `and`
pub fn and(vm: &mut VM) -> (r: Result<Step, RuntimeError>)
    ensures
        agrees_step(old(vm)@.binary_op(BinOp::And), old(vm)@, final(vm)@, r),
{
    binary_op(vm, &BinOp::And)
}

/// `or`
pub fn or(vm: &mut VM) -> (r: Result<Step, RuntimeError>)
    ensures
        agrees_step(old(vm)@.binary_op(BinOp::Or), old(vm)@, final(vm)@, r),
{
    binary_op(vm, &BinOp::Or)
}

} // verus!
