//! The instructions that move values between the bytecode, the constant
//! table, the value stack and the activation records, and the jumps.

use crate::bytecode_gen::{read_i32, read_u32, signed32};
use crate::number::{double_of_int, double_of_nat, encode_i32, encode_nat};
use crate::value::{RuntimeError, Value};
use crate::vm::{agrees, Machine, VM};
use vstd::prelude::*;
use vstd::string::*;

verus! {

broadcast use vstd::std_specs::hash::group_hash_axioms;

impl Machine {
    /// `end`: nothing changes.
    pub open spec fn end(self) -> Result<Machine, RuntimeError> {
        Ok(self)
    }

    /// An instruction that only moves the program counter over its `width` bytes.
    pub open spec fn pass(self, width: int) -> Result<Machine, RuntimeError> {
        if !self.fits(width) {
            Err(RuntimeError::BadProgramCounter)
        } else {
            Ok(self.skip(width))
        }
    }

    /// An instruction of `width` bytes that pushes `v`.
    pub open spec fn produce(self, width: int, v: Value) -> Result<Machine, RuntimeError> {
        if !self.fits(width) {
            Err(RuntimeError::BadProgramCounter)
        } else {
            Ok(self.skip(width).push(v))
        }
    }

    /// `push_int8`: pushes the operand byte, read as an unsigned number.
    pub open spec fn push_int8(self) -> Result<Machine, RuntimeError> {
        self.produce(2, Value::Number(double_of_nat(self.insts[self.pc + 1] as nat)))
    }

    /// `push_int32`: pushes the operand, read as a signed number.
    pub open spec fn push_int32(self) -> Result<Machine, RuntimeError> {
        self.produce(5, Value::Number(double_of_int(signed32(self.operand(1)))))
    }

    /// `push_const`: pushes a copy of the constant that the operand names.
    pub open spec fn push_const(self) -> Result<Machine, RuntimeError> {
        if !self.fits(5) {
            Err(RuntimeError::BadProgramCounter)
        } else if self.operand(1) >= self.values.len() {
            Err(RuntimeError::BadConstant)
        } else {
            Ok(self.skip(5).push(self.values[self.operand(1)]))
        }
    }

    /// An instruction of `width` bytes that pushes a copy of the stack slot `slot`.
    pub open spec fn fetch(self, width: int, slot: int) -> Result<Machine, RuntimeError> {
        if !self.fits(width) {
            Err(RuntimeError::BadProgramCounter)
        } else if slot < 0 || slot >= self.stack.len() {
            Err(RuntimeError::StackUnderflow)
        } else {
            Ok(self.skip(width).push(self.stack[slot]))
        }
    }

    /// An instruction of `width` bytes that pops a value and stores it in
    /// the stack slot `slot`.
    pub open spec fn store(self, width: int, slot: int) -> Result<Machine, RuntimeError> {
        if !self.fits(width) {
            Err(RuntimeError::BadProgramCounter)
        } else if self.stack.len() == 0 || slot >= self.stack.len() - 1 {
            Err(RuntimeError::StackUnderflow)
        } else {
            Ok(
                Machine {
                    stack: self.stack.drop_last().update(slot, self.stack.last()),
                    ..self.skip(width)
                },
            )
        }
    }

    /// `push_this`: pushes a copy of the slot at the base pointer.
    pub open spec fn push_this(self) -> Result<Machine, RuntimeError> {
        self.fetch(1, self.bp as int)
    }

    /// `get_local n`: pushes a copy of the `n`-th local.
    pub open spec fn get_local(self) -> Result<Machine, RuntimeError> {
        self.fetch(5, self.lp + self.operand(1))
    }

    /// `set_local n`: pops a value into the `n`-th local.
    pub open spec fn set_local(self) -> Result<Machine, RuntimeError> {
        self.store(5, self.lp + self.operand(1))
    }

    /// `get_arg_local n`: pushes a copy of the `n`-th argument.
    pub open spec fn get_arg_local(self) -> Result<Machine, RuntimeError> {
        self.fetch(5, self.bp + self.operand(1))
    }

    /// `set_arg_local n`: pops a value into the `n`-th argument.
    pub open spec fn set_arg_local(self) -> Result<Machine, RuntimeError> {
        self.store(5, self.bp + self.operand(1))
    }

    /// `double`: pushes a copy of the top of the stack.
    pub open spec fn double(self) -> Result<Machine, RuntimeError> {
        self.fetch(1, self.stack.len() - 1)
    }

    /// `pop`: takes the top off the stack.
    pub open spec fn pop(self) -> Result<Machine, RuntimeError> {
        if !self.fits(1) {
            Err(RuntimeError::BadProgramCounter)
        } else if self.stack.len() == 0 {
            Err(RuntimeError::StackUnderflow)
        } else {
            Ok(self.skip(1).drop())
        }
    }

    /// `jmp off`: continues `off` bytes from the position after the
    /// instruction; a backward jump is recorded with its target and the
    /// position after it.
    pub open spec fn jmp(self) -> Result<Machine, RuntimeError> {
        let off = signed32(self.operand(1));
        let target = self.pc + 5 + off;
        if !self.fits(5) {
            Err(RuntimeError::BadProgramCounter)
        } else if target < isize::MIN || target > isize::MAX {
            Err(RuntimeError::OutOfRange)
        } else {
            Ok(
                Machine {
                    pc: target as isize,
                    loops: if off < 0 {
                        self.loops.insert(target as isize, (self.pc + 5) as isize)
                    } else {
                        self.loops
                    },
                    ..self
                },
            )
        }
    }

    /// `jmp_if_false off`: pops a value and jumps if it is the boolean false.
    pub open spec fn jmp_if_false(self) -> Result<Machine, RuntimeError> {
        let target = self.pc + 5 + signed32(self.operand(1));
        if !self.fits(5) {
            Err(RuntimeError::BadProgramCounter)
        } else if self.stack.len() == 0 {
            Err(RuntimeError::StackUnderflow)
        } else if self.stack.last() != Value::Bool(false) {
            Ok(self.skip(5).drop())
        } else if target < isize::MIN || target > isize::MAX {
            Err(RuntimeError::OutOfRange)
        } else {
            Ok(Machine { pc: target as isize, ..self.drop() })
        }
    }
}

/// `end`: the terminator of a program.
pub fn end(vm: &mut VM) -> (r: Result<(), RuntimeError>)
    ensures
        agrees(old(vm)@.end(), old(vm)@, final(vm)@, r),
{
    Ok(())
}

/// Moves the program counter over an instruction of `width` bytes.
fn pass(vm: &mut VM, width: usize) -> (r: Result<(), RuntimeError>)
    requires
        width <= 16,
    ensures
        agrees(old(vm)@.pass(width as int), old(vm)@, final(vm)@, r),
{
    let pc = vm.check(width)?;
    vm.state.pc = (pc + width) as isize;
    Ok(())
}

/// Moves the program counter over an instruction of `width` bytes and pushes `v`.
fn produce(vm: &mut VM, width: usize, v: Value) -> (r: Result<(), RuntimeError>)
    requires
        width <= 16,
    ensures
        agrees(old(vm)@.produce(width as int, v), old(vm)@, final(vm)@, r),
{
    let pc = vm.check(width)?;
    vm.state.pc = (pc + width) as isize;
    vm.state.stack.push(v);
    Ok(())
}

/// Moves the program counter over an instruction of `width` bytes and pushes
/// a copy of the stack slot `base + index`.
fn fetch(vm: &mut VM, width: usize, base: usize, index: usize) -> (r: Result<(), RuntimeError>)
    requires
        width <= 16,
    ensures
        agrees(old(vm)@.fetch(width as int, base + index), old(vm)@, final(vm)@, r),
{
    let pc = vm.check(width)?;
    let len = vm.state.stack.len();
    if base >= len || index >= len - base {
        return Err(RuntimeError::StackUnderflow);
    }
    let v = vm.state.stack[base + index].clone();
    vm.state.pc = (pc + width) as isize;
    vm.state.stack.push(v);
    Ok(())
}

/// Moves the program counter over an instruction of `width` bytes, pops a
/// value and stores it in the stack slot `base + index`.
fn store(vm: &mut VM, width: usize, base: usize, index: usize) -> (r: Result<(), RuntimeError>)
    requires
        width <= 16,
    ensures
        agrees(old(vm)@.store(width as int, base + index), old(vm)@, final(vm)@, r),
{
    let pc = vm.check(width)?;
    let len = vm.state.stack.len();
    if len == 0 || base >= len - 1 || index >= len - 1 - base {
        return Err(RuntimeError::StackUnderflow);
    }
    match vm.state.stack.pop() {
        Some(v) => {
            vm.state.stack[base + index] = v;
        },
        None => {},
    }
    vm.state.pc = (pc + width) as isize;
    Ok(())
}

/// `create_context k`: decodes its operand and moves on.
pub fn create_context(vm: &mut VM) -> (r: Result<(), RuntimeError>)
    ensures
        agrees(old(vm)@.pass(5), old(vm)@, final(vm)@, r),
{
    pass(vm, 5)
}

/// `get_global`: decodes its operand and moves on.
pub fn get_global(vm: &mut VM) -> (r: Result<(), RuntimeError>)
    ensures
        agrees(old(vm)@.pass(5), old(vm)@, final(vm)@, r),
{
    pass(vm, 5)
}

/// `set_global`: decodes its operand and moves on.
pub fn set_global(vm: &mut VM) -> (r: Result<(), RuntimeError>)
    ensures
        agrees(old(vm)@.pass(5), old(vm)@, final(vm)@, r),
{
    pass(vm, 5)
}

/// `land`: moves on.
pub fn land(vm: &mut VM) -> (r: Result<(), RuntimeError>)
    ensures
        agrees(old(vm)@.pass(1), old(vm)@, final(vm)@, r),
{
    pass(vm, 1)
}

/// `lor`: moves on.
pub fn lor(vm: &mut VM) -> (r: Result<(), RuntimeError>)
    ensures
        agrees(old(vm)@.pass(1), old(vm)@, final(vm)@, r),
{
    pass(vm, 1)
}

/// `push_int8`: pushes the operand byte as a number.
pub fn push_int8(vm: &mut VM) -> (r: Result<(), RuntimeError>)
    ensures
        agrees(old(vm)@.push_int8(), old(vm)@, final(vm)@, r),
{
    let pc = vm.check(2)?;
    let n = vm.insts[pc + 1];
    produce(vm, 2, Value::Number(encode_nat(n as u64)))
}

/// `push_int32`: pushes the signed 32-bit operand as a number.
pub fn push_int32(vm: &mut VM) -> (r: Result<(), RuntimeError>)
    ensures
        agrees(old(vm)@.push_int32(), old(vm)@, final(vm)@, r),
{
    let pc = vm.check(5)?;
    let n = read_i32(&vm.insts, pc + 1);
    produce(vm, 5, Value::Number(encode_i32(n)))
}

/// `push_false`
pub fn push_false(vm: &mut VM) -> (r: Result<(), RuntimeError>)
    ensures
        agrees(old(vm)@.produce(1, Value::Bool(false)), old(vm)@, final(vm)@, r),
{
    produce(vm, 1, Value::Bool(false))
}

/// `push_true`
pub fn push_true(vm: &mut VM) -> (r: Result<(), RuntimeError>)
    ensures
        agrees(old(vm)@.produce(1, Value::Bool(true)), old(vm)@, final(vm)@, r),
{
    produce(vm, 1, Value::Bool(true))
}

/// `push_arguments`: pushes the sentinel for the arguments of the current call.
pub fn push_arguments(vm: &mut VM) -> (r: Result<(), RuntimeError>)
    ensures
        agrees(old(vm)@.produce(1, Value::Arguments), old(vm)@, final(vm)@, r),
{
    produce(vm, 1, Value::Arguments)
}

/// `push_const n`: pushes a copy of the `n`-th constant.
pub fn push_const(vm: &mut VM) -> (r: Result<(), RuntimeError>)
    ensures
        agrees(old(vm)@.push_const(), old(vm)@, final(vm)@, r),
{
    let pc = vm.check(5)?;
    let n = read_u32(&vm.insts, pc + 1) as usize;
    if n >= vm.const_table.value.len() {
        return Err(RuntimeError::BadConstant);
    }
    let v = vm.const_table.value[n].clone();
    produce(vm, 5, v)
}

/// `push_this`: pushes a copy of the slot at the base pointer.
pub fn push_this(vm: &mut VM) -> (r: Result<(), RuntimeError>)
    ensures
        agrees(old(vm)@.push_this(), old(vm)@, final(vm)@, r),
{
    let bp = vm.state.bp;
    fetch(vm, 1, bp, 0)
}

/// `get_local n`: pushes a copy of the `n`-th local.
pub fn get_local(vm: &mut VM) -> (r: Result<(), RuntimeError>)
    ensures
        agrees(old(vm)@.get_local(), old(vm)@, final(vm)@, r),
{
    let pc = vm.check(5)?;
    let n = read_u32(&vm.insts, pc + 1) as usize;
    let lp = vm.state.lp;
    fetch(vm, 5, lp, n)
}

/// `set_local n`: pops a value into the `n`-th local.
pub fn set_local(vm: &mut VM) -> (r: Result<(), RuntimeError>)
    ensures
        agrees(old(vm)@.set_local(), old(vm)@, final(vm)@, r),
{
    let pc = vm.check(5)?;
    let n = read_u32(&vm.insts, pc + 1) as usize;
    let lp = vm.state.lp;
    store(vm, 5, lp, n)
}

/// `get_arg_local n`: pushes a copy of the `n`-th argument.
pub fn get_arg_local(vm: &mut VM) -> (r: Result<(), RuntimeError>)
    ensures
        agrees(old(vm)@.get_arg_local(), old(vm)@, final(vm)@, r),
{
    let pc = vm.check(5)?;
    let n = read_u32(&vm.insts, pc + 1) as usize;
    let bp = vm.state.bp;
    fetch(vm, 5, bp, n)
}

/// `set_arg_local n`: pops a value into the `n`-th argument.
pub fn set_arg_local(vm: &mut VM) -> (r: Result<(), RuntimeError>)
    ensures
        agrees(old(vm)@.set_arg_local(), old(vm)@, final(vm)@, r),
{
    let pc = vm.check(5)?;
    let n = read_u32(&vm.insts, pc + 1) as usize;
    let bp = vm.state.bp;
    store(vm, 5, bp, n)
}

/// `double`: pushes a copy of the top of the stack.
pub fn double(vm: &mut VM) -> (r: Result<(), RuntimeError>)
    ensures
        agrees(old(vm)@.double(), old(vm)@, final(vm)@, r),
{
    vm.check(1)?;
    let len = vm.state.stack.len();
    if len == 0 {
        return Err(RuntimeError::StackUnderflow);
    }
    fetch(vm, 1, len - 1, 0)
}

/// `pop`: takes the top off the stack.
pub fn pop(vm: &mut VM) -> (r: Result<(), RuntimeError>)
    ensures
        agrees(old(vm)@.pop(), old(vm)@, final(vm)@, r),
{
    let pc = vm.check(1)?;
    if vm.state.stack.len() == 0 {
        return Err(RuntimeError::StackUnderflow);
    }
    vm.state.pc = (pc + 1) as isize;
    vm.state.stack.pop();
    Ok(())
}

/// `jmp off`
pub fn jmp(vm: &mut VM) -> (r: Result<(), RuntimeError>)
    ensures
        agrees(old(vm)@.jmp(), old(vm)@, final(vm)@, r),
{
    let pc = vm.check(5)?;
    let off = read_i32(&vm.insts, pc + 1);
    let base = (pc + 5) as isize;
    match base.checked_add(off as isize) {
        Some(target) => {
            if off < 0 {
                vm.loop_bgn_end.insert(target, base);
            }
            vm.state.pc = target;
            Ok(())
        },
        None => Err(RuntimeError::OutOfRange),
    }
}

/// `jmp_if_false off`
pub fn jmp_if_false(vm: &mut VM) -> (r: Result<(), RuntimeError>)
    ensures
        agrees(old(vm)@.jmp_if_false(), old(vm)@, final(vm)@, r),
{
    let pc = vm.check(5)?;
    let off = read_i32(&vm.insts, pc + 1);
    let base = (pc + 5) as isize;
    match vm.state.stack.pop() {
        None => Err(RuntimeError::StackUnderflow),
        Some(Value::Bool(false)) => {
            match base.checked_add(off as isize) {
                Some(target) => {
                    vm.state.pc = target;
                    Ok(())
                },
                None => Err(RuntimeError::OutOfRange),
            }
        },
        Some(_) => {
            vm.state.pc = base;
            Ok(())
        },
    }
}

} // verus!
