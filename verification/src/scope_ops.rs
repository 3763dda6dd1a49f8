//! The instructions that work on the activation records: lookup, assignment
//! and declaration of names, and the capture of the defining record by a
//! function value.

use crate::bytecode_gen::read_u32;
use crate::value::{Activation, HeapModel, RuntimeError, Value};
use crate::vm::{agrees, Machine, VM};
use vstd::prelude::*;
use vstd::string::*;

verus! {

impl Machine {
    /// The activation record of the innermost call in progress.
    pub open spec fn frame(self) -> Option<Activation> {
        if self.scope.len() > 0 && self.scope.last() < self.heap.callobjs.len() {
            Some(self.heap.callobjs[self.scope.last() as int])
        } else {
            None
        }
    }

    /// `get_name id`: pushes the value that the `id`-th name is bound to in
    /// the innermost record of the chain that binds it.
    pub open spec fn get_name(self) -> Result<Machine, RuntimeError> {
        let id = self.operand(1);
        if !self.fits(5) {
            Err(RuntimeError::BadProgramCounter)
        } else if id >= self.strings.len() {
            Err(RuntimeError::BadConstant)
        } else if self.frame() is None {
            Err(RuntimeError::BadReference)
        } else {
            match self.heap.binding_of(
                self.frame()->Some_0,
                self.strings[id],
                self.heap.callobjs.len(),
            ) {
                Some(obj) => Ok(self.skip(5).push(self.heap.objects[obj as int][self.strings[id]])),
                None => Err(RuntimeError::UnboundName),
            }
        }
    }

    /// `set_name id`: pops a value and assigns it to the `id`-th name in the
    /// innermost record of the chain that binds it, or in the root of the
    /// chain if none does.
    pub open spec fn set_name(self) -> Result<Machine, RuntimeError> {
        let id = self.operand(1);
        if !self.fits(5) {
            Err(RuntimeError::BadProgramCounter)
        } else if id >= self.strings.len() {
            Err(RuntimeError::BadConstant)
        } else if self.stack.len() == 0 {
            Err(RuntimeError::StackUnderflow)
        } else if self.frame() is None {
            Err(RuntimeError::BadReference)
        } else {
            match self.heap.assign_target(
                self.frame()->Some_0,
                self.strings[id],
                self.heap.callobjs.len(),
            ) {
                Some(obj) => Ok(
                    Machine {
                        heap: self.heap.set_property(obj, self.strings[id], self.stack.last()),
                        ..self.skip(5).drop()
                    },
                ),
                None => Err(RuntimeError::BadReference),
            }
        }
    }

    /// `decl_var id`: pops a value and binds the `id`-th name to it in the
    /// innermost record.
    pub open spec fn decl_var(self) -> Result<Machine, RuntimeError> {
        let id = self.operand(1);
        if !self.fits(5) {
            Err(RuntimeError::BadProgramCounter)
        } else if id >= self.strings.len() {
            Err(RuntimeError::BadConstant)
        } else if self.stack.len() == 0 {
            Err(RuntimeError::StackUnderflow)
        } else if self.frame() is None || self.frame()->Some_0.vals >= self.heap.objects.len() {
            Err(RuntimeError::BadReference)
        } else {
            Ok(
                Machine {
                    heap: self.heap.set_property(
                        self.frame()->Some_0.vals,
                        self.strings[id],
                        self.stack.last(),
                    ),
                    ..self.skip(5).drop()
                },
            )
        }
    }

    /// `set_cur_callobj`: the function value on top of the stack captures the
    /// innermost record as its parent. The function gets a record of its own
    /// for that, a copy of the one it had; other holders of the old record do
    /// not see the change. Any other top of the stack is left alone.
    pub open spec fn set_cur_callobj(self) -> Result<Machine, RuntimeError> {
        if !self.fits(1) {
            Err(RuntimeError::BadProgramCounter)
        } else if self.stack.len() > 0 && self.stack.last() is Function {
            let frame = self.stack.last()->Function_2;
            if self.scope.len() == 0 || frame >= self.heap.callobjs.len() {
                Err(RuntimeError::BadReference)
            } else {
                Ok(
                    Machine {
                        stack: self.stack.drop_last().push(
                            Value::Function(
                                self.stack.last()->Function_0,
                                self.stack.last()->Function_1,
                                self.heap.callobjs.len() as usize,
                            ),
                        ),
                        heap: HeapModel {
                            callobjs: self.heap.callobjs.push(
                                Activation {
                                    parent: Some(self.scope.last()),
                                    ..self.heap.callobjs[frame as int]
                                },
                            ),
                            ..self.heap
                        },
                        ..self.skip(1)
                    },
                )
            }
        } else {
            Ok(self.skip(1))
        }
    }
}

/// The name that the operand of the instruction at `pc` names.
fn name_operand(vm: &VM, pc: usize) -> (r: Result<String, RuntimeError>)
    requires
        vm@.fits(5),
        pc == vm@.pc,
    ensures
        vm@.operand(1) >= vm@.strings.len() ==> r == Err::<String, RuntimeError>(
            RuntimeError::BadConstant,
        ),
        vm@.operand(1) < vm@.strings.len() ==> r is Ok && r->Ok_0@ == vm@.strings[vm@.operand(1)],
{
    let id = read_u32(&vm.insts, pc + 1) as usize;
    if id >= vm.const_table.string.len() {
        return Err(RuntimeError::BadConstant);
    }
    Ok(vm.const_table.string[id].clone())
}

/// The index of the activation record of the innermost call in progress.
fn current_frame(vm: &VM) -> (r: Result<usize, RuntimeError>)
    ensures
        vm@.frame() is None ==> r == Err::<usize, RuntimeError>(RuntimeError::BadReference),
        vm@.frame() is Some ==> r == Ok::<usize, RuntimeError>(vm@.scope.last()) && vm@.scope.last()
            < vm.heap.callobjs@.len() && vm.heap.callobjs@[vm@.scope.last() as int]@
            == vm@.frame()->Some_0,
{
    let n = vm.state.scope.len();
    if n == 0 {
        return Err(RuntimeError::BadReference);
    }
    let frame = vm.state.scope[n - 1];
    if frame >= vm.heap.callobjs.len() {
        return Err(RuntimeError::BadReference);
    }
    Ok(frame)
}

/// `get_name id`
pub fn get_name(vm: &mut VM) -> (r: Result<(), RuntimeError>)
    ensures
        agrees(old(vm)@.get_name(), old(vm)@, final(vm)@, r),
{
    let pc = vm.check(5)?;
    let name = name_operand(vm, pc)?;
    let frame = current_frame(vm)?;
    let val = vm.heap.callobjs[frame].get_value(&vm.heap, &name)?;
    vm.state.pc = (pc + 5) as isize;
    vm.state.stack.push(val);
    Ok(())
}

/// `set_name id`
pub fn set_name(vm: &mut VM) -> (r: Result<(), RuntimeError>)
    ensures
        agrees(old(vm)@.set_name(), old(vm)@, final(vm)@, r),
{
    let pc = vm.check(5)?;
    let name = name_operand(vm, pc)?;
    if vm.state.stack.len() == 0 {
        return Err(RuntimeError::StackUnderflow);
    }
    let frame = current_frame(vm)?;
    let record = vm.heap.callobjs[frame].copy();
    match vm.state.stack.pop() {
        Some(val) => {
            record.set_value_if_exist(&mut vm.heap, name, val)?;
            vm.state.pc = (pc + 5) as isize;
            Ok(())
        },
        None => Err(RuntimeError::StackUnderflow),
    }
}

/// `decl_var id`
pub fn decl_var(vm: &mut VM) -> (r: Result<(), RuntimeError>)
    ensures
        agrees(old(vm)@.decl_var(), old(vm)@, final(vm)@, r),
{
    let pc = vm.check(5)?;
    let name = name_operand(vm, pc)?;
    if vm.state.stack.len() == 0 {
        return Err(RuntimeError::StackUnderflow);
    }
    let frame = current_frame(vm)?;
    let vals = vm.heap.callobjs[frame].vals;
    if vals >= vm.heap.objects.len() {
        return Err(RuntimeError::BadReference);
    }
    match vm.state.stack.pop() {
        Some(val) => {
            vm.heap.set_property(vals, name, val);
            vm.state.pc = (pc + 5) as isize;
            Ok(())
        },
        None => Err(RuntimeError::StackUnderflow),
    }
}

/// `set_cur_callobj`
pub fn set_cur_callobj(vm: &mut VM) -> (r: Result<(), RuntimeError>)
    ensures
        agrees(old(vm)@.set_cur_callobj(), old(vm)@, final(vm)@, r),
{
    let pc = vm.check(1)?;
    let len = vm.state.stack.len();
    if len > 0 {
        match &vm.state.stack[len - 1] {
            Value::Function(entry, obj, frame) => {
                let entry = *entry;
                let obj = *obj;
                let frame = *frame;
                let depth = vm.state.scope.len();
                if depth == 0 || frame >= vm.heap.callobjs.len() {
                    return Err(RuntimeError::BadReference);
                }
                let mut record = vm.heap.callobjs[frame].copy();
                record.parent = Some(vm.state.scope[depth - 1]);
                let captured = vm.heap.new_callobj(record);
                vm.state.stack[len - 1] = Value::Function(entry, obj, captured);
                assert(vm@.stack =~= old(vm)@.stack.drop_last().push(
                    Value::Function(entry, obj, captured),
                ));
            },
            _ => {},
        }
    }
    vm.state.pc = (pc + 1) as isize;
    Ok(())
}

} // verus!
