//! `Function.prototype.call`, `Function.prototype.apply` and the `Function`
//! constructor.

use crate::call::{bind_parameters, bindings, least};
use crate::value::{Activation, HeapModel, RuntimeError, Value};
use crate::vm::{agrees_step, Frame, FrameKind, Machine, Signal, Step, VM};
use vstd::prelude::*;
use vstd::string::*;

verus! {

/// The object that `v` names, where a call can have it as `this`.
pub open spec fn receiver_object(v: Value) -> Option<usize> {
    match v {
        Value::Object(obj) => Some(obj),
        _ => None,
    }
}

impl Machine {
    /// The machine on entry to the user function whose code starts at `dst`
    /// and whose captured record is the one at `frame`, called by the host
    /// with the arguments `args` and the receiver `this`. The function gets
    /// a record of its own, as in a `call`; a return continues at the
    /// program counter.
    pub open spec fn invoke(self, dst: usize, frame: usize, args: Seq<Value>, this: Value) -> Machine {
        let template = self.heap.callobjs[frame as int];
        Machine {
            scope: self.scope.push(self.heap.callobjs.len() as usize),
            pc: dst as isize,
            history: self.history.push(
                Frame {
                    bp: 0,
                    lp: 0,
                    sp: self.stack.len() as usize,
                    return_pc: self.pc,
                    kind: FrameKind::Call,
                },
            ),
            heap: HeapModel {
                objects: self.heap.objects.push(
                    bindings(
                        template.param_names,
                        args,
                        least(template.param_names.len(), args.len()),
                    ),
                ),
                callobjs: self.heap.callobjs.push(
                    Activation {
                        vals: self.heap.objects.len() as usize,
                        this: match receiver_object(this) {
                            Some(obj) => Some(obj),
                            None => template.this,
                        },
                        ..template
                    },
                ),
                ..self.heap
            },
            ..self
        }
    }

    /// The host calls `callee` with the receiver `this` and the arguments
    /// `args`: for a host function the driver is asked to run it on the
    /// receiver and the arguments; a user function is entered; for anything
    /// else the absent value is pushed.
    pub open spec fn apply(self, callee: Value, this: Value, args: Seq<Value>) -> Result<
        (Machine, Signal),
        RuntimeError,
    > {
        match callee {
            Value::BuiltinFunction(id) => Ok((self, Signal::Builtin(id, seq![this] + args))),
            Value::Function(dst, _, frame) => if frame >= self.heap.callobjs.len() {
                Err(RuntimeError::BadReference)
            } else if dst > isize::MAX {
                Err(RuntimeError::OutOfRange)
            } else {
                Ok((self.invoke(dst, frame, args, this), Signal::Continue))
            },
            _ => Ok((self.push(Value::Undefined), Signal::Continue)),
        }
    }

    /// The values that `list` spreads into: the elements of an array up to
    /// its declared length, the arguments of the current call, and nothing
    /// for anything else.
    pub open spec fn spread(self, list: Value) -> Seq<Value> {
        match list {
            Value::Array(arr) => if arr < self.heap.arrays.len() {
                Seq::new(
                    self.heap.arrays[arr as int].length as nat,
                    |i: int| self.heap.arrays[arr as int].get(i as usize),
                )
            } else {
                Seq::empty()
            },
            Value::Arguments => if self.bp <= self.lp <= self.stack.len() {
                self.stack.subrange(self.bp as int, self.lp as int)
            } else {
                Seq::empty()
            },
            _ => Seq::empty(),
        }
    }
}

/// The `Function` constructor. It is not implemented: every call fails.
pub fn function_new(vm: &mut VM, args: &Vec<Value>) -> (r: Result<Step, RuntimeError>)
    ensures
        r == Err::<Step, RuntimeError>(RuntimeError::Unimplemented),
        *final(vm) == *old(vm),
{
    Err(RuntimeError::Unimplemented)
}

/// Calls `callee` with the receiver `this` and the arguments `args`.
pub fn call_function(vm: &mut VM, callee: &Value, this: Value, args: Vec<Value>) -> (r: Result<
    Step,
    RuntimeError,
>)
    ensures
        agrees_step(old(vm)@.apply(*callee, this, args@), old(vm)@, final(vm)@, r),
{
    match callee {
        Value::BuiltinFunction(id) => {
            let mut all: Vec<Value> = Vec::new();
            all.push(this);
            let mut args = args;
            all.append(&mut args);
            Ok(Step::Builtin(*id, all))
        },
        Value::Function(dst, _, frame) => {
            if *frame >= vm.heap.callobjs.len() {
                return Err(RuntimeError::BadReference);
            }
            if *dst > isize::MAX as usize {
                return Err(RuntimeError::OutOfRange);
            }
            let mut record = vm.heap.callobjs[*frame].copy();
            let map = bind_parameters(&record.param_names, &args);
            match this {
                Value::Object(obj) => {
                    record.this = Some(obj);
                },
                _ => {},
            }
            record.vals = vm.heap.new_object(map);
            let entered = vm.heap.new_callobj(record);
            vm.state.scope.push(entered);
            vm.state.history.push(
                Frame {
                    bp: 0,
                    lp: 0,
                    sp: vm.state.stack.len(),
                    return_pc: vm.state.pc,
                    kind: FrameKind::Call,
                },
            );
            vm.state.pc = *dst as isize;
            Ok(Step::Continue)
        },
        _ => {
            vm.state.stack.push(Value::Undefined);
            Ok(Step::Continue)
        },
    }
}

/// The values that `list` spreads into.
pub fn spread(vm: &VM, list: &Value) -> (r: Vec<Value>)
    ensures
        r@ == vm@.spread(*list),
{
    let mut elems: Vec<Value> = Vec::new();
    match list {
        Value::Array(arr) => {
            if *arr < vm.heap.arrays.len() {
                let array = &vm.heap.arrays[*arr];
                let mut i: usize = 0;
                while i < array.length
                    invariant
                        i <= array.length,
                        elems@ == Seq::new(i as nat, |k: int| array@.get(k as usize)),
                    decreases array.length - i,
                {
                    let v = if i < array.elems.len() {
                        array.elems[i].clone()
                    } else {
                        Value::Undefined
                    };
                    elems.push(v);
                    assert(elems@ =~= Seq::new((i + 1) as nat, |k: int| array@.get(k as usize)));
                    i = i + 1;
                }
                assert(elems@ =~= vm@.spread(*list));
            } else {
                assert(elems@ =~= vm@.spread(*list));
            }
        },
        Value::Arguments => {
            let bp = vm.state.bp;
            let lp = vm.state.lp;
            if bp <= lp && lp <= vm.state.stack.len() {
                let mut i: usize = bp;
                while i < lp
                    invariant
                        bp <= i <= lp <= vm@.stack.len(),
                        elems@ == vm@.stack.subrange(bp as int, i as int),
                    decreases lp - i,
                {
                    elems.push(vm.state.stack[i].clone());
                    assert(elems@ =~= vm@.stack.subrange(bp as int, i + 1));
                    i = i + 1;
                }
            } else {
                assert(elems@ =~= vm@.spread(*list));
            }
        },
        _ => {
            assert(elems@ =~= vm@.spread(*list));
        },
    }
    elems
}

/// `Function.prototype.apply`: calls `callee` with the receiver `args[0]` and
/// the values that `args[1]` spreads into. Fails where one of the two is
/// missing.
pub fn function_prototype_apply(vm: &mut VM, callee: &Value, args: &Vec<Value>) -> (r: Result<
    Step,
    RuntimeError,
>)
    ensures
        args@.len() < 2 ==> r == Err::<Step, RuntimeError>(RuntimeError::TypeError),
        args@.len() >= 2 ==> agrees_step(
            old(vm)@.apply(*callee, args@[0], old(vm)@.spread(args@[1])),
            old(vm)@,
            final(vm)@,
            r,
        ),
{
    if args.len() < 2 {
        return Err(RuntimeError::TypeError);
    }
    let elems = spread(vm, &args[1]);
    call_function(vm, callee, args[0].clone(), elems)
}

/// `Function.prototype.call`: calls `callee` with the receiver `args[0]` and
/// the arguments that follow it. Fails where there is no receiver.
pub fn function_prototype_call(vm: &mut VM, callee: &Value, args: &Vec<Value>) -> (r: Result<
    Step,
    RuntimeError,
>)
    ensures
        args@.len() < 1 ==> r == Err::<Step, RuntimeError>(RuntimeError::TypeError),
        args@.len() >= 1 ==> agrees_step(
            old(vm)@.apply(*callee, args@[0], args@.subrange(1, args@.len() as int)),
            old(vm)@,
            final(vm)@,
            r,
        ),
{
    if args.len() < 1 {
        return Err(RuntimeError::TypeError);
    }
    let mut rest: Vec<Value> = Vec::new();
    let mut i: usize = 1;
    while i < args.len()
        invariant
            1 <= i <= args@.len(),
            rest@ == args@.subrange(1, i as int),
        decreases args@.len() - i,
    {
        rest.push(args[i].clone());
        assert(rest@ =~= args@.subrange(1, i + 1));
        i = i + 1;
    }
    call_function(vm, callee, args[0].clone(), rest)
}

} // verus!
