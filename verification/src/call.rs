//! The instructions that make objects and arrays, and those that call,
//! construct and return.

use crate::bytecode_gen::read_u32;
use crate::value::{
    array_prototype, texts, Activation, ArrayModel, ArrayValue, HeapModel, RuntimeError, Value,
};
use crate::vm::{agrees, agrees_step, Frame, FrameKind, Machine, Signal, Step, VM};
use vstd::hash_map::StringHashMap;
use vstd::prelude::*;
use vstd::string::*;

verus! {

/// The callable inside the wrappers `NeedThis` and `WithThis`.
pub open spec fn callee_of(v: Value) -> Value
    decreases v,
{
    match v {
        Value::NeedThis(callee) => callee_of(*callee),
        Value::WithThis(callee, _) => callee_of(*callee),
        _ => v,
    }
}

/// The receiver that the wrappers around a callable carry: that of the
/// innermost `WithThis`.
pub open spec fn receiver_of(v: Value) -> Option<Value>
    decreases v,
{
    match v {
        Value::NeedThis(callee) => receiver_of(*callee),
        Value::WithThis(callee, this) => match receiver_of(*callee) {
            Some(inner) => Some(inner),
            None => Some(*this),
        },
        _ => None,
    }
}

/// The bindings of the first `n` of the parameters `params` to the arguments
/// `args`, each parameter to the argument at its position.
pub open spec fn bindings(params: Seq<Seq<char>>, args: Seq<Value>, n: nat) -> Map<
    Seq<char>,
    Value,
>
    decreases n,
{
    if n == 0 || n > params.len() || n > args.len() {
        Map::empty()
    } else {
        bindings(params, args, (n - 1) as nat).insert(params[n - 1], args[n - 1])
    }
}

/// The smaller of two lengths.
pub open spec fn least(a: nat, b: nat) -> nat {
    if a <= b {
        a
    } else {
        b
    }
}

/// The object that the topmost `n` pairs of a name and, under it, a value
/// on `stack` describe; pairs nearer to the top are entered first.
pub open spec fn gathered(heap: HeapModel, stack: Seq<Value>, n: nat) -> Result<
    Map<Seq<char>, Value>,
    RuntimeError,
>
    decreases n,
{
    if n == 0 {
        Ok(Map::empty())
    } else {
        match gathered(heap, stack, (n - 1) as nat) {
            Err(e) => Err(e),
            Ok(m) => match stack[stack.len() - 2 * n + 1] {
                Value::String(s) => if s < heap.strings.len() {
                    Ok(m.insert(heap.strings[s as int], stack[stack.len() - 2 * n]))
                } else {
                    Err(RuntimeError::BadReference)
                },
                _ => Err(RuntimeError::TypeError),
            },
        }
    }
}

impl HeapModel {
    /// The heap after an array of the elements `elems` was made: its
    /// prototype is added to the objects and the array to the arrays.
    pub open spec fn with_array(self, elems: Seq<Value>) -> HeapModel {
        HeapModel {
            objects: self.objects.push(array_prototype()),
            arrays: self.arrays.push(
                ArrayModel {
                    elems: elems,
                    length: elems.len() as usize,
                    obj: Map::<Seq<char>, Value>::empty().insert(
                        "__proto__"@,
                        Value::Object(self.objects.len() as usize),
                    ),
                },
            ),
            ..self
        }
    }
}

impl Machine {
    /// `create_object k`: takes `k` pairs of a name and, under it, a value
    /// off the stack and pushes a new object with these members.
    pub open spec fn create_object(self) -> Result<Machine, RuntimeError> {
        let k = self.operand(1);
        if !self.fits(5) {
            Err(RuntimeError::BadProgramCounter)
        } else if 2 * k > self.stack.len() {
            Err(RuntimeError::StackUnderflow)
        } else {
            match gathered(self.heap, self.stack, k as nat) {
                Err(e) => Err(e),
                Ok(m) => Ok(
                    Machine {
                        stack: self.stack.take(self.stack.len() - 2 * k).push(
                            Value::Object(self.heap.objects.len() as usize),
                        ),
                        heap: HeapModel { objects: self.heap.objects.push(m), ..self.heap },
                        ..self.skip(5)
                    },
                ),
            }
        }
    }

    /// `create_array k`: takes `k` values off the stack and pushes a new
    /// array of them, the topmost as element 0.
    pub open spec fn create_array(self) -> Result<Machine, RuntimeError> {
        let k = self.operand(1);
        let len = self.stack.len() as int;
        if !self.fits(5) {
            Err(RuntimeError::BadProgramCounter)
        } else if k > len {
            Err(RuntimeError::StackUnderflow)
        } else {
            Ok(
                Machine {
                    stack: self.stack.take(len - k).push(
                        Value::Array(self.heap.arrays.len() as usize),
                    ),
                    heap: self.heap.with_array(Seq::new(k as nat, |j: int| self.stack[len - 1 - j])),
                    ..self.skip(5)
                },
            )
        }
    }

    /// `assign_func_rest_param n dst`: the arguments of the current call from
    /// the `n`-th on become a new array, which is stored in the local `dst`.
    pub open spec fn assign_func_rest_param(self) -> Result<Machine, RuntimeError> {
        let first = self.bp + self.operand(1);
        let slot = self.lp + self.operand(5);
        if !self.fits(9) {
            Err(RuntimeError::BadProgramCounter)
        } else if self.lp < self.bp {
            Err(RuntimeError::OutOfRange)
        } else if (first < self.lp && self.lp > self.stack.len()) || slot >= self.stack.len() {
            Err(RuntimeError::StackUnderflow)
        } else {
            Ok(
                Machine {
                    stack: self.stack.update(slot, Value::Array(self.heap.arrays.len() as usize)),
                    heap: self.heap.with_array(
                        if first < self.lp {
                            self.stack.subrange(first, self.lp as int)
                        } else {
                            Seq::empty()
                        },
                    ),
                    ..self.skip(9)
                },
            )
        }
    }

    /// The machine on entry to the user function whose code starts at `dst`
    /// and whose captured record is the one at `frame`, called with the
    /// topmost `argc` values under the callee as arguments.
    ///
    /// The callee and the arguments are taken off the stack. The function
    /// gets a record of its own, a copy of the captured one with fresh
    /// bindings, in which each parameter that has an argument is bound to it,
    /// and with the given `this` if there is one. Where `made` is given, it
    /// is the object that a construction made, which is added to the heap
    /// first.
    pub open spec fn enter(
        self,
        dst: usize,
        frame: usize,
        argc: int,
        made: Option<Map<Seq<char>, Value>>,
    ) -> Machine {
        let below = self.stack.take(self.stack.len() - 1 - argc);
        let args = self.stack.subrange(self.stack.len() - 1 - argc, self.stack.len() - 1);
        let template = self.heap.callobjs[frame as int];
        let objects = match made {
            Some(m) => self.heap.objects.push(m),
            None => self.heap.objects,
        };
        Machine {
            stack: below,
            scope: self.scope.push(self.heap.callobjs.len() as usize),
            pc: dst as isize,
            history: self.history.push(
                Frame {
                    bp: 0,
                    lp: 0,
                    sp: below.len() as usize,
                    return_pc: (self.pc + 5) as isize,
                    kind: match made {
                        Some(_) => FrameKind::Construct(self.heap.objects.len() as usize),
                        None => FrameKind::Call,
                    },
                },
            ),
            heap: HeapModel {
                objects: objects.push(
                    bindings(
                        template.param_names,
                        args,
                        least(template.param_names.len(), args.len()),
                    ),
                ),
                callobjs: self.heap.callobjs.push(
                    Activation {
                        vals: objects.len() as usize,
                        this: match made {
                            Some(_) => Some(self.heap.objects.len() as usize),
                            None => template.this,
                        },
                        ..template
                    },
                ),
                ..self.heap
            },
            ..self
        }
    }

    /// `call argc`: calls the callee on top of the stack with the `argc`
    /// values under it. For a host function the driver is asked to run it on
    /// the arguments, in the order in which they were pushed, after the
    /// receiver if the callee carries one. A user function is entered.
    pub open spec fn call(self) -> Result<(Machine, Signal), RuntimeError> {
        let argc = self.operand(1);
        let len = self.stack.len() as int;
        if !self.fits(5) {
            Err(RuntimeError::BadProgramCounter)
        } else if len == 0 || argc > len - 1 {
            Err(RuntimeError::StackUnderflow)
        } else {
            let args = self.stack.subrange(len - 1 - argc, len - 1);
            match callee_of(self.stack.last()) {
                Value::BuiltinFunction(id) => Ok(
                    (
                        Machine { stack: self.stack.take(len - 1 - argc), ..self.skip(5) },
                        Signal::Builtin(
                            id,
                            match receiver_of(self.stack.last()) {
                                Some(this) => seq![this] + args,
                                None => args,
                            },
                        ),
                    ),
                ),
                Value::Function(dst, _, frame) => if frame >= self.heap.callobjs.len() {
                    Err(RuntimeError::BadReference)
                } else if dst > isize::MAX {
                    Err(RuntimeError::OutOfRange)
                } else {
                    Ok((self.enter(dst, frame, argc, None), Signal::Continue))
                },
                _ => Err(RuntimeError::NotCallable),
            }
        }
    }

    /// `construct argc`: enters the user function on top of the stack as a
    /// constructor. A new object is made for it, whose `__proto__` is the
    /// member `prototype` of the function's own object, or absent if there
    /// is none, and which is the `this` of the call.
    pub open spec fn construct(self) -> Result<(Machine, Signal), RuntimeError> {
        let argc = self.operand(1);
        let len = self.stack.len() as int;
        if !self.fits(5) {
            Err(RuntimeError::BadProgramCounter)
        } else if len == 0 || argc > len - 1 {
            Err(RuntimeError::StackUnderflow)
        } else {
            match callee_of(self.stack.last()) {
                Value::Function(dst, obj, frame) => if frame >= self.heap.callobjs.len() || obj
                    >= self.heap.objects.len() {
                    Err(RuntimeError::BadReference)
                } else if dst > isize::MAX {
                    Err(RuntimeError::OutOfRange)
                } else {
                    Ok(
                        (
                            self.enter(
                                dst,
                                frame,
                                argc,
                                Some(
                                    Map::<Seq<char>, Value>::empty().insert(
                                        "__proto__"@,
                                        if self.heap.objects[obj as int].contains_key(
                                            "prototype"@,
                                        ) {
                                            self.heap.objects[obj as int]["prototype"@]
                                        } else {
                                            Value::Undefined
                                        },
                                    ),
                                ),
                            ),
                            Signal::Continue,
                        ),
                    )
                },
                _ => Err(RuntimeError::NotCallable),
            }
        }
    }

    /// `return`: leaves the current call. The stack is cut down to the
    /// height it had on entry, under the returned value; the program
    /// continues after the call. A return from the program itself ends the
    /// run. A return from a construction whose result is no object, array or
    /// function gives the object that was made for it.
    pub open spec fn return_(self) -> Result<(Machine, Signal), RuntimeError> {
        let len = self.stack.len() as int;
        if self.history.len() == 0 || len == 0 || self.history.last().sp > len - 1 {
            Err(RuntimeError::StackUnderflow)
        } else {
            let frame = self.history.last();
            let back = Machine {
                stack: self.stack.take(frame.sp as int).push(self.stack.last()),
                pc: frame.return_pc,
                history: self.history.drop_last(),
                ..self
            };
            match frame.kind {
                FrameKind::Toplevel => Ok((back, Signal::Finished)),
                FrameKind::Call => if self.scope.len() == 0 {
                    Err(RuntimeError::BadReference)
                } else {
                    Ok((Machine { scope: self.scope.drop_last(), ..back }, Signal::Continue))
                },
                FrameKind::Construct(made) => if self.scope.len() == 0 {
                    Err(RuntimeError::BadReference)
                } else {
                    Ok(
                        (
                            Machine {
                                scope: self.scope.drop_last(),
                                stack: self.stack.take(frame.sp as int).push(
                                    constructed(self.stack.last(), made),
                                ),
                                ..back
                            },
                            Signal::Continue,
                        ),
                    )
                },
            }
        }
    }
}

/// The result of a construction that made the object at `made` and whose
/// constructor returned `returned`.
pub open spec fn constructed(returned: Value, made: usize) -> Value {
    match returned {
        Value::Object(_) => returned,
        Value::Array(_) => returned,
        Value::Function(_, _, _) => returned,
        Value::BuiltinFunction(_) => returned,
        _ => Value::Object(made),
    }
}

/// Takes the wrappers off a callable: the callable and the receiver that
/// the wrappers carry.
pub fn unwrap_callee(v: Value) -> (r: (Value, Option<Value>))
    ensures
        r.0 == callee_of(v),
        r.1 == receiver_of(v),
    decreases v,
{
    match v {
        Value::NeedThis(callee) => unwrap_callee(*callee),
        Value::WithThis(callee, this) => {
            let (f, inner) = unwrap_callee(*callee);
            match inner {
                Some(x) => (f, Some(x)),
                None => (f, Some(*this)),
            }
        },
        other => (other, None),
    }
}

/// `create_object k`
pub fn create_object(vm: &mut VM) -> (r: Result<(), RuntimeError>)
    ensures
        agrees(old(vm)@.create_object(), old(vm)@, final(vm)@, r),
{
    let pc = vm.check(5)?;
    let k = read_u32(&vm.insts, pc + 1) as usize;
    let len = vm.state.stack.len();
    if k > len / 2 {
        return Err(RuntimeError::StackUnderflow);
    }
    let mut map: StringHashMap<Value> = StringHashMap::new();
    let mut j: usize = 0;
    while j < k
        invariant
            j <= k,
            2 * k <= len,
            len == vm.state.stack@.len(),
            *vm == *old(vm),
            vm@.fits(5),
            k == vm@.operand(1),
            gathered(vm@.heap, vm@.stack, j as nat) == Ok::<Map<Seq<char>, Value>, RuntimeError>(
                map@,
            ),
        decreases k - j,
    {
        match &vm.state.stack[len - 1 - 2 * j] {
            Value::String(s) => {
                if *s >= vm.heap.strings.len() {
                    proof {
                        lemma_gathered_fails(vm@.heap, vm@.stack, (j + 1) as nat, k as nat);
                    }
                    return Err(RuntimeError::BadReference);
                }
                let name = vm.heap.strings[*s].clone();
                map.insert(name, vm.state.stack[len - 2 - 2 * j].clone());
            },
            _ => {
                proof {
                    lemma_gathered_fails(vm@.heap, vm@.stack, (j + 1) as nat, k as nat);
                }
                return Err(RuntimeError::TypeError);
            },
        }
        j = j + 1;
    }
    let obj = vm.heap.new_object(map);
    vm.state.stack.truncate(len - 2 * k);
    vm.state.stack.push(Value::Object(obj));
    vm.state.pc = (pc + 5) as isize;
    Ok(())
}

/// An error in the gathering of members is the error of the whole.
proof fn lemma_gathered_fails(heap: HeapModel, stack: Seq<Value>, j: nat, k: nat)
    requires
        j <= k,
        gathered(heap, stack, j) is Err,
    ensures
        gathered(heap, stack, k) == gathered(heap, stack, j),
    decreases k - j,
{
    if j < k {
        lemma_gathered_fails(heap, stack, j, (k - 1) as nat);
    }
}

/// Makes a new array of the elements `elems` and returns its index.
pub fn make_array(vm: &mut VM, elems: Vec<Value>) -> (r: usize)
    ensures
        r == old(vm)@.heap.arrays.len(),
        final(vm)@ == (Machine { heap: old(vm)@.heap.with_array(elems@), ..old(vm)@ }),
{
    let array = ArrayValue::new(&mut vm.heap, elems);
    vm.heap.new_array(array)
}

/// `create_array k`
pub fn create_array(vm: &mut VM) -> (r: Result<(), RuntimeError>)
    ensures
        agrees(old(vm)@.create_array(), old(vm)@, final(vm)@, r),
{
    let pc = vm.check(5)?;
    let k = read_u32(&vm.insts, pc + 1) as usize;
    let len = vm.state.stack.len();
    if k > len {
        return Err(RuntimeError::StackUnderflow);
    }
    let mut elems: Vec<Value> = Vec::new();
    let mut j: usize = 0;
    while j < k
        invariant
            j <= k <= len,
            len == vm.state.stack@.len(),
            *vm == *old(vm),
            elems@ == Seq::new(j as nat, |i: int| vm@.stack[len - 1 - i]),
        decreases k - j,
    {
        elems.push(vm.state.stack[len - 1 - j].clone());
        assert(elems@ =~= Seq::new((j + 1) as nat, |i: int| vm@.stack[len - 1 - i]));
        j = j + 1;
    }
    let arr = make_array(vm, elems);
    vm.state.stack.truncate(len - k);
    vm.state.stack.push(Value::Array(arr));
    vm.state.pc = (pc + 5) as isize;
    Ok(())
}

/// A copy of the slots from `from` up to `to` of the value stack.
fn copy_slots(vm: &VM, from: usize, to: usize) -> (r: Vec<Value>)
    requires
        from <= to <= vm@.stack.len(),
    ensures
        r@ == vm@.stack.subrange(from as int, to as int),
{
    let mut r: Vec<Value> = Vec::new();
    let mut i: usize = from;
    while i < to
        invariant
            from <= i <= to <= vm@.stack.len(),
            r@ == vm@.stack.subrange(from as int, i as int),
        decreases to - i,
    {
        r.push(vm.state.stack[i].clone());
        assert(r@ =~= vm@.stack.subrange(from as int, i + 1));
        i = i + 1;
    }
    r
}

/// `assign_func_rest_param n dst`
pub fn assign_func_rest_param(vm: &mut VM) -> (r: Result<(), RuntimeError>)
    ensures
        agrees(old(vm)@.assign_func_rest_param(), old(vm)@, final(vm)@, r),
{
    let pc = vm.check(9)?;
    let n = read_u32(&vm.insts, pc + 1) as usize;
    let dst = read_u32(&vm.insts, pc + 5) as usize;
    let bp = vm.state.bp;
    let lp = vm.state.lp;
    let len = vm.state.stack.len();
    if lp < bp {
        return Err(RuntimeError::OutOfRange);
    }
    let some = n < lp - bp;
    if (some && lp > len) || lp >= len || dst >= len - lp {
        return Err(RuntimeError::StackUnderflow);
    }
    let rest = if some {
        copy_slots(vm, bp + n, lp)
    } else {
        let empty: Vec<Value> = Vec::new();
        assert(empty@ =~= Seq::<Value>::empty());
        empty
    };
    let arr = make_array(vm, rest);
    vm.state.stack[lp + dst] = Value::Array(arr);
    vm.state.pc = (pc + 9) as isize;
    Ok(())
}

/// Binds the parameters `params` to the arguments `args`, each parameter that
/// has an argument to the argument at its position.
pub fn bind_parameters(params: &Vec<String>, args: &Vec<Value>) -> (r: StringHashMap<Value>)
    ensures
        r@ == bindings(texts(params@), args@, least(params@.len(), args@.len())),
{
    let mut map: StringHashMap<Value> = StringHashMap::new();
    let n = if params.len() <= args.len() {
        params.len()
    } else {
        args.len()
    };
    let mut i: usize = 0;
    while i < n
        invariant
            i <= n,
            n <= params@.len(),
            n <= args@.len(),
            map@ == bindings(texts(params@), args@, i as nat),
        decreases n - i,
    {
        map.insert(params[i].clone(), args[i].clone());
        i = i + 1;
    }
    map
}

/// Enters the user function whose code starts at `dst` and whose captured
/// record is the one at `frame`.
fn enter(vm: &mut VM, pc: usize, dst: usize, frame: usize, argc: usize, made: Option<
    StringHashMap<Value>,
>)
    requires
        old(vm)@.fits(5),
        pc == old(vm)@.pc,
        old(vm)@.stack.len() >= 1,
        argc <= old(vm)@.stack.len() - 1,
        frame < old(vm)@.heap.callobjs.len(),
        dst <= isize::MAX,
    ensures
        final(vm)@ == old(vm)@.enter(
            dst,
            frame,
            argc as int,
            match made {
                Some(m) => Some(m@),
                None => None,
            },
        ),
{
    let len = vm.state.stack.len();
    let args = copy_slots(vm, len - 1 - argc, len - 1);
    let mut record = vm.heap.callobjs[frame].copy();
    let map = bind_parameters(&record.param_names, &args);
    let kind = match made {
        Some(m) => {
            let this = vm.heap.new_object(m);
            record.this = Some(this);
            FrameKind::Construct(this)
        },
        None => FrameKind::Call,
    };
    record.vals = vm.heap.new_object(map);
    let entered = vm.heap.new_callobj(record);
    vm.state.stack.truncate(len - 1 - argc);
    vm.state.scope.push(entered);
    vm.state.history.push(
        Frame { bp: 0, lp: 0, sp: len - 1 - argc, return_pc: (pc + 5) as isize, kind },
    );
    vm.state.pc = dst as isize;
}

/// `call argc`
pub fn call(vm: &mut VM) -> (r: Result<Step, RuntimeError>)
    ensures
        agrees_step(old(vm)@.call(), old(vm)@, final(vm)@, r),
{
    let pc = vm.check(5)?;
    let argc = read_u32(&vm.insts, pc + 1) as usize;
    let len = vm.state.stack.len();
    if len == 0 || argc > len - 1 {
        return Err(RuntimeError::StackUnderflow);
    }
    let (callee, this) = unwrap_callee(vm.state.stack[len - 1].clone());
    match callee {
        Value::BuiltinFunction(id) => {
            let rest = copy_slots(vm, len - 1 - argc, len - 1);
            let args = match this {
                Some(this) => {
                    let mut args: Vec<Value> = Vec::new();
                    args.push(this);
                    let mut rest = rest;
                    args.append(&mut rest);
                    args
                },
                None => rest,
            };
            vm.state.stack.truncate(len - 1 - argc);
            vm.state.pc = (pc + 5) as isize;
            Ok(Step::Builtin(id, args))
        },
        Value::Function(dst, _, frame) => {
            if frame >= vm.heap.callobjs.len() {
                return Err(RuntimeError::BadReference);
            }
            if dst > isize::MAX as usize {
                return Err(RuntimeError::OutOfRange);
            }
            enter(vm, pc, dst, frame, argc, None);
            Ok(Step::Continue)
        },
        _ => Err(RuntimeError::NotCallable),
    }
}

/// `construct argc`
pub fn construct(vm: &mut VM) -> (r: Result<Step, RuntimeError>)
    ensures
        agrees_step(old(vm)@.construct(), old(vm)@, final(vm)@, r),
{
    let pc = vm.check(5)?;
    let argc = read_u32(&vm.insts, pc + 1) as usize;
    let len = vm.state.stack.len();
    if len == 0 || argc > len - 1 {
        return Err(RuntimeError::StackUnderflow);
    }
    let (callee, _) = unwrap_callee(vm.state.stack[len - 1].clone());
    match callee {
        Value::Function(dst, obj, frame) => {
            if frame >= vm.heap.callobjs.len() || obj >= vm.heap.objects.len() {
                return Err(RuntimeError::BadReference);
            }
            if dst > isize::MAX as usize {
                return Err(RuntimeError::OutOfRange);
            }
            let prototype = match vm.heap.objects[obj].get("prototype") {
                Some(v) => v.clone(),
                None => Value::Undefined,
            };
            let mut made: StringHashMap<Value> = StringHashMap::new();
            made.insert(String::from_str("__proto__"), prototype);
            enter(vm, pc, dst, frame, argc, Some(made));
            Ok(Step::Continue)
        },
        _ => Err(RuntimeError::NotCallable),
    }
}

/// The result of a construction that made the object at `made` and whose
/// constructor returned `returned`.
pub fn construction_result(returned: Value, made: usize) -> (r: Value)
    ensures
        r == constructed(returned, made),
{
    match returned {
        Value::Object(obj) => Value::Object(obj),
        Value::Array(arr) => Value::Array(arr),
        Value::Function(entry, obj, frame) => Value::Function(entry, obj, frame),
        Value::BuiltinFunction(id) => Value::BuiltinFunction(id),
        _ => Value::Object(made),
    }
}

/// `return`
pub fn return_(vm: &mut VM) -> (r: Result<Step, RuntimeError>)
    ensures
        agrees_step(old(vm)@.return_(), old(vm)@, final(vm)@, r),
{
    let len = vm.state.stack.len();
    let depth = vm.state.history.len();
    if depth == 0 || len == 0 {
        return Err(RuntimeError::StackUnderflow);
    }
    let frame = vm.state.history[depth - 1];
    if frame.sp > len - 1 {
        return Err(RuntimeError::StackUnderflow);
    }
    match frame.kind {
        FrameKind::Toplevel => {},
        _ => {
            if vm.state.scope.len() == 0 {
                return Err(RuntimeError::BadReference);
            }
        },
    }
    let returned = vm.state.stack[len - 1].clone();
    vm.state.stack.truncate(frame.sp);
    vm.state.pc = frame.return_pc;
    vm.state.history.pop();
    match frame.kind {
        FrameKind::Toplevel => {
            vm.state.stack.push(returned);
            Ok(Step::Finished)
        },
        FrameKind::Call => {
            vm.state.stack.push(returned);
            vm.state.scope.pop();
            Ok(Step::Continue)
        },
        FrameKind::Construct(made) => {
            vm.state.stack.push(construction_result(returned, made));
            vm.state.scope.pop();
            Ok(Step::Continue)
        },
    }
}

} // verus!
