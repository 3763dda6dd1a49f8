//! The member instructions: reading and writing the members of strings,
//! objects, functions, arrays and the arguments of the current call.

use crate::arith::{exact_op, exact_result};
use crate::node::BinOp;
use crate::number::{
    decode_index, encode_u64, format_whole, index_of, nearest_double, whole_text,
};
use crate::text::push_char;
use crate::value::{
    obj_find_val, Activation, ArrayModel, HeapModel, RuntimeError, Value,
};
use crate::vm::{agrees_step, Machine, Signal, Step, VM};
use vstd::prelude::*;
use vstd::string::*;

verus! {

/// The number of UTF-16 code units of the first `n` characters of `text`.
pub open spec fn utf16_len(text: Seq<char>, n: nat) -> nat
    decreases n,
{
    if n == 0 || n > text.len() {
        0
    } else {
        utf16_len(text, (n - 1) as nat) + if text[n - 1] as u32 >= 0x1_0000 {
            2nat
        } else {
            1nat
        }
    }
}

/// `elems`, made at least `n` long with absent values.
pub open spec fn padded(elems: Seq<Value>, n: int) -> Seq<Value> {
    if elems.len() >= n {
        elems
    } else {
        elems + Seq::new((n - elems.len()) as nat, |i: int| Value::Undefined)
    }
}

impl ArrayModel {
    /// The elements up to the declared length.
    pub open spec fn declared(self) -> Seq<Value> {
        if self.length < self.elems.len() {
            self.elems.take(self.length as int)
        } else {
            self.elems
        }
    }

    /// The array with the declared length `length`: elements at and past it
    /// are gone.
    pub open spec fn resized(self, length: usize) -> ArrayModel {
        ArrayModel {
            elems: if length < self.elems.len() {
                self.elems.take(length as int)
            } else {
                self.elems
            },
            length: length,
            ..self
        }
    }

    /// The array after `val` was stored at the index `i`. Below the declared
    /// length the element is replaced. At and past it the array grows to
    /// include `i`: the slots from the declared length up to `i` are absent
    /// values, whatever was stored there before.
    pub open spec fn store(self, i: usize, val: Value) -> ArrayModel {
        ArrayModel {
            elems: padded(
                if i >= self.length {
                    self.declared()
                } else {
                    self.elems
                },
                i + 1,
            ).update(i as int, val),
            length: if i >= self.length {
                (i + 1) as usize
            } else {
                self.length
            },
            ..self
        }
    }
}

/// What a value is as the name of a member.
pub enum Key {
    /// A string, or a whole number below 2^53 in absolute value: its text is
    /// the name.
    Text(Seq<char>),
    /// Any other number: its text has to be made first.
    Number,
}

impl HeapModel {
    /// The member name that `member` stands for.
    pub open spec fn key_of(self, member: Value) -> Result<Key, RuntimeError> {
        match member {
            Value::String(s) => if s < self.strings.len() {
                Ok(Key::Text(self.strings[s as int]))
            } else {
                Err(RuntimeError::BadReference)
            },
            Value::Number(n) => match whole_text(n) {
                Some(text) => Ok(Key::Text(text)),
                None => Ok(Key::Number),
            },
            _ => Err(RuntimeError::TypeError),
        }
    }

    /// The index of the property object through which the members of
    /// `parent` are read and written, where it has one.
    pub open spec fn properties_of(self, parent: Value) -> Option<usize> {
        match parent {
            Value::Object(obj) => Some(obj),
            Value::Function(_, obj, _) => Some(obj),
            Value::NeedThis(callee) => match *callee {
                Value::Function(_, obj, _) => Some(obj),
                _ => None,
            },
            _ => None,
        }
    }
}

impl Machine {
    /// The machine after an instruction of one byte took `taken` values off
    /// the stack.
    pub open spec fn took(self, taken: int) -> Machine {
        Machine { stack: self.stack.take(self.stack.len() - taken), ..self.skip(1) }
    }

    /// The result of `get_member` where it pushes `v`.
    pub open spec fn got(self, v: Value) -> Result<(Machine, Signal), RuntimeError> {
        Ok((self.took(2).push(v), Signal::Continue))
    }

    /// The result of `get_member` where it pushes the whole number `n`, as
    /// the double nearest to it.
    pub open spec fn got_number(self, n: usize) -> Result<(Machine, Signal), RuntimeError> {
        self.got(Value::Number(nearest_double(n as nat)))
    }

    /// `get_member` on the string at `s`.
    pub open spec fn get_of_string(self, s: usize, member: Value) -> Result<
        (Machine, Signal),
        RuntimeError,
    > {
        let text = self.heap.strings[s as int];
        if s >= self.heap.strings.len() {
            Err(RuntimeError::BadReference)
        } else {
            match member {
                Value::Number(n) => match index_of(n) {
                    Some(i) => if i < text.len() {
                        Ok(
                            (
                                Machine {
                                    heap: HeapModel {
                                        strings: self.heap.strings.push(seq![text[i as int]]),
                                        ..self.heap
                                    },
                                    ..self.took(2).push(
                                        Value::String(self.heap.strings.len() as usize),
                                    )
                                },
                                Signal::Continue,
                            ),
                        )
                    } else {
                        Err(RuntimeError::OutOfRange)
                    },
                    None => self.got(Value::Undefined),
                },
                Value::String(k) => if k >= self.heap.strings.len() {
                    Err(RuntimeError::BadReference)
                } else if self.heap.strings[k as int] == "length"@ {
                    if utf16_len(text, text.len()) > usize::MAX {
                        Err(RuntimeError::OutOfRange)
                    } else {
                        self.got_number(utf16_len(text, text.len()) as usize)
                    }
                } else {
                    self.got(Value::Undefined)
                },
                _ => self.got(Value::Undefined),
            }
        }
    }

    /// `get_member` through the property object at `obj`: the member is
    /// looked up along the prototype chain, and a user function that is found
    /// gets `obj` as its `this`, in a record of its own.
    pub open spec fn get_of_object(self, obj: usize, member: Value) -> Result<
        (Machine, Signal),
        RuntimeError,
    > {
        if obj >= self.heap.objects.len() {
            Err(RuntimeError::BadReference)
        } else {
            match self.heap.key_of(member) {
                Err(e) => Err(e),
                Ok(Key::Number) => Ok((self, Signal::FormatNumber((self.stack.len() - 1) as usize))),
                Ok(Key::Text(key)) => match self.heap.lookup(self.heap.objects[obj as int], key) {
                    Value::Function(entry, props, frame) => if frame >= self.heap.callobjs.len() {
                        Err(RuntimeError::BadReference)
                    } else {
                        Ok(
                            (
                                Machine {
                                    heap: HeapModel {
                                        callobjs: self.heap.callobjs.push(
                                            Activation {
                                                this: Some(obj),
                                                ..self.heap.callobjs[frame as int]
                                            },
                                        ),
                                        ..self.heap
                                    },
                                    ..self.took(2).push(
                                        Value::Function(
                                            entry,
                                            props,
                                            self.heap.callobjs.len() as usize,
                                        ),
                                    )
                                },
                                Signal::Continue,
                            ),
                        )
                    },
                    v => self.got(v),
                },
            }
        }
    }

    /// `get_member` on the array at `arr`: an index gives the element, the
    /// name `length` the declared length, and any other name the member of
    /// the array's own object or of its prototypes; a callable that needs a
    /// receiver gets the array.
    pub open spec fn get_of_array(self, arr: usize, member: Value) -> Result<
        (Machine, Signal),
        RuntimeError,
    > {
        let array = self.heap.arrays[arr as int];
        if arr >= self.heap.arrays.len() {
            Err(RuntimeError::BadReference)
        } else if member is Number && index_of(member->Number_0) is Some {
            self.got(array.get(index_of(member->Number_0)->Some_0))
        } else {
            match self.heap.key_of(member) {
                Err(e) => Err(e),
                Ok(Key::Number) => Ok((self, Signal::FormatNumber((self.stack.len() - 1) as usize))),
                Ok(Key::Text(key)) => if key == "length"@ {
                    self.got_number(array.length)
                } else {
                    match self.heap.lookup(array.obj, key) {
                        Value::NeedThis(callee) => self.got(
                            Value::WithThis(callee, Box::new(Value::Array(arr))),
                        ),
                        v => self.got(v),
                    }
                },
            }
        }
    }

    /// `get_member` on the arguments of the current call: an index inside
    /// the argument window gives the argument, and one outside it pushes
    /// nothing; the name `length` gives the difference of the two ends of
    /// the window, each as the double nearest to it, for which the driver is
    /// asked where it is not that of whole numbers.
    pub open spec fn get_of_arguments(self, member: Value) -> Result<
        (Machine, Signal),
        RuntimeError,
    > {
        match member {
            Value::Number(n) => match index_of(n) {
                Some(i) => if self.bp + i >= self.lp {
                    Ok((self.took(2), Signal::Continue))
                } else if self.bp + i >= self.stack.len() - 2 {
                    Err(RuntimeError::StackUnderflow)
                } else {
                    self.got(self.stack[self.bp + i])
                },
                None => self.got(Value::Undefined),
            },
            Value::String(k) => if k >= self.heap.strings.len() {
                Err(RuntimeError::BadReference)
            } else if self.heap.strings[k as int] == "length"@ {
                let end = nearest_double(self.lp as nat);
                let start = nearest_double(self.bp as nat);
                match exact_result(BinOp::Sub, end, start) {
                    Some(length) => self.got(Value::Number(length)),
                    None => Ok((self.took(2), Signal::Arith(BinOp::Sub, end, start))),
                }
            } else {
                self.got(Value::Undefined)
            },
            _ => self.got(Value::Undefined),
        }
    }

    /// `get_member`: takes a member name and, under it, a parent off the
    /// stack, and pushes the member of the parent.
    pub open spec fn get_member(self) -> Result<(Machine, Signal), RuntimeError> {
        let len = self.stack.len() as int;
        if !self.fits(1) {
            Err(RuntimeError::BadProgramCounter)
        } else if len < 2 {
            Err(RuntimeError::StackUnderflow)
        } else {
            let member = self.stack[len - 1];
            let parent = self.stack[len - 2];
            match parent {
                Value::String(s) => self.get_of_string(s, member),
                Value::Array(arr) => self.get_of_array(arr, member),
                Value::Arguments => self.get_of_arguments(member),
                _ => match self.heap.properties_of(parent) {
                    Some(obj) => self.get_of_object(obj, member),
                    None => Err(RuntimeError::TypeError),
                },
            }
        }
    }
}

/// The number of UTF-16 code units of `s`, where it is an index.
pub fn utf16_length(s: &str) -> (r: Option<usize>)
    ensures
        r == (if utf16_len(s@, s@.len()) > usize::MAX {
            None
        } else {
            Some(utf16_len(s@, s@.len()) as usize)
        }),
{
    let n = s.unicode_len();
    let mut count: usize = 0;
    let mut i: usize = 0;
    while i < n
        invariant
            i <= n,
            n == s@.len(),
            count == utf16_len(s@, i as nat),
        decreases n - i,
    {
        let c = s.get_char(i);
        let units: usize = if c as u32 >= 0x1_0000 {
            2
        } else {
            1
        };
        proof {
            lemma_utf16_grows(s@, (i + 1) as nat, n as nat);
        }
        if count > usize::MAX - units {
            return None;
        }
        count = count + units;
        i = i + 1;
    }
    Some(count)
}

proof fn lemma_utf16_grows(text: Seq<char>, i: nat, n: nat)
    requires
        i <= n <= text.len(),
    ensures
        utf16_len(text, i) <= utf16_len(text, n),
    decreases n - i,
{
    if i < n {
        lemma_utf16_grows(text, i, (n - 1) as nat);
    }
}

/// A value as the name of a member.
pub enum MemberName {
    Text(String),
    Number,
}

impl MemberName {
    pub open spec fn view(&self) -> Key {
        match self {
            MemberName::Text(s) => Key::Text(s@),
            MemberName::Number => Key::Number,
        }
    }
}

/// The member name that `member` stands for.
pub fn member_name(vm: &VM, member: &Value) -> (r: Result<MemberName, RuntimeError>)
    ensures
        match vm@.heap.key_of(*member) {
            Ok(k) => r is Ok && r->Ok_0@ == k,
            Err(e) => r == Err::<MemberName, RuntimeError>(e),
        },
{
    match member {
        Value::String(s) => {
            if *s < vm.heap.strings.len() {
                Ok(MemberName::Text(vm.heap.strings[*s].clone()))
            } else {
                Err(RuntimeError::BadReference)
            }
        },
        Value::Number(n) => match format_whole(*n) {
            Some(text) => Ok(MemberName::Text(text)),
            None => Ok(MemberName::Number),
        },
        _ => Err(RuntimeError::TypeError),
    }
}

/// Whether `text` is the name `length`.
fn is_length(text: &String) -> (r: bool)
    ensures
        r == (text@ == "length"@),
{
    *text == String::from_str("length")
}

/// Finishes `get_member` by pushing `v`.
fn got(vm: &mut VM, pc: usize, v: Value) -> (r: Result<Step, RuntimeError>)
    requires
        old(vm)@.fits(1),
        pc == old(vm)@.pc,
        old(vm)@.stack.len() >= 2,
    ensures
        agrees_step(old(vm)@.got(v), old(vm)@, final(vm)@, r),
{
    let len = vm.state.stack.len();
    vm.state.stack.truncate(len - 2);
    vm.state.stack.push(v);
    vm.state.pc = (pc + 1) as isize;
    Ok(Step::Continue)
}

/// Finishes `get_member` by pushing the whole number `n`.
fn got_number(vm: &mut VM, pc: usize, n: usize) -> (r: Result<Step, RuntimeError>)
    requires
        old(vm)@.fits(1),
        pc == old(vm)@.pc,
        old(vm)@.stack.len() >= 2,
    ensures
        agrees_step(old(vm)@.got_number(n), old(vm)@, final(vm)@, r),
{
    got(vm, pc, Value::Number(encode_u64(n as u64)))
}

/// `get_member` on the string at `s`.
fn get_of_string(vm: &mut VM, pc: usize, s: usize, member: Value) -> (r: Result<
    Step,
    RuntimeError,
>)
    requires
        old(vm)@.fits(1),
        pc == old(vm)@.pc,
        old(vm)@.stack.len() >= 2,
    ensures
        agrees_step(old(vm)@.get_of_string(s, member), old(vm)@, final(vm)@, r),
{
    if s >= vm.heap.strings.len() {
        return Err(RuntimeError::BadReference);
    }
    match member {
        Value::Number(n) => {
            match decode_index(n) {
                Some(i) => {
                    if i < vm.heap.strings[s].as_str().unicode_len() {
                        let c = vm.heap.strings[s].as_str().get_char(i);
                        let mut one = String::new();
                        push_char(&mut one, c);
                        assert(one@ =~= seq![c]);
                        let made = vm.heap.new_string(one);
                        got(vm, pc, Value::String(made))
                    } else {
                        Err(RuntimeError::OutOfRange)
                    }
                },
                None => got(vm, pc, Value::Undefined),
            }
        },
        Value::String(k) => {
            if k >= vm.heap.strings.len() {
                return Err(RuntimeError::BadReference);
            }
            if is_length(&vm.heap.strings[k]) {
                match utf16_length(vm.heap.strings[s].as_str()) {
                    Some(n) => got_number(vm, pc, n),
                    None => Err(RuntimeError::OutOfRange),
                }
            } else {
                got(vm, pc, Value::Undefined)
            }
        },
        _ => got(vm, pc, Value::Undefined),
    }
}

/// `get_member` through the property object at `obj`.
fn get_of_object(vm: &mut VM, pc: usize, obj: usize, member: Value) -> (r: Result<
    Step,
    RuntimeError,
>)
    requires
        old(vm)@.fits(1),
        pc == old(vm)@.pc,
        old(vm)@.stack.len() >= 2,
    ensures
        agrees_step(old(vm)@.get_of_object(obj, member), old(vm)@, final(vm)@, r),
{
    if obj >= vm.heap.objects.len() {
        return Err(RuntimeError::BadReference);
    }
    match member_name(vm, &member)? {
        MemberName::Number => Ok(Step::FormatNumber(vm.state.stack.len() - 1)),
        MemberName::Text(key) => {
            match obj_find_val(&vm.heap, &vm.heap.objects[obj], key.as_str()) {
                Value::Function(entry, props, frame) => {
                    if frame >= vm.heap.callobjs.len() {
                        return Err(RuntimeError::BadReference);
                    }
                    let mut record = vm.heap.callobjs[frame].copy();
                    record.this = Some(obj);
                    let bound = vm.heap.new_callobj(record);
                    got(vm, pc, Value::Function(entry, props, bound))
                },
                v => got(vm, pc, v),
            }
        },
    }
}

/// `get_member` on the array at `arr`.
fn get_of_array(vm: &mut VM, pc: usize, arr: usize, member: Value) -> (r: Result<
    Step,
    RuntimeError,
>)
    requires
        old(vm)@.fits(1),
        pc == old(vm)@.pc,
        old(vm)@.stack.len() >= 2,
    ensures
        agrees_step(old(vm)@.get_of_array(arr, member), old(vm)@, final(vm)@, r),
{
    if arr >= vm.heap.arrays.len() {
        return Err(RuntimeError::BadReference);
    }
    match &member {
        Value::Number(n) => {
            match decode_index(*n) {
                Some(i) => {
                    let array = &vm.heap.arrays[arr];
                    let v = if i < array.length && i < array.elems.len() {
                        array.elems[i].clone()
                    } else {
                        Value::Undefined
                    };
                    return got(vm, pc, v);
                },
                None => {},
            }
        },
        _ => {},
    }
    match member_name(vm, &member)? {
        MemberName::Number => Ok(Step::FormatNumber(vm.state.stack.len() - 1)),
        MemberName::Text(key) => {
            if is_length(&key) {
                let n = vm.heap.arrays[arr].length;
                got_number(vm, pc, n)
            } else {
                match obj_find_val(&vm.heap, &vm.heap.arrays[arr].obj, key.as_str()) {
                    Value::NeedThis(callee) => got(
                        vm,
                        pc,
                        Value::WithThis(callee, Box::new(Value::Array(arr))),
                    ),
                    v => got(vm, pc, v),
                }
            }
        },
    }
}

/// `get_member` on the arguments of the current call.
fn get_of_arguments(vm: &mut VM, pc: usize, member: Value) -> (r: Result<Step, RuntimeError>)
    requires
        old(vm)@.fits(1),
        pc == old(vm)@.pc,
        old(vm)@.stack.len() >= 2,
    ensures
        agrees_step(old(vm)@.get_of_arguments(member), old(vm)@, final(vm)@, r),
{
    let len = vm.state.stack.len();
    match member {
        Value::Number(n) => {
            match decode_index(n) {
                Some(i) => {
                    let bp = vm.state.bp;
                    let lp = vm.state.lp;
                    if bp >= lp || i >= lp - bp {
                        vm.state.stack.truncate(len - 2);
                        vm.state.pc = (pc + 1) as isize;
                        Ok(Step::Continue)
                    } else if bp + i >= len - 2 {
                        Err(RuntimeError::StackUnderflow)
                    } else {
                        let v = vm.state.stack[bp + i].clone();
                        got(vm, pc, v)
                    }
                },
                None => got(vm, pc, Value::Undefined),
            }
        },
        Value::String(k) => {
            if k >= vm.heap.strings.len() {
                return Err(RuntimeError::BadReference);
            }
            if is_length(&vm.heap.strings[k]) {
                let lp = encode_u64(vm.state.lp as u64);
                let bp = encode_u64(vm.state.bp as u64);
                match exact_op(&BinOp::Sub, lp, bp) {
                    Some(length) => got(vm, pc, Value::Number(length)),
                    None => {
                        vm.state.stack.truncate(len - 2);
                        vm.state.pc = (pc + 1) as isize;
                        Ok(Step::Arith(BinOp::Sub, lp, bp))
                    },
                }
            } else {
                got(vm, pc, Value::Undefined)
            }
        },
        _ => got(vm, pc, Value::Undefined),
    }
}

/// The index of the property object through which the members of `parent`
/// are read and written, where it has one.
pub fn properties_of(vm: &VM, parent: &Value) -> (r: Option<usize>)
    ensures
        r == vm@.heap.properties_of(*parent),
{
    match parent {
        Value::Object(obj) => Some(*obj),
        Value::Function(_, obj, _) => Some(*obj),
        Value::NeedThis(callee) => match &**callee {
            Value::Function(_, obj, _) => Some(*obj),
            _ => None,
        },
        _ => None,
    }
}

/// `get_member`
pub fn get_member(vm: &mut VM) -> (r: Result<Step, RuntimeError>)
    ensures
        agrees_step(old(vm)@.get_member(), old(vm)@, final(vm)@, r),
{
    let pc = vm.check(1)?;
    let len = vm.state.stack.len();
    if len < 2 {
        return Err(RuntimeError::StackUnderflow);
    }
    let member = vm.state.stack[len - 1].clone();
    let parent = vm.state.stack[len - 2].clone();
    match &parent {
        Value::String(s) => get_of_string(vm, pc, *s, member),
        Value::Array(arr) => get_of_array(vm, pc, *arr, member),
        Value::Arguments => get_of_arguments(vm, pc, member),
        _ => match properties_of(vm, &parent) {
            Some(obj) => get_of_object(vm, pc, obj, member),
            None => Err(RuntimeError::TypeError),
        },
    }
}

impl HeapModel {
    /// The heap after the array at `arr` became `array`.
    pub open spec fn set_array(self, arr: usize, array: ArrayModel) -> HeapModel {
        HeapModel { arrays: self.arrays.update(arr as int, array), ..self }
    }
}

impl Machine {
    /// The result of `set_member` where the heap becomes `heap`.
    pub open spec fn put(self, heap: HeapModel) -> Result<(Machine, Signal), RuntimeError> {
        Ok((Machine { heap: heap, ..self.took(3) }, Signal::Continue))
    }

    /// `set_member` through the property object at `obj`: the member is
    /// inserted or updated.
    pub open spec fn set_of_object(self, obj: usize, member: Value, val: Value) -> Result<
        (Machine, Signal),
        RuntimeError,
    > {
        if obj >= self.heap.objects.len() {
            Err(RuntimeError::BadReference)
        } else {
            match self.heap.key_of(member) {
                Err(e) => Err(e),
                Ok(Key::Number) => Ok((self, Signal::FormatNumber((self.stack.len() - 1) as usize))),
                Ok(Key::Text(key)) => self.put(self.heap.set_property(obj, key, val)),
            }
        }
    }

    /// `set_member` on the array at `arr`: an index stores an element, the
    /// name `length` with a whole number sets the declared length and drops
    /// the elements at and past it, and any other name sets a member of the
    /// array's own object.
    pub open spec fn set_of_array(self, arr: usize, member: Value, val: Value) -> Result<
        (Machine, Signal),
        RuntimeError,
    > {
        let array = self.heap.arrays[arr as int];
        if arr >= self.heap.arrays.len() {
            Err(RuntimeError::BadReference)
        } else if member is Number && index_of(member->Number_0) is Some {
            let i = index_of(member->Number_0)->Some_0;
            if i == usize::MAX {
                Err(RuntimeError::OutOfRange)
            } else {
                self.put(self.heap.set_array(arr, array.store(i, val)))
            }
        } else {
            match self.heap.key_of(member) {
                Err(e) => Err(e),
                Ok(Key::Number) => Ok((self, Signal::FormatNumber((self.stack.len() - 1) as usize))),
                Ok(Key::Text(key)) => if key == "length"@ {
                    if val is Number && index_of(val->Number_0) is Some {
                        self.put(
                            self.heap.set_array(arr, array.resized(index_of(val->Number_0)->Some_0)),
                        )
                    } else {
                        self.put(self.heap)
                    }
                } else {
                    self.put(
                        self.heap.set_array(
                            arr,
                            ArrayModel { obj: array.obj.insert(key, val), ..array },
                        ),
                    )
                },
            }
        }
    }

    /// `set_member` on the arguments of the current call: an index inside
    /// the argument window overwrites the argument; anything else is
    /// ignored.
    pub open spec fn set_of_arguments(self, member: Value, val: Value) -> Result<
        (Machine, Signal),
        RuntimeError,
    > {
        if member is Number && index_of(member->Number_0) is Some {
            let slot = self.bp + index_of(member->Number_0)->Some_0;
            if slot >= self.lp {
                self.put(self.heap)
            } else if slot >= self.stack.len() - 3 {
                Err(RuntimeError::StackUnderflow)
            } else {
                Ok(
                    (
                        Machine {
                            stack: self.stack.take(self.stack.len() - 3).update(slot, val),
                            ..self.skip(1)
                        },
                        Signal::Continue,
                    ),
                )
            }
        } else {
            self.put(self.heap)
        }
    }

    /// `set_member`: takes a member name, under it a parent and under that a
    /// value off the stack, and sets the member of the parent to the value.
    pub open spec fn set_member(self) -> Result<(Machine, Signal), RuntimeError> {
        let len = self.stack.len() as int;
        if !self.fits(1) {
            Err(RuntimeError::BadProgramCounter)
        } else if len < 3 {
            Err(RuntimeError::StackUnderflow)
        } else {
            let member = self.stack[len - 1];
            let parent = self.stack[len - 2];
            let val = self.stack[len - 3];
            match parent {
                Value::Array(arr) => self.set_of_array(arr, member, val),
                Value::Arguments => self.set_of_arguments(member, val),
                _ => match self.heap.properties_of(parent) {
                    Some(obj) => self.set_of_object(obj, member, val),
                    None => Err(RuntimeError::TypeError),
                },
            }
        }
    }
}

/// Finishes `set_member`.
fn put(vm: &mut VM, pc: usize) -> (r: Result<Step, RuntimeError>)
    requires
        old(vm)@.fits(1),
        pc == old(vm)@.pc,
        old(vm)@.stack.len() >= 3,
    ensures
        agrees_step(old(vm)@.put(old(vm)@.heap), old(vm)@, final(vm)@, r),
{
    let len = vm.state.stack.len();
    vm.state.stack.truncate(len - 3);
    vm.state.pc = (pc + 1) as isize;
    Ok(Step::Continue)
}

/// `set_member` through the property object at `obj`.
fn set_of_object(vm: &mut VM, pc: usize, obj: usize, member: Value, val: Value) -> (r: Result<
    Step,
    RuntimeError,
>)
    requires
        old(vm)@.fits(1),
        pc == old(vm)@.pc,
        old(vm)@.stack.len() >= 3,
    ensures
        agrees_step(old(vm)@.set_of_object(obj, member, val), old(vm)@, final(vm)@, r),
{
    if obj >= vm.heap.objects.len() {
        return Err(RuntimeError::BadReference);
    }
    match member_name(vm, &member)? {
        MemberName::Number => Ok(Step::FormatNumber(vm.state.stack.len() - 1)),
        MemberName::Text(key) => {
            vm.heap.set_property(obj, key, val);
            put(vm, pc)
        },
    }
}

/// Stores `val` at the index `i` of the array at `arr`.
pub fn store_element(vm: &mut VM, arr: usize, i: usize, val: Value)
    requires
        arr < old(vm)@.heap.arrays.len(),
        i < usize::MAX,
    ensures
        final(vm)@ == (Machine {
            heap: old(vm)@.heap.set_array(arr, old(vm)@.heap.arrays[arr as int].store(i, val)),
            ..old(vm)@
        }),
{
    let ghost before = vm.heap.arrays@[arr as int]@;
    let array = &mut vm.heap.arrays[arr];
    if i >= array.length && array.elems.len() > array.length {
        array.elems.truncate(array.length);
    }
    let ghost base = array.elems@;
    assert(base == (if i >= before.length {
        before.declared()
    } else {
        before.elems
    }));
    while array.elems.len() <= i
        invariant
            array.elems@.len() <= i + 1 || array.elems@.len() == base.len(),
            array.length == before.length,
            array.obj@ == before.obj,
            array.elems@.len() >= base.len(),
            forall|k: int| 0 <= k < base.len() ==> array.elems@[k] == base[k],
            forall|k: int|
                base.len() <= k < array.elems@.len() ==> array.elems@[k]
                    == Value::Undefined,
        decreases i + 1 - array.elems@.len(),
    {
        array.elems.push(Value::Undefined);
    }
    array.elems[i] = val;
    if i >= array.length {
        array.length = i + 1;
    }
    assert(array.elems@ =~= padded(base, i + 1).update(i as int, val));
    assert(vm@.heap.arrays =~= old(vm)@.heap.arrays.update(arr as int, before.store(i, val)));
    assert(vm@.heap.objects =~= old(vm)@.heap.objects);
    assert(vm@.heap.callobjs =~= old(vm)@.heap.callobjs);
}

/// `set_member` on the array at `arr`.
fn set_of_array(vm: &mut VM, pc: usize, arr: usize, member: Value, val: Value) -> (r: Result<
    Step,
    RuntimeError,
>)
    requires
        old(vm)@.fits(1),
        pc == old(vm)@.pc,
        old(vm)@.stack.len() >= 3,
    ensures
        agrees_step(old(vm)@.set_of_array(arr, member, val), old(vm)@, final(vm)@, r),
{
    if arr >= vm.heap.arrays.len() {
        return Err(RuntimeError::BadReference);
    }
    match &member {
        Value::Number(n) => {
            match decode_index(*n) {
                Some(i) => {
                    if i == usize::MAX {
                        return Err(RuntimeError::OutOfRange);
                    }
                    store_element(vm, arr, i, val);
                    return put(vm, pc);
                },
                None => {},
            }
        },
        _ => {},
    }
    match member_name(vm, &member)? {
        MemberName::Number => Ok(Step::FormatNumber(vm.state.stack.len() - 1)),
        MemberName::Text(key) => {
            let ghost before = vm.heap.arrays@[arr as int]@;
            if is_length(&key) {
                match val {
                    Value::Number(n) => {
                        match decode_index(n) {
                            Some(length) => {
                                let array = &mut vm.heap.arrays[arr];
                                if length < array.elems.len() {
                                    array.elems.truncate(length);
                                }
                                array.length = length;
                                assert(vm@.heap.arrays =~= old(vm)@.heap.arrays.update(
                                    arr as int,
                                    before.resized(length),
                                ));
                                assert(vm@.heap.objects =~= old(vm)@.heap.objects);
                                assert(vm@.heap.callobjs =~= old(vm)@.heap.callobjs);
                            },
                            None => {},
                        }
                    },
                    _ => {},
                }
            } else {
                vm.heap.arrays[arr].obj.insert(key, val);
                assert(vm@.heap.arrays =~= old(vm)@.heap.arrays.update(
                    arr as int,
                    ArrayModel { obj: before.obj.insert(key@, val), ..before },
                ));
                assert(vm@.heap.objects =~= old(vm)@.heap.objects);
                assert(vm@.heap.callobjs =~= old(vm)@.heap.callobjs);
            }
            put(vm, pc)
        },
    }
}

/// `set_member` on the arguments of the current call.
fn set_of_arguments(vm: &mut VM, pc: usize, member: Value, val: Value) -> (r: Result<
    Step,
    RuntimeError,
>)
    requires
        old(vm)@.fits(1),
        pc == old(vm)@.pc,
        old(vm)@.stack.len() >= 3,
    ensures
        agrees_step(old(vm)@.set_of_arguments(member, val), old(vm)@, final(vm)@, r),
{
    let len = vm.state.stack.len();
    match member {
        Value::Number(n) => {
            match decode_index(n) {
                Some(i) => {
                    let bp = vm.state.bp;
                    let lp = vm.state.lp;
                    if bp >= lp || i >= lp - bp {
                        put(vm, pc)
                    } else if bp + i >= len - 3 {
                        Err(RuntimeError::StackUnderflow)
                    } else {
                        vm.state.stack.truncate(len - 3);
                        vm.state.stack[bp + i] = val;
                        vm.state.pc = (pc + 1) as isize;
                        Ok(Step::Continue)
                    }
                },
                None => put(vm, pc),
            }
        },
        _ => put(vm, pc),
    }
}

/// `set_member`
pub fn set_member(vm: &mut VM) -> (r: Result<Step, RuntimeError>)
    ensures
        agrees_step(old(vm)@.set_member(), old(vm)@, final(vm)@, r),
{
    let pc = vm.check(1)?;
    let len = vm.state.stack.len();
    if len < 3 {
        return Err(RuntimeError::StackUnderflow);
    }
    let member = vm.state.stack[len - 1].clone();
    let parent = vm.state.stack[len - 2].clone();
    let val = vm.state.stack[len - 3].clone();
    match &parent {
        Value::Array(arr) => set_of_array(vm, pc, *arr, member, val),
        Value::Arguments => set_of_arguments(vm, pc, member, val),
        _ => match properties_of(vm, &parent) {
            Some(obj) => set_of_object(vm, pc, obj, member, val),
            None => Err(RuntimeError::TypeError),
        },
    }
}

} // verus!
