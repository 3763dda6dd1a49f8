//! The value model and the heap.
//!
//! Objects, arrays and activation records live in arenas of the heap and are
//! named by their index: two values that hold the same index share the thing
//! they name, and a write through one is seen through the other.

use crate::builtin::{ARRAY_PUSH, FUNCTION_PROTOTYPE_CALL};
use crate::number::{doubles_equal, equal_doubles, format_whole, whole_text};
use crate::text::clone_strings;
use vstd::hash_map::StringHashMap;
use vstd::prelude::*;
use vstd::string::*;

verus! {

/// A runtime value.
///
/// The derived `==` compares values as they are held: a string equals the
/// string at the same place of the heap only, and a number the number of the
/// same bits. The equality of the language is `Heap::same_value`.
#[derive(Debug, PartialEq)]
pub enum Value {
    /// The absent value.
    Undefined,
    /// A truth value.
    Bool(bool),
    /// An IEEE-754 double, as its bits.
    Number(u64),
    /// An immutable string, by its index in the heap.
    String(usize),
    /// A user function: the offset of its code, the index of its own property
    /// object, and the index of the activation record that it captured.
    Function(usize, usize, usize),
    /// A callable that must be given a receiver on its next call.
    NeedThis(Box<Value>),
    /// A callable together with its receiver.
    WithThis(Box<Value>, Box<Value>),
    /// A host function, by its identifier.
    BuiltinFunction(usize),
    /// An object, by its index in the heap.
    Object(usize),
    /// An array, by its index in the heap.
    Array(usize),
    /// The arguments of the current call.
    Arguments,
}

impl Clone for Value {
    fn clone(&self) -> (r: Value)
        ensures
            r == *self,
        decreases self,
    {
        match self {
            Value::Undefined => Value::Undefined,
            Value::Bool(b) => Value::Bool(*b),
            Value::Number(n) => Value::Number(*n),
            Value::String(s) => Value::String(*s),
            Value::Function(entry, obj, frame) => Value::Function(*entry, *obj, *frame),
            Value::NeedThis(callee) => Value::NeedThis(Box::new((**callee).clone())),
            Value::WithThis(callee, this) => Value::WithThis(
                Box::new((**callee).clone()),
                Box::new((**this).clone()),
            ),
            Value::BuiltinFunction(id) => Value::BuiltinFunction(*id),
            Value::Object(obj) => Value::Object(*obj),
            Value::Array(arr) => Value::Array(*arr),
            Value::Arguments => Value::Arguments,
        }
    }
}

/// A copy of a list of values.
pub fn clone_values(v: &Vec<Value>) -> (r: Vec<Value>)
    ensures
        r@ == v@,
{
    let mut r: Vec<Value> = Vec::new();
    let mut i: usize = 0;
    while i < v.len()
        invariant
            i <= v@.len(),
            r@ == v@.take(i as int),
        decreases v@.len() - i,
    {
        r.push(v[i].clone());
        assert(v@.take(i + 1) == v@.take(i as int).push(v@[i as int]));
        i += 1;
    }
    assert(v@.take(v@.len() as int) == v@);
    r
}

/// A fatal error of the runtime.
#[derive(Clone, Copy, Debug, PartialEq, Eq, Structural)]
pub enum RuntimeError {
    /// The program counter, or an operand that belongs to the instruction at
    /// it, lies outside the bytecode.
    BadProgramCounter,
    /// The byte at the program counter is no opcode.
    BadOpcode,
    /// The value stack or the call history holds fewer entries than the
    /// instruction takes, or a stack slot that it names does not exist.
    StackUnderflow,
    /// An index into the constant table is out of range.
    BadConstant,
    /// A value names an object, an array or an activation record that the
    /// heap does not hold, or a chain of activation records does not end.
    BadReference,
    /// An operand has a type that the instruction cannot work on.
    TypeError,
    /// A name is bound in no activation record of the chain.
    UnboundName,
    /// The callee of a call or a construction is not callable.
    NotCallable,
    /// A number is too large for the machine: a jump target, a length or an
    /// index leaves the range of the integers that hold it.
    OutOfRange,
    /// The right operand of a remainder is zero.
    DivisionByZero,
    /// The operation is not implemented.
    Unimplemented,
}

/// An activation record: one lexical scope.
#[derive(Debug, PartialEq)]
pub struct CallObject {
    /// The index of the object that holds the bindings.
    pub vals: usize,
    /// The names of the formal parameters, in declaration order.
    pub param_names: Vec<String>,
    /// The index of the object bound as `this`, if any.
    pub this: Option<usize>,
    /// The index of the enclosing activation record, if any.
    pub parent: Option<usize>,
}

/// An activation record as a mathematical value.
pub struct Activation {
    pub vals: usize,
    pub param_names: Seq<Seq<char>>,
    pub this: Option<usize>,
    pub parent: Option<usize>,
}

/// The texts of a list of strings.
pub open spec fn texts(names: Seq<String>) -> Seq<Seq<char>> {
    Seq::new(names.len(), |i: int| names[i]@)
}

/// An array value.
pub struct ArrayValue {
    /// The elements.
    pub elems: Vec<Value>,
    /// The declared length.
    pub length: usize,
    /// The members that are no elements.
    pub obj: StringHashMap<Value>,
}

/// An array as a mathematical value.
pub struct ArrayModel {
    pub elems: Seq<Value>,
    pub length: usize,
    pub obj: Map<Seq<char>, Value>,
}

/// The heap: the arenas of strings, objects, arrays and activation records.
pub struct Heap {
    pub strings: Vec<String>,
    pub objects: Vec<StringHashMap<Value>>,
    pub arrays: Vec<ArrayValue>,
    pub callobjs: Vec<CallObject>,
}

/// A heap as a mathematical value.
pub struct HeapModel {
    pub strings: Seq<Seq<char>>,
    pub objects: Seq<Map<Seq<char>, Value>>,
    pub arrays: Seq<ArrayModel>,
    pub callobjs: Seq<Activation>,
}

impl CallObject {
    pub open spec fn view(&self) -> Activation {
        Activation {
            vals: self.vals,
            param_names: texts(self.param_names@),
            this: self.this,
            parent: self.parent,
        }
    }

    /// A copy of the record.
    pub fn copy(&self) -> (r: CallObject)
        ensures
            r@ == self@,
    {
        let r = CallObject {
            vals: self.vals,
            param_names: clone_strings(&self.param_names),
            this: self.this,
            parent: self.parent,
        };
        assert(r@.param_names =~= self@.param_names);
        r
    }
}

impl ArrayValue {
    pub open spec fn view(&self) -> ArrayModel {
        ArrayModel { elems: self.elems@, length: self.length, obj: self.obj@ }
    }
}

impl ArrayModel {
    /// The element at `i`: absent at and past the declared length, and where
    /// the declared length was raised past the elements.
    pub open spec fn get(self, i: usize) -> Value {
        if i < self.length && i < self.elems.len() {
            self.elems[i as int]
        } else {
            Value::Undefined
        }
    }
}

impl Heap {
    pub open spec fn view(&self) -> HeapModel {
        HeapModel {
            strings: texts(self.strings@),
            objects: Seq::new(self.objects@.len(), |i: int| self.objects@[i]@),
            arrays: Seq::new(self.arrays@.len(), |i: int| self.arrays@[i]@),
            callobjs: Seq::new(self.callobjs@.len(), |i: int| self.callobjs@[i]@),
        }
    }

    /// A heap that holds nothing.
    pub fn new() -> (r: Heap)
        ensures
            r@.strings.len() == 0,
            r@.objects.len() == 0,
            r@.arrays.len() == 0,
            r@.callobjs.len() == 0,
    {
        Heap { strings: Vec::new(), objects: Vec::new(), arrays: Vec::new(), callobjs: Vec::new() }
    }

    /// Puts a new string into the heap and returns its index.
    pub fn new_string(&mut self, s: String) -> (r: usize)
        ensures
            r == old(self)@.strings.len(),
            final(self)@ == (HeapModel { strings: old(self)@.strings.push(s@), ..old(self)@ }),
    {
        let r = self.strings.len();
        self.strings.push(s);
        assert(self@.strings =~= old(self)@.strings.push(s@));
        assert(self@.objects =~= old(self)@.objects);
        assert(self@.arrays =~= old(self)@.arrays);
        assert(self@.callobjs =~= old(self)@.callobjs);
        r
    }

    /// Puts a new object into the heap and returns its index.
    pub fn new_object(&mut self, map: StringHashMap<Value>) -> (r: usize)
        ensures
            r == old(self)@.objects.len(),
            final(self)@ == (HeapModel { objects: old(self)@.objects.push(map@), ..old(self)@ }),
    {
        let r = self.objects.len();
        self.objects.push(map);
        assert(self@.objects =~= old(self)@.objects.push(map@));
        assert(self@.arrays =~= old(self)@.arrays);
        assert(self@.callobjs =~= old(self)@.callobjs);
        r
    }

    /// Puts a new array into the heap and returns its index.
    pub fn new_array(&mut self, arr: ArrayValue) -> (r: usize)
        ensures
            r == old(self)@.arrays.len(),
            final(self)@ == (HeapModel { arrays: old(self)@.arrays.push(arr@), ..old(self)@ }),
    {
        let r = self.arrays.len();
        self.arrays.push(arr);
        assert(self@.objects =~= old(self)@.objects);
        assert(self@.arrays =~= old(self)@.arrays.push(arr@));
        assert(self@.callobjs =~= old(self)@.callobjs);
        r
    }

    /// Puts a new activation record into the heap and returns its index.
    pub fn new_callobj(&mut self, callobj: CallObject) -> (r: usize)
        ensures
            r == old(self)@.callobjs.len(),
            final(self)@ == (HeapModel {
                callobjs: old(self)@.callobjs.push(callobj@),
                ..old(self)@
            }),
    {
        let r = self.callobjs.len();
        self.callobjs.push(callobj);
        assert(self@.objects =~= old(self)@.objects);
        assert(self@.arrays =~= old(self)@.arrays);
        assert(self@.callobjs =~= old(self)@.callobjs.push(callobj@));
        r
    }

    /// Whether two values are equal in the language.
    pub fn same_value(&self, a: &Value, b: &Value) -> (r: bool)
        ensures
            r == self@.same(*a, *b),
        decreases a,
    {
        match (a, b) {
            (Value::Undefined, Value::Undefined) => true,
            (Value::Bool(x), Value::Bool(y)) => *x == *y,
            (Value::Number(x), Value::Number(y)) => equal_doubles(*x, *y),
            (Value::String(x), Value::String(y)) => *x < self.strings.len() && *y
                < self.strings.len() && self.strings[*x] == self.strings[*y],
            (Value::Function(_, x, _), Value::Function(_, y, _)) => *x == *y,
            (Value::NeedThis(x), Value::NeedThis(y)) => self.same_value(x, y),
            (Value::WithThis(x, s), Value::WithThis(y, t)) => self.same_value(x, y)
                && self.same_value(s, t),
            (Value::BuiltinFunction(x), Value::BuiltinFunction(y)) => *x == *y,
            (Value::Object(x), Value::Object(y)) => *x == *y,
            (Value::Array(x), Value::Array(y)) => *x == *y,
            (Value::Arguments, Value::Arguments) => true,
            _ => false,
        }
    }

    /// Sets the member `key` of the object at `obj` to `val`.
    pub fn set_property(&mut self, obj: usize, key: String, val: Value)
        requires
            obj < old(self)@.objects.len(),
        ensures
            final(self)@ == old(self)@.set_property(obj, key@, val),
    {
        self.objects[obj].insert(key, val);
        assert(self@.objects =~= old(self)@.set_property(obj, key@, val).objects);
        assert(self@.arrays =~= old(self)@.arrays);
        assert(self@.callobjs =~= old(self)@.callobjs);
    }
}

impl HeapModel {
    /// Whether two values are equal in the language: numbers as IEEE-754 has
    /// it, strings by their text, and objects, arrays and functions by
    /// identity.
    pub open spec fn same(self, a: Value, b: Value) -> bool
        decreases a,
    {
        match (a, b) {
            (Value::Undefined, Value::Undefined) => true,
            (Value::Bool(x), Value::Bool(y)) => x == y,
            (Value::Number(x), Value::Number(y)) => doubles_equal(x, y),
            (Value::String(x), Value::String(y)) => x < self.strings.len() && y
                < self.strings.len() && self.strings[x as int] == self.strings[y as int],
            (Value::Function(_, x, _), Value::Function(_, y, _)) => x == y,
            (Value::NeedThis(x), Value::NeedThis(y)) => self.same(*x, *y),
            (Value::WithThis(x, s), Value::WithThis(y, t)) => self.same(*x, *y) && self.same(
                *s,
                *t,
            ),
            (Value::BuiltinFunction(x), Value::BuiltinFunction(y)) => x == y,
            (Value::Object(x), Value::Object(y)) => x == y,
            (Value::Array(x), Value::Array(y)) => x == y,
            (Value::Arguments, Value::Arguments) => true,
            _ => false,
        }
    }

    /// The text of `v` where it is a string of the heap or a whole number
    /// below 2^53 in absolute value.
    pub open spec fn text_of(self, v: Value) -> Option<Seq<char>> {
        match v {
            Value::String(s) => if s < self.strings.len() {
                Some(self.strings[s as int])
            } else {
                None
            },
            Value::Number(n) => whole_text(n),
            _ => None,
        }
    }

    /// The heap after the member `key` of the object at `obj` was set to `val`.
    pub open spec fn set_property(self, obj: usize, key: Seq<char>, val: Value) -> HeapModel {
        HeapModel {
            objects: self.objects.update(obj as int, self.objects[obj as int].insert(key, val)),
            ..self
        }
    }
}

/// The value found for `key` in the object `obj` or along its prototype chain:
/// the chain is followed through the member `__proto__` for at most `fuel`
/// objects of the heap, and ends at an object whose `__proto__` is no object
/// of the heap.
pub open spec fn find_val(
    objects: Seq<Map<Seq<char>, Value>>,
    obj: Map<Seq<char>, Value>,
    key: Seq<char>,
    fuel: nat,
) -> Value
    decreases fuel,
{
    if obj.contains_key(key) {
        obj[key]
    } else if fuel > 0 && obj.contains_key("__proto__"@) {
        match obj["__proto__"@] {
            Value::Object(proto) => if proto < objects.len() {
                find_val(objects, objects[proto as int], key, (fuel - 1) as nat)
            } else {
                Value::Undefined
            },
            _ => Value::Undefined,
        }
    } else {
        Value::Undefined
    }
}

impl HeapModel {
    /// The value of the member `key` of `obj`, looked up along the prototype
    /// chain. A chain that is longer than the heap has objects runs in a
    /// cycle, and the lookup gives up on it.
    pub open spec fn lookup(self, obj: Map<Seq<char>, Value>, key: Seq<char>) -> Value {
        find_val(self.objects, obj, key, self.objects.len())
    }

    /// The index of the object that holds the binding of `name`, looked up
    /// from the record `start` through at most `fuel` parents.
    pub open spec fn binding_of(self, start: Activation, name: Seq<char>, fuel: nat) -> Option<
        usize,
    >
        decreases fuel,
    {
        if start.vals >= self.objects.len() {
            None
        } else if self.objects[start.vals as int].contains_key(name) {
            Some(start.vals)
        } else {
            match start.parent {
                Some(p) => if fuel > 0 && p < self.callobjs.len() {
                    self.binding_of(self.callobjs[p as int], name, (fuel - 1) as nat)
                } else {
                    None
                },
                None => None,
            }
        }
    }

    /// The index of the object that an assignment to `name` writes to: the
    /// bindings of the first record from `start` that binds `name`, and those
    /// of the root of the chain if none does.
    pub open spec fn assign_target(self, start: Activation, name: Seq<char>, fuel: nat) -> Option<
        usize,
    >
        decreases fuel,
    {
        if start.vals >= self.objects.len() {
            None
        } else if self.objects[start.vals as int].contains_key(name) {
            Some(start.vals)
        } else {
            match start.parent {
                Some(p) => if fuel > 0 && p < self.callobjs.len() {
                    self.assign_target(self.callobjs[p as int], name, (fuel - 1) as nat)
                } else {
                    None
                },
                None => Some(start.vals),
            }
        }
    }
}

/// Looks `key` up in `obj` and along its prototype chain.
pub fn obj_find_val(heap: &Heap, obj: &StringHashMap<Value>, key: &str) -> (r: Value)
    ensures
        r == heap@.lookup(obj@, key@),
{
    let mut cur = obj;
    let mut fuel = heap.objects.len();
    loop
        invariant
            fuel <= heap.objects@.len(),
            heap@.lookup(obj@, key@) == find_val(heap@.objects, cur@, key@, fuel as nat),
        decreases fuel,
    {
        match cur.get(key) {
            Some(v) => {
                return v.clone();
            },
            None => {},
        }
        if fuel == 0 {
            return Value::Undefined;
        }
        match cur.get("__proto__") {
            Some(Value::Object(proto)) => {
                if *proto < heap.objects.len() {
                    cur = &heap.objects[*proto];
                    fuel = fuel - 1;
                } else {
                    return Value::Undefined;
                }
            },
            _ => {
                return Value::Undefined;
            },
        }
    }
}

impl CallObject {
    /// A record without parameters and without a parent, with fresh, empty
    /// bindings and the given `this`.
    pub fn new(heap: &mut Heap, this: Option<usize>) -> (r: CallObject)
        ensures
            r@ == (Activation {
                vals: old(heap)@.objects.len() as usize,
                param_names: Seq::empty(),
                this: this,
                parent: None,
            }),
            final(heap)@ == (HeapModel {
                objects: old(heap)@.objects.push(Map::empty()),
                ..old(heap)@
            }),
    {
        let vals = heap.new_object(StringHashMap::new());
        let r = CallObject { vals, param_names: Vec::new(), this, parent: None };
        assert(r@.param_names =~= Seq::empty());
        r
    }

    /// Makes the global record: its bindings are fresh and empty and are also
    /// its `this`. Returns its index in the heap.
    pub fn new_global(heap: &mut Heap) -> (r: usize)
        ensures
            r == old(heap)@.callobjs.len(),
            final(heap)@ == (HeapModel {
                objects: old(heap)@.objects.push(Map::empty()),
                callobjs: old(heap)@.callobjs.push(
                    Activation {
                        vals: old(heap)@.objects.len() as usize,
                        param_names: Seq::empty(),
                        this: Some(old(heap)@.objects.len() as usize),
                        parent: None,
                    },
                ),
                ..old(heap)@
            }),
    {
        let vals = heap.new_object(StringHashMap::new());
        let callobj = CallObject { vals, param_names: Vec::new(), this: Some(vals), parent: None };
        assert(callobj@.param_names =~= Seq::empty());
        heap.new_callobj(callobj)
    }

    /// Whether the bindings of the record are in the heap.
    pub open spec fn wf(&self, heap: &Heap) -> bool {
        self.vals < heap@.objects.len()
    }

    /// Declares `name` in this record with the value `val`.
    pub fn set_value(&self, heap: &mut Heap, name: String, val: Value)
        requires
            self.wf(old(heap)),
        ensures
            final(heap)@ == old(heap)@.set_property(self.vals, name@, val),
    {
        heap.set_property(self.vals, name, val);
    }

    /// Assigns `val` to `name` in the first record of the chain that binds
    /// it, and in the root of the chain if none does. Fails, and changes
    /// nothing, where the chain is broken or does not end.
    pub fn set_value_if_exist(&self, heap: &mut Heap, name: String, val: Value) -> (r: Result<
        (),
        RuntimeError,
    >)
        ensures
            match old(heap)@.assign_target(self@, name@, old(heap)@.callobjs.len()) {
                Some(obj) => r is Ok && obj < old(heap)@.objects.len() && final(heap)@ == old(
                    heap,
                )@.set_property(obj, name@, val),
                None => r == Err::<(), RuntimeError>(RuntimeError::BadReference) && final(heap)@
                    == old(heap)@,
            },
    {
        let mut cur = self;
        let mut fuel = heap.callobjs.len();
        let mut target: Option<usize> = None;
        loop
            invariant_except_break
                target is None,
                heap@.assign_target(self@, name@, heap@.callobjs.len()) == heap@.assign_target(
                    cur@,
                    name@,
                    fuel as nat,
                ),
            invariant
                fuel <= heap.callobjs@.len(),
                *heap == *old(heap),
            ensures
                *heap == *old(heap),
                target == heap@.assign_target(self@, name@, heap@.callobjs.len()),
                target matches Some(obj) ==> obj < heap@.objects.len(),
            decreases fuel,
        {
            if cur.vals >= heap.objects.len() {
                break ;
            }
            if heap.objects[cur.vals].contains_key(name.as_str()) {
                target = Some(cur.vals);
                break ;
            }
            match cur.parent {
                Some(p) => {
                    if fuel > 0 && p < heap.callobjs.len() {
                        cur = &heap.callobjs[p];
                        fuel = fuel - 1;
                    } else {
                        break ;
                    }
                },
                None => {
                    target = Some(cur.vals);
                    break ;
                },
            }
        }
        match target {
            Some(obj) => {
                heap.set_property(obj, name, val);
                Ok(())
            },
            None => Err(RuntimeError::BadReference),
        }
    }

    /// The value bound to `name` in the first record of the chain that binds
    /// it. Fails where no record of the chain binds it.
    pub fn get_value(&self, heap: &Heap, name: &String) -> (r: Result<Value, RuntimeError>)
        ensures
            match heap@.binding_of(self@, name@, heap@.callobjs.len()) {
                Some(obj) => obj < heap@.objects.len() && heap@.objects[obj as int].contains_key(
                    name@,
                ) && r == Ok::<Value, RuntimeError>(heap@.objects[obj as int][name@]),
                None => r == Err::<Value, RuntimeError>(RuntimeError::UnboundName),
            },
    {
        let mut cur = self;
        let mut fuel = heap.callobjs.len();
        loop
            invariant
                fuel <= heap.callobjs@.len(),
                heap@.binding_of(self@, name@, heap@.callobjs.len()) == heap@.binding_of(
                    cur@,
                    name@,
                    fuel as nat,
                ),
            decreases fuel,
        {
            if cur.vals >= heap.objects.len() {
                return Err(RuntimeError::UnboundName);
            }
            match heap.objects[cur.vals].get(name.as_str()) {
                Some(v) => {
                    return Ok(v.clone());
                },
                None => {},
            }
            match cur.parent {
                Some(p) => {
                    if fuel > 0 && p < heap.callobjs.len() {
                        cur = &heap.callobjs[p];
                        fuel = fuel - 1;
                    } else {
                        return Err(RuntimeError::UnboundName);
                    }
                },
                None => {
                    return Err(RuntimeError::UnboundName);
                },
            }
        }
    }
}

impl Value {
    /// The text of a string of the heap, and of a whole number below 2^53 in
    /// absolute value; `None` for every other value. The text of any other
    /// number is a matter of floating-point formatting and is not made here.
    pub fn to_string(self, heap: &Heap) -> (r: Option<String>)
        ensures
            r is Some <==> heap@.text_of(self) is Some,
            r is Some ==> r->Some_0@ == heap@.text_of(self)->Some_0,
    {
        match self {
            Value::String(s) => {
                if s < heap.strings.len() {
                    Some(heap.strings[s].clone())
                } else {
                    None
                }
            },
            Value::Number(n) => format_whole(n),
            _ => None,
        }
    }
}

/// The members of the prototype that every array gets: `push`.
pub open spec fn array_prototype() -> Map<Seq<char>, Value> {
    Map::<Seq<char>, Value>::empty().insert(
        "push"@,
        Value::NeedThis(Box::new(Value::BuiltinFunction(ARRAY_PUSH))),
    )
}

impl ArrayValue {
    /// An array of the elements `arr`. Its length is their number, and its
    /// `__proto__` is a fresh object of the heap that holds `push`.
    pub fn new(heap: &mut Heap, arr: Vec<Value>) -> (r: ArrayValue)
        ensures
            r@ == (ArrayModel {
                elems: arr@,
                length: arr@.len() as usize,
                obj: Map::<Seq<char>, Value>::empty().insert(
                    "__proto__"@,
                    Value::Object(old(heap)@.objects.len() as usize),
                ),
            }),
            final(heap)@ == (HeapModel {
                objects: old(heap)@.objects.push(array_prototype()),
                ..old(heap)@
            }),
    {
        let len = arr.len();
        let mut proto = StringHashMap::new();
        proto.insert(
            String::from_str("push"),
            Value::NeedThis(Box::new(Value::BuiltinFunction(ARRAY_PUSH))),
        );
        let proto = heap.new_object(proto);
        let mut obj = StringHashMap::new();
        obj.insert(String::from_str("__proto__"), Value::Object(proto));
        ArrayValue { elems: arr, length: len, obj }
    }
}

/// The members of the object that every function has as its `__proto__`: `call`.
pub open spec fn function_prototype() -> Map<Seq<char>, Value> {
    Map::<Seq<char>, Value>::empty().insert(
        "call"@,
        Value::NeedThis(Box::new(Value::BuiltinFunction(FUNCTION_PROTOTYPE_CALL))),
    )
}

/// Makes the value of a user function whose code starts at `pos` and whose
/// captured activation record is `callobj`.
///
/// Three objects are added to the heap, in this order: the function's
/// `prototype`, whose `constructor` is the function itself; the function's
/// `__proto__`, which holds `call`; and the function's own property object,
/// which holds the two. The record is added to the heap as well.
pub fn new_value_function(heap: &mut Heap, pos: usize, callobj: CallObject) -> (r: Value)
    ensures
        r == Value::Function(
            pos,
            (old(heap)@.objects.len() + 2) as usize,
            old(heap)@.callobjs.len() as usize,
        ),
        final(heap)@ == (HeapModel {
            objects: old(heap)@.objects.push(
                Map::<Seq<char>, Value>::empty().insert("constructor"@, r),
            ).push(function_prototype()).push(
                Map::<Seq<char>, Value>::empty().insert(
                    "prototype"@,
                    Value::Object(old(heap)@.objects.len() as usize),
                ).insert("__proto__"@, Value::Object((old(heap)@.objects.len() + 1) as usize)),
            ),
            callobjs: old(heap)@.callobjs.push(callobj@),
            ..old(heap)@
        }),
{
    let prototype = heap.new_object(StringHashMap::new());
    let mut proto = StringHashMap::new();
    proto.insert(
        String::from_str("call"),
        Value::NeedThis(Box::new(Value::BuiltinFunction(FUNCTION_PROTOTYPE_CALL))),
    );
    let proto = heap.new_object(proto);
    let mut props = StringHashMap::new();
    props.insert(String::from_str("prototype"), Value::Object(prototype));
    props.insert(String::from_str("__proto__"), Value::Object(proto));
    let props = heap.new_object(props);
    let frame = heap.new_callobj(callobj);
    let val = Value::Function(pos, props, frame);
    heap.set_property(prototype, String::from_str("constructor"), val.clone());
    assert(heap@.objects =~= old(heap)@.objects.push(
        Map::<Seq<char>, Value>::empty().insert("constructor"@, val),
    ).push(function_prototype()).push(
        Map::<Seq<char>, Value>::empty().insert(
            "prototype"@,
            Value::Object(old(heap)@.objects.len() as usize),
        ).insert("__proto__"@, Value::Object((old(heap)@.objects.len() + 1) as usize)),
    ));
    val
}

} // verus!
