//! Laws of the machine: what holds of its instructions on every input.

use crate::bytecode_gen::{le_bytes, le_u32, lemma_le_round_trip};
use crate::call::callee_of;
use crate::member::Key;
use crate::number::{
    double_of_int, double_of_nat, index_of, lemma_whole_number_round_trip, nearest_double,
    whole_value, EXACT_SPAN,
};
use crate::value::{find_val, Activation, ArrayModel, RuntimeError, Value};
use crate::vm::{FrameKind, Machine, Signal};
use vstd::prelude::*;

verus! {

/// Sharing: a write through one holder of an object is seen through every
/// other holder.
///
/// Let the machine set the member `key` of the object at `obj` to `val`, the
/// parent on the stack being any value that names the object. Then a
/// `get_member` of that name, on any later stack with any value on it that
/// names the same object, pushes `val` (a user function excepted, which is
/// pushed with the object as its `this`).
pub proof fn law_writes_are_shared(
    m: Machine,
    below: Seq<Value>,
    later: Seq<Value>,
    obj: usize,
    key: usize,
    val: Value,
)
    requires
        m.fits(1),
        obj < m.heap.objects.len(),
        key < m.heap.strings.len(),
        m.stack == below.push(val).push(Value::Object(obj)).push(Value::String(key)),
        !(val is Function),
    ensures
        m.set_member() is Ok,
        m.set_member()->Ok_0.1 is Continue,
        ({
            let after = m.set_member()->Ok_0.0;
            let reader = Machine {
                stack: later.push(Value::Object(obj)).push(Value::String(key)),
                ..after
            };
            reader.fits(1) ==> reader.get_member() == Ok::<(Machine, Signal), RuntimeError>(
                (Machine { stack: later.push(val), ..reader.skip(1) }, Signal::Continue),
            )
        }),
{
    let len = m.stack.len() as int;
    assert(m.stack[len - 1] == Value::String(key));
    assert(m.stack[len - 2] == Value::Object(obj));
    assert(m.stack[len - 3] == val);
    let text = m.heap.strings[key as int];
    let after = m.set_member()->Ok_0.0;
    assert(after.heap == m.heap.set_property(obj, text, val));
    let reader = Machine {
        stack: later.push(Value::Object(obj)).push(Value::String(key)),
        ..after
    };
    if reader.fits(1) {
        let n = reader.stack.len() as int;
        assert(reader.stack[n - 1] == Value::String(key));
        assert(reader.stack[n - 2] == Value::Object(obj));
        assert(reader.heap.objects[obj as int].contains_key(text));
        assert(reader.heap.lookup(reader.heap.objects[obj as int], text) == val);
        assert(reader.stack.take(n - 2) =~= later);
    }
}

/// Array members: the member of an array at a whole number below 2^53 is the
/// element at that index, and absent at and past the declared length (and
/// where the declared length was raised past the elements); the member
/// `length` is the double nearest to the declared length, which below 2^53
/// is the declared length itself.
pub proof fn law_array_members(m: Machine, arr: usize, i: usize, name: usize)
    requires
        arr < m.heap.arrays.len(),
        i < EXACT_SPAN,
        name < m.heap.strings.len(),
        m.heap.strings[name as int] == "length"@,
    ensures
        m.get_of_array(arr, Value::Number(double_of_nat(i as nat))) == m.got(
            if i < m.heap.arrays[arr as int].length && i < m.heap.arrays[arr as int].elems.len() {
                m.heap.arrays[arr as int].elems[i as int]
            } else {
                Value::Undefined
            },
        ),
        m.get_of_array(arr, Value::String(name)) == m.got(
            Value::Number(nearest_double(m.heap.arrays[arr as int].length as nat)),
        ),
        m.heap.arrays[arr as int].length < EXACT_SPAN ==> whole_value(
            nearest_double(m.heap.arrays[arr as int].length as nat),
        ) == Some(m.heap.arrays[arr as int].length as int),
{
    lemma_whole_number_round_trip(i as int);
    assert(double_of_int(i as int) == double_of_nat(i as nat));
    assert(index_of(double_of_nat(i as nat)) == Some(i));
    let length = m.heap.arrays[arr as int].length;
    if length < EXACT_SPAN {
        lemma_whole_number_round_trip(length as int);
        assert(double_of_int(length as int) == double_of_nat(length as nat));
    }
}

/// Construction makes the receiver: after `construct` on a user function the
/// heap holds a new object whose `__proto__` is the member `prototype` of
/// the function's own object, the record of the call has it as `this`, and
/// the call history remembers it.
pub proof fn law_construct_makes_receiver(m: Machine)
    requires
        m.construct() is Ok,
        m.heap.objects.len() <= usize::MAX,
        m.heap.callobjs.len() <= usize::MAX,
    ensures
        ({
            let after = m.construct()->Ok_0.0;
            let made = m.heap.objects.len() as usize;
            let own = m.heap.objects[callee_of(m.stack.last())->Function_1 as int];
            &&& after.history.last().kind == FrameKind::Construct(made)
            &&& after.heap.objects[made as int].contains_key("__proto__"@)
            &&& own.contains_key("prototype"@) ==> after.heap.objects[made as int]["__proto__"@]
                == own["prototype"@]
            &&& after.heap.callobjs.last().this == Some(made)
            &&& after.scope.last() == after.heap.callobjs.len() - 1
        }),
{
    let callee = callee_of(m.stack.last());
    assert(callee is Function);
    let own = m.heap.objects[callee->Function_1 as int];
    let fresh = Map::<Seq<char>, Value>::empty().insert(
        "__proto__"@,
        if own.contains_key("prototype"@) {
            own["prototype"@]
        } else {
            Value::Undefined
        },
    );
    let after = m.enter(
        callee->Function_0,
        callee->Function_2,
        m.operand(1),
        Some(fresh),
    );
    assert(m.construct()->Ok_0.0 == after);
    assert(after.heap.objects[m.heap.objects.len() as int] == fresh);
}

/// Construction gives the receiver: a return from a construction whose
/// constructor returned no object, array or function leaves the object that
/// was made for the construction on top of the stack; through its
/// `__proto__`, members that it lacks are found in the constructor's
/// `prototype`.
pub proof fn law_construct_gives_receiver(m: Machine, made: usize, key: Seq<char>, fuel: nat)
    requires
        m.return_() is Ok,
        m.history.last().kind == FrameKind::Construct(made),
        !(m.stack.last() is Object),
        !(m.stack.last() is Array),
        !(m.stack.last() is Function),
        !(m.stack.last() is BuiltinFunction),
    ensures
        m.return_()->Ok_0.0.stack.last() == Value::Object(made),
        ({
            let objects = m.heap.objects;
            made < objects.len() && !objects[made as int].contains_key(key) && fuel > 0
                && objects[made as int].contains_key("__proto__"@) && objects[made
                as int]["__proto__"@] is Object && objects[made as int]["__proto__"@]->Object_0
                < objects.len() ==> find_val(objects, objects[made as int], key, fuel) == find_val(
                objects,
                objects[objects[made as int]["__proto__"@]->Object_0 as int],
                key,
                (fuel - 1) as nat,
            )
        }),
{
}

/// Immediates: `push_int32` on the four little-endian bytes of a signed
/// 32-bit number `k` pushes the double that is `k`, and the value of that
/// double is `k`.
pub proof fn law_push_int32(m: Machine, k: i32)
    requires
        m.fits(5),
        m.insts.subrange(m.pc + 1, m.pc + 5) == le_bytes(k),
    ensures
        m.push_int32() == Ok::<Machine, RuntimeError>(
            m.skip(5).push(Value::Number(double_of_int(k as int))),
        ),
        whole_value(double_of_int(k as int)) == Some(k as int),
{
    lemma_le_round_trip(k);
    lemma_whole_number_round_trip(k as int);
    let bytes = m.insts.subrange(m.pc + 1, m.pc + 5);
    assert(bytes[0] == m.insts[m.pc + 1]);
    assert(bytes[1] == m.insts[m.pc + 2]);
    assert(bytes[2] == m.insts[m.pc + 3]);
    assert(bytes[3] == m.insts[m.pc + 4]);
    assert(le_u32(m.insts, m.pc + 1) == le_u32(le_bytes(k), 0));
}

/// `double` followed by `pop` changes nothing but the program counter.
pub proof fn law_double_pop(m: Machine)
    requires
        m.fits(1),
        m.skip(1).fits(1),
        m.stack.len() > 0,
    ensures
        m.double() is Ok,
        m.double()->Ok_0.pop() == Ok::<Machine, RuntimeError>(
            Machine { pc: (m.pc + 2) as isize, ..m },
        ),
{
    let d = m.double()->Ok_0;
    assert(d.stack.drop_last() =~= m.stack);
}

/// A write past the declared length: the array grows to include the index,
/// the value stands at the index, the slots from the old length up to the
/// index are absent values, whatever the array held there before, and the
/// elements below the old length are as they were.
pub proof fn law_array_write_past_length(array: ArrayModel, i: usize, val: Value, k: usize)
    requires
        i >= array.length,
        i < usize::MAX,
    ensures
        array.store(i, val).length == i + 1,
        array.store(i, val).get(i) == val,
        k < array.length ==> array.store(i, val).get(k) == array.get(k),
        array.length <= k < i ==> array.store(i, val).get(k) == Value::Undefined,
        array.store(i, val).obj == array.obj,
{
}

/// Lowering the declared length forgets the elements at and past it: after
/// the length was set to `length` and then a value was stored past it, the
/// slots between are absent values.
pub proof fn law_lowered_length_forgets(
    array: ArrayModel,
    length: usize,
    i: usize,
    val: Value,
    k: usize,
)
    requires
        length <= i < usize::MAX,
        length <= k < i,
    ensures
        array.resized(length).get(k) == Value::Undefined,
        array.resized(length).store(i, val).get(k) == Value::Undefined,
{
}

/// Method binding: a user function that `get_member` finds under a name in
/// an object, in the object itself or along its prototypes, is pushed with
/// the object as its `this`.
///
/// The function that is pushed has the entry and the property object of the
/// function that was found, and an activation record of its own: a new one,
/// whose `this` is the object and which is else the record of the function
/// that was found. The objects, and with them the function that is stored
/// there, the arrays, the strings and the records that there were stay as
/// they are.
pub proof fn law_method_binding(
    m: Machine,
    obj: usize,
    key: Seq<char>,
    entry: usize,
    props: usize,
    frame: usize,
)
    requires
        m.fits(1),
        m.stack.len() >= 2,
        m.stack[m.stack.len() - 2] == Value::Object(obj),
        obj < m.heap.objects.len(),
        m.heap.key_of(m.stack[m.stack.len() - 1]) == Ok::<Key, RuntimeError>(Key::Text(key)),
        m.heap.lookup(m.heap.objects[obj as int], key) == Value::Function(entry, props, frame),
        frame < m.heap.callobjs.len(),
    ensures
        m.get_member() is Ok,
        m.get_member()->Ok_0.1 is Continue,
        ({
            let after = m.get_member()->Ok_0.0;
            let bound = m.heap.callobjs.len();
            &&& after.stack == m.stack.take(m.stack.len() - 2).push(
                Value::Function(entry, props, bound as usize),
            )
            &&& after.pc == m.pc + 1
            &&& after.heap.callobjs.len() == bound + 1
            &&& after.heap.callobjs[bound as int] == (Activation {
                this: Some(obj),
                ..m.heap.callobjs[frame as int]
            })
            &&& forall|i: int| 0 <= i < bound ==> after.heap.callobjs[i] == m.heap.callobjs[i]
            &&& after.heap.objects == m.heap.objects
            &&& after.heap.arrays == m.heap.arrays
            &&& after.heap.strings == m.heap.strings
        }),
{
}

} // verus!
