//! `Array.prototype.push`.

use crate::member::store_element;
use crate::number::{encode_u64, nearest_double};
use crate::value::{ArrayModel, RuntimeError, Value};
use crate::vm::{agrees_step, Machine, Signal, Step, VM};
use vstd::prelude::*;

verus! {

impl ArrayModel {
    /// The array after the first `n` of the values `vals` were appended at
    /// its declared length, one after the other.
    pub open spec fn extended(self, vals: Seq<Value>, n: nat) -> ArrayModel
        decreases n,
    {
        if n == 0 || n > vals.len() {
            self
        } else {
            let before = self.extended(vals, (n - 1) as nat);
            before.store(before.length, vals[n - 1])
        }
    }
}

impl Machine {
    /// `push` on the array `args[0]` with the values `args[1..]`: the values
    /// are appended at the declared length, and the new length is pushed, as
    /// the double nearest to it.
    pub open spec fn array_push(self, args: Seq<Value>) -> Result<(Machine, Signal), RuntimeError> {
        if args.len() == 0 || !(args[0] is Array) {
            Err(RuntimeError::TypeError)
        } else if args[0]->Array_0 >= self.heap.arrays.len() {
            Err(RuntimeError::BadReference)
        } else {
            let arr = args[0]->Array_0;
            let vals = args.subrange(1, args.len() as int);
            let array = self.heap.arrays[arr as int];
            if array.length + vals.len() > usize::MAX {
                Err(RuntimeError::OutOfRange)
            } else {
                let grown = array.extended(vals, vals.len());
                let heap = self.heap.set_array(arr, grown);
                Ok(
                    (
                        Machine {
                            heap: heap,
                            ..self.push(Value::Number(nearest_double(grown.length as nat)))
                        },
                        Signal::Continue,
                    ),
                )
            }
        }
    }
}

proof fn lemma_extended_length(array: ArrayModel, vals: Seq<Value>, n: nat)
    requires
        n <= vals.len(),
        array.length + n <= usize::MAX,
    ensures
        array.extended(vals, n).length == array.length + n,
        array.extended(vals, n).obj == array.obj,
    decreases n,
{
    if n > 0 {
        lemma_extended_length(array, vals, (n - 1) as nat);
    }
}

/// `Array.prototype.push`
pub fn array_push(vm: &mut VM, args: &Vec<Value>) -> (r: Result<Step, RuntimeError>)
    ensures
        agrees_step(old(vm)@.array_push(args@), old(vm)@, final(vm)@, r),
{
    if args.len() == 0 {
        return Err(RuntimeError::TypeError);
    }
    let arr = match &args[0] {
        Value::Array(arr) => *arr,
        _ => {
            return Err(RuntimeError::TypeError);
        },
    };
    if arr >= vm.heap.arrays.len() {
        return Err(RuntimeError::BadReference);
    }
    let count = args.len() - 1;
    if vm.heap.arrays[arr].length > usize::MAX - count {
        return Err(RuntimeError::OutOfRange);
    }
    let ghost vals = args@.subrange(1, args@.len() as int);
    let ghost start = vm@.heap.arrays[arr as int];
    assert(vm@.heap.arrays =~= old(vm)@.heap.arrays.update(arr as int, start));
    let mut i: usize = 0;
    while i < count
        invariant
            i <= count,
            count == args@.len() - 1,
            count == vals.len(),
            vals == args@.subrange(1, args@.len() as int),
            arr < old(vm)@.heap.arrays.len(),
            start == old(vm)@.heap.arrays[arr as int],
            start.length + count <= usize::MAX,
            vm@ == (Machine {
                heap: old(vm)@.heap.set_array(arr, start.extended(vals, i as nat)),
                ..old(vm)@
            }),
        decreases count - i,
    {
        proof {
            lemma_extended_length(start, vals, i as nat);
            assert(vm@.heap.arrays.len() == vm.heap.arrays@.len());
            assert(vm.heap.arrays@[arr as int]@ == vm@.heap.arrays[arr as int]);
        }
        let at = vm.heap.arrays[arr].length;
        store_element(vm, arr, at, args[i + 1].clone());
        proof {
            assert(vm@.heap.arrays =~= old(vm)@.heap.arrays.update(
                arr as int,
                start.extended(vals, (i + 1) as nat),
            ));
        }
        i = i + 1;
    }
    proof {
        lemma_extended_length(start, vals, count as nat);
        assert(vm@.heap.arrays.len() == vm.heap.arrays@.len());
        assert(vm.heap.arrays@[arr as int]@ == vm@.heap.arrays[arr as int]);
    }
    let length = vm.heap.arrays[arr].length;
    vm.state.stack.push(Value::Number(encode_u64(length as u64)));
    Ok(Step::Continue)
}

} // verus!
