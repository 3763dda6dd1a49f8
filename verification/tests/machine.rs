use rapidus_core::arith::{binary, neg};
use rapidus_core::builtin::{
    ARRAY_PUSH, CONSOLE_LOG, FUNCTION_PROTOTYPE_CALL, MATH_FLOOR, MATH_POW, MATH_RANDOM,
    PROCESS_STDOUT_WRITE,
};
use rapidus_core::builtins::array::array_push;
use rapidus_core::builtins::function::{
    call_function, function_new, function_prototype_apply, function_prototype_call, spread,
};
use rapidus_core::bytecode_gen::{
    ADD, ASSIGN_FUNC_REST_PARAM, CALL, CONSTRUCT, CREATE_ARRAY, CREATE_CONTEXT, CREATE_OBJECT,
    DECL_VAR, DOUBLE, END, GE, GET_ARG_LOCAL, GET_GLOBAL, GET_LOCAL, GET_MEMBER, GET_NAME, JMP,
    JMP_IF_FALSE, LAND, LOR, LT, NE, NEG, POP, PUSH_ARGUMENTS, PUSH_CONST, PUSH_FALSE,
    PUSH_INT32, PUSH_INT8, PUSH_THIS, PUSH_TRUE, RETURN, SET_ARG_LOCAL, SET_CUR_CALLOBJ,
    SET_GLOBAL, SET_LOCAL, SET_MEMBER, SET_NAME,
};
use rapidus_core::call::{call, construct, construction_result, return_, unwrap_callee};
use rapidus_core::member::{get_member, member_name, set_member, utf16_length, MemberName};
use rapidus_core::node::BinOp;
use rapidus_core::stack_ops::{double, jmp, jmp_if_false, pop, push_int32, push_int8};
use rapidus_core::value::{
    clone_values, new_value_function, obj_find_val, ArrayValue, CallObject, Heap, RuntimeError,
    Value,
};
use rapidus_core::vm::{ConstantTable, Frame, FrameKind, Step, VM};
use vstd::hash_map::StringHashMap;

fn machine(code: Vec<u8>) -> VM {
    let mut heap = Heap::new();
    let global = CallObject::new_global(&mut heap);
    let mut vm = VM::new(heap, global);
    vm.insts = code;
    vm
}

fn number(x: f64) -> Value {
    Value::Number(x.to_bits())
}

fn string(vm: &mut VM, text: &str) -> Value {
    Value::String(vm.heap.new_string(text.to_string()))
}

fn object(vm: &mut VM, members: Vec<(&str, Value)>) -> usize {
    let mut map = StringHashMap::new();
    for (k, v) in members {
        map.insert(k.to_string(), v);
    }
    vm.heap.new_object(map)
}

fn array(vm: &mut VM, elems: Vec<Value>) -> usize {
    let a = ArrayValue::new(&mut vm.heap, elems);
    vm.heap.new_array(a)
}

fn with32(code: u8, n: i32) -> Vec<u8> {
    let mut v = vec![code];
    v.extend_from_slice(&n.to_le_bytes());
    v
}

#[test]
fn new_machine_has_the_host_objects() {
    let mut vm = machine(vec![]);
    assert_eq!(vm.state.pc, 0);
    assert_eq!(vm.state.stack.len(), 0);
    assert_eq!(vm.state.scope, vec![0]);
    assert_eq!(
        vm.state.history,
        vec![Frame { bp: 0, lp: 0, sp: 0, return_pc: 0, kind: FrameKind::Toplevel }]
    );
    let globals = vm.heap.callobjs[0].vals;
    assert_eq!(vm.heap.callobjs[0].this, Some(globals));
    assert_eq!(vm.heap.callobjs[0].parent, None);
    let member = |vm: &VM, name: &str, key: &str| match vm.heap.objects[globals].get(name) {
        Some(Value::Object(o)) => vm.heap.objects[*o].get(key).cloned(),
        other => panic!("{} is {:?}", name, other),
    };
    assert_eq!(member(&vm, "console", "log"), Some(Value::BuiltinFunction(CONSOLE_LOG)));
    assert_eq!(member(&vm, "Math", "floor"), Some(Value::BuiltinFunction(MATH_FLOOR)));
    assert_eq!(member(&vm, "Math", "random"), Some(Value::BuiltinFunction(MATH_RANDOM)));
    assert_eq!(member(&vm, "Math", "pow"), Some(Value::BuiltinFunction(MATH_POW)));
    let stdout = match member(&vm, "process", "stdout") {
        Some(Value::Object(o)) => o,
        other => panic!("{:?}", other),
    };
    assert_eq!(
        vm.heap.objects[stdout].get("write"),
        Some(&Value::BuiltinFunction(PROCESS_STDOUT_WRITE))
    );
    let table = ConstantTable::new();
    assert!(table.value.is_empty() && table.string.is_empty());
    assert!(vm.const_table.value.is_empty());
    assert_eq!(vm.step(), Err(RuntimeError::BadProgramCounter));
}

#[test]
fn push_int32_pushes_every_immediate_as_its_double() {
    for k in [0i32, 1, -1, 5, 100000000, -37, i32::MAX, i32::MIN] {
        let mut vm = machine(with32(PUSH_INT32, k));
        assert_eq!(push_int32(&mut vm), Ok(()));
        assert_eq!(vm.state.stack, vec![number(k as f64)]);
        assert_eq!(vm.state.pc, 5);
    }
}

#[test]
fn push_int8_reads_the_byte_unsigned() {
    let mut vm = machine(vec![PUSH_INT8, 200]);
    assert_eq!(push_int8(&mut vm), Ok(()));
    assert_eq!(vm.state.stack, vec![number(200.0)]);
    assert_eq!(vm.state.pc, 2);
}

#[test]
fn truncated_operand_is_a_bad_program_counter() {
    let mut vm = machine(vec![PUSH_INT32, 1, 2, 3]);
    assert_eq!(push_int32(&mut vm), Err(RuntimeError::BadProgramCounter));
    assert_eq!(vm.step(), Err(RuntimeError::BadProgramCounter));
    vm.state.pc = -1;
    assert_eq!(vm.step(), Err(RuntimeError::BadProgramCounter));
}

#[test]
fn unknown_opcode_is_rejected() {
    let mut vm = machine(vec![49]);
    assert_eq!(vm.step(), Err(RuntimeError::BadOpcode));
    let mut vm = machine(vec![255]);
    assert_eq!(vm.do_run(10), Err(RuntimeError::BadOpcode));
}

#[test]
fn double_then_pop_changes_only_the_program_counter() {
    let mut vm = machine(vec![DOUBLE, POP]);
    let s = string(&mut vm, "s");
    vm.state.stack = vec![number(1.0), s];
    let before = clone_values(&vm.state.stack);
    let objects = vm.heap.objects.len();
    assert_eq!(double(&mut vm), Ok(()));
    assert_eq!(vm.state.stack.len(), 3);
    assert_eq!(vm.state.stack[2], vm.state.stack[1]);
    assert_eq!(pop(&mut vm), Ok(()));
    assert_eq!(vm.state.stack, before);
    assert_eq!(vm.state.pc, 2);
    assert_eq!(vm.heap.objects.len(), objects);
    assert_eq!(vm.state.scope, vec![0]);
}

#[test]
fn double_and_pop_on_empty_stack_underflow() {
    let mut vm = machine(vec![DOUBLE]);
    assert_eq!(double(&mut vm), Err(RuntimeError::StackUnderflow));
    let mut vm = machine(vec![POP]);
    assert_eq!(pop(&mut vm), Err(RuntimeError::StackUnderflow));
    assert_eq!(vm.state.pc, 0);
    vm.state.stack = vec![number(1.0)];
    assert_eq!(pop(&mut vm), Ok(()));
    assert_eq!(vm.state.pc, 1);
    assert_eq!(vm.state.stack.len(), 0);
}

#[test]
fn constants_booleans_and_sentinels_are_pushed() {
    let mut code = vec![PUSH_TRUE, PUSH_FALSE, PUSH_ARGUMENTS];
    code.extend(with32(PUSH_CONST, 0));
    code.extend(with32(PUSH_CONST, 1));
    let mut vm = machine(code);
    vm.const_table.value.push(number(2.5));
    assert_eq!(vm.do_run(4), Ok(Step::Continue));
    assert_eq!(
        vm.state.stack,
        vec![Value::Bool(true), Value::Bool(false), Value::Arguments, number(2.5)]
    );
    assert_eq!(vm.step(), Err(RuntimeError::BadConstant));
}

#[test]
fn locals_and_arguments_index_the_stack() {
    let mut code = with32(GET_LOCAL, 1);
    code.extend(with32(SET_LOCAL, 0));
    code.extend(with32(GET_ARG_LOCAL, 0));
    code.extend(with32(SET_ARG_LOCAL, 1));
    code.push(PUSH_THIS);
    code.extend(with32(GET_LOCAL, 9));
    let mut vm = machine(code);
    vm.state.stack = vec![number(10.0), number(11.0), number(12.0), number(13.0)];
    vm.state.bp = 0;
    vm.state.lp = 2;
    assert_eq!(vm.step(), Ok(Step::Continue));
    assert_eq!(vm.state.stack.last(), Some(&number(13.0)));
    assert_eq!(vm.step(), Ok(Step::Continue));
    assert_eq!(vm.state.stack, vec![number(10.0), number(11.0), number(13.0), number(13.0)]);
    assert_eq!(vm.step(), Ok(Step::Continue));
    assert_eq!(vm.step(), Ok(Step::Continue));
    assert_eq!(vm.state.stack, vec![number(10.0), number(10.0), number(13.0), number(13.0)]);
    assert_eq!(vm.step(), Ok(Step::Continue));
    assert_eq!(vm.state.stack.last(), Some(&number(10.0)));
    assert_eq!(vm.step(), Err(RuntimeError::StackUnderflow));
}

#[test]
fn instructions_without_effect_only_move_on() {
    let mut code = with32(CREATE_CONTEXT, 3);
    code.extend(with32(GET_GLOBAL, 0));
    code.extend(with32(SET_GLOBAL, 0));
    code.extend(vec![LAND, LOR, END]);
    let mut vm = machine(code);
    vm.state.stack = vec![number(1.0)];
    assert_eq!(vm.do_run(100), Ok(Step::Finished));
    assert_eq!(vm.state.pc, 17);
    assert_eq!(vm.state.stack, vec![number(1.0)]);
}

#[test]
fn jumps_are_relative_to_the_position_after_the_operand() {
    let mut vm = machine(with32(JMP, 7));
    assert_eq!(jmp(&mut vm), Ok(()));
    assert_eq!(vm.state.pc, 12);
    assert!(vm.loop_bgn_end.is_empty());

    let mut code = vec![LAND, LAND];
    code.extend(with32(JMP, -7));
    let mut vm = machine(code);
    vm.state.pc = 2;
    assert_eq!(jmp(&mut vm), Ok(()));
    assert_eq!(vm.state.pc, 0);
    assert_eq!(vm.loop_bgn_end.get(&0), Some(&7));
}

#[test]
fn conditional_jump_branches_on_false_only() {
    for (cond, target) in [
        (Value::Bool(false), 15),
        (Value::Bool(true), 5),
        (Value::Undefined, 5),
        (number(0.0), 5),
    ] {
        let mut vm = machine(with32(JMP_IF_FALSE, 10));
        vm.state.stack = vec![cond];
        assert_eq!(jmp_if_false(&mut vm), Ok(()));
        assert_eq!(vm.state.pc, target);
        assert_eq!(vm.state.stack.len(), 0);
    }
    let mut vm = machine(with32(JMP_IF_FALSE, 10));
    assert_eq!(jmp_if_false(&mut vm), Err(RuntimeError::StackUnderflow));
}

#[test]
fn endless_loop_stops_when_the_fuel_is_used_up() {
    let mut vm = machine(with32(JMP, -5));
    assert_eq!(vm.do_run(1000), Ok(Step::Continue));
    assert_eq!(vm.state.pc, 0);
    assert_eq!(vm.do_run(0), Ok(Step::Continue));
    let mut other = machine(vec![]);
    assert_eq!(other.run(vec![PUSH_TRUE, END], 1), Ok(Step::Continue));
    assert_eq!(other.do_run(1), Ok(Step::Finished));
    assert_eq!(other.state.stack, vec![Value::Bool(true)]);
}

#[test]
fn neg_changes_the_sign_of_a_number_only() {
    let mut vm = machine(vec![NEG]);
    vm.state.stack = vec![number(3.0)];
    assert_eq!(neg(&mut vm), Ok(()));
    assert_eq!(vm.state.stack, vec![number(-3.0)]);
    let mut vm = machine(vec![NEG]);
    vm.state.stack = vec![Value::Bool(true)];
    assert_eq!(neg(&mut vm), Err(RuntimeError::TypeError));
    let mut vm = machine(vec![NEG]);
    assert_eq!(neg(&mut vm), Err(RuntimeError::StackUnderflow));
}

#[test]
fn numbers_are_handed_to_the_driver() {
    let mut vm = machine(vec![ADD]);
    vm.state.stack = vec![Value::Undefined, number(1.5), number(2.0)];
    assert_eq!(vm.step(), Ok(Step::Arith(BinOp::Add, 1.5f64.to_bits(), 2f64.to_bits())));
    assert_eq!(vm.state.stack, vec![Value::Undefined]);
    assert_eq!(vm.state.pc, 1);
    vm.state.stack = vec![number(9007199254740991.0), number(1.0)];
    assert_eq!(
        binary(&mut vm, &BinOp::Add),
        Ok(Step::Arith(BinOp::Add, 9007199254740991f64.to_bits(), 1f64.to_bits()))
    );
    vm.state.stack = vec![number(1.0), number(2.0)];
    assert_eq!(binary(&mut vm, &BinOp::LAnd), Err(RuntimeError::TypeError));
    assert_eq!(
        binary(&mut vm, &BinOp::Div),
        Ok(Step::Arith(BinOp::Div, 1f64.to_bits(), 2f64.to_bits()))
    );
    vm.state.stack = vec![number(1.0), number(0.0)];
    assert_eq!(
        binary(&mut vm, &BinOp::Div),
        Ok(Step::Arith(BinOp::Div, 1f64.to_bits(), 0f64.to_bits()))
    );
    vm.state.stack = vec![number(-6.0), number(3.0)];
    assert_eq!(binary(&mut vm, &BinOp::Div), Ok(Step::Continue));
    assert_eq!(vm.state.stack, vec![number(-2.0)]);
    assert_eq!(binary(&mut vm, &BinOp::Add), Err(RuntimeError::StackUnderflow));
}

#[test]
fn whole_numbers_are_added_subtracted_and_multiplied_by_the_machine() {
    for (op, x, y, expected) in [
        (BinOp::Add, 1.0, 2.0, 3.0),
        (BinOp::Add, -5.0, 5.0, 0.0),
        (BinOp::Sub, 10.0, 1.0, 9.0),
        (BinOp::Sub, 1.0, 10.0, -9.0),
        (BinOp::Mul, -3.0, 7.0, -21.0),
        (BinOp::Mul, 94906265.0, 94906265.0, 9007199136250225.0),
    ] {
        let mut vm = machine(vec![]);
        vm.state.stack = vec![number(x), number(y)];
        assert_eq!(binary(&mut vm, &op), Ok(Step::Continue));
        assert_eq!(vm.state.stack, vec![number(expected)], "{:?} {} {}", op, x, y);
    }
}

#[test]
fn integer_operators_work_on_truncated_numbers() {
    for (op, x, y, expected) in [
        (BinOp::Rem, 7.9, 3.2, 1.0),
        (BinOp::Rem, -7.0, 3.0, -1.0),
        (BinOp::Rem, 7.0, -3.0, 1.0),
        (BinOp::And, 12.7, 10.0, 8.0),
        (BinOp::And, -1.0, 255.0, 255.0),
        (BinOp::Or, 12.0, 3.0, 15.0),
        (BinOp::Or, -8.0, 1.0, -7.0),
        (BinOp::Or, f64::NAN, 1.0, 1.0),
        (BinOp::And, 1e300, 255.0, 255.0),
    ] {
        let mut vm = machine(vec![]);
        vm.state.stack = vec![number(x), number(y)];
        assert_eq!(binary(&mut vm, &op), Ok(Step::Continue));
        assert_eq!(vm.state.stack, vec![number(expected)], "{:?} {} {}", op, x, y);
    }
    let mut vm = machine(vec![]);
    vm.state.stack = vec![number(1.0), number(0.5)];
    assert_eq!(binary(&mut vm, &BinOp::Rem), Err(RuntimeError::DivisionByZero));
    vm.state.stack = vec![number(-1e300), number(-1.0)];
    assert_eq!(binary(&mut vm, &BinOp::Rem), Err(RuntimeError::OutOfRange));
}

#[test]
fn strings_are_concatenated_by_the_machine() {
    let mut vm = machine(vec![ADD]);
    let a = string(&mut vm, "foo");
    let b = string(&mut vm, "bär");
    vm.state.stack = vec![a, b];
    assert_eq!(vm.step(), Ok(Step::Continue));
    match vm.state.stack[..] {
        [Value::String(s)] => assert_eq!(vm.heap.strings[s], "foobär"),
        _ => panic!("{:?}", vm.state.stack),
    }
    assert_eq!(vm.state.pc, 1);
    let a = string(&mut vm, "x");
    let b = string(&mut vm, "y");
    vm.state.stack = vec![a, b];
    assert_eq!(binary(&mut vm, &BinOp::Sub), Err(RuntimeError::TypeError));
    vm.state.stack = vec![Value::String(999), b_clone(&vm)];
    assert_eq!(binary(&mut vm, &BinOp::Add), Err(RuntimeError::BadReference));
}

fn b_clone(vm: &VM) -> Value {
    Value::String(vm.heap.strings.len() - 1)
}

#[test]
fn string_and_number_wait_for_the_text_of_the_number() {
    let mut vm = machine(vec![ADD]);
    let a = string(&mut vm, "n=");
    vm.state.stack = vec![a, number(1.5)];
    assert_eq!(vm.step(), Ok(Step::FormatNumber(1)));
    assert_eq!(vm.state.pc, 0);
    assert_eq!(vm.state.stack.len(), 2);
    vm.state.stack.swap(0, 1);
    assert_eq!(vm.step(), Ok(Step::FormatNumber(0)));
    assert_eq!(binary(&mut vm, &BinOp::Mul), Err(RuntimeError::TypeError));
    for huge in [f64::NAN, f64::INFINITY, 9007199254740992.0, 1e300] {
        vm.state.stack[0] = number(huge);
        assert_eq!(vm.step(), Ok(Step::FormatNumber(0)));
    }
}

#[test]
fn string_and_whole_number_are_concatenated_by_the_machine() {
    for (x, expected) in [
        (1.0, "n=1"),
        (0.0, "n=0"),
        (-0.0, "n=-0"),
        (-42.0, "n=-42"),
        (9007199254740991.0, "n=9007199254740991"),
    ] {
        let mut vm = machine(vec![ADD]);
        let a = string(&mut vm, "n=");
        vm.state.stack = vec![a, number(x)];
        assert_eq!(vm.step(), Ok(Step::Continue));
        match vm.state.stack[..] {
            [Value::String(s)] => assert_eq!(vm.heap.strings[s], expected),
            _ => panic!("{:?}", vm.state.stack),
        }
        assert_eq!(vm.state.pc, 1);
    }
    let mut vm = machine(vec![ADD]);
    let a = string(&mut vm, "px");
    vm.state.stack = vec![number(12.0), a];
    assert_eq!(vm.step(), Ok(Step::Continue));
    match vm.state.stack[..] {
        [Value::String(s)] => assert_eq!(vm.heap.strings[s], "12px"),
        _ => panic!("{:?}", vm.state.stack),
    }
    vm.state.stack = vec![number(12.0), Value::String(99)];
    assert_eq!(binary(&mut vm, &BinOp::Add), Err(RuntimeError::BadReference));
}

#[test]
fn mismatched_operands_stay_on_the_stack() {
    let mut vm = machine(vec![ADD]);
    vm.state.stack = vec![number(9.0), Value::Bool(true), number(1.0)];
    assert_eq!(vm.step(), Ok(Step::Continue));
    assert_eq!(vm.state.stack, vec![number(9.0), Value::Bool(true), number(1.0)]);
    assert_eq!(vm.state.pc, 1);
}

#[test]
fn a_failing_instruction_leaves_the_program_counter() {
    let mut code = vec![PUSH_TRUE, NEG];
    code.extend(with32(JMP_IF_FALSE, 3));
    let mut vm = machine(code);
    assert_eq!(vm.do_run(10), Err(RuntimeError::TypeError));
    assert_eq!(vm.state.pc, 1);
    vm.state.stack.clear();
    vm.state.pc = 2;
    assert_eq!(vm.step(), Err(RuntimeError::StackUnderflow));
    assert_eq!(vm.state.pc, 2);
}

#[test]
fn writes_through_one_holder_are_seen_through_another() {
    let mut vm = machine(vec![SET_MEMBER, GET_MEMBER]);
    let obj = object(&mut vm, vec![]);
    let first = Value::Object(obj);
    let second = first.clone();
    let key = string(&mut vm, "k");
    vm.state.stack = vec![number(5.0), first, key.clone()];
    assert_eq!(set_member(&mut vm), Ok(Step::Continue));
    assert_eq!(vm.state.stack.len(), 0);
    vm.state.stack = vec![second, key];
    assert_eq!(get_member(&mut vm), Ok(Step::Continue));
    assert_eq!(vm.state.stack, vec![number(5.0)]);
}

#[test]
fn array_members_are_elements_and_length() {
    let mut vm = machine(vec![GET_MEMBER]);
    let arr = array(&mut vm, vec![number(10.0), number(20.0), number(30.0)]);
    let length = string(&mut vm, "length");
    for (key, expected) in [
        (number(0.0), number(10.0)),
        (number(2.0), number(30.0)),
        (number(3.0), Value::Undefined),
        (number(1e20), Value::Undefined),
        (number(-1.0), number(10.0)),
        (length.clone(), number(3.0)),
    ] {
        vm.state.pc = 0;
        vm.state.stack = vec![Value::Array(arr), key];
        assert_eq!(get_member(&mut vm), Ok(Step::Continue));
        assert_eq!(vm.state.stack, vec![expected]);
    }
    // a declared length above the elements reads as absent
    vm.heap.arrays[arr].length = 10;
    vm.state.pc = 0;
    vm.state.stack = vec![Value::Array(arr), number(5.0)];
    assert_eq!(get_member(&mut vm), Ok(Step::Continue));
    assert_eq!(vm.state.stack, vec![Value::Undefined]);
    // a length that is no double is rounded to the nearest
    vm.heap.arrays[arr].length = usize::MAX;
    vm.state.pc = 0;
    vm.state.stack = vec![Value::Array(arr), length];
    assert_eq!(get_member(&mut vm), Ok(Step::Continue));
    assert_eq!(vm.state.stack, vec![number(usize::MAX as f64)]);
    // a fractional index is a member name
    vm.state.pc = 0;
    vm.state.stack = vec![Value::Array(arr), number(1.5)];
    assert_eq!(get_member(&mut vm), Ok(Step::FormatNumber(1)));
    vm.state.stack = vec![Value::Array(77), number(1.0)];
    assert_eq!(get_member(&mut vm), Err(RuntimeError::BadReference));
}

#[test]
fn array_method_gets_the_array_as_receiver() {
    let mut vm = machine(vec![GET_MEMBER]);
    let arr = array(&mut vm, vec![]);
    let push = string(&mut vm, "push");
    vm.state.stack = vec![Value::Array(arr), push];
    assert_eq!(get_member(&mut vm), Ok(Step::Continue));
    assert_eq!(
        vm.state.stack,
        vec![Value::WithThis(
            Box::new(Value::BuiltinFunction(ARRAY_PUSH)),
            Box::new(Value::Array(arr))
        )]
    );
}

#[test]
fn array_writes_extend_and_truncate() {
    let mut vm = machine(vec![SET_MEMBER]);
    let arr = array(&mut vm, vec![number(1.0)]);
    let length = string(&mut vm, "length");
    let other = string(&mut vm, "tag");
    vm.state.stack = vec![number(7.0), Value::Array(arr), number(3.0)];
    assert_eq!(set_member(&mut vm), Ok(Step::Continue));
    assert_eq!(
        vm.heap.arrays[arr].elems,
        vec![number(1.0), Value::Undefined, Value::Undefined, number(7.0)]
    );
    assert_eq!(vm.heap.arrays[arr].length, 4);

    vm.state.pc = 0;
    vm.state.stack = vec![number(2.0), Value::Array(arr), length.clone()];
    assert_eq!(set_member(&mut vm), Ok(Step::Continue));
    assert_eq!(vm.heap.arrays[arr].length, 2);
    assert_eq!(vm.heap.arrays[arr].elems, vec![number(1.0), Value::Undefined]);

    vm.state.pc = 0;
    vm.state.stack = vec![number(2.5), Value::Array(arr), length];
    assert_eq!(set_member(&mut vm), Ok(Step::Continue));
    assert_eq!(vm.heap.arrays[arr].length, 2);

    vm.state.pc = 0;
    vm.state.stack = vec![Value::Bool(true), Value::Array(arr), other];
    assert_eq!(set_member(&mut vm), Ok(Step::Continue));
    assert_eq!(vm.heap.arrays[arr].obj.get("tag"), Some(&Value::Bool(true)));

    vm.state.pc = 0;
    vm.state.stack = vec![Value::Bool(true), Value::Array(arr), number(1e300)];
    assert_eq!(set_member(&mut vm), Err(RuntimeError::OutOfRange));
    vm.state.stack = vec![Value::Bool(true), Value::Array(arr)];
    assert_eq!(set_member(&mut vm), Err(RuntimeError::StackUnderflow));
}

#[test]
fn string_members_are_characters_and_length() {
    let mut vm = machine(vec![GET_MEMBER]);
    let s = string(&mut vm, "a\u{1F600}b");
    let length = string(&mut vm, "length");
    let other = string(&mut vm, "size");
    vm.state.stack = vec![s.clone(), number(1.0)];
    assert_eq!(get_member(&mut vm), Ok(Step::Continue));
    match vm.state.stack[..] {
        [Value::String(c)] => assert_eq!(vm.heap.strings[c], "\u{1F600}"),
        _ => panic!("{:?}", vm.state.stack),
    }
    vm.state.pc = 0;
    vm.state.stack = vec![s.clone(), length];
    assert_eq!(get_member(&mut vm), Ok(Step::Continue));
    assert_eq!(vm.state.stack, vec![number(4.0)]);
    for key in [other, number(0.5), Value::Bool(true)] {
        vm.state.pc = 0;
        vm.state.stack = vec![s.clone(), key];
        assert_eq!(get_member(&mut vm), Ok(Step::Continue));
        assert_eq!(vm.state.stack, vec![Value::Undefined]);
    }
    vm.state.pc = 0;
    vm.state.stack = vec![s, number(3.0)];
    assert_eq!(get_member(&mut vm), Err(RuntimeError::OutOfRange));
    assert_eq!(utf16_length("a\u{1F600}b"), Some(4));
    assert_eq!(utf16_length(""), Some(0));
}

#[test]
fn object_members_are_found_along_the_prototype_chain() {
    let mut vm = machine(vec![GET_MEMBER]);
    let base = object(&mut vm, vec![("inherited", number(1.0))]);
    let derived = object(&mut vm, vec![("own", number(2.0)), ("__proto__", Value::Object(base))]);
    assert_eq!(obj_find_val(&vm.heap, &vm.heap.objects[derived], "own"), number(2.0));
    assert_eq!(obj_find_val(&vm.heap, &vm.heap.objects[derived], "inherited"), number(1.0));
    assert_eq!(obj_find_val(&vm.heap, &vm.heap.objects[derived], "missing"), Value::Undefined);
    let key = string(&mut vm, "inherited");
    vm.state.stack = vec![Value::Object(derived), key];
    assert_eq!(get_member(&mut vm), Ok(Step::Continue));
    assert_eq!(vm.state.stack, vec![number(1.0)]);

    vm.state.pc = 0;
    vm.state.stack = vec![Value::Object(derived), number(1.5)];
    assert_eq!(get_member(&mut vm), Ok(Step::FormatNumber(1)));
    assert_eq!(vm.state.pc, 0);
    // a whole number names the member that its numeral names
    vm.heap.set_property(derived, "7".to_string(), Value::Bool(true));
    vm.state.stack = vec![Value::Object(derived), number(7.0)];
    assert_eq!(get_member(&mut vm), Ok(Step::Continue));
    assert_eq!(vm.state.stack, vec![Value::Bool(true)]);
    vm.state.pc = 0;
    vm.state.stack = vec![Value::Object(derived), Value::Bool(true)];
    assert_eq!(get_member(&mut vm), Err(RuntimeError::TypeError));
    vm.state.stack = vec![Value::Object(4711), Value::Bool(true)];
    assert_eq!(get_member(&mut vm), Err(RuntimeError::BadReference));
    vm.state.stack = vec![Value::Bool(true), Value::Bool(true)];
    assert_eq!(get_member(&mut vm), Err(RuntimeError::TypeError));
    vm.state.stack = vec![Value::Bool(true)];
    assert_eq!(get_member(&mut vm), Err(RuntimeError::StackUnderflow));
}

#[test]
fn prototype_cycles_end() {
    let mut vm = machine(vec![]);
    let a = object(&mut vm, vec![]);
    let b = object(&mut vm, vec![("__proto__", Value::Object(a))]);
    vm.heap.set_property(a, "__proto__".to_string(), Value::Object(b));
    assert_eq!(obj_find_val(&vm.heap, &vm.heap.objects[a], "nowhere"), Value::Undefined);
    let dangling = object(&mut vm, vec![("__proto__", Value::Object(999))]);
    assert_eq!(obj_find_val(&vm.heap, &vm.heap.objects[dangling], "x"), Value::Undefined);
    let odd = object(&mut vm, vec![("__proto__", number(1.0))]);
    assert_eq!(obj_find_val(&vm.heap, &vm.heap.objects[odd], "x"), Value::Undefined);
}

#[test]
fn method_read_binds_the_object_as_this() {
    let mut vm = machine(vec![GET_MEMBER]);
    let template = CallObject::new(&mut vm.heap, None);
    let f = new_value_function(&mut vm.heap, 40, template);
    let (props, frame) = match f {
        Value::Function(40, props, frame) => (props, frame),
        ref other => panic!("{:?}", other),
    };
    let obj = object(&mut vm, vec![("m", f.clone())]);
    let key = string(&mut vm, "m");
    vm.state.stack = vec![Value::Object(obj), key];
    assert_eq!(get_member(&mut vm), Ok(Step::Continue));
    match vm.state.stack[..] {
        [Value::Function(40, p, bound)] => {
            assert_eq!(p, props);
            assert_ne!(bound, frame);
            assert_eq!(vm.heap.callobjs[bound].this, Some(obj));
            assert_eq!(vm.heap.callobjs[frame].this, None);
        }
        _ => panic!("{:?}", vm.state.stack),
    }
    // a function value has its own members: `prototype` and, inherited, `call`
    let call_key = string(&mut vm, "call");
    vm.state.pc = 0;
    vm.state.stack = vec![Value::NeedThis(Box::new(f.clone())), call_key];
    assert_eq!(get_member(&mut vm), Ok(Step::Continue));
    assert_eq!(
        vm.state.stack,
        vec![Value::NeedThis(Box::new(Value::BuiltinFunction(FUNCTION_PROTOTYPE_CALL)))]
    );
    let prototype = match vm.heap.objects[props].get("prototype") {
        Some(Value::Object(p)) => *p,
        other => panic!("{:?}", other),
    };
    assert_eq!(vm.heap.objects[prototype].get("constructor"), Some(&f));
}

#[test]
fn arguments_are_read_and_written_through_the_window() {
    let mut vm = machine(vec![GET_MEMBER, SET_MEMBER]);
    let length = string(&mut vm, "length");
    vm.state.bp = 1;
    vm.state.lp = 3;
    vm.state.stack =
        vec![number(0.0), number(10.0), number(20.0), number(30.0), Value::Arguments, number(1.0)];
    assert_eq!(get_member(&mut vm), Ok(Step::Continue));
    assert_eq!(vm.state.stack.last(), Some(&number(20.0)));
    assert_eq!(vm.state.stack.len(), 5);
    vm.state.pc = 0;
    vm.state.stack.push(Value::Arguments);
    vm.state.stack.push(number(2.0));
    assert_eq!(get_member(&mut vm), Ok(Step::Continue));
    assert_eq!(vm.state.stack.len(), 5);
    vm.state.pc = 0;
    vm.state.stack.push(Value::Arguments);
    vm.state.stack.push(length.clone());
    assert_eq!(get_member(&mut vm), Ok(Step::Continue));
    assert_eq!(vm.state.stack.last(), Some(&number(2.0)));
    // a window whose ends are no exact doubles is measured by the driver
    vm.state.pc = 0;
    vm.state.bp = (1 << 53) + 1;
    vm.state.lp = 1;
    vm.state.stack = vec![Value::Arguments, length];
    assert_eq!(
        get_member(&mut vm),
        Ok(Step::Arith(BinOp::Sub, 1f64.to_bits(), 9007199254740992f64.to_bits()))
    );
    vm.state.bp = 1;
    vm.state.lp = 3;
    vm.state.stack = vec![number(0.0), number(10.0), number(20.0), number(99.0), Value::Arguments, number(0.0)];
    assert_eq!(set_member(&mut vm), Ok(Step::Continue));
    assert_eq!(vm.state.stack, vec![number(0.0), number(99.0), number(20.0)]);
    vm.state.pc = 1;
    vm.state.stack = vec![number(0.0), number(10.0), number(20.0), number(99.0), Value::Arguments, number(5.0)];
    assert_eq!(set_member(&mut vm), Ok(Step::Continue));
    assert_eq!(vm.state.stack, vec![number(0.0), number(10.0), number(20.0)]);
}

#[test]
fn member_names_are_strings_and_numbers() {
    let mut vm = machine(vec![]);
    let s = string(&mut vm, "key");
    match member_name(&vm, &s) {
        Ok(MemberName::Text(t)) => assert_eq!(t, "key"),
        _ => panic!(),
    }
    assert!(matches!(member_name(&vm, &number(1.5)), Ok(MemberName::Number)));
    match member_name(&vm, &number(-3.0)) {
        Ok(MemberName::Text(t)) => assert_eq!(t, "-3"),
        _ => panic!(),
    }
    assert!(matches!(member_name(&vm, &Value::Undefined), Err(RuntimeError::TypeError)));
    assert!(matches!(member_name(&vm, &Value::String(99)), Err(RuntimeError::BadReference)));
    assert_eq!(s.clone().to_string(&vm.heap), Some("key".to_string()));
    assert_eq!(number(1.0).to_string(&vm.heap), Some("1".to_string()));
    assert_eq!(number(1.5).to_string(&vm.heap), None);
    assert_eq!(Value::Undefined.to_string(&vm.heap), None);
    assert_eq!(Value::String(99).to_string(&vm.heap), None);
}

#[test]
fn names_are_declared_assigned_and_looked_up_along_the_chain() {
    let mut code = with32(DECL_VAR, 0);
    code.extend(with32(GET_NAME, 0));
    code.extend(with32(SET_NAME, 1));
    code.extend(with32(GET_NAME, 1));
    code.extend(with32(GET_NAME, 2));
    let mut vm = machine(code);
    vm.const_table.string = vec!["a".to_string(), "b".to_string(), "c".to_string()];
    // an inner record whose parent is the global one
    let mut inner = CallObject::new(&mut vm.heap, None);
    inner.parent = Some(0);
    let inner = vm.heap.new_callobj(inner);
    vm.state.scope.push(inner);
    vm.state.stack = vec![number(2.0), number(1.0)];
    assert_eq!(vm.do_run(4), Ok(Step::Continue));
    assert_eq!(vm.state.stack, vec![number(2.0), number(1.0)]);
    let inner_vals = vm.heap.callobjs[inner].vals;
    let globals = vm.heap.callobjs[0].vals;
    assert_eq!(vm.heap.objects[inner_vals].get("a"), Some(&number(1.0)));
    assert_eq!(vm.heap.objects[inner_vals].get("b"), None);
    assert_eq!(vm.heap.objects[globals].get("b"), Some(&number(1.0)));
    assert_eq!(vm.step(), Err(RuntimeError::UnboundName));

    let record = CallObject { vals: inner_vals, param_names: vec![], this: None, parent: Some(0) };
    assert_eq!(record.get_value(&vm.heap, &"b".to_string()), Ok(number(1.0)));
    assert_eq!(record.get_value(&vm.heap, &"zz".to_string()), Err(RuntimeError::UnboundName));
    assert_eq!(record.set_value_if_exist(&mut vm.heap, "a".to_string(), number(5.0)), Ok(()));
    assert_eq!(vm.heap.objects[inner_vals].get("a"), Some(&number(5.0)));
    record.set_value(&mut vm.heap, "d".to_string(), number(6.0));
    assert_eq!(vm.heap.objects[inner_vals].get("d"), Some(&number(6.0)));
    let broken = CallObject { vals: inner_vals, param_names: vec![], this: None, parent: Some(99) };
    assert_eq!(
        broken.set_value_if_exist(&mut vm.heap, "q".to_string(), number(0.0)),
        Err(RuntimeError::BadReference)
    );
    assert_eq!(broken.copy(), broken);
}

#[test]
fn name_instructions_check_their_operands() {
    let mut vm = machine(with32(GET_NAME, 3));
    assert_eq!(vm.step(), Err(RuntimeError::BadConstant));
    let mut vm = machine(with32(SET_NAME, 0));
    vm.const_table.string.push("a".to_string());
    assert_eq!(vm.step(), Err(RuntimeError::StackUnderflow));
    vm.state.stack.push(number(1.0));
    vm.state.scope.clear();
    assert_eq!(vm.step(), Err(RuntimeError::BadReference));
}

#[test]
fn function_value_captures_the_current_record() {
    let mut vm = machine(vec![SET_CUR_CALLOBJ, SET_CUR_CALLOBJ]);
    let mut template = CallObject::new(&mut vm.heap, None);
    template.param_names = vec!["p".to_string()];
    let f = new_value_function(&mut vm.heap, 9, template);
    let frame = match f {
        Value::Function(_, _, frame) => frame,
        _ => unreachable!(),
    };
    vm.state.stack = vec![f];
    assert_eq!(vm.step(), Ok(Step::Continue));
    match vm.state.stack[..] {
        [Value::Function(9, _, captured)] => {
            assert_ne!(captured, frame);
            assert_eq!(vm.heap.callobjs[captured].parent, Some(0));
            assert_eq!(vm.heap.callobjs[captured].param_names, vec!["p".to_string()]);
            assert_eq!(vm.heap.callobjs[frame].parent, None);
        }
        _ => panic!("{:?}", vm.state.stack),
    }
    vm.state.stack = vec![number(1.0)];
    assert_eq!(vm.step(), Ok(Step::Continue));
    assert_eq!(vm.state.stack, vec![number(1.0)]);
    assert_eq!(vm.state.pc, 2);
}

#[test]
fn objects_and_arrays_are_made_from_the_stack() {
    let mut code = with32(CREATE_OBJECT, 2);
    code.extend(with32(CREATE_ARRAY, 2));
    code.extend(with32(CREATE_OBJECT, 1));
    let mut vm = machine(code);
    let k = string(&mut vm, "k");
    let l = string(&mut vm, "l");
    vm.state.stack = vec![number(9.0), number(1.0), k.clone(), number(2.0), l];
    assert_eq!(vm.step(), Ok(Step::Continue));
    let obj = match vm.state.stack[..] {
        [Value::Number(_), Value::Object(o)] => o,
        _ => panic!("{:?}", vm.state.stack),
    };
    assert_eq!(vm.heap.objects[obj].get("k"), Some(&number(1.0)));
    assert_eq!(vm.heap.objects[obj].get("l"), Some(&number(2.0)));
    assert_eq!(vm.heap.objects[obj].len(), 2);
    assert_eq!(vm.step(), Ok(Step::Continue));
    let arr = match vm.state.stack[..] {
        [Value::Array(a)] => a,
        _ => panic!("{:?}", vm.state.stack),
    };
    assert_eq!(vm.heap.arrays[arr].elems, vec![Value::Object(obj), number(9.0)]);
    assert_eq!(vm.heap.arrays[arr].length, 2);
    vm.state.stack = vec![k, number(1.0)];
    assert_eq!(vm.step(), Err(RuntimeError::TypeError));
    vm.state.stack = vec![number(1.0)];
    assert_eq!(vm.step(), Err(RuntimeError::StackUnderflow));
}

#[test]
fn rest_parameters_are_gathered_into_an_array() {
    let mut code = vec![ASSIGN_FUNC_REST_PARAM];
    code.extend_from_slice(&1i32.to_le_bytes());
    code.extend_from_slice(&0i32.to_le_bytes());
    let mut vm = machine(code);
    vm.state.bp = 1;
    vm.state.lp = 4;
    vm.state.stack =
        vec![number(0.0), number(1.0), number(2.0), number(3.0), Value::Undefined];
    assert_eq!(vm.step(), Ok(Step::Continue));
    let arr = match vm.state.stack[4] {
        Value::Array(a) => a,
        ref other => panic!("{:?}", other),
    };
    assert_eq!(vm.heap.arrays[arr].elems, vec![number(2.0), number(3.0)]);
    assert_eq!(vm.state.pc, 9);
    vm.state.pc = 0;
    vm.state.lp = 0;
    assert_eq!(vm.step(), Err(RuntimeError::OutOfRange));
}

#[test]
fn call_enters_a_user_function_and_return_leaves_it() {
    let mut code = with32(CALL, 3);
    code.push(END);
    code.push(RETURN);
    let mut vm = machine(code);
    let mut template = CallObject::new(&mut vm.heap, None);
    template.param_names = vec!["a".to_string(), "b".to_string()];
    let f = new_value_function(&mut vm.heap, 6, template);
    vm.state.stack = vec![number(0.0), number(1.0), number(2.0), number(3.0), f];
    assert_eq!(call(&mut vm), Ok(Step::Continue));
    assert_eq!(vm.state.pc, 6);
    assert_eq!(vm.state.stack, vec![number(0.0)]);
    assert_eq!(vm.state.scope.len(), 2);
    assert_eq!(
        vm.state.history.last(),
        Some(&Frame { bp: 0, lp: 0, sp: 1, return_pc: 5, kind: FrameKind::Call })
    );
    let record = &vm.heap.callobjs[vm.state.scope[1]];
    assert_eq!(vm.heap.objects[record.vals].get("a"), Some(&number(1.0)));
    assert_eq!(vm.heap.objects[record.vals].get("b"), Some(&number(2.0)));
    assert_eq!(vm.heap.objects[record.vals].len(), 2);

    vm.state.stack.push(number(7.0));
    vm.state.stack.push(number(8.0));
    assert_eq!(return_(&mut vm), Ok(Step::Continue));
    assert_eq!(vm.state.stack, vec![number(0.0), number(8.0)]);
    assert_eq!(vm.state.pc, 5);
    assert_eq!(vm.state.scope.len(), 1);
    assert_eq!(vm.state.history.len(), 1);
    // a return from the program itself ends the run
    assert_eq!(return_(&mut vm), Ok(Step::Finished));
    assert_eq!(vm.state.stack, vec![number(8.0)]);
    assert_eq!(return_(&mut vm), Err(RuntimeError::StackUnderflow));
}

#[test]
fn call_with_missing_arguments_leaves_parameters_unbound() {
    let mut vm = machine(with32(CALL, 1));
    let mut template = CallObject::new(&mut vm.heap, None);
    template.param_names = vec!["a".to_string(), "b".to_string()];
    let f = new_value_function(&mut vm.heap, 0, template);
    vm.state.stack = vec![number(1.0), f];
    assert_eq!(call(&mut vm), Ok(Step::Continue));
    let record = &vm.heap.callobjs[vm.state.scope[1]];
    assert_eq!(vm.heap.objects[record.vals].get("a"), Some(&number(1.0)));
    assert_eq!(vm.heap.objects[record.vals].get("b"), None);
}

#[test]
fn call_of_a_host_function_hands_over_receiver_and_arguments() {
    let mut vm = machine(with32(CALL, 2));
    vm.state.stack = vec![
        number(1.0),
        number(2.0),
        Value::WithThis(Box::new(Value::NeedThis(Box::new(Value::BuiltinFunction(3)))), Box::new(Value::Arguments)),
    ];
    assert_eq!(
        call(&mut vm),
        Ok(Step::Builtin(3, vec![Value::Arguments, number(1.0), number(2.0)]))
    );
    assert_eq!(vm.state.stack.len(), 0);
    assert_eq!(vm.state.pc, 5);
    vm.state.pc = 0;
    vm.state.stack = vec![number(1.0), number(2.0), Value::BuiltinFunction(0)];
    assert_eq!(call(&mut vm), Ok(Step::Builtin(0, vec![number(1.0), number(2.0)])));
    assert_eq!(
        unwrap_callee(Value::WithThis(
            Box::new(Value::WithThis(Box::new(number(1.0)), Box::new(number(2.0)))),
            Box::new(number(3.0))
        )),
        (number(1.0), Some(number(2.0)))
    );
}

#[test]
fn call_of_something_else_is_an_error() {
    let mut vm = machine(with32(CALL, 0));
    vm.state.stack = vec![number(1.0)];
    assert_eq!(call(&mut vm), Err(RuntimeError::NotCallable));
    vm.state.stack = vec![Value::Function(0, 0, 999)];
    assert_eq!(call(&mut vm), Err(RuntimeError::BadReference));
    vm.state.stack = vec![];
    assert_eq!(call(&mut vm), Err(RuntimeError::StackUnderflow));
    let mut vm = machine(with32(CONSTRUCT, 0));
    vm.state.stack = vec![Value::BuiltinFunction(0)];
    assert_eq!(construct(&mut vm), Err(RuntimeError::NotCallable));
}

#[test]
fn construction_gives_the_made_object_unless_an_object_is_returned() {
    let mut code = with32(CONSTRUCT, 1);
    code.push(RETURN);
    let mut vm = machine(code);
    let mut template = CallObject::new(&mut vm.heap, None);
    template.param_names = vec!["x".to_string()];
    let f = new_value_function(&mut vm.heap, 5, template);
    let prototype = match &f {
        Value::Function(_, props, _) => vm.heap.objects[*props].get("prototype").cloned().unwrap(),
        _ => unreachable!(),
    };
    vm.state.stack = vec![number(7.0), f.clone()];
    assert_eq!(construct(&mut vm), Ok(Step::Continue));
    let made = match vm.state.history.last().unwrap().kind {
        FrameKind::Construct(made) => made,
        other => panic!("{:?}", other),
    };
    assert_eq!(vm.heap.objects[made].get("__proto__"), Some(&prototype));
    let record = &vm.heap.callobjs[*vm.state.scope.last().unwrap()];
    assert_eq!(record.this, Some(made));
    assert_eq!(vm.heap.objects[record.vals].get("x"), Some(&number(7.0)));
    vm.state.stack.push(Value::Undefined);
    assert_eq!(vm.step(), Ok(Step::Continue));
    assert_eq!(vm.state.stack, vec![Value::Object(made)]);
    assert_eq!(vm.state.scope.len(), 1);

    assert_eq!(construction_result(number(1.0), 4), Value::Object(4));
    assert_eq!(construction_result(Value::Object(9), 4), Value::Object(9));
    assert_eq!(construction_result(Value::Array(9), 4), Value::Array(9));
    assert_eq!(construction_result(Value::BuiltinFunction(1), 4), Value::BuiltinFunction(1));
    assert_eq!(construction_result(Value::Function(1, 2, 3), 4), Value::Function(1, 2, 3));
}

#[test]
fn push_appends_at_the_declared_length() {
    let mut vm = machine(vec![]);
    let arr = array(&mut vm, vec![number(1.0)]);
    assert_eq!(
        array_push(&mut vm, &vec![Value::Array(arr), number(2.0), number(3.0)]),
        Ok(Step::Continue)
    );
    assert_eq!(vm.heap.arrays[arr].elems, vec![number(1.0), number(2.0), number(3.0)]);
    assert_eq!(vm.heap.arrays[arr].length, 3);
    assert_eq!(vm.state.stack, vec![number(3.0)]);
    assert_eq!(array_push(&mut vm, &vec![]), Err(RuntimeError::TypeError));
    assert_eq!(array_push(&mut vm, &vec![number(1.0)]), Err(RuntimeError::TypeError));
    assert_eq!(array_push(&mut vm, &vec![Value::Array(99)]), Err(RuntimeError::BadReference));
    vm.heap.arrays[arr].length = usize::MAX;
    assert_eq!(
        array_push(&mut vm, &vec![Value::Array(arr), number(2.0)]),
        Err(RuntimeError::OutOfRange)
    );
}

#[test]
fn function_call_and_apply_enter_the_callee() {
    let mut vm = machine(vec![END, RETURN]);
    let mut template = CallObject::new(&mut vm.heap, None);
    template.param_names = vec!["a".to_string(), "b".to_string()];
    let f = new_value_function(&mut vm.heap, 1, template);
    let receiver = object(&mut vm, vec![]);
    let args = vec![Value::Object(receiver), number(1.0), number(2.0)];
    assert_eq!(function_prototype_call(&mut vm, &f, &args), Ok(Step::Continue));
    assert_eq!(vm.state.pc, 1);
    let record = &vm.heap.callobjs[*vm.state.scope.last().unwrap()];
    assert_eq!(record.this, Some(receiver));
    assert_eq!(vm.heap.objects[record.vals].get("a"), Some(&number(1.0)));
    assert_eq!(vm.heap.objects[record.vals].get("b"), Some(&number(2.0)));
    vm.state.stack.push(number(5.0));
    assert_eq!(vm.step(), Ok(Step::Continue));
    assert_eq!(vm.state.pc, 0);
    assert_eq!(vm.state.stack, vec![number(5.0)]);

    let list = array(&mut vm, vec![number(8.0), number(9.0)]);
    let args = vec![Value::Undefined, Value::Array(list)];
    assert_eq!(function_prototype_apply(&mut vm, &f, &args), Ok(Step::Continue));
    let record = &vm.heap.callobjs[*vm.state.scope.last().unwrap()];
    assert_eq!(record.this, None);
    assert_eq!(vm.heap.objects[record.vals].get("a"), Some(&number(8.0)));
    assert_eq!(vm.heap.objects[record.vals].get("b"), Some(&number(9.0)));

    assert_eq!(
        function_prototype_apply(&mut vm, &Value::BuiltinFunction(2), &args),
        Ok(Step::Builtin(2, vec![Value::Undefined, number(8.0), number(9.0)]))
    );
    assert_eq!(
        function_prototype_call(&mut vm, &Value::BuiltinFunction(2), &vec![number(1.0)]),
        Ok(Step::Builtin(2, vec![number(1.0)]))
    );
    let height = vm.state.stack.len();
    assert_eq!(
        call_function(&mut vm, &Value::Undefined, Value::Undefined, vec![]),
        Ok(Step::Continue)
    );
    assert_eq!(vm.state.stack.len(), height + 1);
    assert_eq!(vm.state.stack.last(), Some(&Value::Undefined));
    assert_eq!(function_prototype_call(&mut vm, &f, &vec![]), Err(RuntimeError::TypeError));
    assert_eq!(
        function_prototype_apply(&mut vm, &f, &vec![number(1.0)]),
        Err(RuntimeError::TypeError)
    );
    assert_eq!(function_new(&mut vm, &vec![]), Err(RuntimeError::Unimplemented));
}

#[test]
fn spread_lists_elements_and_arguments() {
    let mut vm = machine(vec![]);
    let arr = array(&mut vm, vec![number(1.0), number(2.0)]);
    vm.heap.arrays[arr].length = 3;
    assert_eq!(
        spread(&vm, &Value::Array(arr)),
        vec![number(1.0), number(2.0), Value::Undefined]
    );
    vm.state.stack = vec![number(5.0), number(6.0), number(7.0)];
    vm.state.bp = 1;
    vm.state.lp = 3;
    assert_eq!(spread(&vm, &Value::Arguments), vec![number(6.0), number(7.0)]);
    assert_eq!(spread(&vm, &number(1.0)), vec![]);
    assert_eq!(spread(&vm, &Value::Array(99)), vec![]);
}

#[test]
fn values_are_cloned_deeply() {
    let v = Value::WithThis(
        Box::new(Value::NeedThis(Box::new(Value::Function(1, 2, 3)))),
        Box::new(Value::String(4)),
    );
    assert_eq!(v.clone(), v);
    let all = vec![Value::Undefined, Value::Bool(true), Value::Array(1), Value::Arguments, v];
    assert_eq!(clone_values(&all), all);
}

#[test]
fn numbers_are_compared_by_the_machine() {
    for (code, x, y, expected) in [
        (LT, 1.0, 2.0, true),
        (LT, 2.0, 1.0, false),
        (LT, f64::NAN, 1.0, false),
        (GE, 2.0, 2.0, true),
        (GE, f64::NAN, f64::NAN, false),
        (NE, f64::NAN, f64::NAN, true),
        (NE, 0.0, -0.0, false),
    ] {
        let mut vm = machine(vec![code]);
        vm.state.stack = vec![number(x), number(y)];
        assert_eq!(vm.step(), Ok(Step::Continue));
        assert_eq!(vm.state.stack, vec![Value::Bool(expected)]);
        assert_eq!(vm.state.pc, 1);
    }
}

#[test]
fn values_are_equal_as_the_language_has_it() {
    let mut vm = machine(vec![]);
    let a = string(&mut vm, "same");
    let b = string(&mut vm, "same");
    let c = string(&mut vm, "other");
    assert_ne!(a, b);
    let heap = &vm.heap;
    assert!(heap.same_value(&a, &b));
    assert!(!heap.same_value(&a, &c));
    assert!(!heap.same_value(&a, &Value::String(99)));
    assert!(heap.same_value(&number(0.0), &number(-0.0)));
    assert!(!heap.same_value(&number(f64::NAN), &number(f64::NAN)));
    assert!(heap.same_value(&number(1.5), &number(1.5)));
    assert!(!heap.same_value(&number(1.0), &Value::Bool(true)));
    assert!(heap.same_value(&Value::Undefined, &Value::Undefined));
    assert!(heap.same_value(&Value::Object(1), &Value::Object(1)));
    assert!(!heap.same_value(&Value::Object(1), &Value::Object(2)));
    assert!(!heap.same_value(&Value::Object(1), &Value::Array(1)));
    assert!(heap.same_value(&Value::Function(1, 5, 2), &Value::Function(1, 5, 3)));
    assert!(!heap.same_value(&Value::Function(1, 5, 2), &Value::Function(1, 6, 2)));
    assert!(heap.same_value(
        &Value::WithThis(Box::new(Value::BuiltinFunction(2)), Box::new(a.clone())),
        &Value::WithThis(Box::new(Value::BuiltinFunction(2)), Box::new(b.clone()))
    ));
    assert!(!heap.same_value(
        &Value::NeedThis(Box::new(Value::BuiltinFunction(2))),
        &Value::NeedThis(Box::new(Value::BuiltinFunction(3)))
    ));
    assert!(heap.same_value(&Value::Arguments, &Value::Arguments));
}

#[test]
fn elements_past_a_lowered_length_do_not_come_back() {
    let mut vm = machine(vec![SET_MEMBER, GET_MEMBER]);
    let arr = array(&mut vm, vec![number(10.0), number(20.0), number(30.0)]);
    let length = string(&mut vm, "length");
    vm.state.stack = vec![number(1.0), Value::Array(arr), length];
    assert_eq!(set_member(&mut vm), Ok(Step::Continue));
    vm.state.pc = 0;
    vm.state.stack = vec![number(7.0), Value::Array(arr), number(5.0)];
    assert_eq!(set_member(&mut vm), Ok(Step::Continue));
    assert_eq!(vm.heap.arrays[arr].length, 6);
    assert_eq!(
        vm.heap.arrays[arr].elems,
        vec![
            number(10.0),
            Value::Undefined,
            Value::Undefined,
            Value::Undefined,
            Value::Undefined,
            number(7.0)
        ]
    );
    vm.state.stack = vec![Value::Array(arr), number(1.0)];
    assert_eq!(get_member(&mut vm), Ok(Step::Continue));
    assert_eq!(vm.state.stack, vec![Value::Undefined]);
    // an array that holds more than it declares forgets the rest on a write past its length
    vm.heap.arrays[arr].elems = vec![number(1.0), number(2.0), number(3.0)];
    vm.heap.arrays[arr].length = 1;
    vm.state.pc = 0;
    vm.state.stack = vec![number(9.0), Value::Array(arr), number(2.0)];
    assert_eq!(set_member(&mut vm), Ok(Step::Continue));
    assert_eq!(vm.heap.arrays[arr].elems, vec![number(1.0), Value::Undefined, number(9.0)]);
}
