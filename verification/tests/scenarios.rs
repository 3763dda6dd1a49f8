use rapidus_core::builtin::{ARRAY_PUSH, CONSOLE_LOG, MATH_FLOOR, MATH_POW};
use rapidus_core::builtins::array::array_push;
use rapidus_core::bytecode_gen::{
    ADD, CALL, CONSTRUCT, CREATE_ARRAY, CREATE_OBJECT, DECL_VAR, END, GET_MEMBER, GET_NAME, JMP,
    JMP_IF_FALSE, LT, POP, PUSH_CONST, PUSH_INT8, RETURN, SET_CUR_CALLOBJ, SET_MEMBER, SET_NAME,
    SUB,
};
use rapidus_core::node::BinOp;
use rapidus_core::value::{new_value_function, CallObject, Heap, RuntimeError, Value};
use rapidus_core::vm::{Step, VM};

/// A host function of these tests: pushes the `this` of the current call.
const THIS: usize = 7;

fn arith(op: BinOp, a: u64, b: u64) -> Value {
    let x = f64::from_bits(a);
    let y = f64::from_bits(b);
    let number = |v: f64| Value::Number(v.to_bits());
    match op {
        BinOp::Add => number(x + y),
        BinOp::Sub => number(x - y),
        BinOp::Mul => number(x * y),
        BinOp::Div => number(x / y),
        other => panic!("the machine asked for {:?}", other),
    }
}

fn show(vm: &VM, v: &Value) -> String {
    match v {
        Value::Undefined => "undefined".to_string(),
        Value::Bool(b) => format!("{}", b),
        Value::Number(n) => format!("{}", f64::from_bits(*n)),
        Value::String(s) => vm.heap.strings[*s].clone(),
        other => format!("{:?}", other),
    }
}

/// Runs the machine to the end of the program, doing what it asks for.
/// What `console.log` prints is collected in `out`, one entry per call.
fn drive(vm: &mut VM, out: &mut Vec<String>) -> Result<(), RuntimeError> {
    let mut step = vm.do_run(1_000_000)?;
    for _ in 0..1_000_000 {
        step = match step {
            Step::Finished => return Ok(()),
            Step::Continue => vm.do_run(1_000_000)?,
            Step::Arith(op, a, b) => {
                vm.state.stack.push(arith(op, a, b));
                vm.do_run(1_000_000)?
            }
            Step::FormatNumber(slot) => {
                let text = show(vm, &vm.state.stack[slot]);
                let made = vm.heap.new_string(text);
                vm.state.stack[slot] = Value::String(made);
                vm.do_run(1_000_000)?
            }
            Step::Builtin(id, args) => {
                if id == CONSOLE_LOG {
                    let line: Vec<String> = args.iter().map(|v| show(vm, v)).collect();
                    out.push(line.join(" "));
                    vm.state.stack.push(Value::Undefined);
                    Step::Continue
                } else if id == ARRAY_PUSH {
                    array_push(vm, &args)?
                } else if id == MATH_FLOOR {
                    let v = match args[0] {
                        Value::Number(n) => Value::Number(f64::from_bits(n).floor().to_bits()),
                        _ => Value::Undefined,
                    };
                    vm.state.stack.push(v);
                    Step::Continue
                } else if id == MATH_POW {
                    let v = match (&args[0], &args[1]) {
                        (Value::Number(a), Value::Number(b)) => {
                            Value::Number(f64::from_bits(*a).powf(f64::from_bits(*b)).to_bits())
                        }
                        _ => Value::Undefined,
                    };
                    vm.state.stack.push(v);
                    Step::Continue
                } else if id == THIS {
                    let frame = *vm.state.scope.last().unwrap();
                    let this = vm.heap.callobjs[frame].this.unwrap();
                    vm.state.stack.push(Value::Object(this));
                    Step::Continue
                } else {
                    panic!("no host function {}", id)
                }
            }
        };
    }
    panic!("the program did not end")
}

struct Program {
    code: Vec<u8>,
}

impl Program {
    fn new() -> Program {
        Program { code: vec![] }
    }

    fn here(&self) -> usize {
        self.code.len()
    }

    fn op(&mut self, code: u8) {
        self.code.push(code);
    }

    fn op8(&mut self, code: u8, n: u8) {
        self.code.push(code);
        self.code.push(n);
    }

    fn op32(&mut self, code: u8, n: i32) -> usize {
        self.code.push(code);
        let at = self.code.len();
        self.code.extend_from_slice(&n.to_le_bytes());
        at
    }

    fn patch(&mut self, at: usize, n: i32) {
        self.code[at..at + 4].copy_from_slice(&n.to_le_bytes());
    }
}

fn machine() -> VM {
    let mut heap = Heap::new();
    let global = CallObject::new_global(&mut heap);
    VM::new(heap, global)
}

fn name(vm: &mut VM, text: &str) -> i32 {
    vm.const_table.string.push(text.to_string());
    (vm.const_table.string.len() - 1) as i32
}

fn text(vm: &mut VM, text: &str) -> i32 {
    let s = vm.heap.new_string(text.to_string());
    vm.const_table.value.push(Value::String(s));
    (vm.const_table.value.len() - 1) as i32
}

fn function(vm: &mut VM, entry: usize, params: &[&str]) -> i32 {
    let mut record = CallObject::new(&mut vm.heap, None);
    record.param_names = params.iter().map(|p| p.to_string()).collect();
    let f = new_value_function(&mut vm.heap, entry, record);
    vm.const_table.value.push(f);
    (vm.const_table.value.len() - 1) as i32
}

/// Emits `console.log(<top of stack>)` and drops its result.
fn log_top(vm: &mut VM, p: &mut Program, console: i32, log: i32) {
    let _ = vm;
    p.op32(GET_NAME, console);
    p.op32(PUSH_CONST, log);
    p.op(GET_MEMBER);
    p.op32(CALL, 1);
    p.op(POP);
}

// var x = 0; while (x < 5) x = x + 1; console.log(x);
#[test]
fn scenario_while_loop_counts_to_five() {
    let mut vm = machine();
    let x = name(&mut vm, "x");
    let console = name(&mut vm, "console");
    let log = text(&mut vm, "log");
    let mut p = Program::new();
    p.op8(PUSH_INT8, 0);
    p.op32(DECL_VAR, x);
    let top = p.here();
    p.op32(GET_NAME, x);
    p.op8(PUSH_INT8, 5);
    p.op(LT);
    let exit = p.op32(JMP_IF_FALSE, 0);
    p.op32(GET_NAME, x);
    p.op8(PUSH_INT8, 1);
    p.op(ADD);
    p.op32(SET_NAME, x);
    let back = p.op32(JMP, 0);
    p.patch(back, top as i32 - (back as i32 + 4));
    let after = p.here();
    p.patch(exit, after as i32 - (exit as i32 + 4));
    p.op32(GET_NAME, x);
    log_top(&mut vm, &mut p, console, log);
    p.op(END);

    vm.insts = p.code;
    let mut out = vec![];
    drive(&mut vm, &mut out).unwrap();
    assert_eq!(out, vec!["5".to_string()]);
    // the backward jump was recorded with its target and the position after it
    assert_eq!(vm.loop_bgn_end.get(&(top as isize)), Some(&(after as isize)));
}

// function f(n){ if (n<2) return 1; return f(n-1)+f(n-2); } console.log(f(10));
#[test]
fn scenario_recursive_fibonacci() {
    let mut vm = machine();
    let n = name(&mut vm, "n");
    let f = name(&mut vm, "f");
    let console = name(&mut vm, "console");
    let log = text(&mut vm, "log");

    let mut p = Program::new();
    let load_f = p.op32(PUSH_CONST, 0);
    p.op(SET_CUR_CALLOBJ);
    p.op32(DECL_VAR, f);
    p.op8(PUSH_INT8, 10);
    p.op32(GET_NAME, f);
    p.op32(CALL, 1);
    log_top(&mut vm, &mut p, console, log);
    p.op(END);

    let entry = p.here();
    p.op32(GET_NAME, n);
    p.op8(PUSH_INT8, 2);
    p.op(LT);
    p.op32(JMP_IF_FALSE, 3);
    p.op8(PUSH_INT8, 1);
    p.op(RETURN);
    p.op32(GET_NAME, n);
    p.op8(PUSH_INT8, 1);
    p.op(SUB);
    p.op32(GET_NAME, f);
    p.op32(CALL, 1);
    p.op32(GET_NAME, n);
    p.op8(PUSH_INT8, 2);
    p.op(SUB);
    p.op32(GET_NAME, f);
    p.op32(CALL, 1);
    p.op(ADD);
    p.op(RETURN);

    let fib = function(&mut vm, entry, &["n"]);
    p.patch(load_f, fib);
    vm.insts = p.code;
    let mut out = vec![];
    drive(&mut vm, &mut out).unwrap();
    assert_eq!(out, vec!["89".to_string()]);
    assert_eq!(vm.state.scope.len(), 1);
    assert_eq!(vm.state.stack.len(), 0);
}

// function C(x){ this.x = x; } var o = new C(7); console.log(o.x);
#[test]
fn scenario_constructor_sets_member_of_this() {
    let mut vm = machine();
    let x_name = name(&mut vm, "x");
    let c_name = name(&mut vm, "C");
    let o_name = name(&mut vm, "o");
    let console = name(&mut vm, "console");
    let log = text(&mut vm, "log");
    let x_text = text(&mut vm, "x");
    vm.const_table.value.push(Value::BuiltinFunction(THIS));
    let this_fn = (vm.const_table.value.len() - 1) as i32;
    vm.const_table.value.push(Value::Undefined);
    let undefined = (vm.const_table.value.len() - 1) as i32;

    let mut p = Program::new();
    let load_c = p.op32(PUSH_CONST, 0);
    p.op(SET_CUR_CALLOBJ);
    p.op32(DECL_VAR, c_name);
    p.op8(PUSH_INT8, 7);
    p.op32(GET_NAME, c_name);
    p.op32(CONSTRUCT, 1);
    p.op32(DECL_VAR, o_name);
    p.op32(GET_NAME, o_name);
    p.op32(PUSH_CONST, x_text);
    p.op(GET_MEMBER);
    log_top(&mut vm, &mut p, console, log);
    p.op(END);

    let entry = p.here();
    p.op32(GET_NAME, x_name);
    p.op32(PUSH_CONST, this_fn);
    p.op32(CALL, 0);
    p.op32(PUSH_CONST, x_text);
    p.op(SET_MEMBER);
    p.op32(PUSH_CONST, undefined);
    p.op(RETURN);

    let c = function(&mut vm, entry, &["x"]);
    p.patch(load_c, c);
    let (own, prototype) = match vm.const_table.value[c as usize] {
        Value::Function(_, own, _) => {
            let prototype = match vm.heap.objects[own].get("prototype") {
                Some(Value::Object(p)) => *p,
                other => panic!("no prototype: {:?}", other),
            };
            (own, prototype)
        }
        _ => unreachable!(),
    };
    assert!(own < vm.heap.objects.len());

    vm.insts = p.code;
    let mut out = vec![];
    drive(&mut vm, &mut out).unwrap();
    assert_eq!(out, vec!["7".to_string()]);

    // the prototype chain of `o` contains `C.prototype`
    let globals = vm.heap.callobjs[vm.state.scope[0]].vals;
    let o = match vm.heap.objects[globals].get("o") {
        Some(Value::Object(o)) => *o,
        other => panic!("o is {:?}", other),
    };
    assert_eq!(vm.heap.objects[o].get("__proto__"), Some(&Value::Object(prototype)));
}

// function outer(){ var a = 1; function inner(){ return a; } return inner(); }
// console.log(outer());
#[test]
fn scenario_inner_function_reads_captured_variable() {
    let mut vm = machine();
    let a = name(&mut vm, "a");
    let outer = name(&mut vm, "outer");
    let inner = name(&mut vm, "inner.2920110221");
    let console = name(&mut vm, "console");
    let log = text(&mut vm, "log");

    let mut p = Program::new();
    let load_outer = p.op32(PUSH_CONST, 0);
    p.op(SET_CUR_CALLOBJ);
    p.op32(DECL_VAR, outer);
    p.op32(GET_NAME, outer);
    p.op32(CALL, 0);
    log_top(&mut vm, &mut p, console, log);
    p.op(END);

    let outer_entry = p.here();
    p.op8(PUSH_INT8, 1);
    p.op32(DECL_VAR, a);
    let load_inner = p.op32(PUSH_CONST, 0);
    p.op(SET_CUR_CALLOBJ);
    p.op32(DECL_VAR, inner);
    p.op32(GET_NAME, inner);
    p.op32(CALL, 0);
    p.op(RETURN);

    let inner_entry = p.here();
    p.op32(GET_NAME, a);
    p.op(RETURN);

    let outer_fn = function(&mut vm, outer_entry, &[]);
    let inner_fn = function(&mut vm, inner_entry, &[]);
    p.patch(load_outer, outer_fn);
    p.patch(load_inner, inner_fn);
    vm.insts = p.code;
    let mut out = vec![];
    drive(&mut vm, &mut out).unwrap();
    assert_eq!(out, vec!["1".to_string()]);
}

// var a = [10,20,30]; a.push(40); console.log(a.length); console.log(a[3]);
#[test]
fn scenario_array_push_grows_array() {
    let mut vm = machine();
    let a = name(&mut vm, "a");
    let console = name(&mut vm, "console");
    let log = text(&mut vm, "log");
    let push = text(&mut vm, "push");
    let length = text(&mut vm, "length");

    let mut p = Program::new();
    p.op8(PUSH_INT8, 30);
    p.op8(PUSH_INT8, 20);
    p.op8(PUSH_INT8, 10);
    p.op32(CREATE_ARRAY, 3);
    p.op32(DECL_VAR, a);
    p.op8(PUSH_INT8, 40);
    p.op32(GET_NAME, a);
    p.op32(PUSH_CONST, push);
    p.op(GET_MEMBER);
    p.op32(CALL, 1);
    p.op(POP);
    p.op32(GET_NAME, a);
    p.op32(PUSH_CONST, length);
    p.op(GET_MEMBER);
    log_top(&mut vm, &mut p, console, log);
    p.op32(GET_NAME, a);
    p.op8(PUSH_INT8, 3);
    p.op(GET_MEMBER);
    log_top(&mut vm, &mut p, console, log);
    p.op(END);

    vm.insts = p.code;
    let mut out = vec![];
    drive(&mut vm, &mut out).unwrap();
    assert_eq!(out, vec!["4".to_string(), "40".to_string()]);
}

// function g(){ return this.v; } var o = { v: 42, g: g }; console.log(o.g());
#[test]
fn scenario_method_call_binds_this() {
    let mut vm = machine();
    let g = name(&mut vm, "g");
    let o = name(&mut vm, "o");
    let console = name(&mut vm, "console");
    let log = text(&mut vm, "log");
    let v_text = text(&mut vm, "v");
    let g_text = text(&mut vm, "g");
    vm.const_table.value.push(Value::BuiltinFunction(THIS));
    let this_fn = (vm.const_table.value.len() - 1) as i32;

    let mut p = Program::new();
    let load_g = p.op32(PUSH_CONST, 0);
    p.op(SET_CUR_CALLOBJ);
    p.op32(DECL_VAR, g);
    // { v: 42, g: g }: each value under its name
    p.op8(PUSH_INT8, 42);
    p.op32(PUSH_CONST, v_text);
    p.op32(GET_NAME, g);
    p.op32(PUSH_CONST, g_text);
    p.op32(CREATE_OBJECT, 2);
    p.op32(DECL_VAR, o);
    p.op32(GET_NAME, o);
    p.op32(PUSH_CONST, g_text);
    p.op(GET_MEMBER);
    p.op32(CALL, 0);
    log_top(&mut vm, &mut p, console, log);
    p.op(END);

    let entry = p.here();
    p.op32(PUSH_CONST, this_fn);
    p.op32(CALL, 0);
    p.op32(PUSH_CONST, v_text);
    p.op(GET_MEMBER);
    p.op(RETURN);

    let g_fn = function(&mut vm, entry, &[]);
    p.patch(load_g, g_fn);
    vm.insts = p.code;
    let mut out = vec![];
    drive(&mut vm, &mut out).unwrap();
    assert_eq!(out, vec!["42".to_string()]);
}

// var s = "n=" + 1.5;  the text of the number is made by the driver
#[test]
fn string_plus_number_asks_for_the_text_of_the_number() {
    let mut vm = machine();
    let console = name(&mut vm, "console");
    let log = text(&mut vm, "log");
    let prefix = text(&mut vm, "n=");
    vm.const_table.value.push(Value::Number(1.5f64.to_bits()));
    let number = (vm.const_table.value.len() - 1) as i32;

    let mut p = Program::new();
    p.op32(PUSH_CONST, prefix);
    p.op32(PUSH_CONST, number);
    p.op(ADD);
    log_top(&mut vm, &mut p, console, log);
    p.op(END);
    vm.insts = p.code;
    let mut out = vec![];
    drive(&mut vm, &mut out).unwrap();
    assert_eq!(out, vec!["n=1.5".to_string()]);
}
