//! The state of the stack machine and its mathematical model.

use crate::builtin::{
    CONSOLE_LOG, MATH_FLOOR, MATH_POW, MATH_RANDOM, PROCESS_STDOUT_WRITE,
};
use crate::bytecode_gen::le_u32;
use crate::node::BinOp;
use crate::value::{texts, Heap, HeapModel, RuntimeError, Value};
use std::collections::HashMap;
use vstd::hash_map::StringHashMap;
use vstd::prelude::*;
use vstd::string::*;

verus! {

broadcast use vstd::std_specs::hash::group_hash_axioms;

/// The constants of a program.
pub struct ConstantTable {
    /// The values that `push_const` copies.
    pub value: Vec<Value>,
    /// The names that the name-addressed instructions use.
    pub string: Vec<String>,
}

impl ConstantTable {
    /// An empty table.
    pub fn new() -> (r: ConstantTable)
        ensures
            r.value@.len() == 0,
            r.string@.len() == 0,
    {
        ConstantTable { value: Vec::new(), string: Vec::new() }
    }
}

/// What a return has to undo.
#[derive(Clone, Copy, Debug, PartialEq, Eq, Structural)]
pub enum FrameKind {
    /// The program itself: a return ends the run.
    Toplevel,
    /// A call of a user function.
    Call,
    /// A construction; the index of the object that was made for it.
    Construct(usize),
}

/// An entry of the call history.
#[derive(Clone, Copy, Debug, PartialEq, Eq, Structural)]
pub struct Frame {
    pub bp: usize,
    pub lp: usize,
    /// The height of the value stack to which a return cuts it down, under
    /// the returned value.
    pub sp: usize,
    /// Where a return continues.
    pub return_pc: isize,
    pub kind: FrameKind,
}

/// The registers and stacks of the machine.
pub struct VMState {
    /// The value stack.
    pub stack: Vec<Value>,
    /// The activation records of the calls in progress, by their index in
    /// the heap, the innermost last.
    pub scope: Vec<usize>,
    /// Where the arguments of the current call start in the value stack.
    pub bp: usize,
    /// Where the locals of the current call start in the value stack.
    pub lp: usize,
    /// The program counter.
    pub pc: isize,
    /// The call history.
    pub history: Vec<Frame>,
}

/// The machine.
pub struct VM {
    pub state: VMState,
    pub const_table: ConstantTable,
    pub insts: Vec<u8>,
    /// For each backward jump taken, its target and the position after it.
    pub loop_bgn_end: HashMap<isize, isize>,
    pub heap: Heap,
}

/// What the machine asks of the program that drives it when it stops.
#[derive(Debug, PartialEq)]
pub enum Step {
    /// Nothing: the next instruction can run.
    Continue,
    /// The program has ended.
    Finished,
    /// Add, subtract, multiply or divide the two doubles, as the operator
    /// says, and push the result on the value stack. The machine asks where
    /// the result is not that of arithmetic on whole numbers.
    Arith(BinOp, u64, u64),
    /// Replace the number in the given slot of the value stack, which is no
    /// whole number below 2^53 in absolute value, by the string that writes
    /// it; the instruction at the program counter runs again.
    FormatNumber(usize),
    /// Run the host function with the given identifier on the given
    /// arguments; it pushes its result on the value stack.
    Builtin(usize, Vec<Value>),
}

/// A `Step` as a mathematical value.
pub enum Signal {
    Continue,
    Finished,
    Arith(BinOp, u64, u64),
    FormatNumber(usize),
    Builtin(usize, Seq<Value>),
}

impl Step {
    pub open spec fn view(&self) -> Signal {
        match self {
            Step::Continue => Signal::Continue,
            Step::Finished => Signal::Finished,
            Step::Arith(op, a, b) => Signal::Arith(*op, *a, *b),
            Step::FormatNumber(slot) => Signal::FormatNumber(*slot),
            Step::Builtin(id, args) => Signal::Builtin(*id, args@),
        }
    }
}

/// The machine as a mathematical value.
pub struct Machine {
    pub stack: Seq<Value>,
    pub scope: Seq<usize>,
    pub bp: usize,
    pub lp: usize,
    pub pc: isize,
    pub history: Seq<Frame>,
    pub heap: HeapModel,
    pub loops: Map<isize, isize>,
    pub insts: Seq<u8>,
    pub values: Seq<Value>,
    pub strings: Seq<Seq<char>>,
}

impl Machine {
    /// Whether an instruction of `width` bytes lies in the bytecode at the
    /// program counter, and the position after it is a program counter.
    pub open spec fn fits(self, width: int) -> bool {
        0 <= self.pc && self.pc + width <= self.insts.len() && self.pc + width <= isize::MAX
    }

    /// The 32-bit operand at `at` bytes from the program counter.
    pub open spec fn operand(self, at: int) -> int {
        le_u32(self.insts, self.pc + at)
    }

    /// The machine with the program counter moved `width` bytes on.
    pub open spec fn skip(self, width: int) -> Machine {
        Machine { pc: (self.pc + width) as isize, ..self }
    }

    /// The machine with `v` pushed on the value stack.
    pub open spec fn push(self, v: Value) -> Machine {
        Machine { stack: self.stack.push(v), ..self }
    }

    /// The machine with the top of the value stack taken off.
    pub open spec fn drop(self) -> Machine {
        Machine { stack: self.stack.drop_last(), ..self }
    }
}

/// Whether the machine `post` and the result `r` are what the model says of
/// the machine `pre`. Where the model fails, the result is its error, and
/// the program counter stays at the failing instruction.
pub open spec fn agrees(
    model: Result<Machine, RuntimeError>,
    pre: Machine,
    post: Machine,
    r: Result<(), RuntimeError>,
) -> bool {
    match model {
        Ok(m) => r is Ok && post == m,
        Err(e) => r == Err::<(), RuntimeError>(e) && post.pc == pre.pc,
    }
}

/// Whether the machine `post` and the result `r` are what the model says of
/// the machine `pre`. Where the model fails, the result is its error, and
/// the program counter stays at the failing instruction.
pub open spec fn agrees_step(
    model: Result<(Machine, Signal), RuntimeError>,
    pre: Machine,
    post: Machine,
    r: Result<Step, RuntimeError>,
) -> bool {
    match model {
        Ok(m) => r is Ok && r->Ok_0@ == m.1 && post == m.0,
        Err(e) => r == Err::<Step, RuntimeError>(e) && post.pc == pre.pc,
    }
}

/// A failure of a run: the error, and the program counter of the
/// instruction that failed.
pub struct Fault {
    pub error: RuntimeError,
    pub pc: isize,
}

/// Whether the machine `post` and the result `r` are what the model says of
/// a run. Where the model fails, the result is its error, and the program
/// counter is that of the failing instruction.
pub open spec fn agrees_run(
    model: Result<(Machine, Signal), Fault>,
    post: Machine,
    r: Result<Step, RuntimeError>,
) -> bool {
    match model {
        Ok(m) => r is Ok && r->Ok_0@ == m.1 && post == m.0,
        Err(f) => r == Err::<Step, RuntimeError>(f.error) && post.pc == f.pc,
    }
}

/// The members of the global `console`.
pub open spec fn console_members() -> Map<Seq<char>, Value> {
    Map::<Seq<char>, Value>::empty().insert("log"@, Value::BuiltinFunction(CONSOLE_LOG))
}

/// The members of `process.stdout`.
pub open spec fn stdout_members() -> Map<Seq<char>, Value> {
    Map::<Seq<char>, Value>::empty().insert("write"@, Value::BuiltinFunction(PROCESS_STDOUT_WRITE))
}

/// The members of the global `Math`.
pub open spec fn math_members() -> Map<Seq<char>, Value> {
    Map::<Seq<char>, Value>::empty().insert("floor"@, Value::BuiltinFunction(MATH_FLOOR)).insert(
        "random"@,
        Value::BuiltinFunction(MATH_RANDOM),
    ).insert("pow"@, Value::BuiltinFunction(MATH_POW))
}

/// The heap after the host objects were made and bound in the object `globals`.
///
/// Four objects are added, in this order: `console`, `process.stdout`,
/// `process` and `Math`.
pub open spec fn seeded(heap: HeapModel, globals: usize) -> HeapModel {
    let n = heap.objects.len();
    let objects = heap.objects.push(console_members()).push(stdout_members()).push(
        Map::<Seq<char>, Value>::empty().insert("stdout"@, Value::Object((n + 1) as usize)),
    ).push(math_members());
    HeapModel {
        objects: objects.update(
            globals as int,
            heap.objects[globals as int].insert("console"@, Value::Object(n as usize)).insert(
                "process"@,
                Value::Object((n + 2) as usize),
            ).insert("Math"@, Value::Object((n + 3) as usize)),
        ),
        ..heap
    }
}

impl VM {
    /// The machine as a mathematical value.
    pub open spec fn view(&self) -> Machine {
        Machine {
            stack: self.state.stack@,
            scope: self.state.scope@,
            bp: self.state.bp,
            lp: self.state.lp,
            pc: self.state.pc,
            history: self.state.history@,
            heap: self.heap@,
            loops: self.loop_bgn_end@,
            insts: self.insts@,
            values: self.const_table.value@,
            strings: texts(self.const_table.string@),
        }
    }

    /// A machine on the heap `heap`, whose global activation record is the
    /// one at `global_vals`.
    ///
    /// The global bindings get `console`, `process` and `Math`. The machine
    /// starts at position 0 of an empty program, with empty stacks but for
    /// the global record on the scope stack and the entry of the program
    /// itself in the call history.
    pub fn new(heap: Heap, global_vals: usize) -> (vm: VM)
        requires
            global_vals < heap@.callobjs.len(),
            heap@.callobjs[global_vals as int].vals < heap@.objects.len(),
        ensures
            vm@ == (Machine {
                stack: Seq::empty(),
                scope: seq![global_vals],
                bp: 0,
                lp: 0,
                pc: 0,
                history: seq![
                    Frame { bp: 0, lp: 0, sp: 0, return_pc: 0, kind: FrameKind::Toplevel },
                ],
                heap: seeded(heap@, heap@.callobjs[global_vals as int].vals),
                loops: Map::empty(),
                insts: Seq::empty(),
                values: Seq::empty(),
                strings: Seq::empty(),
            }),
    {
        let mut heap = heap;
        let globals = heap.callobjs[global_vals].vals;
        let ghost before = heap@;

        let mut console = StringHashMap::new();
        console.insert(String::from_str("log"), Value::BuiltinFunction(CONSOLE_LOG));
        let console = heap.new_object(console);

        let mut stdout = StringHashMap::new();
        stdout.insert(String::from_str("write"), Value::BuiltinFunction(PROCESS_STDOUT_WRITE));
        let stdout = heap.new_object(stdout);
        let mut process = StringHashMap::new();
        process.insert(String::from_str("stdout"), Value::Object(stdout));
        let process = heap.new_object(process);

        let mut math = StringHashMap::new();
        math.insert(String::from_str("floor"), Value::BuiltinFunction(MATH_FLOOR));
        math.insert(String::from_str("random"), Value::BuiltinFunction(MATH_RANDOM));
        math.insert(String::from_str("pow"), Value::BuiltinFunction(MATH_POW));
        let math = heap.new_object(math);

        heap.set_property(globals, String::from_str("console"), Value::Object(console));
        heap.set_property(globals, String::from_str("process"), Value::Object(process));
        heap.set_property(globals, String::from_str("Math"), Value::Object(math));
        assert(heap@.objects =~= seeded(before, globals).objects);

        let mut scope: Vec<usize> = Vec::new();
        scope.push(global_vals);
        let mut history: Vec<Frame> = Vec::new();
        history.push(Frame { bp: 0, lp: 0, sp: 0, return_pc: 0, kind: FrameKind::Toplevel });
        let vm = VM {
            state: VMState { stack: Vec::new(), scope, history, bp: 0, lp: 0, pc: 0 },
            const_table: ConstantTable::new(),
            insts: Vec::new(),
            loop_bgn_end: HashMap::new(),
            heap,
        };
        assert(vm@.stack =~= Seq::empty());
        assert(vm@.scope =~= seq![global_vals]);
        assert(vm@.history =~= seq![
            Frame { bp: 0, lp: 0, sp: 0, return_pc: 0, kind: FrameKind::Toplevel },
        ]);
        assert(vm@.insts =~= Seq::empty());
        assert(vm@.values =~= Seq::empty());
        assert(vm@.strings =~= Seq::empty());
        vm
    }

    /// Checks that an instruction of `width` bytes lies in the bytecode at
    /// the program counter, and returns the program counter as an index.
    pub fn check(&self, width: usize) -> (r: Result<usize, RuntimeError>)
        requires
            width <= 16,
        ensures
            self@.fits(width as int) ==> r == Ok::<usize, RuntimeError>(self.state.pc as usize),
            !self@.fits(width as int) ==> r == Err::<usize, RuntimeError>(
                RuntimeError::BadProgramCounter,
            ),
    {
        if self.state.pc < 0 {
            return Err(RuntimeError::BadProgramCounter);
        }
        let pc = self.state.pc as usize;
        let len = self.insts.len();
        if len < width || pc > len - width || pc > (isize::MAX as usize) - width {
            return Err(RuntimeError::BadProgramCounter);
        }
        Ok(pc)
    }
}

} // verus!
