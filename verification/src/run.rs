//! The fetch-decode-execute loop.
//!
//! The machine runs instructions until the program ends, until it needs the
//! program that drives it, or until its fuel is used up. The driver does what
//! was asked and lets the machine run again.

use crate::bytecode_gen::{
    ADD, AND, ASSIGN_FUNC_REST_PARAM, CALL, CONSTRUCT, CREATE_ARRAY, CREATE_CONTEXT,
    CREATE_OBJECT, DECL_VAR, DIV, DOUBLE, END, EQ, GE, GET_ARG_LOCAL, GET_GLOBAL, GET_LOCAL,
    GET_MEMBER, GET_NAME, GT, JMP, JMP_IF_FALSE, LAND, LE, LOR, LT, MUL, NE, NEG, OR, POP,
    PUSH_ARGUMENTS, PUSH_CONST, PUSH_FALSE, PUSH_INT32, PUSH_INT8, PUSH_THIS, PUSH_TRUE, REM,
    RETURN, SEQ, SET_ARG_LOCAL, SET_CUR_CALLOBJ, SET_GLOBAL, SET_LOCAL, SET_MEMBER, SET_NAME,
    SNE, SUB,
};
use crate::node::BinOp;
use crate::value::{RuntimeError, Value};
use crate::vm::{agrees_run, agrees_step, Fault, Machine, Signal, Step, VM};
use vstd::prelude::*;

verus! {

/// The result of an instruction that asks nothing of the driver.
pub open spec fn lift(r: Result<Machine, RuntimeError>) -> Result<(Machine, Signal), RuntimeError> {
    match r {
        Ok(m) => Ok((m, Signal::Continue)),
        Err(e) => Err(e),
    }
}

impl Machine {
    /// The instruction at the program counter.
    pub open spec fn step(self) -> Result<(Machine, Signal), RuntimeError> {
        if !(0 <= self.pc < self.insts.len()) {
            Err(RuntimeError::BadProgramCounter)
        } else {
            self.dispatch(self.insts[self.pc as int])
        }
    }

    /// The instruction with the opcode `code`.
    pub open spec fn dispatch(self, code: u8) -> Result<(Machine, Signal), RuntimeError> {
        if code == END {
            Ok((self, Signal::Finished))
        } else if code == CREATE_CONTEXT {
            lift(self.pass(5))
        } else if code == CONSTRUCT {
            self.construct()
        } else if code == CREATE_OBJECT {
            lift(self.create_object())
        } else if code == CREATE_ARRAY {
            lift(self.create_array())
        } else if code == PUSH_INT8 {
            lift(self.push_int8())
        } else if code == PUSH_INT32 {
            lift(self.push_int32())
        } else if code == PUSH_FALSE {
            lift(self.produce(1, Value::Bool(false)))
        } else if code == PUSH_TRUE {
            lift(self.produce(1, Value::Bool(true)))
        } else if code == PUSH_CONST {
            lift(self.push_const())
        } else if code == PUSH_THIS {
            lift(self.push_this())
        } else if code == PUSH_ARGUMENTS {
            lift(self.produce(1, Value::Arguments))
        } else if code == NEG {
            lift(self.neg())
        } else if code == ADD {
            self.binary_op(BinOp::Add)
        } else if code == SUB {
            self.binary_op(BinOp::Sub)
        } else if code == MUL {
            self.binary_op(BinOp::Mul)
        } else if code == DIV {
            self.binary_op(BinOp::Div)
        } else if code == REM {
            self.binary_op(BinOp::Rem)
        } else if code == LT {
            self.binary_op(BinOp::Lt)
        } else if code == GT {
            self.binary_op(BinOp::Gt)
        } else if code == LE {
            self.binary_op(BinOp::Le)
        } else if code == GE {
            self.binary_op(BinOp::Ge)
        } else if code == EQ {
            self.binary_op(BinOp::Eq)
        } else if code == NE {
            self.binary_op(BinOp::Ne)
        } else if code == SEQ {
            self.binary_op(BinOp::SEq)
        } else if code == SNE {
            self.binary_op(BinOp::SNe)
        } else if code == AND {
            self.binary_op(BinOp::And)
        } else if code == OR {
            self.binary_op(BinOp::Or)
        } else if code == GET_MEMBER {
            self.get_member()
        } else if code == SET_MEMBER {
            self.set_member()
        } else if code == GET_GLOBAL {
            lift(self.pass(5))
        } else if code == SET_GLOBAL {
            lift(self.pass(5))
        } else if code == GET_LOCAL {
            lift(self.get_local())
        } else if code == SET_LOCAL {
            lift(self.set_local())
        } else if code == GET_ARG_LOCAL {
            lift(self.get_arg_local())
        } else if code == SET_ARG_LOCAL {
            lift(self.set_arg_local())
        } else if code == JMP_IF_FALSE {
            lift(self.jmp_if_false())
        } else if code == JMP {
            lift(self.jmp())
        } else if code == CALL {
            self.call()
        } else if code == RETURN {
            self.return_()
        } else if code == ASSIGN_FUNC_REST_PARAM {
            lift(self.assign_func_rest_param())
        } else if code == DOUBLE {
            lift(self.double())
        } else if code == POP {
            lift(self.pop())
        } else if code == LAND {
            lift(self.pass(1))
        } else if code == LOR {
            lift(self.pass(1))
        } else if code == SET_CUR_CALLOBJ {
            lift(self.set_cur_callobj())
        } else if code == GET_NAME {
            lift(self.get_name())
        } else if code == SET_NAME {
            lift(self.set_name())
        } else if code == DECL_VAR {
            lift(self.decl_var())
        } else {
            Err(RuntimeError::BadOpcode)
        }
    }

    /// At most `fuel` instructions, up to the first that ends the program,
    /// asks something of the driver or fails. Where the fuel runs out first,
    /// the machine can continue.
    pub open spec fn run(self, fuel: nat) -> Result<(Machine, Signal), Fault>
        decreases fuel,
    {
        if fuel == 0 {
            Ok((self, Signal::Continue))
        } else {
            match self.step() {
                Ok(r) => if r.1 is Continue {
                    r.0.run((fuel - 1) as nat)
                } else {
                    Ok(r)
                },
                Err(e) => Err(Fault { error: e, pc: self.pc }),
            }
        }
    }
}

impl VM {
    /// Executes the instruction at the program counter.
    pub fn step(&mut self) -> (r: Result<Step, RuntimeError>)
        ensures
            agrees_step(old(self)@.step(), old(self)@, final(self)@, r),
    {
        if self.state.pc < 0 || self.state.pc as usize >= self.insts.len() {
            return Err(RuntimeError::BadProgramCounter);
        }
        let code = self.insts[self.state.pc as usize];
        if code == END {
            crate::stack_ops::end(self)?;
            Ok(Step::Finished)
        } else if code == CREATE_CONTEXT {
            crate::stack_ops::create_context(self)?;
            Ok(Step::Continue)
        } else if code == CONSTRUCT {
            crate::call::construct(self)
        } else if code == CREATE_OBJECT {
            crate::call::create_object(self)?;
            Ok(Step::Continue)
        } else if code == CREATE_ARRAY {
            crate::call::create_array(self)?;
            Ok(Step::Continue)
        } else if code == PUSH_INT8 {
            crate::stack_ops::push_int8(self)?;
            Ok(Step::Continue)
        } else if code == PUSH_INT32 {
            crate::stack_ops::push_int32(self)?;
            Ok(Step::Continue)
        } else if code == PUSH_FALSE {
            crate::stack_ops::push_false(self)?;
            Ok(Step::Continue)
        } else if code == PUSH_TRUE {
            crate::stack_ops::push_true(self)?;
            Ok(Step::Continue)
        } else if code == PUSH_CONST {
            crate::stack_ops::push_const(self)?;
            Ok(Step::Continue)
        } else if code == PUSH_THIS {
            crate::stack_ops::push_this(self)?;
            Ok(Step::Continue)
        } else if code == PUSH_ARGUMENTS {
            crate::stack_ops::push_arguments(self)?;
            Ok(Step::Continue)
        } else if code == NEG {
            crate::arith::neg(self)?;
            Ok(Step::Continue)
        } else if code == ADD {
            crate::arith::add(self)
        } else if code == SUB {
            crate::arith::sub(self)
        } else if code == MUL {
            crate::arith::mul(self)
        } else if code == DIV {
            crate::arith::div(self)
        } else if code == REM {
            crate::arith::rem(self)
        } else if code == LT {
            crate::arith::lt(self)
        } else if code == GT {
            crate::arith::gt(self)
        } else if code == LE {
            crate::arith::le(self)
        } else if code == GE {
            crate::arith::ge(self)
        } else if code == EQ {
            crate::arith::eq(self)
        } else if code == NE {
            crate::arith::ne(self)
        } else if code == SEQ {
            crate::arith::seq(self)
        } else if code == SNE {
            crate::arith::sne(self)
        } else if code == AND {
            crate::arith::and(self)
        } else if code == OR {
            crate::arith::or(self)
        } else if code == GET_MEMBER {
            crate::member::get_member(self)
        } else if code == SET_MEMBER {
            crate::member::set_member(self)
        } else if code == GET_GLOBAL {
            crate::stack_ops::get_global(self)?;
            Ok(Step::Continue)
        } else if code == SET_GLOBAL {
            crate::stack_ops::set_global(self)?;
            Ok(Step::Continue)
        } else if code == GET_LOCAL {
            crate::stack_ops::get_local(self)?;
            Ok(Step::Continue)
        } else if code == SET_LOCAL {
            crate::stack_ops::set_local(self)?;
            Ok(Step::Continue)
        } else if code == GET_ARG_LOCAL {
            crate::stack_ops::get_arg_local(self)?;
            Ok(Step::Continue)
        } else if code == SET_ARG_LOCAL {
            crate::stack_ops::set_arg_local(self)?;
            Ok(Step::Continue)
        } else if code == JMP_IF_FALSE {
            crate::stack_ops::jmp_if_false(self)?;
            Ok(Step::Continue)
        } else if code == JMP {
            crate::stack_ops::jmp(self)?;
            Ok(Step::Continue)
        } else if code == CALL {
            crate::call::call(self)
        } else if code == RETURN {
            crate::call::return_(self)
        } else if code == ASSIGN_FUNC_REST_PARAM {
            crate::call::assign_func_rest_param(self)?;
            Ok(Step::Continue)
        } else if code == DOUBLE {
            crate::stack_ops::double(self)?;
            Ok(Step::Continue)
        } else if code == POP {
            crate::stack_ops::pop(self)?;
            Ok(Step::Continue)
        } else if code == LAND {
            crate::stack_ops::land(self)?;
            Ok(Step::Continue)
        } else if code == LOR {
            crate::stack_ops::lor(self)?;
            Ok(Step::Continue)
        } else if code == SET_CUR_CALLOBJ {
            crate::scope_ops::set_cur_callobj(self)?;
            Ok(Step::Continue)
        } else if code == GET_NAME {
            crate::scope_ops::get_name(self)?;
            Ok(Step::Continue)
        } else if code == SET_NAME {
            crate::scope_ops::set_name(self)?;
            Ok(Step::Continue)
        } else if code == DECL_VAR {
            crate::scope_ops::decl_var(self)?;
            Ok(Step::Continue)
        } else {
            Err(RuntimeError::BadOpcode)
        }
    }

    /// Runs at most `fuel` instructions, up to the first that ends the
    /// program or asks something of the driver.
    pub fn do_run(&mut self, fuel: u64) -> (r: Result<Step, RuntimeError>)
        ensures
            agrees_run(old(self)@.run(fuel as nat), final(self)@, r),
    {
        let mut left = fuel;
        while left > 0
            invariant
                old(self)@.run(fuel as nat) == self@.run(left as nat),
            decreases left,
        {
            match self.step()? {
                Step::Continue => {},
                other => {
                    return Ok(other);
                },
            }
            left = left - 1;
        }
        Ok(Step::Continue)
    }

    /// Loads the program `insts` and runs it as `do_run` does.
    pub fn run(&mut self, insts: Vec<u8>, fuel: u64) -> (r: Result<Step, RuntimeError>)
        ensures
            agrees_run(
                (Machine { insts: insts@, ..old(self)@ }).run(fuel as nat),
                final(self)@,
                r,
            ),
    {
        self.insts = insts;
        self.do_run(fuel)
    }
}

} // verus!
