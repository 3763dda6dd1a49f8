//! The bytecode format: one byte of opcode, then little-endian operands.

use vstd::prelude::*;

verus! {

/// A program: a flat sequence of bytes, indexed by the program counter.
pub type ByteCode = Vec<u8>;

pub const END: u8 = 0;

pub const CREATE_CONTEXT: u8 = 1;

pub const CONSTRUCT: u8 = 2;

pub const CREATE_OBJECT: u8 = 3;

pub const CREATE_ARRAY: u8 = 4;

pub const PUSH_INT8: u8 = 5;

pub const PUSH_INT32: u8 = 6;

pub const PUSH_FALSE: u8 = 7;

pub const PUSH_TRUE: u8 = 8;

pub const PUSH_CONST: u8 = 9;

pub const PUSH_THIS: u8 = 10;

pub const PUSH_ARGUMENTS: u8 = 11;

pub const NEG: u8 = 12;

pub const ADD: u8 = 13;

pub const SUB: u8 = 14;

pub const MUL: u8 = 15;

pub const DIV: u8 = 16;

pub const REM: u8 = 17;

pub const LT: u8 = 18;

pub const GT: u8 = 19;

pub const LE: u8 = 20;

pub const GE: u8 = 21;

pub const EQ: u8 = 22;

pub const NE: u8 = 23;

pub const SEQ: u8 = 24;

pub const SNE: u8 = 25;

pub const AND: u8 = 26;

pub const OR: u8 = 27;

pub const GET_MEMBER: u8 = 28;

pub const SET_MEMBER: u8 = 29;

pub const GET_GLOBAL: u8 = 30;

pub const SET_GLOBAL: u8 = 31;

pub const GET_LOCAL: u8 = 32;

pub const SET_LOCAL: u8 = 33;

pub const GET_ARG_LOCAL: u8 = 34;

pub const SET_ARG_LOCAL: u8 = 35;

pub const JMP_IF_FALSE: u8 = 36;

pub const JMP: u8 = 37;

pub const CALL: u8 = 38;

pub const RETURN: u8 = 39;

pub const ASSIGN_FUNC_REST_PARAM: u8 = 40;

pub const DOUBLE: u8 = 41;

pub const POP: u8 = 42;

pub const LAND: u8 = 43;

pub const LOR: u8 = 44;

pub const SET_CUR_CALLOBJ: u8 = 45;

pub const GET_NAME: u8 = 46;

pub const SET_NAME: u8 = 47;

pub const DECL_VAR: u8 = 48;

/// The 32-bit number whose little-endian bytes stand at `at` in `bytes`.
pub open spec fn le_u32(bytes: Seq<u8>, at: int) -> int {
    bytes[at] + 0x100 * bytes[at + 1] + 0x1_0000 * bytes[at + 2] + 0x100_0000 * bytes[at + 3]
}

/// The signed reading of the 32-bit number `u`.
pub open spec fn signed32(u: int) -> int {
    if u >= 0x8000_0000 {
        u - 0x1_0000_0000
    } else {
        u
    }
}

/// The four little-endian bytes of the signed 32-bit number `k`.
pub open spec fn le_bytes(k: i32) -> Seq<u8> {
    let u: int = if k < 0 {
        k + 0x1_0000_0000
    } else {
        k as int
    };
    seq![
        (u % 0x100) as u8,
        ((u / 0x100) % 0x100) as u8,
        ((u / 0x1_0000) % 0x100) as u8,
        ((u / 0x100_0000) % 0x100) as u8,
    ]
}

/// Law: decoding undoes encoding. The signed reading of the four
/// little-endian bytes of a 32-bit number is that number.
pub proof fn lemma_le_round_trip(k: i32)
    ensures
        signed32(le_u32(le_bytes(k), 0)) == k,
{
    let u: int = if k < 0 {
        k + 0x1_0000_0000
    } else {
        k as int
    };
    let q1 = u / 0x100;
    let q2 = q1 / 0x100;
    let q3 = q2 / 0x100;
    assert(u / 0x1_0000 == q2);
    assert(u / 0x100_0000 == q3);
    assert(0 <= q3 < 0x100);
    let bytes = le_bytes(k);
    assert(bytes[0] == u % 0x100);
    assert(bytes[1] == q1 % 0x100);
    assert(bytes[2] == q2 % 0x100);
    assert(bytes[3] == q3);
    assert(le_u32(bytes, 0) == u);
}

/// Reads the 32-bit number whose little-endian bytes stand at `at`.
pub fn read_u32(bytes: &Vec<u8>, at: usize) -> (r: u32)
    requires
        at + 4 <= bytes.len(),
    ensures
        r == le_u32(bytes@, at as int),
{
    let b0 = bytes[at] as u32;
    let b1 = bytes[at + 1] as u32;
    let b2 = bytes[at + 2] as u32;
    let b3 = bytes[at + 3] as u32;
    b0 + 0x100 * b1 + 0x1_0000 * b2 + 0x100_0000 * b3
}

/// Reads the signed 32-bit number whose little-endian bytes stand at `at`.
pub fn read_i32(bytes: &Vec<u8>, at: usize) -> (r: i32)
    requires
        at + 4 <= bytes.len(),
    ensures
        r == signed32(le_u32(bytes@, at as int)),
{
    let u = read_u32(bytes, at);
    if u >= 0x8000_0000 {
        ((u as i64) - 0x1_0000_0000) as i32
    } else {
        u as i32
    }
}

} // verus!
