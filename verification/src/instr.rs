//! Instruction classifier for the 32-bit base instruction set.
//!
//! The comparator never interprets an instruction's semantics; it only needs
//! to know, for a raw 32-bit instruction word, which trace fields are
//! architecturally meaningful and what their values must be.  Every query is
//! defined by a spec function over the word's bits, and the executable
//! accessors are proved to return exactly those values.
//!
//! Field presence follows the instruction's format class:
//! register-register (`R`), short-immediate (`I`), store (`S`), branch (`B`),
//! upper-immediate (`U`), and jump (`J`).  Shift-by-immediate instructions
//! are the one special case: they report a shift amount and a `funct7` value
//! in place of an immediate.

use vstd::prelude::*;

verus! {

/// Format class of a 32-bit instruction word.
#[derive(Clone, Copy, PartialEq, Eq, Structural, Debug)]
pub enum InstrFormat {
    R,
    I,
    S,
    B,
    U,
    J,
}

/// The major opcode: the low seven bits of the word.
pub open spec fn spec_opcode(w: u32) -> u32 {
    w & 0x7f
}

/// Format class of a word, or `None` for an unrecognized opcode.
pub open spec fn spec_format(w: u32) -> Option<InstrFormat> {
    let op = spec_opcode(w);
    if op == 0x33 {
        Some(InstrFormat::R)
    } else if op == 0x03 || op == 0x0f || op == 0x13 || op == 0x67 || op == 0x73 {
        Some(InstrFormat::I)
    } else if op == 0x23 {
        Some(InstrFormat::S)
    } else if op == 0x63 {
        Some(InstrFormat::B)
    } else if op == 0x37 || op == 0x17 {
        Some(InstrFormat::U)
    } else if op == 0x6f {
        Some(InstrFormat::J)
    } else {
        None
    }
}

/// A shift-by-immediate instruction: immediate-format arithmetic whose
/// function code selects a shift.  These carry a shift amount and a
/// `funct7` discriminator instead of a plain immediate.
pub open spec fn spec_is_shift_imm(w: u32) -> bool {
    spec_opcode(w) == 0x13 && ((w >> 12) & 0x7 == 1 || (w >> 12) & 0x7 == 5)
}

/// Memory fence.
pub open spec fn spec_is_fence(w: u32) -> bool {
    spec_opcode(w) == 0x0f
}

/// System instruction (environment call or breakpoint).
pub open spec fn spec_is_system(w: u32) -> bool {
    spec_opcode(w) == 0x73
}

/// Conditional branch.
pub open spec fn spec_is_btype(w: u32) -> bool {
    spec_opcode(w) == 0x63
}

/// Store.
pub open spec fn spec_is_stype(w: u32) -> bool {
    spec_opcode(w) == 0x23
}

/// Load or store: the instruction performs a data-memory access.
pub open spec fn spec_is_memory(w: u32) -> bool {
    spec_opcode(w) == 0x03 || spec_opcode(w) == 0x23
}

/// Unconditional jump (direct or register-indirect).
pub open spec fn spec_is_uncond_jump(w: u32) -> bool {
    spec_opcode(w) == 0x6f || spec_opcode(w) == 0x67
}

/// Destination register, where the format defines one.
pub open spec fn spec_rd(w: u32) -> Option<u8> {
    match spec_format(w) {
        Some(InstrFormat::R) | Some(InstrFormat::I) | Some(InstrFormat::U)
            | Some(InstrFormat::J) => Some(((w >> 7) & 0x1f) as u8),
        _ => None,
    }
}

/// First source register, where the format defines one.
pub open spec fn spec_rs1(w: u32) -> Option<u8> {
    match spec_format(w) {
        Some(InstrFormat::R) | Some(InstrFormat::I) | Some(InstrFormat::S)
            | Some(InstrFormat::B) => Some(((w >> 15) & 0x1f) as u8),
        _ => None,
    }
}

/// Second source register, where the format defines one.
pub open spec fn spec_rs2(w: u32) -> Option<u8> {
    match spec_format(w) {
        Some(InstrFormat::R) | Some(InstrFormat::S) | Some(InstrFormat::B) =>
            Some(((w >> 20) & 0x1f) as u8),
        _ => None,
    }
}

/// Minor function code, where the format defines one.
pub open spec fn spec_funct3(w: u32) -> Option<u8> {
    match spec_format(w) {
        Some(InstrFormat::R) | Some(InstrFormat::I) | Some(InstrFormat::S)
            | Some(InstrFormat::B) => Some(((w >> 12) & 0x7) as u8),
        _ => None,
    }
}

/// Major function code: register-register instructions and immediate shifts.
pub open spec fn spec_funct7(w: u32) -> Option<u8> {
    if spec_format(w) == Some(InstrFormat::R) || spec_is_shift_imm(w) {
        Some(((w >> 25) & 0x7f) as u8)
    } else {
        None
    }
}

/// Shift amount of a shift-by-immediate instruction.
pub open spec fn spec_shamt(w: u32) -> Option<u8> {
    if spec_is_shift_imm(w) {
        Some(((w >> 20) & 0x1f) as u8)
    } else {
        None
    }
}

/// Sign-extended immediate as a 32-bit value, where the format defines one.
/// Shift-by-immediate instructions report a shift amount instead.
pub open spec fn spec_imm(w: u32) -> Option<u32> {
    match spec_format(w) {
        Some(InstrFormat::I) => if spec_is_shift_imm(w) {
            None
        } else {
            Some(spec_imm_i(w))
        },
        Some(InstrFormat::S) => Some(spec_imm_s(w)),
        Some(InstrFormat::B) => Some(spec_imm_b(w)),
        Some(InstrFormat::U) => Some(w & 0xffff_f000),
        Some(InstrFormat::J) => Some(spec_imm_j(w)),
        _ => None,
    }
}

/// Immediate of a short-immediate instruction: bits 31..20, sign-extended.
pub open spec fn spec_imm_i(w: u32) -> u32 {
    let v = (w >> 20) & 0xfff;
    if v & 0x800 != 0 {
        v | 0xffff_f000
    } else {
        v
    }
}

/// Immediate of a store: bits 31..25 and 11..7, sign-extended.
pub open spec fn spec_imm_s(w: u32) -> u32 {
    let v = (((w >> 25) & 0x7f) << 5) | ((w >> 7) & 0x1f);
    if v & 0x800 != 0 {
        v | 0xffff_f000
    } else {
        v
    }
}

/// Immediate of a branch: the encoded 13-bit offset, sign-extended.
pub open spec fn spec_imm_b(w: u32) -> u32 {
    let v = (((w >> 31) & 0x1) << 12) | (((w >> 7) & 0x1) << 11) | (((w >> 25) & 0x3f) << 5)
        | (((w >> 8) & 0xf) << 1);
    if v & 0x1000 != 0 {
        v | 0xffff_e000
    } else {
        v
    }
}

/// Immediate of a jump: the encoded 21-bit offset, sign-extended.
pub open spec fn spec_imm_j(w: u32) -> u32 {
    let v = (((w >> 31) & 0x1) << 20) | (((w >> 12) & 0xff) << 12) | (((w >> 20) & 0x1) << 11)
        | (((w >> 21) & 0x3ff) << 1);
    if v & 0x100000 != 0 {
        v | 0xffe0_0000
    } else {
        v
    }
}

/// Format class of a word, or `None` for an unrecognized opcode.
pub fn instr_format(w: u32) -> (r: Option<InstrFormat>)
    ensures
        r == spec_format(w),
{
    let op = w & 0x7f;
    if op == 0x33 {
        Some(InstrFormat::R)
    } else if op == 0x03 || op == 0x0f || op == 0x13 || op == 0x67 || op == 0x73 {
        Some(InstrFormat::I)
    } else if op == 0x23 {
        Some(InstrFormat::S)
    } else if op == 0x63 {
        Some(InstrFormat::B)
    } else if op == 0x37 || op == 0x17 {
        Some(InstrFormat::U)
    } else if op == 0x6f {
        Some(InstrFormat::J)
    } else {
        None
    }
}

/// See [`spec_is_shift_imm`].
pub fn is_shift_imm(w: u32) -> (r: bool)
    ensures
        r == spec_is_shift_imm(w),
{
    w & 0x7f == 0x13 && ((w >> 12) & 0x7 == 1 || (w >> 12) & 0x7 == 5)
}

/// See [`spec_is_fence`].
pub fn is_fence(w: u32) -> (r: bool)
    ensures
        r == spec_is_fence(w),
{
    w & 0x7f == 0x0f
}

/// See [`spec_is_system`].
pub fn is_system(w: u32) -> (r: bool)
    ensures
        r == spec_is_system(w),
{
    w & 0x7f == 0x73
}

/// See [`spec_is_btype`].
pub fn is_btype(w: u32) -> (r: bool)
    ensures
        r == spec_is_btype(w),
{
    w & 0x7f == 0x63
}

/// See [`spec_is_stype`].
pub fn is_stype(w: u32) -> (r: bool)
    ensures
        r == spec_is_stype(w),
{
    w & 0x7f == 0x23
}

/// See [`spec_is_memory`].
pub fn is_memory(w: u32) -> (r: bool)
    ensures
        r == spec_is_memory(w),
{
    w & 0x7f == 0x03 || w & 0x7f == 0x23
}

/// See [`spec_is_uncond_jump`].
pub fn is_uncond_jump(w: u32) -> (r: bool)
    ensures
        r == spec_is_uncond_jump(w),
{
    w & 0x7f == 0x6f || w & 0x7f == 0x67
}

/// See [`spec_rd`].
pub fn get_rd(w: u32) -> (r: Option<u8>)
    ensures
        r == spec_rd(w),
{
    match instr_format(w) {
        Some(InstrFormat::R) | Some(InstrFormat::I) | Some(InstrFormat::U)
            | Some(InstrFormat::J) => Some(((w >> 7) & 0x1f) as u8),
        _ => None,
    }
}

/// See [`spec_rs1`].
pub fn get_rs1(w: u32) -> (r: Option<u8>)
    ensures
        r == spec_rs1(w),
{
    match instr_format(w) {
        Some(InstrFormat::R) | Some(InstrFormat::I) | Some(InstrFormat::S)
            | Some(InstrFormat::B) => Some(((w >> 15) & 0x1f) as u8),
        _ => None,
    }
}

/// See [`spec_rs2`].
pub fn get_rs2(w: u32) -> (r: Option<u8>)
    ensures
        r == spec_rs2(w),
{
    match instr_format(w) {
        Some(InstrFormat::R) | Some(InstrFormat::S) | Some(InstrFormat::B) =>
            Some(((w >> 20) & 0x1f) as u8),
        _ => None,
    }
}

/// See [`spec_funct3`].
pub fn get_funct3(w: u32) -> (r: Option<u8>)
    ensures
        r == spec_funct3(w),
{
    match instr_format(w) {
        Some(InstrFormat::R) | Some(InstrFormat::I) | Some(InstrFormat::S)
            | Some(InstrFormat::B) => Some(((w >> 12) & 0x7) as u8),
        _ => None,
    }
}

/// See [`spec_funct7`].
pub fn get_funct7(w: u32) -> (r: Option<u8>)
    ensures
        r == spec_funct7(w),
{
    let fmt = instr_format(w);
    if matches!(fmt, Some(InstrFormat::R)) || is_shift_imm(w) {
        Some(((w >> 25) & 0x7f) as u8)
    } else {
        None
    }
}

/// See [`spec_shamt`].
pub fn get_shamt(w: u32) -> (r: Option<u8>)
    ensures
        r == spec_shamt(w),
{
    if is_shift_imm(w) {
        Some(((w >> 20) & 0x1f) as u8)
    } else {
        None
    }
}

/// See [`spec_imm`].
pub fn get_imm(w: u32) -> (r: Option<u32>)
    ensures
        r == spec_imm(w),
{
    match instr_format(w) {
        Some(InstrFormat::I) => {
            if is_shift_imm(w) {
                None
            } else {
                let v = (w >> 20) & 0xfff;
                Some(if v & 0x800 != 0 { v | 0xffff_f000 } else { v })
            }
        },
        Some(InstrFormat::S) => {
            let v = (((w >> 25) & 0x7f) << 5) | ((w >> 7) & 0x1f);
            Some(if v & 0x800 != 0 { v | 0xffff_f000 } else { v })
        },
        Some(InstrFormat::B) => {
            let v = (((w >> 31) & 0x1) << 12) | (((w >> 7) & 0x1) << 11)
                | (((w >> 25) & 0x3f) << 5) | (((w >> 8) & 0xf) << 1);
            Some(if v & 0x1000 != 0 { v | 0xffff_e000 } else { v })
        },
        Some(InstrFormat::U) => Some(w & 0xffff_f000),
        Some(InstrFormat::J) => {
            let v = (((w >> 31) & 0x1) << 20) | (((w >> 12) & 0xff) << 12)
                | (((w >> 20) & 0x1) << 11) | (((w >> 21) & 0x3ff) << 1);
            Some(if v & 0x100000 != 0 { v | 0xffe0_0000 } else { v })
        },
        _ => None,
    }
}

} // verus!
