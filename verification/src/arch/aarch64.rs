use vstd::prelude::*;

use super::yaxpeax::decode_bytes;

verus! {

/// A raw AArch64 instruction word.
#[derive(Clone, Copy, Debug, PartialEq, Eq, Structural)]
pub struct A64Inst(pub u32);

impl A64Inst {
    /// The instruction's bytes in memory order (little-endian).
    pub fn to_le_bytes(self) -> (r: [u8; 4])
        ensures
            r@ == crate::codegen::x86_64::le32(self.0),
    {
        let w = self.0;
        [w as u8, (w >> 8u32) as u8, (w >> 16u32) as u8, (w >> 24u32) as u8]
    }
}

// ---------------------------------------------------------------------------
// A decoded instruction, as the lifter reads it.

/// The AArch64 operations the lifter tells apart; every other operation is
/// `Other`.
#[derive(Clone, Copy, Debug, PartialEq, Eq, Structural)]
pub enum A64Opcode {
    Hint,
    Add,
    Adds,
    Sub,
    Subs,
    And,
    Ands,
    Orr,
    Eor,
    Movz,
    Lslv,
    Lsrv,
    Asrv,
    Rorv,
    B,
    Br,
    Bcc(u8),
    Cbz,
    Cbnz,
    Bl,
    Blr,
    Ret,
    Ldr,
    Str,
    Other,
}

#[derive(Clone, Copy, Debug, PartialEq, Eq, Structural)]
pub enum A64SizeCode {
    X,
    W,
}

#[derive(Clone, Copy, Debug, PartialEq, Eq, Structural)]
pub enum A64ShiftStyle {
    Lsl,
    Lsr,
    Asr,
    Ror,
    /// An extend (`uxtb`, `sxtw`, ...).
    Other,
}

/// The AArch64 operands the lifter reads; every other operand is `Other`.
#[derive(Clone, Copy, Debug, PartialEq, Eq, Structural)]
pub enum A64Operand {
    Nothing,
    /// A general register; number 31 is the zero register.
    Register(A64SizeCode, u16),
    /// A general register; number 31 is the stack pointer.
    RegisterOrSP(A64SizeCode, u16),
    ControlReg(u16),
    Immediate(u32),
    Imm64(u64),
    Imm16(u16),
    PCOffset(i64),
    ImmShift(u16, u8),
    RegShift(A64ShiftStyle, u8, A64SizeCode, u16),
    /// A memory address: a base register (number 31 is the stack pointer)
    /// plus a constant offset, and whether the address is written back to
    /// the base register.
    RegPreIndex(u16, i32, bool),
    Other,
}

#[derive(Clone, Copy, Debug)]
pub struct A64Decoded {
    pub opcode: A64Opcode,
    pub operands: [A64Operand; 4],
}

#[derive(Clone, Copy, Debug, PartialEq, Eq, Structural)]
pub enum A64DecodeError {
    ExhaustedInput,
    InvalidOpcode,
    InvalidOperand,
    IncompleteDecoder,
}

// ---------------------------------------------------------------------------
// The decoder of yaxpeax-arm.

/// What yaxpeax-arm's decoder makes of instruction `inst`.
pub open spec fn decode_of(inst: A64Inst) -> Result<A64Decoded, A64DecodeError> {
    crate::arch::yaxpeax::a64_decode(crate::codegen::x86_64::le32(inst.0))
}

/// Decode one little-endian AArch64 instruction.
pub fn decode(inst: A64Inst) -> (r: Result<A64Decoded, A64DecodeError>)
    ensures
        r == decode_of(inst),
{
    let bytes = inst.to_le_bytes();
    decode_bytes(&bytes)
}

} // verus!
