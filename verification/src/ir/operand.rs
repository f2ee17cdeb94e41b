use vstd::prelude::*;

use super::Value;

verus! {

/// Width of an AArch64 general-purpose register operand.
#[derive(Clone, Copy, Debug, PartialEq, Eq, Structural)]
pub enum RegWidth {
    W32,
    X64,
}

/// Special meaning of register number 31 in an AArch64 operand.
#[derive(Clone, Copy, Debug, PartialEq, Eq, Structural)]
pub enum RegKind {
    General,
    StackPointer,
    Zero,
}

/// Shift applied to a register operand.
#[derive(Clone, Copy, Debug, PartialEq, Eq, Structural)]
pub enum ShiftKind {
    Lsl,
    Lsr,
    Asr,
    Ror,
}

/// Guest AArch64 general-purpose register.
#[derive(Clone, Copy, Debug, PartialEq, Eq, Structural)]
pub struct GuestReg {
    pub num: u8,
    pub width: RegWidth,
    pub kind: RegKind,
}

/// The kind register number `num` denotes in a plain register operand:
/// number 31 is the zero register, every other number a general register.
pub open spec fn plain_kind(num: u8) -> RegKind {
    if num == 31 { RegKind::Zero } else { RegKind::General }
}

impl GuestReg {
    /// The 64-bit register `x<num>`; `x31` is the zero register.
    pub fn x(num: u8) -> (r: Self)
        ensures
            r == (GuestReg { num, width: RegWidth::X64, kind: plain_kind(num) }),
    {
        GuestReg { num, width: RegWidth::X64, kind: if num == 31 { RegKind::Zero } else { RegKind::General } }
    }

    /// The 32-bit register `w<num>`; `w31` is the zero register.
    pub fn w(num: u8) -> (r: Self)
        ensures
            r == (GuestReg { num, width: RegWidth::W32, kind: plain_kind(num) }),
    {
        GuestReg { num, width: RegWidth::W32, kind: if num == 31 { RegKind::Zero } else { RegKind::General } }
    }

    /// The 64-bit stack pointer.
    pub fn xsp() -> (r: Self)
        ensures
            r == (GuestReg { num: 31, width: RegWidth::X64, kind: RegKind::StackPointer }),
    {
        GuestReg { num: 31, width: RegWidth::X64, kind: RegKind::StackPointer }
    }

    /// The 32-bit stack pointer.
    pub fn wsp() -> (r: Self)
        ensures
            r == (GuestReg { num: 31, width: RegWidth::W32, kind: RegKind::StackPointer }),
    {
        GuestReg { num: 31, width: RegWidth::W32, kind: RegKind::StackPointer }
    }
}

/// A guest memory reference: `[base, #offset]` accessed with `width`.
#[derive(Clone, Copy, Debug, PartialEq, Eq, Structural)]
pub struct MemOperand {
    pub base: GuestReg,
    pub width: RegWidth,
    pub offset: i32,
}

/// An operand carried by ARMx64 IR.
///
/// Guest registers remain explicit until SSA construction. This prevents the
/// lifter from confusing architectural register numbers with SSA `Value`s.
#[derive(Clone, Copy, Debug, PartialEq, Eq, Structural)]
#[allow(inconsistent_fields)]
pub enum Operand {
    Nothing,
    Value(Value),
    Reg(GuestReg),
    Imm(u64),
    PCRelative(i64),
    GuestPc(u64),
    RawInst(u32),
    /// A register shifted by a constant amount.
    ShiftedReg { reg: GuestReg, kind: ShiftKind, amount: u8 },
    /// A 16-bit immediate shifted left by a constant amount.
    ShiftedImm { value: u16, amount: u8 },
    /// A register shifted by an amount held in another register.
    ShiftReg { value: GuestReg, amount: GuestReg, kind: ShiftKind },
    Mem(MemOperand),
}

impl Operand {
    pub fn none() -> (r: Self)
        ensures
            r == Operand::Nothing,
    {
        Operand::Nothing
    }

    pub fn value(value: Value) -> (r: Self)
        ensures
            r == Operand::Value(value),
    {
        Operand::Value(value)
    }

    pub fn imm(value: u64) -> (r: Self)
        ensures
            r == Operand::Imm(value),
    {
        Operand::Imm(value)
    }

    pub fn raw_inst(word: u32) -> (r: Self)
        ensures
            r == Operand::RawInst(word),
    {
        Operand::RawInst(word)
    }
}

} // verus!
