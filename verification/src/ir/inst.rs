use vstd::prelude::*;

use super::Operand;

verus! {

#[derive(Clone, Copy, Debug, PartialEq, Eq, Structural)]
pub enum Opcode {
    Nop,
    Unsupported,
    Mov,
    Add,
    Sub,
    And,
    Orr,
    Eor,
    Shift,
    Extend,
    Load,
    Store,
    Compare,
    Branch,
    BranchCond,
    Call,
    Ret,
}

/// The IR opcodes of two-operand ALU operations.
pub open spec fn is_alu(op: Opcode) -> bool {
    op == Opcode::Add || op == Opcode::Sub || op == Opcode::And || op == Opcode::Orr || op == Opcode::Eor
}

/// `flags` bit indicating that an arithmetic/logical instruction writes NZCV.
pub const FLAG_WRITES_NZCV: u16 = 1u16;

/// Fixed-width IR instruction with typed guest operands.
///
/// Operands are architectural until SSA construction; a `Value` is therefore
/// explicit as `Operand::Value` rather than being conflated with a register or
/// raw instruction word.
#[derive(Clone, Copy, Debug, PartialEq, Eq, Structural)]
pub struct IRInst {
    pub opcode: Opcode,
    pub flags: u16,
    pub a: Operand,
    pub b: Operand,
    pub c: Operand,
}

} // verus!
