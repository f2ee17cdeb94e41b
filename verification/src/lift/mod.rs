pub mod block;

use vstd::prelude::*;

use crate::arch::aarch64::{self, A64DecodeError, A64Decoded, A64Inst, A64Opcode, A64Operand, A64ShiftStyle, A64SizeCode};
use crate::ir::{Block, GuestReg, IRInst, MemOperand, Opcode, Operand, RegKind, RegWidth, ShiftKind, FLAG_WRITES_NZCV};

pub use block::{lift_block, lift_block_at};

verus! {

// ---------------------------------------------------------------------------
// The lifting of one decoded instruction.

pub open spec fn width_of(size: A64SizeCode) -> RegWidth {
    match size { A64SizeCode::X => RegWidth::X64, A64SizeCode::W => RegWidth::W32 }
}

/// Register `num` of width `size`. Only number 31 is special: the stack
/// pointer where the operand allows it (`sp`), the zero register otherwise.
pub open spec fn lower_reg_spec(size: A64SizeCode, num: u16, sp: bool) -> Operand {
    let n = num as u8;
    Operand::Reg(GuestReg {
        num: n,
        width: width_of(size),
        kind: if n != 31 { RegKind::General } else if sp { RegKind::StackPointer } else { RegKind::Zero },
    })
}

/// The guest memory operand of a transfer of width `width` at base register
/// `base` (number 31 is the stack pointer) plus `offset`.
pub open spec fn mem_operand_spec(base: u16, offset: i32, width: RegWidth) -> MemOperand {
    let n = base as u8;
    MemOperand {
        base: GuestReg { num: n, width: RegWidth::X64, kind: if n == 31 { RegKind::StackPointer } else { RegKind::General } },
        width,
        offset,
    }
}

/// The IR of an LDR or STR of a general register at a base register plus a
/// constant offset, without writeback; other addressing forms have none.
pub open spec fn memory_access_spec(d: A64Decoded) -> Option<IRInst> {
    match (d.operands[0], d.operands[1], d.operands[2]) {
        (A64Operand::Register(size, rt), A64Operand::RegPreIndex(base, offset, writeback), A64Operand::Nothing) => if writeback {
            None
        } else {
            let mem = Operand::Mem(mem_operand_spec(base, offset, width_of(size)));
            let reg = lower_reg_spec(size, rt, false);
            if d.opcode == A64Opcode::Ldr {
                Some(IRInst { opcode: Opcode::Load, flags: 0, a: reg, b: mem, c: Operand::Nothing })
            } else {
                Some(IRInst { opcode: Opcode::Store, flags: 0, a: mem, b: reg, c: Operand::Nothing })
            }
        },
        _ => None,
    }
}

pub open spec fn lower_shift_spec(style: A64ShiftStyle) -> Option<ShiftKind> {
    match style {
        A64ShiftStyle::Lsl => Some(ShiftKind::Lsl),
        A64ShiftStyle::Lsr => Some(ShiftKind::Lsr),
        A64ShiftStyle::Asr => Some(ShiftKind::Asr),
        A64ShiftStyle::Ror => Some(ShiftKind::Ror),
        A64ShiftStyle::Other => None,
    }
}

/// The IR operand for a decoder operand; operands the IR does not carry
/// become `Operand::Nothing`.
pub open spec fn lower_operand_spec(op: A64Operand) -> Operand {
    match op {
        A64Operand::Nothing => Operand::Nothing,
        A64Operand::Register(size, num) => lower_reg_spec(size, num, false),
        A64Operand::RegisterOrSP(size, num) => lower_reg_spec(size, num, true),
        A64Operand::Immediate(value) => Operand::Imm(value as u64),
        A64Operand::Imm64(value) => Operand::Imm(value),
        A64Operand::Imm16(value) => Operand::Imm(value as u64),
        A64Operand::PCOffset(offset) => Operand::PCRelative(offset),
        A64Operand::ImmShift(value, amount) => Operand::ShiftedImm { value, amount },
        A64Operand::RegShift(style, amount, size, num) => match lower_shift_spec(style) {
            Some(kind) => match lower_reg_spec(size, num, false) {
                Operand::Reg(reg) => Operand::ShiftedReg { reg, kind, amount },
                _ => Operand::Nothing,
            },
            None => Operand::Nothing,
        },
        _ => Operand::Nothing,
    }
}

/// `hint #0`, which is `nop`: the decoder gives its immediate as the
/// control-register field CRm and the operation field op2, both zero.
pub open spec fn is_nop_hint(d: A64Decoded) -> bool {
    d.operands[0] == A64Operand::ControlReg(0) && d.operands[1] == A64Operand::Immediate(0)
}

/// The IR opcode and flags for a decoded instruction the lifter supports.
/// A register-indirect branch has no IR lowering: its target is not a
/// constant guest PC.
pub open spec fn ir_opcode_of(d: A64Decoded) -> Option<(Opcode, u16)> {
    match d.opcode {
        A64Opcode::Hint => if is_nop_hint(d) { Some((Opcode::Nop, 0u16)) } else { None },
        A64Opcode::Add => Some((Opcode::Add, 0u16)),
        A64Opcode::Adds => Some((Opcode::Add, FLAG_WRITES_NZCV)),
        A64Opcode::Sub => Some((Opcode::Sub, 0u16)),
        A64Opcode::Subs => Some((Opcode::Sub, FLAG_WRITES_NZCV)),
        A64Opcode::And => Some((Opcode::And, 0u16)),
        A64Opcode::Ands => Some((Opcode::And, FLAG_WRITES_NZCV)),
        A64Opcode::Orr => Some((Opcode::Orr, 0u16)),
        A64Opcode::Eor => Some((Opcode::Eor, 0u16)),
        A64Opcode::Movz => Some((Opcode::Mov, 0u16)),
        A64Opcode::Lslv | A64Opcode::Lsrv | A64Opcode::Asrv | A64Opcode::Rorv => Some((Opcode::Shift, 0u16)),
        A64Opcode::B => Some((Opcode::Branch, 0u16)),
        A64Opcode::Bcc(_) | A64Opcode::Cbz | A64Opcode::Cbnz => Some((Opcode::BranchCond, 0u16)),
        A64Opcode::Bl | A64Opcode::Blr => Some((Opcode::Call, 0u16)),
        A64Opcode::Ret => Some((Opcode::Ret, 0u16)),
        _ => None,
    }
}

/// The placeholder for a guest instruction the lifter cannot lower: it
/// carries the raw instruction word.
pub open spec fn unsupported_spec(inst: A64Inst) -> IRInst {
    IRInst { opcode: Opcode::Unsupported, flags: 0, a: Operand::RawInst(inst.0), b: Operand::Nothing, c: Operand::Nothing }
}

/// The IR instruction for guest instruction `inst`, given what the decoder
/// made of it.
pub open spec fn lifted(inst: A64Inst, decoded: Result<A64Decoded, A64DecodeError>) -> IRInst {
    match decoded {
        Err(_) => unsupported_spec(inst),
        Ok(d) => if d.opcode == A64Opcode::Ldr || d.opcode == A64Opcode::Str {
            match memory_access_spec(d) {
                Some(ir) => ir,
                None => unsupported_spec(inst),
            }
        } else {
            match ir_opcode_of(d) {
            Some((opcode, flags)) => IRInst {
                opcode,
                flags,
                a: lower_operand_spec(d.operands[0]),
                b: lower_operand_spec(d.operands[1]),
                c: lower_operand_spec(d.operands[2]),
            },
            None => unsupported_spec(inst),
        }},
    }
}

/// An AArch64 data-processing instruction lifts to the IR operation it
/// performs, and a lifted instruction writes NZCV exactly when it is one of
/// the flag-setting forms ADDS, SUBS and ANDS.
pub proof fn lemma_lifted_operation_and_flags(inst: A64Inst, d: A64Decoded)
    ensures
        (lifted(inst, Ok(d)).flags & FLAG_WRITES_NZCV != 0)
            == (d.opcode == A64Opcode::Adds || d.opcode == A64Opcode::Subs || d.opcode == A64Opcode::Ands),
        d.opcode == A64Opcode::Add || d.opcode == A64Opcode::Adds ==> lifted(inst, Ok(d)).opcode == Opcode::Add,
        d.opcode == A64Opcode::Sub || d.opcode == A64Opcode::Subs ==> lifted(inst, Ok(d)).opcode == Opcode::Sub,
        d.opcode == A64Opcode::And || d.opcode == A64Opcode::Ands ==> lifted(inst, Ok(d)).opcode == Opcode::And,
        d.opcode == A64Opcode::Orr ==> lifted(inst, Ok(d)).opcode == Opcode::Orr,
        d.opcode == A64Opcode::Eor ==> lifted(inst, Ok(d)).opcode == Opcode::Eor,
        d.opcode == A64Opcode::Movz ==> lifted(inst, Ok(d)).opcode == Opcode::Mov,
{
    assert(1u16 & 1u16 != 0u16 && 0u16 & 1u16 == 0u16) by (bit_vector);
}

/// Register operands: a register numbered below 31 is that general
/// register, of the operand's width; number 31 is the stack pointer in a
/// register-or-SP operand and the zero register otherwise.
pub proof fn lemma_register_operands(size: A64SizeCode, num: u16)
    requires
        num <= 31,
    ensures
        ({
            let width = if size == A64SizeCode::X { RegWidth::X64 } else { RegWidth::W32 };
            let general = Operand::Reg(GuestReg { num: num as u8, width, kind: RegKind::General });
            &&& num < 31 ==> lower_operand_spec(A64Operand::Register(size, num)) == general
            &&& num < 31 ==> lower_operand_spec(A64Operand::RegisterOrSP(size, num)) == general
            &&& num == 31 ==> lower_operand_spec(A64Operand::Register(size, num))
                == Operand::Reg(GuestReg { num: 31, width, kind: RegKind::Zero })
            &&& num == 31 ==> lower_operand_spec(A64Operand::RegisterOrSP(size, num))
                == Operand::Reg(GuestReg { num: 31, width, kind: RegKind::StackPointer })
        }),
{
}

fn lower_reg(size: A64SizeCode, num: u16, sp: bool) -> (r: Operand)
    ensures
        r == lower_reg_spec(size, num, sp),
{
    let num = num as u8;
    let width = match size {
        A64SizeCode::X => RegWidth::X64,
        A64SizeCode::W => RegWidth::W32,
    };
    let kind = if num != 31 { RegKind::General } else if sp { RegKind::StackPointer } else { RegKind::Zero };
    Operand::Reg(GuestReg { num, width, kind })
}

fn lower_shift(style: A64ShiftStyle) -> (r: Option<ShiftKind>)
    ensures
        r == lower_shift_spec(style),
{
    match style {
        A64ShiftStyle::Lsl => Some(ShiftKind::Lsl),
        A64ShiftStyle::Lsr => Some(ShiftKind::Lsr),
        A64ShiftStyle::Asr => Some(ShiftKind::Asr),
        A64ShiftStyle::Ror => Some(ShiftKind::Ror),
        _ => None,
    }
}

/// Convert a decoder operand into ARMx64's typed operand.
fn lower_operand(op: A64Operand) -> (r: Operand)
    ensures
        r == lower_operand_spec(op),
{
    match op {
        A64Operand::Nothing => Operand::Nothing,
        A64Operand::Register(size, num) => lower_reg(size, num, false),
        A64Operand::RegisterOrSP(size, num) => lower_reg(size, num, true),
        A64Operand::Immediate(value) => Operand::Imm(value as u64),
        A64Operand::Imm64(value) => Operand::Imm(value),
        A64Operand::Imm16(value) => Operand::Imm(value as u64),
        A64Operand::PCOffset(offset) => Operand::PCRelative(offset),
        A64Operand::ImmShift(value, amount) => Operand::ShiftedImm { value, amount },
        A64Operand::RegShift(style, amount, size, num) => match lower_shift(style) {
            Some(kind) => match lower_reg(size, num, false) {
                Operand::Reg(reg) => Operand::ShiftedReg { reg, kind, amount },
                _ => Operand::Nothing,
            },
            None => Operand::Nothing,
        },
        _ => Operand::Nothing,
    }
}

fn memory_access(d: &A64Decoded) -> (r: Option<IRInst>)
    ensures
        r == memory_access_spec(*d),
{
    match (d.operands[0], d.operands[1], d.operands[2]) {
        (A64Operand::Register(size, rt), A64Operand::RegPreIndex(base, offset, writeback), A64Operand::Nothing) => {
            if writeback {
                return None;
            }
            let width = match size {
                A64SizeCode::X => RegWidth::X64,
                A64SizeCode::W => RegWidth::W32,
            };
            let n = base as u8;
            let kind = if n == 31 { RegKind::StackPointer } else { RegKind::General };
            let mem = Operand::Mem(MemOperand { base: GuestReg { num: n, width: RegWidth::X64, kind }, width, offset });
            let reg = lower_reg(size, rt, false);
            if d.opcode == A64Opcode::Ldr {
                Some(IRInst { opcode: Opcode::Load, flags: 0, a: reg, b: mem, c: Operand::Nothing })
            } else {
                Some(IRInst { opcode: Opcode::Store, flags: 0, a: mem, b: reg, c: Operand::Nothing })
            }
        },
        _ => None,
    }
}

fn unsupported(inst: A64Inst) -> (r: IRInst)
    ensures
        r == unsupported_spec(inst),
{
    IRInst { opcode: Opcode::Unsupported, flags: 0, a: Operand::raw_inst(inst.0), b: Operand::Nothing, c: Operand::Nothing }
}

/// The IR instruction for guest instruction `inst`, given what the decoder
/// made of it.
pub fn lift_decoded(inst: A64Inst, decoded: &Result<A64Decoded, A64DecodeError>) -> (r: IRInst)
    ensures
        r == lifted(inst, *decoded),
{
    let d = match decoded {
        Ok(d) => d,
        Err(_) => return unsupported(inst),
    };
    if d.opcode == A64Opcode::Ldr || d.opcode == A64Opcode::Str {
        return match memory_access(d) {
            Some(ir) => ir,
            None => unsupported(inst),
        };
    }
    let (ir_opcode, flags): (Opcode, u16) = match d.opcode {
        A64Opcode::Hint => {
            if d.operands[0] == A64Operand::ControlReg(0) && d.operands[1] == A64Operand::Immediate(0) {
                (Opcode::Nop, 0)
            } else {
                return unsupported(inst);
            }
        },
        A64Opcode::Add => (Opcode::Add, 0),
        A64Opcode::Adds => (Opcode::Add, FLAG_WRITES_NZCV),
        A64Opcode::Sub => (Opcode::Sub, 0),
        A64Opcode::Subs => (Opcode::Sub, FLAG_WRITES_NZCV),
        A64Opcode::And => (Opcode::And, 0),
        A64Opcode::Ands => (Opcode::And, FLAG_WRITES_NZCV),
        A64Opcode::Orr => (Opcode::Orr, 0),
        A64Opcode::Eor => (Opcode::Eor, 0),
        A64Opcode::Movz => (Opcode::Mov, 0),
        A64Opcode::Lslv | A64Opcode::Lsrv | A64Opcode::Asrv | A64Opcode::Rorv => (Opcode::Shift, 0),
        A64Opcode::B => (Opcode::Branch, 0),
        A64Opcode::Bcc(_) | A64Opcode::Cbz | A64Opcode::Cbnz => (Opcode::BranchCond, 0),
        A64Opcode::Bl | A64Opcode::Blr => (Opcode::Call, 0),
        A64Opcode::Ret => (Opcode::Ret, 0),
        _ => return unsupported(inst),
    };
    IRInst {
        opcode: ir_opcode,
        flags,
        a: lower_operand(d.operands[0]),
        b: lower_operand(d.operands[1]),
        c: lower_operand(d.operands[2]),
    }
}

/// Lift one decoded guest instruction into ARMx64 IR.
pub fn lift_one(inst: A64Inst, block: &mut Block)
    ensures
        final(block).instructions() == old(block).instructions().push(lifted(inst, aarch64::decode_of(inst))),
        final(block).pc() == old(block).pc(),
        final(block).hits() == old(block).hits(),
        final(block).span() == crate::ir::block::grow_span(old(block).span()),
{
    let decoded = aarch64::decode(inst);
    let ir = lift_decoded(inst, &decoded);
    block.push(ir);
}

} // verus!
