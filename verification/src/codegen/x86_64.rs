use vstd::prelude::*;

use crate::ir::{Block, GuestReg, IRInst, MemOperand, Opcode, Operand, RegKind, RegWidth, ShiftKind};
use crate::runtime::{GPR_BASE, HOST_BASE, NZCV_OFFSET, PC_OFFSET, SP_OFFSET};

verus! {

#[derive(Clone, Copy, Debug, PartialEq, Eq, Structural)]
pub enum CodegenError {
    UnsupportedOpcode(Opcode),
    UnsupportedOperand,
}

/// How the emission of a block ends.
#[derive(Clone, Copy, Debug, PartialEq, Eq, Structural)]
pub enum EmitEnd {
    /// Every instruction was emitted, or a block exit was reached.
    Finished,
    /// Emission stopped on an instruction it cannot lower.
    Failed(CodegenError),
    /// Emission would overflow a guest address or a shift amount.
    Fault,
}

/// What emitting one instruction leaves the block emission to do.
#[derive(Clone, Copy, Debug, PartialEq, Eq, Structural)]
pub enum Step {
    Continue,
    Stop(EmitEnd),
}

#[derive(Debug)]
pub struct CodeBuffer {
    pub bytes: Vec<u8>,
}

#[derive(Clone, Copy, Debug, PartialEq, Eq, Structural)]
pub enum X86Scratch {
    Rax,
    Rcx,
    Rdx,
}

// ---------------------------------------------------------------------------
// Encodings, as byte sequences.

pub open spec fn le32(v: u32) -> Seq<u8> {
    seq![v as u8, (v >> 8u32) as u8, (v >> 16u32) as u8, (v >> 24u32) as u8]
}

pub open spec fn le64(v: u64) -> Seq<u8> {
    seq![
        v as u8, (v >> 8u64) as u8, (v >> 16u64) as u8, (v >> 24u64) as u8,
        (v >> 32u64) as u8, (v >> 40u64) as u8, (v >> 48u64) as u8, (v >> 56u64) as u8,
    ]
}

/// The REX.W prefix when `w` holds.
pub open spec fn rex_bytes(w: bool) -> Seq<u8> {
    if w { seq![0x48u8] } else { Seq::empty() }
}

pub open spec fn reg_index(reg: X86Scratch) -> u8 {
    match reg {
        X86Scratch::Rax => 0,
        X86Scratch::Rcx => 1,
        X86Scratch::Rdx => 2,
    }
}

/// ModRM byte for `[rdi + disp32]` with `reg` in the reg field.
pub open spec fn modrm_state(reg: X86Scratch) -> u8 {
    match reg {
        X86Scratch::Rax => 0x87,
        X86Scratch::Rcx => 0x8F,
        X86Scratch::Rdx => 0x97,
    }
}

pub open spec fn mov_imm_bytes(reg: X86Scratch, value: u64, width: RegWidth) -> Seq<u8> {
    match width {
        RegWidth::X64 => seq![0x48u8, (0xB8 + reg_index(reg)) as u8] + le64(value),
        RegWidth::W32 => seq![(0xB8 + reg_index(reg)) as u8] + le32(value as u32),
    }
}

pub open spec fn mov_load_bytes(reg: X86Scratch, disp: i32, width: RegWidth) -> Seq<u8> {
    rex_bytes(width == RegWidth::X64) + seq![0x8Bu8, modrm_state(reg)] + le32(disp as u32)
}

pub open spec fn mov_store_bytes(disp: i32, reg: X86Scratch, width: RegWidth) -> Seq<u8> {
    rex_bytes(width == RegWidth::X64) + seq![0x89u8, modrm_state(reg)] + le32(disp as u32)
}

pub open spec fn xor_pair_ok(dst: X86Scratch, src: X86Scratch) -> bool {
    ||| dst == X86Scratch::Rax && (src == X86Scratch::Rax || src == X86Scratch::Rcx)
    ||| dst == X86Scratch::Rcx && (src == X86Scratch::Rax || src == X86Scratch::Rcx)
    ||| dst == X86Scratch::Rdx && src == X86Scratch::Rdx
}

pub open spec fn xor_modrm(dst: X86Scratch, src: X86Scratch) -> u8 {
    if dst == X86Scratch::Rax && src == X86Scratch::Rax {
        0xC0
    } else if dst == X86Scratch::Rax && src == X86Scratch::Rcx {
        0xC8
    } else if dst == X86Scratch::Rcx && src == X86Scratch::Rax {
        0xC1
    } else if dst == X86Scratch::Rcx && src == X86Scratch::Rcx {
        0xC9
    } else {
        0xD2
    }
}

pub open spec fn xor_bytes(dst: X86Scratch, src: X86Scratch, width: RegWidth) -> Seq<u8> {
    rex_bytes(width == RegWidth::X64) + seq![0x31u8, xor_modrm(dst, src)]
}

/// The x86 opcode of `op r/m, r`: `add`, `sub`, `and`, `or` or `xor`.
pub open spec fn alu_opcode_byte(op: Opcode) -> u8 {
    match op {
        Opcode::Add => 0x01,
        Opcode::Sub => 0x29,
        Opcode::Orr => 0x09,
        Opcode::Eor => 0x31,
        _ => 0x21,
    }
}

pub open spec fn binop_bytes(op: Opcode, width: RegWidth) -> Seq<u8> {
    rex_bytes(width == RegWidth::X64) + seq![alu_opcode_byte(op), 0xC8u8]
}

/// The `setcc` opcode byte that reads AArch64's C after the x86 form of
/// `op`: the carry flag, except after a subtraction, where AArch64's C is
/// the inverse of x86's borrow (`setae`).
pub open spec fn carry_setcc(op: Opcode) -> u8 {
    if op == Opcode::Sub { 0x93 } else { 0x92 }
}

/// Captures the flags of the x86 ALU instruction just executed as AArch64
/// NZCV in bits 31..28 of the guest state: the four flags are read first,
/// into dl, dh, cl and ch, by `sets`, `sete`, `setb`/`setae` and `seto`,
/// which leave the flags alone; only then are they combined in edx.
pub open spec fn nzcv_bytes(op: Opcode) -> Seq<u8> {
    seq![
        0x0Fu8, 0x98u8, 0xC2u8,
        0x0Fu8, 0x94u8, 0xC6u8,
        0x0Fu8, carry_setcc(op), 0xC1u8,
        0x0Fu8, 0x90u8, 0xC5u8,
        0xD0u8, 0xE2u8, 0x08u8, 0xF2u8,
        0xD0u8, 0xE2u8, 0x08u8, 0xCAu8,
        0xD0u8, 0xE2u8, 0x08u8, 0xEAu8,
        0x0Fu8, 0xB6u8, 0xD2u8,
        0xC1u8, 0xE2u8, 0x1Cu8,
    ] + mov_store_bytes(NZCV_OFFSET, X86Scratch::Rdx, RegWidth::W32)
}

pub open spec fn shift_modrm_base(kind: ShiftKind) -> u8 {
    match kind {
        ShiftKind::Lsl => 0xE0,
        ShiftKind::Lsr => 0xE8,
        ShiftKind::Asr => 0xF8,
        ShiftKind::Ror => 0xC8,
    }
}

pub open spec fn shift_imm_bytes(reg: X86Scratch, kind: ShiftKind, amount: u8, width: RegWidth) -> Seq<u8> {
    if amount == 0 {
        Seq::empty()
    } else {
        rex_bytes(width == RegWidth::X64) + seq![0xC1u8, (shift_modrm_base(kind) + reg_index(reg)) as u8, amount]
    }
}

pub open spec fn shift_reg_bytes(kind: ShiftKind, width: RegWidth) -> Seq<u8> {
    rex_bytes(width == RegWidth::X64) + seq![0xD3u8, shift_modrm_base(kind)]
}

/// Byte offset of a non-zero guest register in the guest state.
pub open spec fn state_disp(guest: GuestReg) -> i32 {
    if guest.kind == RegKind::StackPointer { SP_OFFSET } else { (GPR_BASE + guest.num * 8) as i32 }
}

pub open spec fn load_state_bytes(reg: X86Scratch, guest: GuestReg) -> Seq<u8> {
    if guest.kind == RegKind::Zero {
        xor_bytes(reg, reg, guest.width)
    } else {
        mov_load_bytes(reg, state_disp(guest), guest.width)
    }
}

pub open spec fn store_state_bytes(guest: GuestReg, reg: X86Scratch) -> Seq<u8> {
    if guest.kind == RegKind::Zero {
        Seq::empty()
    } else {
        mov_store_bytes(state_disp(guest), reg, RegWidth::X64)
    }
}

/// The operands that can be loaded into a scratch register.
pub open spec fn operand_loadable(op: Operand) -> bool {
    ||| op is Reg
    ||| op is Imm
    ||| op is ShiftedImm
    ||| op is ShiftedReg
}

/// Loading `op` overflows a 64-bit shift.
pub open spec fn operand_load_faults(op: Operand) -> bool {
    op matches Operand::ShiftedImm { amount, .. } && amount >= 64
}

pub open spec fn load_operand_bytes(op: Operand, reg: X86Scratch, width: RegWidth) -> Seq<u8> {
    match op {
        Operand::Reg(g) => load_state_bytes(reg, g),
        Operand::Imm(value) => mov_imm_bytes(reg, value, width),
        Operand::ShiftedImm { value, amount } => mov_imm_bytes(reg, ((value as u64) << amount) as u64, width),
        Operand::ShiftedReg { reg: g, kind, amount } => load_state_bytes(reg, g) + shift_imm_bytes(reg, kind, amount, width),
        _ => Seq::empty(),
    }
}

pub open spec fn guest_address_bytes(base: GuestReg) -> Seq<u8> {
    load_state_bytes(X86Scratch::Rax, base) + mov_imm_bytes(X86Scratch::Rdx, HOST_BASE, RegWidth::X64)
        + seq![0x48u8, 0x01u8, 0xD0u8]
}

pub open spec fn mem_load_bytes(width: RegWidth, offset: i32) -> Seq<u8> {
    rex_bytes(width == RegWidth::X64) + seq![0x8Bu8, 0x80u8] + le32(offset as u32)
}

pub open spec fn mem_store_bytes(width: RegWidth, offset: i32) -> Seq<u8> {
    rex_bytes(width == RegWidth::X64) + seq![0x89u8, 0x88u8] + le32(offset as u32)
}

pub open spec fn set_pc_bytes(pc: u64) -> Seq<u8> {
    mov_imm_bytes(X86Scratch::Rax, pc, RegWidth::X64) + mov_store_bytes(PC_OFFSET, X86Scratch::Rax, RegWidth::X64)
}

/// Whether AArch64 condition `cond` holds for the flags `nzcv` (N in bit 3,
/// Z in bit 2, C in bit 1, V in bit 0): EQ, NE, CS, CC, MI, PL, VS, VC, HI,
/// LS, GE, LT, GT, LE, AL, NV in order; an odd condition but NV is the
/// negation of the one before it.
pub open spec fn condition_holds(cond: u64, nzcv: u16) -> bool {
    let n = nzcv & 8u16 != 0u16;
    let z = nzcv & 4u16 != 0u16;
    let c = nzcv & 2u16 != 0u16;
    let v = nzcv & 1u16 != 0u16;
    let base = if cond / 2 == 0 { z }
        else if cond / 2 == 1 { c }
        else if cond / 2 == 2 { n }
        else if cond / 2 == 3 { v }
        else if cond / 2 == 4 { c && !z }
        else if cond / 2 == 5 { n == v }
        else if cond / 2 == 6 { n == v && !z }
        else { true };
    if cond % 2 == 1 && cond != 15 { !base } else { base }
}

/// The 16-bit truth table of AArch64 condition `cond` (EQ, NE, CS, CC, MI,
/// PL, VS, VC, HI, LS, GE, LT, GT, LE, AL, NV) over NZCV taken as a 4-bit
/// index: bit `i` is set when the condition holds for flags `i`.
pub open spec fn cond_truth_table(cond: u64) -> u16 {
    if cond == 0 { 0xF0F0 }
    else if cond == 1 { 0x0F0F }
    else if cond == 2 { 0xCCCC }
    else if cond == 3 { 0x3333 }
    else if cond == 4 { 0xFF00 }
    else if cond == 5 { 0x00FF }
    else if cond == 6 { 0xAAAA }
    else if cond == 7 { 0x5555 }
    else if cond == 8 { 0x0C0C }
    else if cond == 9 { 0xF3F3 }
    else if cond == 10 { 0xAA55 }
    else if cond == 11 { 0x55AA }
    else if cond == 12 { 0x0A05 }
    else if cond == 13 { 0xF5FA }
    else { 0xFFFF }
}

/// Both exits of a conditional branch: the taken target, then the fall-through.
pub open spec fn two_exits_bytes(target: u64, fallthrough: u64) -> Seq<u8> {
    set_pc_bytes(target) + seq![0xC3u8] + set_pc_bytes(fallthrough) + seq![0xC3u8]
}

pub open spec fn branch_cond_bytes(target: u64, cond: u64, fallthrough: u64) -> Seq<u8> {
    mov_load_bytes(X86Scratch::Rax, NZCV_OFFSET, RegWidth::W32) + seq![0xC1u8, 0xE8u8, 0x1Cu8]
        + mov_imm_bytes(X86Scratch::Rcx, cond_truth_table(cond) as u64, RegWidth::W32)
        + seq![0x66u8, 0x0Fu8, 0xA3u8, 0xC1u8, 0x73u8, 0x12u8]
        + two_exits_bytes(target, fallthrough)
}

pub open spec fn branch_cond_emission(target: u64, condition: Operand, fallthrough: u64) -> (Seq<u8>, Result<(), CodegenError>) {
    match condition {
        Operand::Imm(cond) => if cond <= 15 {
            (branch_cond_bytes(target, cond, fallthrough), Ok(()))
        } else {
            (Seq::empty(), Err(CodegenError::UnsupportedOperand))
        },
        _ => (Seq::empty(), Err(CodegenError::UnsupportedOperand)),
    }
}

pub open spec fn cbz_bytes(reg: GuestReg, kind: u64, target: u64, fallthrough: u64) -> Seq<u8> {
    load_state_bytes(X86Scratch::Rax, reg) + rex_bytes(reg.width == RegWidth::X64) + seq![0x85u8, 0xC0u8]
        + seq![if kind == 0 { 0x75u8 } else { 0x74u8 }, 0x12u8]
        + two_exits_bytes(target, fallthrough)
}

// ---------------------------------------------------------------------------
// Block emission, one instruction at a time.

pub open spec fn failed(e: CodegenError) -> (Seq<u8>, Step) {
    (Seq::empty(), Step::Stop(EmitEnd::Failed(e)))
}

pub open spec fn followed_by(bytes: Seq<u8>, rest: (Seq<u8>, Step)) -> (Seq<u8>, Step) {
    (bytes + rest.0, rest.1)
}

/// What follows an instruction that falls through: on the last instruction,
/// an exit to the guest PC just past the block.
pub open spec fn tail_code(guest_pc: u64, span: u64, last: bool) -> (Seq<u8>, Step) {
    if !last {
        (Seq::empty(), Step::Continue)
    } else if guest_pc + span > u64::MAX {
        (Seq::empty(), Step::Stop(EmitEnd::Fault))
    } else {
        (set_pc_bytes((guest_pc + span) as u64) + seq![0xC3u8], Step::Continue)
    }
}

pub open spec fn with_tail(body: (Seq<u8>, Step), tail: (Seq<u8>, Step)) -> (Seq<u8>, Step) {
    if body.1 == Step::Continue { followed_by(body.0, tail) } else { body }
}

pub open spec fn mov_code(inst: IRInst, dest: GuestReg) -> (Seq<u8>, Step) {
    if operand_load_faults(inst.b) {
        (Seq::empty(), Step::Stop(EmitEnd::Fault))
    } else if !operand_loadable(inst.b) {
        failed(CodegenError::UnsupportedOperand)
    } else {
        (load_operand_bytes(inst.b, X86Scratch::Rax, dest.width) + store_state_bytes(dest, X86Scratch::Rax), Step::Continue)
    }
}

pub open spec fn load_code(dest: GuestReg, mem: MemOperand) -> Seq<u8> {
    guest_address_bytes(mem.base) + mem_load_bytes(mem.width, mem.offset) + store_state_bytes(dest, X86Scratch::Rax)
}

pub open spec fn store_code(mem: MemOperand, src: GuestReg) -> Seq<u8> {
    load_state_bytes(X86Scratch::Rcx, src) + guest_address_bytes(mem.base) + mem_store_bytes(mem.width, mem.offset)
}

pub open spec fn ret_code() -> Seq<u8> {
    load_state_bytes(X86Scratch::Rax, GuestReg { num: 30, width: RegWidth::X64, kind: RegKind::General })
        + mov_store_bytes(PC_OFFSET, X86Scratch::Rax, RegWidth::X64) + seq![0xC3u8]
}

pub open spec fn alu_code(inst: IRInst, dest: GuestReg) -> (Seq<u8>, Step) {
    let w = dest.width;
    if operand_load_faults(inst.b) {
        (Seq::empty(), Step::Stop(EmitEnd::Fault))
    } else if !operand_loadable(inst.b) {
        failed(CodegenError::UnsupportedOperand)
    } else if operand_load_faults(inst.c) {
        (load_operand_bytes(inst.b, X86Scratch::Rax, w), Step::Stop(EmitEnd::Fault))
    } else if !operand_loadable(inst.c) {
        (load_operand_bytes(inst.b, X86Scratch::Rax, w), Step::Stop(EmitEnd::Failed(CodegenError::UnsupportedOperand)))
    } else {
        (load_operand_bytes(inst.b, X86Scratch::Rax, w)
            + load_operand_bytes(inst.c, X86Scratch::Rcx, w)
            + load_operand_bytes(inst.c, X86Scratch::Rcx, w)
            + binop_bytes(inst.opcode, w)
            + (if inst.flags != 0 { nzcv_bytes(inst.opcode) } else { Seq::empty() })
            + store_state_bytes(dest, X86Scratch::Rax), Step::Continue)
    }
}

pub open spec fn shift_code(inst: IRInst, dest: GuestReg) -> (Seq<u8>, Step) {
    let w = dest.width;
    if operand_load_faults(inst.b) {
        (Seq::empty(), Step::Stop(EmitEnd::Fault))
    } else if !operand_loadable(inst.b) {
        failed(CodegenError::UnsupportedOperand)
    } else {
        match inst.c {
            Operand::ShiftReg { amount, kind, .. } => (load_operand_bytes(inst.b, X86Scratch::Rax, w)
                + load_state_bytes(X86Scratch::Rcx, amount) + shift_reg_bytes(kind, w)
                + store_state_bytes(dest, X86Scratch::Rax), Step::Continue),
            _ => (load_operand_bytes(inst.b, X86Scratch::Rax, w), Step::Stop(EmitEnd::Failed(CodegenError::UnsupportedOperand))),
        }
    }
}

pub open spec fn branch_cond_code(guest_pc: u64, index: nat, inst: IRInst) -> (Seq<u8>, Step) {
    match inst.a {
        Operand::GuestPc(target) => {
            if guest_pc + (index + 1) * 4 > u64::MAX {
                (Seq::empty(), Step::Stop(EmitEnd::Fault))
            } else {
                let fallthrough = (guest_pc + (index + 1) * 4) as u64;
                match (inst.b, inst.c) {
                    (Operand::Imm(cond), Operand::Nothing) => {
                        if cond > 15 {
                            failed(CodegenError::UnsupportedOperand)
                        } else {
                            (branch_cond_bytes(target, cond, fallthrough), Step::Stop(EmitEnd::Finished))
                        }
                    },
                    (Operand::Reg(reg), Operand::Imm(kind)) => {
                        if kind <= 1 {
                            (cbz_bytes(reg, kind, target, fallthrough), Step::Stop(EmitEnd::Finished))
                        } else {
                            failed(CodegenError::UnsupportedOperand)
                        }
                    },
                    _ => failed(CodegenError::UnsupportedOperand),
                }
            }
        },
        _ => failed(CodegenError::UnsupportedOperand),
    }
}

/// The code for instruction `index` of a block, and whether emission goes on.
pub open spec fn inst_code(guest_pc: u64, insts: Seq<IRInst>, span: u64, index: nat) -> (Seq<u8>, Step) {
    let inst = insts[index as int];
    let last = index + 1 == insts.len();
    match inst.opcode {
        Opcode::Nop => followed_by(seq![0x90u8], tail_code(guest_pc, span, last)),
        Opcode::Mov => match inst.a {
            Operand::Reg(dest) => with_tail(mov_code(inst, dest), tail_code(guest_pc, span, last)),
            _ => failed(CodegenError::UnsupportedOperand),
        },
        Opcode::Add | Opcode::Sub | Opcode::And | Opcode::Orr | Opcode::Eor => match inst.a {
            Operand::Reg(dest) => with_tail(alu_code(inst, dest), tail_code(guest_pc, span, last)),
            _ => failed(CodegenError::UnsupportedOperand),
        },
        Opcode::Shift => match inst.a {
            Operand::Reg(dest) => with_tail(shift_code(inst, dest), tail_code(guest_pc, span, last)),
            _ => failed(CodegenError::UnsupportedOperand),
        },
        Opcode::Load => match (inst.a, inst.b) {
            (Operand::Reg(dest), Operand::Mem(mem)) => followed_by(load_code(dest, mem), tail_code(guest_pc, span, last)),
            _ => failed(CodegenError::UnsupportedOperand),
        },
        Opcode::Store => match (inst.a, inst.b) {
            (Operand::Mem(mem), Operand::Reg(src)) => followed_by(store_code(mem, src), tail_code(guest_pc, span, last)),
            _ => failed(CodegenError::UnsupportedOperand),
        },
        Opcode::Branch => match inst.a {
            Operand::GuestPc(pc) => (set_pc_bytes(pc) + seq![0xC3u8], Step::Stop(EmitEnd::Finished)),
            _ => failed(CodegenError::UnsupportedOperand),
        },
        Opcode::BranchCond => branch_cond_code(guest_pc, index, inst),
        Opcode::Ret => (ret_code(), Step::Stop(EmitEnd::Finished)),
        _ => failed(CodegenError::UnsupportedOpcode(inst.opcode)),
    }
}

/// The code for the first `n` instructions, and the end of emission if it
/// ended among them.
pub open spec fn emit_upto(guest_pc: u64, insts: Seq<IRInst>, span: u64, n: nat) -> (Seq<u8>, Option<EmitEnd>)
    decreases n,
{
    if n == 0 {
        (Seq::empty(), None)
    } else {
        let prev = emit_upto(guest_pc, insts, span, (n - 1) as nat);
        match prev.1 {
            Some(end) => prev,
            None => {
                let cur = inst_code(guest_pc, insts, span, (n - 1) as nat);
                (prev.0 + cur.0, match cur.1 {
                    Step::Continue => None,
                    Step::Stop(end) => Some(end),
                })
            },
        }
    }
}

/// The x86-64 code emitted for a block with guest PC `guest_pc`, instructions
/// `insts` and guest byte span `span`, and how the emission ends.
pub open spec fn block_code(guest_pc: u64, insts: Seq<IRInst>, span: u64) -> (Seq<u8>, EmitEnd) {
    let run = emit_upto(guest_pc, insts, span, insts.len());
    match run.1 {
        Some(end) => (run.0, end),
        None => if insts.len() == 0 {
            (set_pc_bytes(guest_pc) + seq![0xC3u8], EmitEnd::Finished)
        } else {
            (run.0, EmitEnd::Finished)
        },
    }
}

/// The result `emit_block` reports for an emission that ends with `end`.
pub open spec fn end_result(end: EmitEnd) -> Result<(), CodegenError> {
    match end {
        EmitEnd::Failed(e) => Err(e),
        _ => Ok(()),
    }
}

/// Once emission has ended, later instructions add nothing.
proof fn lemma_emit_upto_ended(guest_pc: u64, insts: Seq<IRInst>, span: u64, n: nat, m: nat)
    requires
        n <= m,
        emit_upto(guest_pc, insts, span, n).1 is Some,
    ensures
        emit_upto(guest_pc, insts, span, m) == emit_upto(guest_pc, insts, span, n),
    decreases m - n,
{
    if n < m {
        lemma_emit_upto_ended(guest_pc, insts, span, n, (m - 1) as nat);
    }
}

/// A byte sequence that ends with `ret` (0xC3).
pub open spec fn ends_with_ret(code: Seq<u8>) -> bool {
    code.len() > 0 && code[code.len() - 1] == 0xC3u8
}

proof fn lemma_concat_ret(a: Seq<u8>, b: Seq<u8>)
    requires
        ends_with_ret(b),
    ensures
        ends_with_ret(a + b),
{
    assert((a + b)[(a + b).len() - 1] == b[b.len() - 1]);
}

proof fn lemma_inst_exit_returns(guest_pc: u64, insts: Seq<IRInst>, span: u64, index: nat)
    requires
        index < insts.len(),
        inst_code(guest_pc, insts, span, index).1 == Step::Stop(EmitEnd::Finished)
            || (inst_code(guest_pc, insts, span, index).1 == Step::Continue && index + 1 == insts.len()),
    ensures
        ends_with_ret(inst_code(guest_pc, insts, span, index).0),
{
    let inst = insts[index as int];
    let last = index + 1 == insts.len();
    let tail = tail_code(guest_pc, span, last);
    if last && tail.1 == Step::Continue {
        lemma_concat_ret(set_pc_bytes((guest_pc + span) as u64), seq![0xC3u8]);
    }
    lemma_concat_ret(set_pc_bytes(0), seq![0xC3u8]);
    match inst.opcode {
        Opcode::Nop => {
            if last { lemma_concat_ret(seq![0x90u8], tail.0); }
        },
        Opcode::Mov => if let Operand::Reg(dest) = inst.a {
            if last { lemma_concat_ret(mov_code(inst, dest).0, tail.0); }
        },
        Opcode::Add | Opcode::Sub | Opcode::And | Opcode::Orr | Opcode::Eor => if let Operand::Reg(dest) = inst.a {
            if last { lemma_concat_ret(alu_code(inst, dest).0, tail.0); }
        },
        Opcode::Shift => if let Operand::Reg(dest) = inst.a {
            if last { lemma_concat_ret(shift_code(inst, dest).0, tail.0); }
        },
        Opcode::Load => if let (Operand::Reg(dest), Operand::Mem(mem)) = (inst.a, inst.b) {
            if last { lemma_concat_ret(load_code(dest, mem), tail.0); }
        },
        Opcode::Store => if let (Operand::Mem(mem), Operand::Reg(src)) = (inst.a, inst.b) {
            if last { lemma_concat_ret(store_code(mem, src), tail.0); }
        },
        Opcode::Branch => if let Operand::GuestPc(pc) = inst.a {
            lemma_concat_ret(set_pc_bytes(pc), seq![0xC3u8]);
        },
        Opcode::BranchCond => if let Operand::GuestPc(target) = inst.a {
            if guest_pc + (index + 1) * 4 <= u64::MAX {
                let fallthrough = (guest_pc + (index + 1) * 4) as u64;
                let exits = two_exits_bytes(target, fallthrough);
                lemma_concat_ret(set_pc_bytes(target) + seq![0xC3u8] + set_pc_bytes(fallthrough), seq![0xC3u8]);
                match (inst.b, inst.c) {
                    (Operand::Imm(cond), Operand::Nothing) => {
                        lemma_concat_ret(mov_load_bytes(X86Scratch::Rax, NZCV_OFFSET, RegWidth::W32) + seq![0xC1u8, 0xE8u8, 0x1Cu8]
                            + mov_imm_bytes(X86Scratch::Rcx, cond_truth_table(cond) as u64, RegWidth::W32)
                            + seq![0x66u8, 0x0Fu8, 0xA3u8, 0xC1u8, 0x73u8, 0x12u8], exits);
                    },
                    (Operand::Reg(reg), Operand::Imm(kind)) => {
                        lemma_concat_ret(load_state_bytes(X86Scratch::Rax, reg) + rex_bytes(reg.width == RegWidth::X64) + seq![0x85u8, 0xC0u8]
                            + seq![if kind == 0 { 0x75u8 } else { 0x74u8 }, 0x12u8], exits);
                    },
                    _ => {},
                }
            }
        },
        Opcode::Ret => {
            lemma_concat_ret(load_state_bytes(X86Scratch::Rax, GuestReg { num: 30, width: RegWidth::X64, kind: RegKind::General })
                + mov_store_bytes(PC_OFFSET, X86Scratch::Rax, RegWidth::X64), seq![0xC3u8]);
        },
        _ => {},
    }
}

proof fn lemma_upto_finished_returns(guest_pc: u64, insts: Seq<IRInst>, span: u64, n: nat)
    requires
        n <= insts.len(),
        emit_upto(guest_pc, insts, span, n).1 == Some(EmitEnd::Finished),
    ensures
        ends_with_ret(emit_upto(guest_pc, insts, span, n).0),
    decreases n,
{
    let prev = emit_upto(guest_pc, insts, span, (n - 1) as nat);
    if prev.1 is Some {
        lemma_upto_finished_returns(guest_pc, insts, span, (n - 1) as nat);
    } else {
        lemma_inst_exit_returns(guest_pc, insts, span, (n - 1) as nat);
        lemma_concat_ret(prev.0, inst_code(guest_pc, insts, span, (n - 1) as nat).0);
    }
}

/// Translated code always hands control back to the dispatcher: the code of
/// a block whose emission finishes ends with `ret`, after writing the next
/// guest PC.
pub proof fn lemma_finished_block_returns(guest_pc: u64, insts: Seq<IRInst>, span: u64)
    requires
        block_code(guest_pc, insts, span).1 == EmitEnd::Finished,
    ensures
        ends_with_ret(block_code(guest_pc, insts, span).0),
{
    let run = emit_upto(guest_pc, insts, span, insts.len());
    if run.1 is Some {
        lemma_upto_finished_returns(guest_pc, insts, span, insts.len());
    } else if insts.len() > 0 {
        let n = insts.len();
        let prev = emit_upto(guest_pc, insts, span, (n - 1) as nat);
        if prev.1 is Some {
            lemma_emit_upto_ended(guest_pc, insts, span, (n - 1) as nat, n);
        }
        lemma_inst_exit_returns(guest_pc, insts, span, (n - 1) as nat);
        lemma_concat_ret(prev.0, inst_code(guest_pc, insts, span, (n - 1) as nat).0);
    }
}

/// The truth table of each AArch64 condition has bit `i` set exactly when
/// the condition holds for the flags `i`.
pub proof fn lemma_truth_table_is_condition(cond: u64, nzcv: u16)
    requires
        cond <= 15,
        nzcv < 16,
    ensures
        ((cond_truth_table(cond) >> nzcv) & 1u16 == 1u16) == condition_holds(cond, nzcv),
{
    assert(((cond_truth_table(cond) >> nzcv) & 1u16 == 1u16) == condition_holds(cond, nzcv)) by (bit_vector)
        requires
            cond <= 15,
            nzcv < 16,
    ;
}

/// Emitting a block after bytes `before` only appends; where the block
/// finishes, what was appended is not empty and ends with `ret`.
pub proof fn lemma_emission_appends(before: Seq<u8>, guest_pc: u64, insts: Seq<IRInst>, span: u64)
    ensures
        (before + block_code(guest_pc, insts, span).0).subrange(0, before.len() as int) == before,
        block_code(guest_pc, insts, span).1 == EmitEnd::Finished ==> (before + block_code(guest_pc, insts, span).0).len() > before.len()
            && ends_with_ret(before + block_code(guest_pc, insts, span).0),
{
    assert((before + block_code(guest_pc, insts, span).0).subrange(0, before.len() as int) =~= before);
    if block_code(guest_pc, insts, span).1 == EmitEnd::Finished {
        lemma_finished_block_returns(guest_pc, insts, span);
        lemma_concat_ret(before, block_code(guest_pc, insts, span).0);
    }
}

/// What an x86-64 `op r/m, r` instruction of the two-operand integer group
/// leaves in its destination, from the destination `dst` and the source
/// `src`, by its opcode byte (Intel SDM: `01 /r` ADD, `09 /r` OR, `21 /r`
/// AND, `29 /r` SUB, `31 /r` XOR). Its 64-bit form (REX.W) works on all
/// 64 bits; its 32-bit form works on the low 32 bits and zeroes the upper
/// half of the destination.
pub open spec fn x86_rm_r_result(opcode: u8, dst: u64, src: u64, wide: bool) -> Option<u64> {
    if wide {
        if opcode == 0x01 { Some(((dst + src) % 0x1_0000_0000_0000_0000) as u64) }
        else if opcode == 0x29 { Some(((dst + 0x1_0000_0000_0000_0000 - src) % 0x1_0000_0000_0000_0000) as u64) }
        else if opcode == 0x21 { Some(dst & src) }
        else if opcode == 0x09 { Some(dst | src) }
        else if opcode == 0x31 { Some(dst ^ src) }
        else { None }
    } else {
        let d = dst as u32;
        let s = src as u32;
        if opcode == 0x01 { Some(((d + s) % 0x1_0000_0000) as u64) }
        else if opcode == 0x29 { Some(((d + 0x1_0000_0000 - s) % 0x1_0000_0000) as u64) }
        else if opcode == 0x21 { Some((d & s) as u64) }
        else if opcode == 0x09 { Some((d | s) as u64) }
        else if opcode == 0x31 { Some((d ^ s) as u64) }
        else { None }
    }
}

/// The x86 instruction emitted for an AArch64 ALU operation computes that
/// operation: it is `op rax, rcx` (ModRM 0xC8: register form, destination
/// rax, source rcx), with REX.W exactly for 64-bit registers, and its
/// opcode leaves in rax what AArch64 leaves in the destination register
/// from the same two operand values, for every pair of values.
pub proof fn lemma_binop_computes_the_aarch64_operation(op: Opcode, width: RegWidth, lhs: u64, rhs: u64)
    requires
        crate::ir::inst::is_alu(op),
    ensures
        ({
            let bytes = binop_bytes(op, width);
            let wide = width == RegWidth::X64;
            &&& bytes.len() == (if wide { 3int } else { 2int })
            &&& wide ==> bytes[0] == 0x48u8
            &&& bytes[bytes.len() - 1] == 0xC8u8
            &&& x86_rm_r_result(bytes[bytes.len() - 2], lhs, rhs, wide)
                == Some(crate::jit::optimizer::a64_alu(op, lhs, rhs, width))
        }),
{
    let bytes = binop_bytes(op, width);
    assert(bytes[bytes.len() - 2] == alu_opcode_byte(op));
}

// ---------------------------------------------------------------------------
// The emitter.

impl Default for CodeBuffer {
    fn default() -> (r: Self)
        ensures
            r.bytes@ == Seq::<u8>::empty(),
    {
        CodeBuffer { bytes: Vec::new() }
    }
}

impl CodeBuffer {
    pub fn new() -> (r: Self)
        ensures
            r.bytes@ == Seq::<u8>::empty(),
    {
        Self::default()
    }

    pub fn emit8(&mut self, byte: u8)
        ensures
            final(self).bytes@ == old(self).bytes@.push(byte),
    {
        self.bytes.push(byte);
    }

    fn emit32(&mut self, value: u32)
        ensures
            final(self).bytes@ == old(self).bytes@ + le32(value),
    {
        self.emit8(value as u8);
        self.emit8((value >> 8u32) as u8);
        self.emit8((value >> 16u32) as u8);
        self.emit8((value >> 24u32) as u8);
    }

    fn emit64(&mut self, value: u64)
        ensures
            final(self).bytes@ == old(self).bytes@ + le64(value),
    {
        self.emit8(value as u8);
        self.emit8((value >> 8u64) as u8);
        self.emit8((value >> 16u64) as u8);
        self.emit8((value >> 24u64) as u8);
        self.emit8((value >> 32u64) as u8);
        self.emit8((value >> 40u64) as u8);
        self.emit8((value >> 48u64) as u8);
        self.emit8((value >> 56u64) as u8);
    }

    fn rex(&mut self, w: bool)
        ensures
            final(self).bytes@ == old(self).bytes@ + rex_bytes(w),
    {
        if w {
            self.emit8(0x48);
        }
    }

    fn load_state(&mut self, reg: X86Scratch, guest: GuestReg)
        ensures
            final(self).bytes@ == old(self).bytes@ + load_state_bytes(reg, guest),
    {
        if guest.kind == RegKind::Zero {
            self.xor(reg, reg, guest.width);
            return;
        }
        let disp: i32 = if guest.kind == RegKind::StackPointer { SP_OFFSET } else { GPR_BASE + guest.num as i32 * 8 };
        self.mov_load(reg, disp, guest.width);
    }

    fn store_state(&mut self, guest: GuestReg, reg: X86Scratch)
        ensures
            final(self).bytes@ == old(self).bytes@ + store_state_bytes(guest, reg),
    {
        if guest.kind == RegKind::Zero {
            return;
        }
        let disp: i32 = if guest.kind == RegKind::StackPointer { SP_OFFSET } else { GPR_BASE + guest.num as i32 * 8 };
        self.mov_store(disp, reg, RegWidth::X64);
    }

    fn load_operand(&mut self, op: Operand, reg: X86Scratch, width: RegWidth) -> (r: Result<(), CodegenError>)
        requires
            !operand_load_faults(op),
        ensures
            r is Ok <==> operand_loadable(op),
            r is Err ==> r == Err::<(), CodegenError>(CodegenError::UnsupportedOperand),
            final(self).bytes@ == old(self).bytes@ + load_operand_bytes(op, reg, width),
    {
        match op {
            Operand::Reg(g) => self.load_state(reg, g),
            Operand::Imm(value) => self.mov_imm(reg, value, width),
            Operand::ShiftedImm { value, amount } => self.mov_imm(reg, (value as u64) << amount, width),
            Operand::ShiftedReg { reg: guest, kind, amount } => {
                self.load_state(reg, guest);
                self.shift_imm(reg, kind, amount, width);
            },
            _ => return Err(CodegenError::UnsupportedOperand),
        }
        Ok(())
    }

    fn mov_imm(&mut self, reg: X86Scratch, value: u64, width: RegWidth)
        ensures
            final(self).bytes@ == old(self).bytes@ + mov_imm_bytes(reg, value, width),
    {
        match (reg, width) {
            (X86Scratch::Rax, RegWidth::X64) => { self.emit8(0x48); self.emit8(0xB8); self.emit64(value); },
            (X86Scratch::Rcx, RegWidth::X64) => { self.emit8(0x48); self.emit8(0xB9); self.emit64(value); },
            (X86Scratch::Rdx, RegWidth::X64) => { self.emit8(0x48); self.emit8(0xBA); self.emit64(value); },
            (X86Scratch::Rax, RegWidth::W32) => { self.emit8(0xB8); self.emit32(value as u32); },
            (X86Scratch::Rcx, RegWidth::W32) => { self.emit8(0xB9); self.emit32(value as u32); },
            (X86Scratch::Rdx, RegWidth::W32) => { self.emit8(0xBA); self.emit32(value as u32); },
        }
    }

    fn mov_load(&mut self, reg: X86Scratch, disp: i32, width: RegWidth)
        ensures
            final(self).bytes@ == old(self).bytes@ + mov_load_bytes(reg, disp, width),
    {
        self.rex(width == RegWidth::X64);
        self.emit8(0x8B);
        self.emit8(match reg { X86Scratch::Rax => 0x87, X86Scratch::Rcx => 0x8F, X86Scratch::Rdx => 0x97 });
        self.emit32(disp as u32);
    }

    fn mov_store(&mut self, disp: i32, reg: X86Scratch, width: RegWidth)
        ensures
            final(self).bytes@ == old(self).bytes@ + mov_store_bytes(disp, reg, width),
    {
        self.rex(width == RegWidth::X64);
        self.emit8(0x89);
        self.emit8(match reg { X86Scratch::Rax => 0x87, X86Scratch::Rcx => 0x8F, X86Scratch::Rdx => 0x97 });
        self.emit32(disp as u32);
    }

    fn xor(&mut self, dst: X86Scratch, src: X86Scratch, width: RegWidth)
        requires
            xor_pair_ok(dst, src),
        ensures
            final(self).bytes@ == old(self).bytes@ + xor_bytes(dst, src, width),
    {
        self.rex(width == RegWidth::X64);
        self.emit8(0x31);
        let modrm: u8 = match (dst, src) {
            (X86Scratch::Rax, X86Scratch::Rax) => 0xC0,
            (X86Scratch::Rax, X86Scratch::Rcx) => 0xC8,
            (X86Scratch::Rcx, X86Scratch::Rax) => 0xC1,
            (X86Scratch::Rcx, X86Scratch::Rcx) => 0xC9,
            _ => 0xD2,
        };
        assert(modrm == xor_modrm(dst, src));
        self.emit8(modrm);
    }

    fn binop(&mut self, op: Opcode, width: RegWidth)
        requires
            crate::ir::inst::is_alu(op),
        ensures
            final(self).bytes@ == old(self).bytes@ + binop_bytes(op, width),
    {
        self.rex(width == RegWidth::X64);
        self.emit8(match op { Opcode::Add => 0x01, Opcode::Sub => 0x29, Opcode::Orr => 0x09, Opcode::Eor => 0x31, _ => 0x21 });
        self.emit8(0xC8);
    }

    fn emit_nzcv_from_x86_flags(&mut self, op: Opcode)
        ensures
            final(self).bytes@ == old(self).bytes@ + nzcv_bytes(op),
    {
        let carry: u8 = if op == Opcode::Sub { 0x93 } else { 0x92 };
        // Read all four flags before anything can change them.
        self.emit8(0x0F); self.emit8(0x98); self.emit8(0xC2); // sets dl
        self.emit8(0x0F); self.emit8(0x94); self.emit8(0xC6); // sete dh
        self.emit8(0x0F); self.emit8(carry); self.emit8(0xC1); // setb cl / setae cl
        self.emit8(0x0F); self.emit8(0x90); self.emit8(0xC5); // seto ch
        // dl = N:Z:C:V, then into bits 31..28 of edx.
        self.emit8(0xD0); self.emit8(0xE2); self.emit8(0x08); self.emit8(0xF2); // shl dl, 1; or dl, dh
        self.emit8(0xD0); self.emit8(0xE2); self.emit8(0x08); self.emit8(0xCA); // shl dl, 1; or dl, cl
        self.emit8(0xD0); self.emit8(0xE2); self.emit8(0x08); self.emit8(0xEA); // shl dl, 1; or dl, ch
        self.emit8(0x0F); self.emit8(0xB6); self.emit8(0xD2); // movzx edx, dl
        self.emit8(0xC1); self.emit8(0xE2); self.emit8(0x1C); // shl edx, 28
        proof {
            assert(self.bytes@ =~= old(self).bytes@ + seq![
                0x0Fu8, 0x98u8, 0xC2u8,
                0x0Fu8, 0x94u8, 0xC6u8,
                0x0Fu8, carry_setcc(op), 0xC1u8,
                0x0Fu8, 0x90u8, 0xC5u8,
                0xD0u8, 0xE2u8, 0x08u8, 0xF2u8,
                0xD0u8, 0xE2u8, 0x08u8, 0xCAu8,
                0xD0u8, 0xE2u8, 0x08u8, 0xEAu8,
                0x0Fu8, 0xB6u8, 0xD2u8,
                0xC1u8, 0xE2u8, 0x1Cu8,
            ]);
        }
        self.mov_store(NZCV_OFFSET, X86Scratch::Rdx, RegWidth::W32);
        proof {
            assert(self.bytes@ =~= old(self).bytes@ + nzcv_bytes(op));
        }
    }

    fn shift_imm(&mut self, reg: X86Scratch, kind: ShiftKind, amount: u8, width: RegWidth)
        ensures
            final(self).bytes@ == old(self).bytes@ + shift_imm_bytes(reg, kind, amount, width),
    {
        if amount == 0 {
            return;
        }
        self.rex(width == RegWidth::X64);
        self.emit8(0xC1);
        let rm: u8 = match (reg, kind) {
            (X86Scratch::Rax, ShiftKind::Lsl) => 0xE0,
            (X86Scratch::Rax, ShiftKind::Lsr) => 0xE8,
            (X86Scratch::Rax, ShiftKind::Asr) => 0xF8,
            (X86Scratch::Rax, ShiftKind::Ror) => 0xC8,
            (X86Scratch::Rcx, ShiftKind::Lsl) => 0xE1,
            (X86Scratch::Rcx, ShiftKind::Lsr) => 0xE9,
            (X86Scratch::Rcx, ShiftKind::Asr) => 0xF9,
            (X86Scratch::Rcx, ShiftKind::Ror) => 0xC9,
            (X86Scratch::Rdx, ShiftKind::Lsl) => 0xE2,
            (X86Scratch::Rdx, ShiftKind::Lsr) => 0xEA,
            (X86Scratch::Rdx, ShiftKind::Asr) => 0xFA,
            (X86Scratch::Rdx, ShiftKind::Ror) => 0xCA,
        };
        self.emit8(rm);
        self.emit8(amount);
    }

    fn shift_reg(&mut self, kind: ShiftKind, width: RegWidth)
        ensures
            final(self).bytes@ == old(self).bytes@ + shift_reg_bytes(kind, width),
    {
        self.rex(width == RegWidth::X64);
        self.emit8(0xD3);
        self.emit8(match kind { ShiftKind::Lsl => 0xE0, ShiftKind::Lsr => 0xE8, ShiftKind::Asr => 0xF8, ShiftKind::Ror => 0xC8 });
    }

    fn emit_guest_address(&mut self, base: GuestReg)
        ensures
            final(self).bytes@ == old(self).bytes@ + guest_address_bytes(base),
    {
        self.load_state(X86Scratch::Rax, base);
        self.mov_imm(X86Scratch::Rdx, HOST_BASE, RegWidth::X64);
        self.rex(true);
        self.emit8(0x01);
        self.emit8(0xD0);
    }

    fn emit_mem_load(&mut self, width: RegWidth, offset: i32)
        ensures
            final(self).bytes@ == old(self).bytes@ + mem_load_bytes(width, offset),
    {
        self.rex(width == RegWidth::X64);
        self.emit8(0x8B);
        self.emit8(0x80);
        self.emit32(offset as u32);
    }

    fn emit_mem_store(&mut self, width: RegWidth, offset: i32)
        ensures
            final(self).bytes@ == old(self).bytes@ + mem_store_bytes(width, offset),
    {
        self.rex(width == RegWidth::X64);
        self.emit8(0x89);
        self.emit8(0x88);
        self.emit32(offset as u32);
    }

    fn emit_set_pc_imm(&mut self, pc: u64)
        ensures
            final(self).bytes@ == old(self).bytes@ + set_pc_bytes(pc),
    {
        self.mov_imm(X86Scratch::Rax, pc, RegWidth::X64);
        self.mov_store(PC_OFFSET, X86Scratch::Rax, RegWidth::X64);
    }

    fn emit_branch_cond(&mut self, target: u64, condition: Operand, fallthrough: u64) -> (r: Result<(), CodegenError>)
        ensures
            r == branch_cond_emission(target, condition, fallthrough).1,
            final(self).bytes@ == old(self).bytes@ + branch_cond_emission(target, condition, fallthrough).0,
    {
        match condition {
            // B.cond: reduce NZCV to a 4-bit index and test a 16-bit truth table.
            Operand::Imm(cond) => {
                if cond > 15 {
                    return Err(CodegenError::UnsupportedOperand);
                }
                let table: u16 = truth_table(cond);
                self.mov_load(X86Scratch::Rax, NZCV_OFFSET, RegWidth::W32);
                self.emit8(0xC1); self.emit8(0xE8); self.emit8(0x1C); // shr eax, 28
                self.mov_imm(X86Scratch::Rcx, table as u64, RegWidth::W32);
                self.emit8(0x66); self.emit8(0x0F); self.emit8(0xA3); self.emit8(0xC1); // bt cx, ax
                self.emit8(0x73); self.emit8(0x12); // jnc skip taken (18 bytes)
            },
            // CBZ/CBNZ are lowered by the caller.
            Operand::Reg(_) => return Err(CodegenError::UnsupportedOperand),
            _ => return Err(CodegenError::UnsupportedOperand),
        }
        self.emit_set_pc_imm(target);
        self.emit8(0xC3);
        self.emit_set_pc_imm(fallthrough);
        self.emit8(0xC3);
        Ok(())
    }

    /// Emits the exit to the guest PC just past the block after its last
    /// instruction.
    fn emit_tail(&mut self, guest_pc: u64, span: u64, last: bool) -> (step: Step)
        requires
            tail_code(guest_pc, span, last).1 != Step::Stop(EmitEnd::Fault),
        ensures
            final(self).bytes@ == old(self).bytes@ + tail_code(guest_pc, span, last).0,
            step == tail_code(guest_pc, span, last).1,
    {
        if last {
            self.emit_set_pc_imm(guest_pc + span);
            self.emit8(0xC3);
        }
        Step::Continue
    }

    fn emit_mov(&mut self, inst: IRInst, dest: GuestReg) -> (step: Step)
        requires
            mov_code(inst, dest).1 != Step::Stop(EmitEnd::Fault),
        ensures
            final(self).bytes@ == old(self).bytes@ + mov_code(inst, dest).0,
            step == mov_code(inst, dest).1,
    {
        if let Err(e) = self.load_operand(inst.b, X86Scratch::Rax, dest.width) {
            return Step::Stop(EmitEnd::Failed(e));
        }
        self.store_state(dest, X86Scratch::Rax);
        Step::Continue
    }

    fn emit_alu(&mut self, inst: IRInst, dest: GuestReg) -> (step: Step)
        requires
            crate::ir::inst::is_alu(inst.opcode),
            alu_code(inst, dest).1 != Step::Stop(EmitEnd::Fault),
        ensures
            final(self).bytes@ == old(self).bytes@ + alu_code(inst, dest).0,
            step == alu_code(inst, dest).1,
    {
        if let Err(e) = self.load_operand(inst.b, X86Scratch::Rax, dest.width) {
            return Step::Stop(EmitEnd::Failed(e));
        }
        let _ = self.load_operand(inst.c, X86Scratch::Rcx, dest.width);
        if let Err(e) = self.load_operand(inst.c, X86Scratch::Rcx, dest.width) {
            return Step::Stop(EmitEnd::Failed(e));
        }
        self.binop(inst.opcode, dest.width);
        if inst.flags != 0 {
            self.emit_nzcv_from_x86_flags(inst.opcode);
        }
        self.store_state(dest, X86Scratch::Rax);
        Step::Continue
    }

    fn emit_shift(&mut self, inst: IRInst, dest: GuestReg) -> (step: Step)
        requires
            shift_code(inst, dest).1 != Step::Stop(EmitEnd::Fault),
        ensures
            final(self).bytes@ == old(self).bytes@ + shift_code(inst, dest).0,
            step == shift_code(inst, dest).1,
    {
        if let Err(e) = self.load_operand(inst.b, X86Scratch::Rax, dest.width) {
            return Step::Stop(EmitEnd::Failed(e));
        }
        match inst.c {
            Operand::ShiftReg { amount, kind, .. } => {
                self.load_state(X86Scratch::Rcx, amount);
                self.shift_reg(kind, dest.width);
            },
            _ => return Step::Stop(EmitEnd::Failed(CodegenError::UnsupportedOperand)),
        }
        self.store_state(dest, X86Scratch::Rax);
        Step::Continue
    }

    fn emit_load(&mut self, dest: GuestReg, mem: MemOperand)
        ensures
            final(self).bytes@ == old(self).bytes@ + load_code(dest, mem),
    {
        self.emit_guest_address(mem.base);
        self.emit_mem_load(mem.width, mem.offset);
        self.store_state(dest, X86Scratch::Rax);
    }

    fn emit_store(&mut self, mem: MemOperand, src: GuestReg)
        ensures
            final(self).bytes@ == old(self).bytes@ + store_code(mem, src),
    {
        self.load_state(X86Scratch::Rcx, src);
        self.emit_guest_address(mem.base);
        self.emit_mem_store(mem.width, mem.offset);
    }

    fn emit_ret(&mut self)
        ensures
            final(self).bytes@ == old(self).bytes@ + ret_code(),
    {
        self.load_state(X86Scratch::Rax, GuestReg::x(30));
        self.mov_store(PC_OFFSET, X86Scratch::Rax, RegWidth::X64);
        self.emit8(0xC3);
    }

    fn emit_cond_branch(&mut self, guest_pc: u64, index: usize, inst: IRInst) -> (step: Step)
        requires
            branch_cond_code(guest_pc, index as nat, inst).1 != Step::Stop(EmitEnd::Fault),
        ensures
            final(self).bytes@ == old(self).bytes@ + branch_cond_code(guest_pc, index as nat, inst).0,
            step == branch_cond_code(guest_pc, index as nat, inst).1,
    {
        let target = match inst.a {
            Operand::GuestPc(pc) => pc,
            _ => return Step::Stop(EmitEnd::Failed(CodegenError::UnsupportedOperand)),
        };
        let fallthrough: u64 = guest_pc + (index as u64 + 1) * 4;
        match (inst.b, inst.c) {
            (Operand::Imm(cond), Operand::Nothing) => {
                if let Err(e) = self.emit_branch_cond(target, Operand::Imm(cond), fallthrough) {
                    return Step::Stop(EmitEnd::Failed(e));
                }
            },
            (Operand::Reg(reg), Operand::Imm(kind)) => {
                if kind > 1 {
                    return Step::Stop(EmitEnd::Failed(CodegenError::UnsupportedOperand));
                }
                self.load_state(X86Scratch::Rax, reg);
                self.rex(reg.width == RegWidth::X64);
                self.emit8(0x85);
                self.emit8(0xC0);
                self.emit8(if kind == 0 { 0x75 } else { 0x74 });
                self.emit8(0x12);
                self.emit_set_pc_imm(target);
                self.emit8(0xC3);
                self.emit_set_pc_imm(fallthrough);
                self.emit8(0xC3);
            },
            _ => return Step::Stop(EmitEnd::Failed(CodegenError::UnsupportedOperand)),
        }
        Step::Stop(EmitEnd::Finished)
    }

    /// Emits the x86-64 code for `block`: each instruction in turn, until a
    /// block exit or an instruction that cannot be lowered.
    pub fn emit_block(&mut self, block: &Block) -> (r: Result<(), CodegenError>)
        requires
            block_code(block.pc(), block.instructions(), block.span()).1 != EmitEnd::Fault,
        ensures
            final(self).bytes@ == old(self).bytes@ + block_code(block.pc(), block.instructions(), block.span()).0,
            r == end_result(block_code(block.pc(), block.instructions(), block.span()).1),
            final(self).bytes@.subrange(0, old(self).bytes@.len() as int) == old(self).bytes@,
            r is Ok ==> final(self).bytes@.len() > old(self).bytes@.len() && ends_with_ret(final(self).bytes@),
    {
        proof {
            lemma_emission_appends(old(self).bytes@, block.pc(), block.instructions(), block.span());
        }
        let ghost gp = block.pc();
        let ghost insts = block.instructions();
        let ghost span = block.span();
        let n = block.insts().len();
        let mut index: usize = 0;
        while index < n
            invariant
                n == block.instructions().len(),
                gp == block.pc(),
                insts == block.instructions(),
                span == block.span(),
                index <= n,
                emit_upto(gp, insts, span, index as nat).1 is None,
                self.bytes@ == old(self).bytes@ + emit_upto(gp, insts, span, index as nat).0,
                block_code(gp, insts, span).1 != EmitEnd::Fault,
            decreases n - index,
        {
            let ghost before = self.bytes@;
            proof {
                if inst_code(gp, insts, span, index as nat).1 == Step::Stop(EmitEnd::Fault) {
                    lemma_emit_upto_ended(gp, insts, span, (index + 1) as nat, insts.len());
                }
            }
            let step = self.emit_inst(block.guest_pc(), block.insts(), block.byte_len(), index);
            assert(emit_upto(gp, insts, span, (index + 1) as nat).0
                == emit_upto(gp, insts, span, index as nat).0 + inst_code(gp, insts, span, index as nat).0);
            assert(self.bytes@ == old(self).bytes@ + emit_upto(gp, insts, span, (index + 1) as nat).0);
            match step {
                Step::Continue => {},
                Step::Stop(end) => {
                    proof {
                        lemma_emit_upto_ended(gp, insts, span, (index + 1) as nat, insts.len());
                    }
                    return match end {
                        EmitEnd::Failed(e) => Err(e),
                        _ => Ok(()),
                    };
                },
            }
            index = index + 1;
        }
        if block.insts().len() == 0 {
            self.emit_set_pc_imm(block.guest_pc());
            self.emit8(0xC3);
        }
        Ok(())
    }

    /// Emits instruction `index` of a block.
    fn emit_inst(&mut self, guest_pc: u64, insts: &Vec<IRInst>, span: u64, index: usize) -> (step: Step)
        requires
            index < insts.len(),
            inst_code(guest_pc, insts@, span, index as nat).1 != Step::Stop(EmitEnd::Fault),
        ensures
            final(self).bytes@ == old(self).bytes@ + inst_code(guest_pc, insts@, span, index as nat).0,
            step == inst_code(guest_pc, insts@, span, index as nat).1,
    {
        let inst = insts[index];
        let is_last = index + 1 == insts.len();
        match inst.opcode {
            Opcode::Nop => {
                self.emit8(0x90);
                self.emit_tail(guest_pc, span, is_last)
            },
            Opcode::Mov => match inst.a {
                Operand::Reg(dest) => {
                    let step = self.emit_mov(inst, dest);
                    if step == Step::Continue { self.emit_tail(guest_pc, span, is_last) } else { step }
                },
                _ => Step::Stop(EmitEnd::Failed(CodegenError::UnsupportedOperand)),
            },
            Opcode::Add | Opcode::Sub | Opcode::And | Opcode::Orr | Opcode::Eor => match inst.a {
                Operand::Reg(dest) => {
                    let step = self.emit_alu(inst, dest);
                    if step == Step::Continue { self.emit_tail(guest_pc, span, is_last) } else { step }
                },
                _ => Step::Stop(EmitEnd::Failed(CodegenError::UnsupportedOperand)),
            },
            Opcode::Shift => match inst.a {
                Operand::Reg(dest) => {
                    let step = self.emit_shift(inst, dest);
                    if step == Step::Continue { self.emit_tail(guest_pc, span, is_last) } else { step }
                },
                _ => Step::Stop(EmitEnd::Failed(CodegenError::UnsupportedOperand)),
            },
            Opcode::Load => match (inst.a, inst.b) {
                (Operand::Reg(dest), Operand::Mem(mem)) => {
                    self.emit_load(dest, mem);
                    self.emit_tail(guest_pc, span, is_last)
                },
                _ => Step::Stop(EmitEnd::Failed(CodegenError::UnsupportedOperand)),
            },
            Opcode::Store => match (inst.a, inst.b) {
                (Operand::Mem(mem), Operand::Reg(src)) => {
                    self.emit_store(mem, src);
                    self.emit_tail(guest_pc, span, is_last)
                },
                _ => Step::Stop(EmitEnd::Failed(CodegenError::UnsupportedOperand)),
            },
            Opcode::Branch => match inst.a {
                Operand::GuestPc(pc) => {
                    self.emit_set_pc_imm(pc);
                    self.emit8(0xC3);
                    Step::Stop(EmitEnd::Finished)
                },
                _ => Step::Stop(EmitEnd::Failed(CodegenError::UnsupportedOperand)),
            },
            Opcode::BranchCond => self.emit_cond_branch(guest_pc, index, inst),
            Opcode::Ret => {
                self.emit_ret();
                Step::Stop(EmitEnd::Finished)
            },
            _ => Step::Stop(EmitEnd::Failed(CodegenError::UnsupportedOpcode(inst.opcode))),
        }
    }
}

/// How emission of instruction `index` of a block goes on, computed
/// without emitting.
fn inst_outcome(guest_pc: u64, insts: &Vec<IRInst>, span: u64, index: usize) -> (r: Step)
    requires
        index < insts.len(),
    ensures
        r == inst_code(guest_pc, insts@, span, index as nat).1,
{
    let inst = insts[index];
    let is_last = index + 1 == insts.len();
    let tail = if !is_last {
        Step::Continue
    } else if guest_pc.checked_add(span).is_none() {
        Step::Stop(EmitEnd::Fault)
    } else {
        Step::Continue
    };
    let unsupported_operand = Step::Stop(EmitEnd::Failed(CodegenError::UnsupportedOperand));
    match inst.opcode {
        Opcode::Nop => tail,
        Opcode::Mov => match inst.a {
            Operand::Reg(_) => if load_faults(inst.b) {
                Step::Stop(EmitEnd::Fault)
            } else if !loadable(inst.b) {
                unsupported_operand
            } else {
                tail
            },
            _ => unsupported_operand,
        },
        Opcode::Add | Opcode::Sub | Opcode::And | Opcode::Orr | Opcode::Eor => match inst.a {
            Operand::Reg(_) => if load_faults(inst.b) {
                Step::Stop(EmitEnd::Fault)
            } else if !loadable(inst.b) {
                unsupported_operand
            } else if load_faults(inst.c) {
                Step::Stop(EmitEnd::Fault)
            } else if !loadable(inst.c) {
                unsupported_operand
            } else {
                tail
            },
            _ => unsupported_operand,
        },
        Opcode::Shift => match inst.a {
            Operand::Reg(_) => if load_faults(inst.b) {
                Step::Stop(EmitEnd::Fault)
            } else if !loadable(inst.b) {
                unsupported_operand
            } else {
                match inst.c {
                    Operand::ShiftReg { .. } => tail,
                    _ => unsupported_operand,
                }
            },
            _ => unsupported_operand,
        },
        Opcode::Load => match (inst.a, inst.b) {
            (Operand::Reg(_), Operand::Mem(_)) => tail,
            _ => unsupported_operand,
        },
        Opcode::Store => match (inst.a, inst.b) {
            (Operand::Mem(_), Operand::Reg(_)) => tail,
            _ => unsupported_operand,
        },
        Opcode::Branch => match inst.a {
            Operand::GuestPc(_) => Step::Stop(EmitEnd::Finished),
            _ => unsupported_operand,
        },
        Opcode::BranchCond => match inst.a {
            Operand::GuestPc(_) => {
                let slots: u64 = index as u64 + 1;
                if slots > u64::MAX / 4 || guest_pc.checked_add(slots * 4).is_none() {
                    Step::Stop(EmitEnd::Fault)
                } else {
                    match (inst.b, inst.c) {
                        (Operand::Imm(cond), Operand::Nothing) => if cond > 15 { unsupported_operand } else { Step::Stop(EmitEnd::Finished) },
                        (Operand::Reg(_), Operand::Imm(kind)) => if kind <= 1 { Step::Stop(EmitEnd::Finished) } else { unsupported_operand },
                        _ => unsupported_operand,
                    }
                }
            },
            _ => unsupported_operand,
        },
        Opcode::Ret => Step::Stop(EmitEnd::Finished),
        _ => Step::Stop(EmitEnd::Failed(CodegenError::UnsupportedOpcode(inst.opcode))),
    }
}

fn loadable(op: Operand) -> (r: bool)
    ensures
        r == operand_loadable(op),
{
    match op {
        Operand::Reg(_) | Operand::Imm(_) | Operand::ShiftedImm { .. } | Operand::ShiftedReg { .. } => true,
        _ => false,
    }
}

fn load_faults(op: Operand) -> (r: bool)
    ensures
        r == operand_load_faults(op),
{
    match op {
        Operand::ShiftedImm { amount, .. } => amount >= 64,
        _ => false,
    }
}

/// Whether emitting `block` would overflow a guest address or a shift
/// amount, which `CodeBuffer::emit_block` does not accept.
pub fn emit_faults(block: &Block) -> (r: bool)
    ensures
        r == (block_code(block.pc(), block.instructions(), block.span()).1 == EmitEnd::Fault),
{
    let ghost gp = block.pc();
    let ghost insts = block.instructions();
    let ghost span = block.span();
    let n = block.insts().len();
    let mut index: usize = 0;
    while index < n
        invariant
            n == block.instructions().len(),
            gp == block.pc(),
            insts == block.instructions(),
            span == block.span(),
            index <= n,
            emit_upto(gp, insts, span, index as nat).1 is None,
        decreases n - index,
    {
        match inst_outcome(block.guest_pc(), block.insts(), block.byte_len(), index) {
            Step::Continue => {},
            Step::Stop(end) => {
                proof {
                    lemma_emit_upto_ended(gp, insts, span, (index + 1) as nat, insts.len());
                }
                return end == EmitEnd::Fault;
            },
        }
        index = index + 1;
    }
    false
}

fn truth_table(cond: u64) -> (r: u16)
    requires
        cond <= 15,
    ensures
        r == cond_truth_table(cond),
{
    let tables: [u16; 16] = [0xF0F0, 0x0F0F, 0xCCCC, 0x3333, 0xFF00, 0x00FF, 0xAAAA, 0x5555, 0x0C0C, 0xF3F3, 0xAA55, 0x55AA, 0x0A05, 0xF5FA, 0xFFFF, 0xFFFF];
    tables[cond as usize]
}

} // verus!
