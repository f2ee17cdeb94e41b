use vstd::prelude::*;

use crate::ir::{Block, IRInst, Opcode, Operand, RegWidth};

verus! {

/// Compiler-internal hint: use an x86 immediate lowering when it is cheaper
/// and semantically identical to the guest operation. Bit 0 is reserved for
/// the architectural NZCV writer flag.
pub const FLAG_X86_IMM_FORM: u16 = 2u16;

#[derive(Debug, Clone, Copy, PartialEq, Eq, Structural)]
pub enum InstForm {
    Generic,
    Immediate,
}

#[derive(Debug, Clone, Copy, PartialEq, Eq, Structural)]
pub struct Selection {
    pub opcode: Opcode,
    pub form: InstForm,
    pub cost: u8,
}

#[derive(Debug, Default, Clone, Copy)]
pub struct InstructionSelector {
    pub immediate_forms: u32,
}

/// `value`, read as a 64-bit pattern, is a sign-extended 32-bit immediate.
pub open spec fn fits_simm32(value: u64) -> bool {
    value <= 0x7FFF_FFFFu64 || value >= 0xFFFF_FFFF_8000_0000u64
}

/// An ALU instruction whose immediate operand fits an x86 immediate of the
/// destination's width.
pub open spec fn immediate_candidate(inst: IRInst) -> bool {
    &&& crate::ir::inst::is_alu(inst.opcode)
    &&& match (inst.a, inst.c) {
        (Operand::Reg(reg), Operand::Imm(value)) => match reg.width {
            RegWidth::W32 => value <= u32::MAX,
            RegWidth::X64 => fits_simm32(value),
        },
        _ => false,
    }
}

/// The flags of `inst` after selection: the immediate-form hint set exactly
/// for candidates, every other bit kept.
pub open spec fn selected_flags(inst: IRInst) -> u16 {
    (inst.flags & !FLAG_X86_IMM_FORM) | (if immediate_candidate(inst) { FLAG_X86_IMM_FORM } else { 0u16 })
}

pub open spec fn selected(inst: IRInst) -> IRInst {
    IRInst { opcode: inst.opcode, flags: selected_flags(inst), a: inst.a, b: inst.b, c: inst.c }
}

/// How many of the first `n` instructions are immediate candidates.
pub open spec fn count_candidates(insts: Seq<IRInst>, n: nat) -> nat
    decreases n,
{
    if n == 0 {
        0
    } else {
        count_candidates(insts, (n - 1) as nat) + (if immediate_candidate(insts[n - 1]) { 1nat } else { 0nat })
    }
}

pub open spec fn generic_cost_spec(opcode: Opcode) -> u8 {
    match opcode {
        Opcode::Nop => 0,
        Opcode::Mov => 1,
        Opcode::Add | Opcode::Sub | Opcode::And | Opcode::Orr | Opcode::Eor => 2,
        Opcode::Shift => 2,
        Opcode::Load | Opcode::Store => 3,
        _ => 4,
    }
}

pub open spec fn selection_of(inst: IRInst) -> Selection {
    if inst.flags & FLAG_X86_IMM_FORM != 0 {
        Selection { opcode: inst.opcode, form: InstForm::Immediate, cost: 1 }
    } else {
        Selection { opcode: inst.opcode, form: InstForm::Generic, cost: generic_cost_spec(inst.opcode) }
    }
}

/// Instruction selection only sets or clears the immediate-form hint: the
/// NZCV-writer bit and every other flag bit keep their value, and the hint is
/// set exactly on immediate candidates.
pub proof fn lemma_selection_keeps_flags(inst: IRInst)
    ensures
        selected_flags(inst) & !FLAG_X86_IMM_FORM == inst.flags & !FLAG_X86_IMM_FORM,
        selected_flags(inst) & crate::ir::FLAG_WRITES_NZCV == inst.flags & crate::ir::FLAG_WRITES_NZCV,
        (selected_flags(inst) & FLAG_X86_IMM_FORM != 0) == immediate_candidate(inst),
{
    let f = inst.flags;
    let c = immediate_candidate(inst);
    let r = selected_flags(inst);
    assert(r & !2u16 == f & !2u16 && r & 1u16 == f & 1u16 && ((r & 2u16 != 0) == c)) by (bit_vector)
        requires
            r == (f & !2u16) | (if c { 2u16 } else { 0u16 });
}

/// Selecting a block twice marks it as selecting it once.
pub proof fn lemma_selection_idempotent(inst: IRInst)
    ensures
        selected(selected(inst)) == selected(inst),
{
    let f = inst.flags;
    let c = immediate_candidate(inst);
    assert(immediate_candidate(selected(inst)) == c);
    let r = selected_flags(inst);
    assert(((r & !2u16) | (if c { 2u16 } else { 0u16 })) == r) by (bit_vector)
        requires
            r == (f & !2u16) | (if c { 2u16 } else { 0u16 });
}

impl InstructionSelector {
    /// Marks each instruction of `block` that has a cheaper x86 immediate form.
    pub fn select_block(&mut self, block: &mut Block)
        ensures
            final(block).instructions() == old(block).instructions().map_values(|inst: IRInst| selected(inst)),
            final(block).pc() == old(block).pc(),
            final(block).hits() == old(block).hits(),
            final(block).span() == old(block).span(),
            final(self).immediate_forms == crate::jit::optimizer::sat_count(
                old(self).immediate_forms, count_candidates(old(block).instructions(), old(block).instructions().len())),
    {
        let ghost orig = block.instructions();
        let ghost start = self.immediate_forms;
        let n = block.insts().len();
        let mut i: usize = 0;
        while i < n
            invariant
                n == orig.len(),
                block.instructions().len() == n,
                i <= n,
                block.pc() == old(block).pc(),
                block.hits() == old(block).hits(),
                block.span() == old(block).span(),
                orig == old(block).instructions(),
                start == old(self).immediate_forms,
                forall|j: int| 0 <= j < i ==> block.instructions()[j] == selected(orig[j]),
                forall|j: int| i <= j < n ==> block.instructions()[j] == orig[j],
                self.immediate_forms == crate::jit::optimizer::sat_count(start, count_candidates(orig, i as nat)),
            decreases n - i,
        {
            let mut inst = block.insts()[i];
            inst.flags = inst.flags & !FLAG_X86_IMM_FORM;
            if is_immediate_candidate(&inst) {
                inst.flags = inst.flags | FLAG_X86_IMM_FORM;
                self.immediate_forms = self.immediate_forms.saturating_add(1);
            }
            assert(inst.flags == selected_flags(orig[i as int])) by {
                let f = orig[i as int].flags;
                assert(f & !FLAG_X86_IMM_FORM | 0u16 == f & !FLAG_X86_IMM_FORM) by (bit_vector);
            }
            block.set_inst(i, inst);
            i = i + 1;
        }
        assert(block.instructions() =~= orig.map_values(|inst: IRInst| selected(inst)));
    }

    pub fn select(&self, inst: &IRInst) -> (r: Selection)
        ensures
            r == selection_of(*inst),
    {
        if inst.flags & FLAG_X86_IMM_FORM != 0 {
            Selection { opcode: inst.opcode, form: InstForm::Immediate, cost: 1 }
        } else {
            Selection { opcode: inst.opcode, form: InstForm::Generic, cost: generic_cost(inst.opcode) }
        }
    }
}

fn is_immediate_candidate(inst: &IRInst) -> (r: bool)
    ensures
        r == immediate_candidate(*inst),
{
    if !matches!(inst.opcode, Opcode::Add | Opcode::Sub | Opcode::And | Opcode::Orr | Opcode::Eor) {
        return false;
    }
    let width = match inst.a {
        Operand::Reg(reg) => reg.width,
        _ => return false,
    };
    let value = match inst.c {
        Operand::Imm(value) => value,
        _ => return false,
    };
    match width {
        RegWidth::W32 => value <= u32::MAX as u64,
        RegWidth::X64 => {
            let r = (value as i32 as i64 as u64) == value;
            assert(r == fits_simm32(value)) by (bit_vector)
                requires
                    r == ((value as i32 as i64 as u64) == value),
            ;
            r
        },
    }
}

fn generic_cost(opcode: Opcode) -> (r: u8)
    ensures
        r == generic_cost_spec(opcode),
{
    match opcode {
        Opcode::Nop => 0,
        Opcode::Mov => 1,
        Opcode::Add | Opcode::Sub | Opcode::And | Opcode::Orr | Opcode::Eor => 2,
        Opcode::Shift => 2,
        Opcode::Load | Opcode::Store => 3,
        Opcode::Branch | Opcode::BranchCond | Opcode::Ret => 4,
        _ => 4,
    }
}

} // verus!
