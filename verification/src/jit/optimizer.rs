use vstd::prelude::*;

use crate::ir::{Block, GuestReg, IRInst, Opcode, Operand, RegKind, RegWidth, ShiftKind, FLAG_WRITES_NZCV};

verus! {

/// Small, architecture-aware IR optimizer used before machine-code emission.
///
/// The pass is deliberately conservative around control flow, memory, and
/// NZCV. It may replace an operation with an equivalent move, but it does not
/// delete guest instructions or change their ordering.
#[derive(Debug, Default, Clone, Copy)]
pub struct Optimizer {
    pub folded: u32,
    pub propagated: u32,
    pub simplified: u32,
}

// ---------------------------------------------------------------------------
// Value semantics of constant folding.

/// A register value as seen through an operand of width `width`.
pub open spec fn mask_width_spec(value: u64, width: RegWidth) -> u64 {
    match width {
        RegWidth::W32 => value as u32 as u64,
        RegWidth::X64 => value,
    }
}

pub open spec fn fold_binop_spec(op: Opcode, lhs: u64, rhs: u64, width: RegWidth) -> u64 {
    let value = match op {
        Opcode::Add => vstd::wrapping::u64_specs::wrapping_add(lhs, rhs),
        Opcode::Sub => vstd::wrapping::u64_specs::wrapping_sub(lhs, rhs),
        Opcode::And => lhs & rhs,
        Opcode::Orr => lhs | rhs,
        _ => lhs ^ rhs,
    };
    mask_width_spec(value, width)
}

/// `value`, a register value of `bits` bits, rotated right by `shift` bits
/// within those bits (bits above them are cut off by the caller).
pub open spec fn rotr_within(value: u64, shift: u32, bits: u32) -> u64 {
    if shift == 0 { value } else { (value >> shift) | (value << ((bits - shift) as u32)) }
}

pub open spec fn fold_shift_spec(value: u64, amount: u64, kind: ShiftKind, width: RegWidth) -> u64 {
    let bits: u32 = match width { RegWidth::W32 => 32, RegWidth::X64 => 64 };
    let value = mask_width_spec(value, width);
    let shift = (amount as u32) & ((bits - 1) as u32);
    let result = match kind {
        ShiftKind::Lsl => vstd::wrapping::u64_specs::wrapping_shl(value, shift),
        ShiftKind::Lsr => vstd::wrapping::u64_specs::wrapping_shr(value, shift),
        ShiftKind::Asr => match width {
            RegWidth::W32 => ((value as u32 as i32) >> shift) as u32 as u64,
            RegWidth::X64 => ((value as i64) >> shift) as u64,
        },
        ShiftKind::Ror => rotr_within(value, shift, bits),
    };
    mask_width_spec(result, width)
}

// ---------------------------------------------------------------------------
// The pass, one instruction at a time, over a table of known register values.

/// The known values of `x0`..`x30` at the start of a block: none.
pub open spec fn no_constants() -> Seq<Option<u64>> {
    Seq::new(31, |i: int| None::<u64>)
}

/// The optimizer never indexes its 31-entry table with this register.
pub open spec fn reg_indexable(r: GuestReg) -> bool {
    r.kind == RegKind::General ==> r.num < 31
}

pub open spec fn operand_indexable(op: Operand) -> bool {
    op matches Operand::Reg(r) ==> reg_indexable(r)
}

/// Every general register that the pass looks up for `inst` is one of
/// `x0`..`x30`.
pub open spec fn inst_indexable(inst: IRInst) -> bool {
    &&& operand_indexable(inst.b)
    &&& operand_indexable(inst.c)
    &&& (inst.opcode != Opcode::Nop && inst.opcode != Opcode::Unsupported ==> operand_indexable(inst.a))
    &&& (inst.opcode == Opcode::Shift ==> match (inst.a, inst.c) {
        (Operand::Reg(d), Operand::ShiftReg { value, amount, .. }) => d.kind == RegKind::General ==> reg_indexable(value) && reg_indexable(amount),
        _ => true,
    })
}

/// The known value of operand `op`, if any.
pub open spec fn constant_of(op: Operand, consts: Seq<Option<u64>>) -> Option<u64> {
    match op {
        Operand::Imm(v) => Some(v),
        Operand::Reg(r) => if r.kind == RegKind::Zero {
            Some(0)
        } else if r.kind == RegKind::General {
            match consts[r.num as int] {
                Some(v) => Some(mask_width_spec(v, r.width)),
                None => None,
            }
        } else {
            None
        },
        _ => None,
    }
}

/// Whether constant propagation replaces operand `op`.
pub open spec fn propagates(op: Operand, consts: Seq<Option<u64>>) -> bool {
    op matches Operand::Reg(r) && r.kind == RegKind::General && consts[r.num as int] is Some
}

/// Operand `op` after constant propagation.
pub open spec fn rewritten(op: Operand, consts: Seq<Option<u64>>) -> Operand {
    if propagates(op, consts) {
        Operand::Imm(constant_of(op, consts).unwrap())
    } else {
        op
    }
}

/// `inst` as a move of `value` into its destination.
pub open spec fn as_mov_imm(inst: IRInst, value: u64) -> IRInst {
    IRInst { opcode: Opcode::Mov, flags: inst.flags, a: inst.a, b: Operand::Imm(value), c: Operand::Nothing }
}

/// The identity-simplified form of an ALU instruction that leaves NZCV alone.
pub open spec fn identity_simplified(inst: IRInst, width: RegWidth) -> Option<IRInst> {
    let mov = IRInst { opcode: Opcode::Mov, flags: inst.flags, a: inst.a, b: inst.b, c: Operand::Nothing };
    match (inst.opcode, inst.c) {
        (Opcode::Add, Operand::Imm(0)) => Some(mov),
        (Opcode::Sub, Operand::Imm(0)) => Some(mov),
        (Opcode::And, Operand::Imm(v)) => if mask_width_spec(v, width) == mask_width_spec(u64::MAX, width) { Some(mov) } else { None },
        (Opcode::Orr, Operand::Imm(0)) => Some(mov),
        (Opcode::Eor, Operand::Imm(0)) => Some(mov),
        _ => None,
    }
}

/// What the pass does with one instruction.
pub struct OptStep {
    /// The known register values afterwards.
    pub consts: Seq<Option<u64>>,
    /// The instruction it emits in the same slot.
    pub inst: IRInst,
    pub folded: nat,
    pub propagated: nat,
    pub simplified: nat,
}

pub open spec fn forget(consts: Seq<Option<u64>>, op: Operand) -> Seq<Option<u64>> {
    match op {
        Operand::Reg(d) => if d.kind == RegKind::General { consts.update(d.num as int, None) } else { consts },
        _ => consts,
    }
}

pub open spec fn unchanged(consts: Seq<Option<u64>>, inst: IRInst) -> OptStep {
    OptStep { consts, inst, folded: 0, propagated: 0, simplified: 0 }
}

/// A move into a general register records the value it moves, when known.
pub open spec fn mov_effect(consts: Seq<Option<u64>>, inst: IRInst) -> OptStep {
    match inst.a {
        Operand::Reg(dst) => if dst.kind != RegKind::General {
            unchanged(consts, inst)
        } else {
            let known = match inst.b {
                Operand::Imm(value) => Some(mask_width_spec(value, dst.width)),
                Operand::Reg(src) => if src.kind == RegKind::Zero {
                    Some(0u64)
                } else if src.kind == RegKind::General {
                    match consts[src.num as int] {
                        Some(v) => Some(mask_width_spec(v, dst.width)),
                        None => None,
                    }
                } else {
                    None
                },
                _ => None,
            };
            unchanged(consts.update(dst.num as int, known), inst)
        },
        _ => unchanged(consts, inst),
    }
}

/// Operand `op` reads a 32-bit register.
pub open spec fn reads_w32(op: Operand) -> bool {
    op matches Operand::Reg(r) && r.width == RegWidth::W32
}

/// The width an ALU operation into `dst` is carried out in: 32 bits when its
/// destination or a register it reads (`narrow`) is 32 bits wide.
pub open spec fn alu_width(dst: GuestReg, narrow: bool) -> RegWidth {
    if narrow { RegWidth::W32 } else { dst.width }
}

/// An ALU operation on known values that leaves NZCV alone becomes a move of
/// the folded value; otherwise its destination becomes unknown and an
/// identity operation becomes a move.
pub open spec fn alu_effect(consts: Seq<Option<u64>>, inst: IRInst, narrow: bool) -> OptStep {
    let keeps_flags = inst.flags & FLAG_WRITES_NZCV == 0;
    match inst.a {
        Operand::Reg(dst) => if dst.kind != RegKind::General {
            unchanged(consts, inst)
        } else {
            match (constant_of(inst.b, consts), constant_of(inst.c, consts)) {
                (Some(lhs), Some(rhs)) => {
                    let value = fold_binop_spec(inst.opcode, lhs, rhs, alu_width(dst, narrow));
                    if keeps_flags {
                        OptStep { consts: consts.update(dst.num as int, Some(value)), inst: as_mov_imm(inst, value), folded: 1, propagated: 0, simplified: 0 }
                    } else {
                        unchanged(consts.update(dst.num as int, None), inst)
                    }
                },
                _ => {
                    let forgotten = consts.update(dst.num as int, None);
                    if keeps_flags && identity_simplified(inst, alu_width(dst, narrow)) is Some {
                        OptStep { consts: forgotten, inst: identity_simplified(inst, alu_width(dst, narrow)).unwrap(), folded: 0, propagated: 0, simplified: 1 }
                    } else {
                        unchanged(forgotten, inst)
                    }
                },
            }
        },
        _ => unchanged(consts, inst),
    }
}

/// A register shift by known values that leaves NZCV alone becomes a move
/// of the folded value; otherwise its destination becomes unknown.
pub open spec fn shift_effect(consts: Seq<Option<u64>>, inst: IRInst) -> OptStep {
    let keeps_flags = inst.flags & FLAG_WRITES_NZCV == 0;
    match inst.a {
        Operand::Reg(dst) => if dst.kind != RegKind::General {
            unchanged(consts, inst)
        } else {
            let forgotten = consts.update(dst.num as int, None);
            match inst.c {
                Operand::ShiftReg { value, amount, kind } => match (constant_of(Operand::Reg(value), consts), constant_of(Operand::Reg(amount), consts)) {
                    (Some(v), Some(a)) => {
                        let folded = fold_shift_spec(v, a, kind, dst.width);
                        if keeps_flags {
                            OptStep { consts: consts.update(dst.num as int, Some(folded)), inst: as_mov_imm(inst, folded), folded: 1, propagated: 0, simplified: 0 }
                        } else {
                            unchanged(forgotten, inst)
                        }
                    },
                    _ => unchanged(forgotten, inst),
                },
                _ => unchanged(forgotten, inst),
            }
        },
        _ => unchanged(consts, inst),
    }
}

/// What the pass does with an instruction whose operands were already
/// rewritten.
pub open spec fn effect(consts: Seq<Option<u64>>, inst: IRInst, narrow: bool) -> OptStep {
    match inst.opcode {
        Opcode::Nop => unchanged(consts, inst),
        Opcode::Mov => mov_effect(consts, inst),
        Opcode::Add | Opcode::Sub | Opcode::And | Opcode::Orr | Opcode::Eor => alu_effect(consts, inst, narrow),
        Opcode::Shift => shift_effect(consts, inst),
        Opcode::Unsupported => unchanged(no_constants(), inst),
        _ => unchanged(forget(consts, inst.a), inst),
    }
}

/// Instructions that compute a register value: moves, ALU operations and
/// register shifts. Only their operands take propagated constants; memory
/// accesses and branches keep the registers they name.
pub open spec fn computes(op: Opcode) -> bool {
    op == Opcode::Mov || crate::ir::inst::is_alu(op) || op == Opcode::Shift
}

/// The pass on instruction `orig`, with known register values `consts`:
/// constant propagation into its source operands, then its effect.
pub open spec fn opt_inst(consts: Seq<Option<u64>>, orig: IRInst) -> OptStep {
    let p = computes(orig.opcode);
    let prop: nat = if p {
        (if propagates(orig.b, consts) { 1nat } else { 0nat }) + (if propagates(orig.c, consts) { 1nat } else { 0nat })
    } else {
        0nat
    };
    let inst = if p {
        IRInst { opcode: orig.opcode, flags: orig.flags, a: orig.a, b: rewritten(orig.b, consts), c: rewritten(orig.c, consts) }
    } else {
        orig
    };
    let e = effect(consts, inst, reads_w32(orig.b) || reads_w32(orig.c));
    OptStep { consts: e.consts, inst: e.inst, folded: e.folded, propagated: prop, simplified: e.simplified }
}

/// The state of the pass after the first `n` instructions of `insts`.
pub struct OptRun {
    pub consts: Seq<Option<u64>>,
    pub out: Seq<IRInst>,
    pub folded: nat,
    pub propagated: nat,
    pub simplified: nat,
}

pub open spec fn opt_prefix(insts: Seq<IRInst>, n: nat) -> OptRun
    decreases n,
{
    if n == 0 {
        OptRun { consts: no_constants(), out: Seq::empty(), folded: 0, propagated: 0, simplified: 0 }
    } else {
        let prev = opt_prefix(insts, (n - 1) as nat);
        let s = opt_inst(prev.consts, insts[n - 1]);
        OptRun {
            consts: s.consts,
            out: prev.out.push(s.inst),
            folded: prev.folded + s.folded,
            propagated: prev.propagated + s.propagated,
            simplified: prev.simplified + s.simplified,
        }
    }
}

/// The instructions the pass turns `insts` into.
pub open spec fn optimized(insts: Seq<IRInst>) -> Seq<IRInst> {
    opt_prefix(insts, insts.len()).out
}

/// A counter after `n` saturating increments.
pub open spec fn sat_count(start: u32, n: nat) -> u32 {
    if start + n > u32::MAX { u32::MAX } else { (start + n) as u32 }
}

// ---------------------------------------------------------------------------
// The pass.

impl Optimizer {
    /// Folds constants, propagates known register values into operands and
    /// simplifies identities, one instruction slot at a time.
    pub fn optimize_block(&mut self, block: &mut Block)
        requires
            forall|i: int| 0 <= i < old(block).instructions().len() ==> inst_indexable(#[trigger] old(block).instructions()[i]),
        ensures
            final(block).instructions() == optimized(old(block).instructions()),
            final(block).instructions().len() == old(block).instructions().len(),
            forall|i: int| 0 <= i < old(block).instructions().len() ==> same_slot(old(block).instructions()[i], #[trigger] final(block).instructions()[i]),
            final(block).pc() == old(block).pc(),
            final(block).hits() == old(block).hits(),
            final(block).span() == old(block).span(),
            final(self).folded == sat_count(old(self).folded, opt_prefix(old(block).instructions(), old(block).instructions().len()).folded),
            final(self).propagated == sat_count(old(self).propagated, opt_prefix(old(block).instructions(), old(block).instructions().len()).propagated),
            final(self).simplified == sat_count(old(self).simplified, opt_prefix(old(block).instructions(), old(block).instructions().len()).simplified),
    {
        let ghost orig = block.instructions();
        let mut constants: [Option<u64>; 31] = [None; 31];
        let mut out: Vec<IRInst> = Vec::new();
        let n = block.insts().len();
        let mut i: usize = 0;
        assert(constants@ =~= no_constants());
        while i < n
            invariant
                n == orig.len(),
                orig == block.instructions(),
                orig == old(block).instructions(),
                block.pc() == old(block).pc(),
                block.hits() == old(block).hits(),
                block.span() == old(block).span(),
                i <= n,
                forall|j: int| 0 <= j < orig.len() ==> inst_indexable(#[trigger] orig[j]),
                constants@ == opt_prefix(orig, i as nat).consts,
                out@ == opt_prefix(orig, i as nat).out,
                self.folded == sat_count(old(self).folded, opt_prefix(orig, i as nat).folded),
                self.propagated == sat_count(old(self).propagated, opt_prefix(orig, i as nat).propagated),
                self.simplified == sat_count(old(self).simplified, opt_prefix(orig, i as nat).simplified),
            decreases n - i,
        {
            let inst = block.insts()[i];
            let next = self.optimize_inst(&mut constants, inst);
            out.push(next);
            i = i + 1;
        }
        proof {
            lemma_optimize_keeps_slots(orig);
        }
        block.replace_insts(out);
    }

    /// One slot of the pass: rewrites `inst` under the known register values
    /// in `constants` and updates them.
    fn optimize_inst(&mut self, constants: &mut [Option<u64>; 31], inst: IRInst) -> (r: IRInst)
        requires
            inst_indexable(inst),
        ensures
            final(constants)@ == opt_inst(old(constants)@, inst).consts,
            r == opt_inst(old(constants)@, inst).inst,
            final(self).folded == sat_count(old(self).folded, opt_inst(old(constants)@, inst).folded),
            final(self).propagated == sat_count(old(self).propagated, opt_inst(old(constants)@, inst).propagated),
            final(self).simplified == sat_count(old(self).simplified, opt_inst(old(constants)@, inst).simplified),
    {
        let mut rewritten_inst = inst;
        let computes_value = match inst.opcode {
            Opcode::Mov | Opcode::Add | Opcode::Sub | Opcode::And | Opcode::Orr | Opcode::Eor | Opcode::Shift => true,
            _ => false,
        };
        if computes_value {
            self.rewrite_operand(&mut rewritten_inst.b, constants);
            self.rewrite_operand(&mut rewritten_inst.c, constants);
        }
        let narrow = reads_32bit(inst.b) || reads_32bit(inst.c);
        self.apply_effect(constants, rewritten_inst, narrow)
    }

    fn apply_effect(&mut self, constants: &mut [Option<u64>; 31], inst: IRInst, narrow: bool) -> (r: IRInst)
        requires
            operand_indexable(inst.b),
            inst.opcode != Opcode::Nop && inst.opcode != Opcode::Unsupported ==> operand_indexable(inst.a),
            inst.opcode == Opcode::Shift ==> match (inst.a, inst.c) {
                (Operand::Reg(d), Operand::ShiftReg { value, amount, .. }) => d.kind == RegKind::General ==> reg_indexable(value) && reg_indexable(amount),
                _ => true,
            },
            operand_indexable(inst.c),
        ensures
            final(constants)@ == effect(old(constants)@, inst, narrow).consts,
            r == effect(old(constants)@, inst, narrow).inst,
            final(self).folded == sat_count(old(self).folded, effect(old(constants)@, inst, narrow).folded),
            final(self).propagated == old(self).propagated,
            final(self).simplified == sat_count(old(self).simplified, effect(old(constants)@, inst, narrow).simplified),
    {
        match inst.opcode {
            Opcode::Nop => inst,
            Opcode::Mov => {
                apply_mov(constants, inst);
                inst
            },
            Opcode::Add | Opcode::Sub | Opcode::And | Opcode::Orr | Opcode::Eor => self.apply_alu(constants, inst, narrow),
            Opcode::Shift => self.apply_shift(constants, inst),
            Opcode::Load => {
                invalidate_dest(inst.a, constants);
                inst
            },
            Opcode::Unsupported => {
                *constants = [None; 31];
                assert(constants@ =~= no_constants());
                inst
            },
            _ => {
                if let Operand::Reg(dst) = inst.a {
                    if dst.kind == RegKind::General {
                        constants[dst.num as usize] = None;
                    }
                }
                inst
            },
        }
    }

    fn apply_alu(&mut self, constants: &mut [Option<u64>; 31], inst: IRInst, narrow: bool) -> (r: IRInst)
        requires
            crate::ir::inst::is_alu(inst.opcode),
            operand_indexable(inst.a),
            operand_indexable(inst.b),
            operand_indexable(inst.c),
        ensures
            final(constants)@ == alu_effect(old(constants)@, inst, narrow).consts,
            r == alu_effect(old(constants)@, inst, narrow).inst,
            final(self).folded == sat_count(old(self).folded, alu_effect(old(constants)@, inst, narrow).folded),
            final(self).propagated == old(self).propagated,
            final(self).simplified == sat_count(old(self).simplified, alu_effect(old(constants)@, inst, narrow).simplified),
    {
        let mut out = inst;
        if let Operand::Reg(dst) = out.a {
            if dst.kind == RegKind::General {
                let width = if narrow { RegWidth::W32 } else { dst.width };
                let lhs = constant_operand(out.b, constants);
                let rhs = constant_operand(out.c, constants);
                if let (Some(lhs), Some(rhs)) = (lhs, rhs) {
                    let value = fold_binop(out.opcode, lhs, rhs, width);
                    if out.flags & FLAG_WRITES_NZCV == 0 {
                        out.opcode = Opcode::Mov;
                        out.b = Operand::Imm(value);
                        out.c = Operand::Nothing;
                        self.folded = self.folded.saturating_add(1);
                        constants[dst.num as usize] = Some(value);
                    } else {
                        constants[dst.num as usize] = None;
                    }
                } else {
                    constants[dst.num as usize] = None;
                    if out.flags & FLAG_WRITES_NZCV == 0 && simplify_identity(&mut out, width) {
                        self.simplified = self.simplified.saturating_add(1);
                    }
                }
            }
        }
        out
    }

    fn apply_shift(&mut self, constants: &mut [Option<u64>; 31], inst: IRInst) -> (r: IRInst)
        requires
            operand_indexable(inst.a),
            match (inst.a, inst.c) {
                (Operand::Reg(d), Operand::ShiftReg { value, amount, .. }) => d.kind == RegKind::General ==> reg_indexable(value) && reg_indexable(amount),
                _ => true,
            },
        ensures
            final(constants)@ == shift_effect(old(constants)@, inst).consts,
            r == shift_effect(old(constants)@, inst).inst,
            final(self).folded == sat_count(old(self).folded, shift_effect(old(constants)@, inst).folded),
            final(self).propagated == old(self).propagated,
            final(self).simplified == old(self).simplified,
    {
        let mut out = inst;
        if let Operand::Reg(dst) = out.a {
            if dst.kind == RegKind::General {
                if let Operand::ShiftReg { value, amount, kind } = out.c {
                    let v = constant_operand(Operand::Reg(value), constants);
                    let a = constant_operand(Operand::Reg(amount), constants);
                    if let (Some(v), Some(a)) = (v, a) {
                        let folded = fold_shift(v, a, kind, dst.width);
                        if out.flags & FLAG_WRITES_NZCV == 0 {
                            out.opcode = Opcode::Mov;
                            out.b = Operand::Imm(folded);
                            out.c = Operand::Nothing;
                            self.folded = self.folded.saturating_add(1);
                            constants[dst.num as usize] = Some(folded);
                        } else {
                            constants[dst.num as usize] = None;
                        }
                    } else {
                        constants[dst.num as usize] = None;
                    }
                } else {
                    constants[dst.num as usize] = None;
                }
            }
        }
        out
    }

    fn rewrite_operand(&mut self, op: &mut Operand, constants: &[Option<u64>; 31])
        requires
            operand_indexable(*old(op)),
        ensures
            *final(op) == rewritten(*old(op), constants@),
            final(self).propagated == sat_count(old(self).propagated, if propagates(*old(op), constants@) { 1nat } else { 0nat }),
            final(self).folded == old(self).folded,
            final(self).simplified == old(self).simplified,
    {
        if let Operand::Reg(reg) = *op {
            if reg.kind == RegKind::General {
                if let Some(value) = constants[reg.num as usize] {
                    *op = Operand::Imm(mask_width(value, reg.width));
                    self.propagated = self.propagated.saturating_add(1);
                }
            }
        }
    }
}

fn apply_mov(constants: &mut [Option<u64>; 31], inst: IRInst)
    requires
        operand_indexable(inst.a),
        operand_indexable(inst.b),
    ensures
        final(constants)@ == mov_effect(old(constants)@, inst).consts,
{
    if let Operand::Reg(dst) = inst.a {
        if dst.kind == RegKind::General {
            let known: Option<u64> = match inst.b {
                Operand::Imm(value) => Some(mask_width(value, dst.width)),
                Operand::Reg(src) => if src.kind == RegKind::Zero {
                    Some(0)
                } else if src.kind == RegKind::General {
                    match constants[src.num as usize] {
                        Some(v) => Some(mask_width(v, dst.width)),
                        None => None,
                    }
                } else {
                    None
                },
                _ => None,
            };
            constants[dst.num as usize] = known;
        }
    }
}

fn reads_32bit(op: Operand) -> (r: bool)
    ensures
        r == reads_w32(op),
{
    match op {
        Operand::Reg(reg) => reg.width == RegWidth::W32,
        _ => false,
    }
}

fn constant_operand(op: Operand, constants: &[Option<u64>; 31]) -> (r: Option<u64>)
    requires
        operand_indexable(op),
    ensures
        r == constant_of(op, constants@),
{
    match op {
        Operand::Imm(v) => Some(v),
        Operand::Reg(r) if r.kind == RegKind::Zero => Some(0),
        Operand::Reg(r) if r.kind == RegKind::General => match constants[r.num as usize] {
            Some(v) => Some(mask_width(v, r.width)),
            None => None,
        },
        _ => None,
    }
}

fn mask_width(value: u64, width: RegWidth) -> (r: u64)
    ensures
        r == mask_width_spec(value, width),
{
    match width {
        RegWidth::W32 => value as u32 as u64,
        RegWidth::X64 => value,
    }
}

fn fold_binop(op: Opcode, lhs: u64, rhs: u64, width: RegWidth) -> (r: u64)
    requires
        crate::ir::inst::is_alu(op),
    ensures
        r == fold_binop_spec(op, lhs, rhs, width),
{
    let value: u64 = match op {
        Opcode::Add => lhs.wrapping_add(rhs),
        Opcode::Sub => lhs.wrapping_sub(rhs),
        Opcode::And => lhs & rhs,
        Opcode::Orr => lhs | rhs,
        _ => lhs ^ rhs,
    };
    mask_width(value, width)
}

fn rotate_right(value: u64, shift: u32, bits: u32) -> (r: u64)
    requires
        bits == 32 || bits == 64,
        shift < bits,
    ensures
        r == rotr_within(value, shift, bits),
{
    if shift == 0 {
        value
    } else {
        (value >> shift) | (value << (bits - shift))
    }
}

fn fold_shift(value: u64, amount: u64, kind: ShiftKind, width: RegWidth) -> (r: u64)
    ensures
        r == fold_shift_spec(value, amount, kind, width),
{
    let bits: u32 = match width {
        RegWidth::W32 => 32,
        RegWidth::X64 => 64,
    };
    let value = mask_width(value, width);
    let shift: u32 = (amount as u32) & (bits - 1);
    assert(shift < bits) by (bit_vector)
        requires
            shift == (amount as u32) & ((bits - 1) as u32),
            bits == 32 || bits == 64,
    ;
    let result: u64 = match kind {
        ShiftKind::Lsl => value.wrapping_shl(shift),
        ShiftKind::Lsr => value.wrapping_shr(shift),
        ShiftKind::Asr => match width {
            RegWidth::W32 => ((value as u32 as i32) >> shift) as u32 as u64,
            RegWidth::X64 => ((value as i64) >> shift) as u64,
        },
        ShiftKind::Ror => rotate_right(value, shift, bits),
    };
    mask_width(result, width)
}

fn simplify_identity(inst: &mut IRInst, width: RegWidth) -> (r: bool)
    ensures
        r == (identity_simplified(*old(inst), width) is Some),
        r ==> *final(inst) == identity_simplified(*old(inst), width).unwrap(),
        !r ==> *final(inst) == *old(inst),
{
    match (inst.opcode, inst.b, inst.c) {
        (Opcode::Add, lhs, Operand::Imm(0)) | (Opcode::Sub, lhs, Operand::Imm(0)) => {
            inst.opcode = Opcode::Mov;
            inst.b = lhs;
            inst.c = Operand::Nothing;
            true
        },
        (Opcode::And, lhs, Operand::Imm(v)) if mask_width(v, width) == mask_width(u64::MAX, width) => {
            inst.opcode = Opcode::Mov;
            inst.b = lhs;
            inst.c = Operand::Nothing;
            true
        },
        (Opcode::Orr, lhs, Operand::Imm(0)) | (Opcode::Eor, lhs, Operand::Imm(0)) => {
            inst.opcode = Opcode::Mov;
            inst.b = lhs;
            inst.c = Operand::Nothing;
            true
        },
        _ => false,
    }
}

fn invalidate_dest(op: Operand, constants: &mut [Option<u64>; 31])
    requires
        operand_indexable(op),
    ensures
        final(constants)@ == forget(old(constants)@, op),
{
    if let Operand::Reg(GuestReg { num, kind: RegKind::General, .. }) = op {
        constants[num as usize] = None;
    }
}

// ---------------------------------------------------------------------------
// Laws of the pass.

/// The slot property: `out` stands in the slot of `orig` when it keeps its
/// destination and flags, and either keeps its opcode or is a move made from
/// an ALU operation or a shift that does not write NZCV.
pub open spec fn same_slot(orig: IRInst, out: IRInst) -> bool {
    &&& out.a == orig.a
    &&& out.flags == orig.flags
    &&& (out.opcode == orig.opcode || (out.opcode == Opcode::Mov
        && (crate::ir::inst::is_alu(orig.opcode) || orig.opcode == Opcode::Shift)
        && orig.flags & FLAG_WRITES_NZCV == 0))
}

proof fn lemma_opt_inst_same_slot(consts: Seq<Option<u64>>, inst: IRInst)
    ensures
        same_slot(inst, opt_inst(consts, inst).inst),
{
}

proof fn lemma_opt_prefix_slots(insts: Seq<IRInst>, n: nat)
    requires
        n <= insts.len(),
    ensures
        opt_prefix(insts, n).out.len() == n,
        forall|i: int| 0 <= i < n ==> same_slot(insts[i], #[trigger] opt_prefix(insts, n).out[i]),
    decreases n,
{
    if n > 0 {
        lemma_opt_prefix_slots(insts, (n - 1) as nat);
        lemma_opt_inst_same_slot(opt_prefix(insts, (n - 1) as nat).consts, insts[n - 1]);
    }
}

/// The optimizer neither deletes nor reorders guest instructions: the output
/// has one instruction per input slot, with the slot's destination and
/// flags; an instruction changes only into a move, and only when it is an
/// ALU operation or a shift that does not write NZCV. So NZCV writers,
/// control flow and memory operations keep their opcodes.
pub proof fn lemma_optimize_keeps_slots(insts: Seq<IRInst>)
    ensures
        optimized(insts).len() == insts.len(),
        forall|i: int| 0 <= i < insts.len() ==> same_slot(insts[i], #[trigger] optimized(insts)[i]),
{
    lemma_opt_prefix_slots(insts, insts.len());
}

proof fn lemma_opt_prefix_counts(insts: Seq<IRInst>, n: nat)
    requires
        n <= insts.len(),
    ensures
        opt_prefix(insts, n).folded + opt_prefix(insts, n).simplified <= n,
        opt_prefix(insts, n).propagated <= 2 * n,
    decreases n,
{
    if n > 0 {
        lemma_opt_prefix_counts(insts, (n - 1) as nat);
    }
}

/// The counters after optimizing a block: each counts on from its value
/// before, saturating, by at most what the block allows: one fold or one
/// simplification per instruction, and one propagated constant per source
/// operand, two per instruction. No counter ever decreases.
pub proof fn lemma_optimizer_counts(insts: Seq<IRInst>, folded: u32, propagated: u32, simplified: u32)
    ensures
        opt_prefix(insts, insts.len()).folded + opt_prefix(insts, insts.len()).simplified <= insts.len(),
        opt_prefix(insts, insts.len()).propagated <= 2 * insts.len(),
        folded <= sat_count(folded, opt_prefix(insts, insts.len()).folded) <= folded + opt_prefix(insts, insts.len()).folded,
        propagated <= sat_count(propagated, opt_prefix(insts, insts.len()).propagated)
            <= propagated + opt_prefix(insts, insts.len()).propagated,
        simplified <= sat_count(simplified, opt_prefix(insts, insts.len()).simplified)
            <= simplified + opt_prefix(insts, insts.len()).simplified,
{
    lemma_opt_prefix_counts(insts, insts.len());
}

// ---------------------------------------------------------------------------
// What the pass preserves: the guest registers each instruction writes.

/// The value operand `op` reads from the general registers `regs`
/// (x0..x30), when it is a constant or a general or zero register.
pub open spec fn operand_value(regs: Seq<u64>, op: Operand) -> Option<u64> {
    match op {
        Operand::Imm(v) => Some(v),
        Operand::Reg(r) => if r.kind == RegKind::Zero {
            Some(0u64)
        } else if r.kind == RegKind::General {
            Some(mask_width_spec(regs[r.num as int], r.width))
        } else {
            None
        },
        _ => None,
    }
}

/// `regs` after writing `value` to destination `a` when it is a general
/// register.
pub open spec fn set_dest(regs: Seq<u64>, a: Operand, value: u64) -> Seq<u64> {
    match a {
        Operand::Reg(d) => if d.kind == RegKind::General { regs.update(d.num as int, value) } else { regs },
        _ => regs,
    }
}

pub open spec fn or_unknown(v: Option<u64>, unknown: u64) -> u64 {
    match v {
        Some(x) => x,
        None => unknown,
    }
}

/// The value an AArch64 data-processing operation `op` computes from `l`
/// and `r` in registers of width `width`: the operands are read in that
/// width and the result is zero-extended.
pub open spec fn a64_alu(op: Opcode, l: u64, r: u64, width: RegWidth) -> u64 {
    match width {
        RegWidth::W32 => {
            let a = l as u32;
            let b = r as u32;
            match op {
                Opcode::Add => ((a + b) % 0x1_0000_0000) as u64,
                Opcode::Sub => ((a + 0x1_0000_0000 - b) % 0x1_0000_0000) as u64,
                Opcode::And => (a & b) as u64,
                Opcode::Orr => (a | b) as u64,
                _ => (a ^ b) as u64,
            }
        },
        RegWidth::X64 => match op {
            Opcode::Add => ((l + r) % 0x1_0000_0000_0000_0000) as u64,
            Opcode::Sub => ((l + 0x1_0000_0000_0000_0000 - r) % 0x1_0000_0000_0000_0000) as u64,
            Opcode::And => l & r,
            Opcode::Orr => l | r,
            _ => l ^ r,
        },
    }
}

/// The value an AArch64 register shift (LSLV, LSRV, ASRV, RORV) computes
/// from `value` and `amount` in registers of width `width`: the amount is
/// taken modulo the width, and a rotation stays within the width.
pub open spec fn a64_shift(value: u64, amount: u64, kind: ShiftKind, width: RegWidth) -> u64 {
    match width {
        RegWidth::W32 => {
            let v = value as u32;
            let s = (amount % 32) as u32;
            let r: u32 = match kind {
                ShiftKind::Lsl => v << s,
                ShiftKind::Lsr => v >> s,
                ShiftKind::Asr => ((v as i32) >> s) as u32,
                ShiftKind::Ror => if s == 0 { v } else { (v >> s) | (v << ((32 - s) as u32)) },
            };
            r as u64
        },
        RegWidth::X64 => {
            let s = (amount % 64) as u32;
            match kind {
                ShiftKind::Lsl => value << s,
                ShiftKind::Lsr => value >> s,
                ShiftKind::Asr => ((value as i64) >> s) as u64,
                ShiftKind::Ror => if s == 0 { value } else { (value >> s) | (value << ((64 - s) as u32)) },
            }
        },
    }
}

/// The value a move writes, as wide as its destination.
pub open spec fn mov_value(regs: Seq<u64>, inst: IRInst) -> Option<u64> {
    match (inst.a, operand_value(regs, inst.b)) {
        (Operand::Reg(d), Some(v)) => Some(mask_width_spec(v, d.width)),
        _ => None,
    }
}

/// The value an ALU operation writes, carried out as wide as its destination.
pub open spec fn alu_value(regs: Seq<u64>, inst: IRInst) -> Option<u64> {
    match (inst.a, operand_value(regs, inst.b), operand_value(regs, inst.c)) {
        (Operand::Reg(d), Some(l), Some(r)) => Some(a64_alu(inst.opcode, l, r, d.width)),
        _ => None,
    }
}

/// The value a register shift writes.
pub open spec fn shift_value(regs: Seq<u64>, inst: IRInst) -> Option<u64> {
    match (inst.a, inst.c) {
        (Operand::Reg(d), Operand::ShiftReg { value, amount, kind }) => match (operand_value(regs, Operand::Reg(value)), operand_value(regs, Operand::Reg(amount))) {
            (Some(v), Some(a)) => Some(a64_shift(v, a, kind, d.width)),
            _ => None,
        },
        _ => None,
    }
}

/// The general registers after instruction `inst`, the `index`-th of its
/// block. Writes the model does not determine take their value from
/// `unknown(index, register)`: those of loads, of the other instructions
/// with a general register as destination, of operations on operands other
/// than constants and general or zero registers, and all registers after an
/// unsupported instruction.
pub open spec fn exec_inst(regs: Seq<u64>, inst: IRInst, unknown: spec_fn(int, int) -> u64, index: int) -> Seq<u64> {
    let dest_unknown = match inst.a {
        Operand::Reg(d) => unknown(index, d.num as int),
        _ => 0,
    };
    match inst.opcode {
        Opcode::Nop => regs,
        Opcode::Mov => set_dest(regs, inst.a, or_unknown(mov_value(regs, inst), dest_unknown)),
        Opcode::Add | Opcode::Sub | Opcode::And | Opcode::Orr | Opcode::Eor =>
            set_dest(regs, inst.a, or_unknown(alu_value(regs, inst), dest_unknown)),
        Opcode::Shift => set_dest(regs, inst.a, or_unknown(shift_value(regs, inst), dest_unknown)),
        Opcode::Unsupported => Seq::new(31, |j: int| unknown(index, j)),
        _ => set_dest(regs, inst.a, dest_unknown),
    }
}

/// The general registers after the first `n` instructions of `insts`.
pub open spec fn exec_block(regs: Seq<u64>, insts: Seq<IRInst>, unknown: spec_fn(int, int) -> u64, n: nat) -> Seq<u64>
    decreases n,
{
    if n == 0 {
        regs
    } else {
        exec_inst(exec_block(regs, insts, unknown, (n - 1) as nat), insts[n - 1], unknown, n - 1)
    }
}

/// An ALU instruction whose register operands are no wider than its
/// destination, as every instruction of an AArch64 program is.
pub open spec fn alu_well_typed(inst: IRInst) -> bool {
    crate::ir::inst::is_alu(inst.opcode) ==> match inst.a {
        Operand::Reg(d) => (reads_w32(inst.b) || reads_w32(inst.c)) ==> d.width == RegWidth::W32,
        _ => true,
    }
}

/// Every register value the pass holds as known is the register's value.
pub open spec fn consts_sound(consts: Seq<Option<u64>>, regs: Seq<u64>) -> bool {
    &&& consts.len() == 31
    &&& regs.len() == 31
    &&& forall|i: int| 0 <= i < 31 && (#[trigger] consts[i]) is Some ==> regs[i] == consts[i].unwrap()
}

proof fn lemma_mask_facts(v: u64, w: RegWidth)
    ensures
        mask_width_spec(mask_width_spec(v, w), w) == mask_width_spec(v, w),
        mask_width_spec(0, w) == 0,
{
    assert((v as u32 as u64) as u32 as u64 == v as u32 as u64) by (bit_vector);
    assert((0u64 as u32 as u64) == 0u64) by (bit_vector);
}

proof fn lemma_identity_value(op: Opcode, l: u64, r: u64, w: RegWidth)
    requires
        crate::ir::inst::is_alu(op),
        match (op, r) {
            (Opcode::Add, 0) => true,
            (Opcode::Sub, 0) => true,
            (Opcode::Orr, 0) => true,
            (Opcode::Eor, 0) => true,
            (Opcode::And, v) => mask_width_spec(v, w) == mask_width_spec(u64::MAX, w),
            _ => false,
        },
    ensures
        fold_binop_spec(op, l, r, w) == mask_width_spec(l, w),
{
    if op == Opcode::And {
        if w == RegWidth::W32 {
            let m: u64 = 0xFFFF_FFFF_FFFF_FFFFu64;
            assert(m as u32 as u64 == 0xFFFF_FFFFu64) by (bit_vector)
                requires
                    m == 0xFFFF_FFFF_FFFF_FFFFu64;
            assert(((l & r) as u32 as u64) == (l as u32 as u64)) by (bit_vector)
                requires
                    (r as u32 as u64) == 0xFFFF_FFFFu64;
        } else {
            assert(l & r == l) by (bit_vector)
                requires
                    r == 0xFFFF_FFFF_FFFF_FFFFu64;
        }
    } else if op == Opcode::Orr {
        assert(l | 0u64 == l) by (bit_vector);
    } else if op == Opcode::Eor {
        assert(l ^ 0u64 == l) by (bit_vector);
    }
}

/// Folding an ALU operation computes what AArch64 computes.
pub proof fn lemma_fold_binop_is_a64(op: Opcode, l: u64, r: u64, w: RegWidth)
    requires
        crate::ir::inst::is_alu(op),
    ensures
        fold_binop_spec(op, l, r, w) == a64_alu(op, l, r, w),
{
    let a = l as u32;
    let b = r as u32;
    if op == Opcode::Add {
        let sum = vstd::wrapping::u64_specs::wrapping_add(l, r);
        assert(sum == ((l + r) % 0x1_0000_0000_0000_0000) as u64);
        if w == RegWidth::W32 {
            assert(((l + r) % 0x1_0000_0000_0000_0000) as u64 as u32 as u64 == ((a + b) % 0x1_0000_0000) as u64) by (bit_vector)
                requires
                    a == l as u32,
                    b == r as u32,
            ;
        }
    } else if op == Opcode::Sub {
        let diff = vstd::wrapping::u64_specs::wrapping_sub(l, r);
        assert(diff == ((l + 0x1_0000_0000_0000_0000 - r) % 0x1_0000_0000_0000_0000) as u64);
        if w == RegWidth::W32 {
            assert(((l + 0x1_0000_0000_0000_0000 - r) % 0x1_0000_0000_0000_0000) as u64 as u32 as u64
                == ((a + 0x1_0000_0000 - b) % 0x1_0000_0000) as u64) by (bit_vector)
                requires
                    a == l as u32,
                    b == r as u32,
            ;
        }
    } else if w == RegWidth::W32 {
        assert((l & r) as u32 as u64 == (a & b) as u64 && (l | r) as u32 as u64 == (a | b) as u64
            && (l ^ r) as u32 as u64 == (a ^ b) as u64) by (bit_vector)
            requires
                a == l as u32,
                b == r as u32,
        ;
    }
}

/// Folding a register shift computes what AArch64 computes.
pub proof fn lemma_fold_shift_is_a64(value: u64, amount: u64, kind: ShiftKind, w: RegWidth)
    ensures
        fold_shift_spec(value, amount, kind, w) == a64_shift(value, amount, kind, w),
{
    if w == RegWidth::W32 {
        let v = value as u32;
        let m = value as u32 as u64;
        let sh = (amount as u32) & 31u32;
        let s = (amount % 32) as u32;
        assert(sh == s && s < 32) by (bit_vector)
            requires
                sh == (amount as u32) & 31u32,
                s == (amount % 32) as u32,
        ;
        assert(m as u32 as i32 == v as i32 && m == v as u64) by (bit_vector)
            requires
                m == value as u32 as u64,
                v == value as u32,
        ;
        assert((m << (s % 64)) as u32 as u64 == (v << s) as u64 && (m >> (s % 64)) as u32 as u64 == (v >> s) as u64)
            by (bit_vector)
            requires
                m == v as u64,
                s < 32,
        ;
        if s > 0 {
            assert(((m >> s) | (m << ((32 - s) as u32))) as u32 as u64 == ((v >> s) | (v << ((32 - s) as u32))) as u64)
                by (bit_vector)
                requires
                    m == v as u64,
                    0 < s < 32,
            ;
        }
        assert((((v as i32) >> s) as u32 as u64) as u32 as u64 == ((v as i32) >> s) as u32 as u64) by (bit_vector);
        assert((v as u64) as u32 as u64 == v as u64) by (bit_vector);
    } else {
        let sh = (amount as u32) & 63u32;
        let s = (amount % 64) as u32;
        assert(sh == s && s < 64) by (bit_vector)
            requires
                sh == (amount as u32) & 63u32,
                s == (amount % 64) as u32,
        ;
    }
}

/// Propagation keeps the value an operand reads, and a constant the pass
/// knows for it is that value.
proof fn lemma_rewrite_sound(consts: Seq<Option<u64>>, regs: Seq<u64>, op: Operand)
    requires
        consts_sound(consts, regs),
        operand_indexable(op),
    ensures
        operand_value(regs, rewritten(op, consts)) == operand_value(regs, op),
        constant_of(rewritten(op, consts), consts) is Some ==> constant_of(rewritten(op, consts), consts) == operand_value(regs, op),
        constant_of(op, consts) is Some ==> constant_of(op, consts) == operand_value(regs, op),
{
}

proof fn lemma_step_sound(consts: Seq<Option<u64>>, regs: Seq<u64>, orig: IRInst, unknown: spec_fn(int, int) -> u64, index: int)
    requires
        consts_sound(consts, regs),
        inst_indexable(orig),
        alu_well_typed(orig),
    ensures
        exec_inst(regs, opt_inst(consts, orig).inst, unknown, index) == exec_inst(regs, orig, unknown, index),
        consts_sound(opt_inst(consts, orig).consts, exec_inst(regs, orig, unknown, index)),
{
    lemma_rewrite_sound(consts, regs, orig.b);
    lemma_rewrite_sound(consts, regs, orig.c);
    let inst = if computes(orig.opcode) {
        IRInst { opcode: orig.opcode, flags: orig.flags, a: orig.a, b: rewritten(orig.b, consts), c: rewritten(orig.c, consts) }
    } else {
        orig
    };
    let narrow = reads_w32(orig.b) || reads_w32(orig.c);
    let out = opt_inst(consts, orig);
    assert(out.inst == effect(consts, inst, narrow).inst);
    assert(out.consts == effect(consts, inst, narrow).consts);
    let next = exec_inst(regs, orig, unknown, index);
    match orig.a {
        Operand::Reg(d) => {
            lemma_mask_facts(0, d.width);
            match operand_value(regs, orig.b) {
                Some(v) => lemma_mask_facts(v, d.width),
                None => {},
            }
            if crate::ir::inst::is_alu(orig.opcode) && d.kind == RegKind::General {
                assert(alu_width(d, narrow) == d.width);
                match (constant_of(inst.b, consts), constant_of(inst.c, consts)) {
                    (Some(l), Some(r)) => {
                        lemma_mask_facts(fold_binop_spec(orig.opcode, l, r, d.width), d.width);
                        lemma_fold_binop_is_a64(orig.opcode, l, r, d.width);
                    },
                    _ => {
                        if identity_simplified(inst, d.width) is Some {
                            match (operand_value(regs, orig.b), operand_value(regs, orig.c)) {
                                (Some(l), Some(r)) => {
                                    lemma_identity_value(orig.opcode, l, r, d.width);
                                    lemma_fold_binop_is_a64(orig.opcode, l, r, d.width);
                                },
                                _ => {},
                            }
                        }
                    },
                }
            }
            if orig.opcode == Opcode::Shift && d.kind == RegKind::General {
                if let Operand::ShiftReg { value, amount, kind } = orig.c {
                    lemma_rewrite_sound(consts, regs, Operand::Reg(value));
                    lemma_rewrite_sound(consts, regs, Operand::Reg(amount));
                    match (constant_of(Operand::Reg(value), consts), constant_of(Operand::Reg(amount), consts)) {
                        (Some(v), Some(a)) => {
                            lemma_mask_facts(fold_shift_spec(v, a, kind, d.width), d.width);
                            lemma_fold_shift_is_a64(v, a, kind, d.width);
                        },
                        _ => {},
                    }
                }
            }
        },
        _ => {},
    }
    assert(consts_sound(out.consts, next));
}

proof fn lemma_block_sound(insts: Seq<IRInst>, regs: Seq<u64>, unknown: spec_fn(int, int) -> u64, n: nat)
    requires
        n <= insts.len(),
        regs.len() == 31,
        forall|i: int| 0 <= i < insts.len() ==> inst_indexable(#[trigger] insts[i]) && alu_well_typed(insts[i]),
    ensures
        consts_sound(opt_prefix(insts, n).consts, exec_block(regs, insts, unknown, n)),
        opt_prefix(insts, n).out.len() == n,
        exec_block(regs, opt_prefix(insts, n).out, unknown, n) == exec_block(regs, insts, unknown, n),
    decreases n,
{
    if n == 0 {
        assert(consts_sound(no_constants(), regs));
    } else {
        lemma_block_sound(insts, regs, unknown, (n - 1) as nat);
        let prev = opt_prefix(insts, (n - 1) as nat);
        let before = exec_block(regs, insts, unknown, (n - 1) as nat);
        lemma_step_sound(prev.consts, before, insts[n - 1], unknown, n - 1);
        let out = opt_prefix(insts, n).out;
        assert(out.subrange(0, n - 1) =~= prev.out);
        lemma_exec_prefix(regs, out, prev.out, unknown, (n - 1) as nat);
    }
}

/// Executing a block depends only on its instructions so far.
proof fn lemma_exec_prefix(regs: Seq<u64>, a: Seq<IRInst>, b: Seq<IRInst>, unknown: spec_fn(int, int) -> u64, n: nat)
    requires
        n <= a.len(),
        n <= b.len(),
        forall|i: int| 0 <= i < n ==> a[i] == b[i],
    ensures
        exec_block(regs, a, unknown, n) == exec_block(regs, b, unknown, n),
    decreases n,
{
    if n > 0 {
        lemma_exec_prefix(regs, a, b, unknown, (n - 1) as nat);
    }
}

/// The optimizer replaces operations only by equivalent moves: for every
/// starting value of the general registers, the optimized block leaves the
/// same values in them as the original block, instruction by instruction,
/// when every ALU operation is as wide as the registers it reads (the
/// values that no instruction determines being the same in both runs).
pub proof fn lemma_optimize_preserves_registers(insts: Seq<IRInst>, regs: Seq<u64>, unknown: spec_fn(int, int) -> u64, n: nat)
    requires
        n <= insts.len(),
        regs.len() == 31,
        forall|i: int| 0 <= i < insts.len() ==> inst_indexable(#[trigger] insts[i]) && alu_well_typed(insts[i]),
    ensures
        exec_block(regs, optimized(insts), unknown, n) == exec_block(regs, insts, unknown, n),
{
    lemma_block_sound(insts, regs, unknown, n);
    lemma_block_sound(insts, regs, unknown, insts.len());
    lemma_opt_prefix_slots(insts, insts.len());
    let full = optimized(insts);
    let part = opt_prefix(insts, n).out;
    lemma_opt_prefix_extends(insts, n, insts.len());
    lemma_exec_prefix(regs, full, part, unknown, n);
}

/// Instructions that compute no register value (memory accesses, branches
/// and the like) come out of the pass unchanged. An instruction that keeps
/// its opcode, every NZCV writer among them, reads the same operand values
/// as before, in the general registers the original block holds at its
/// slot (which the optimized block holds too, by
/// `lemma_optimize_preserves_registers`): so the flags it sets, and the
/// registers and memory it writes, are the same.
pub proof fn lemma_optimize_keeps_operands(insts: Seq<IRInst>, regs: Seq<u64>, unknown: spec_fn(int, int) -> u64, i: int)
    requires
        0 <= i < insts.len(),
        regs.len() == 31,
        forall|j: int| 0 <= j < insts.len() ==> inst_indexable(#[trigger] insts[j]) && alu_well_typed(insts[j]),
    ensures
        !computes(insts[i].opcode) ==> optimized(insts)[i] == insts[i],
        insts[i].flags & FLAG_WRITES_NZCV != 0 ==> optimized(insts)[i].opcode == insts[i].opcode,
        optimized(insts)[i].opcode == insts[i].opcode ==> {
            let before = exec_block(regs, insts, unknown, i as nat);
            &&& operand_value(before, optimized(insts)[i].b) == operand_value(before, insts[i].b)
            &&& operand_value(before, optimized(insts)[i].c) == operand_value(before, insts[i].c)
        },
{
    lemma_block_sound(insts, regs, unknown, i as nat);
    lemma_opt_prefix_extends(insts, (i + 1) as nat, insts.len());
    lemma_opt_prefix_slots(insts, insts.len());
    let consts = opt_prefix(insts, i as nat).consts;
    let before = exec_block(regs, insts, unknown, i as nat);
    let orig = insts[i];
    assert(optimized(insts)[i] == opt_inst(consts, orig).inst);
    lemma_rewrite_sound(consts, before, orig.b);
    lemma_rewrite_sound(consts, before, orig.c);
    assert(same_slot(orig, optimized(insts)[i]));
}

/// The number of slots among the first `n` whose opcode differs between
/// `orig` and `out`.
pub open spec fn changed_slots(orig: Seq<IRInst>, out: Seq<IRInst>, n: nat) -> nat
    decreases n,
{
    if n == 0 {
        0
    } else {
        changed_slots(orig, out, (n - 1) as nat) + (if out[n - 1].opcode != orig[n - 1].opcode { 1nat } else { 0nat })
    }
}

proof fn lemma_changed_slots_prefix(orig: Seq<IRInst>, a: Seq<IRInst>, b: Seq<IRInst>, n: nat)
    requires
        n <= a.len(),
        n <= b.len(),
        forall|i: int| 0 <= i < n ==> a[i] == b[i],
    ensures
        changed_slots(orig, a, n) == changed_slots(orig, b, n),
    decreases n,
{
    if n > 0 {
        lemma_changed_slots_prefix(orig, a, b, (n - 1) as nat);
    }
}

proof fn lemma_opt_prefix_changed(insts: Seq<IRInst>, n: nat)
    requires
        n <= insts.len(),
    ensures
        opt_prefix(insts, n).folded + opt_prefix(insts, n).simplified == changed_slots(insts, opt_prefix(insts, n).out, n),
    decreases n,
{
    if n > 0 {
        lemma_opt_prefix_changed(insts, (n - 1) as nat);
        lemma_opt_prefix_slots(insts, (n - 1) as nat);
        let prev = opt_prefix(insts, (n - 1) as nat);
        let out = opt_prefix(insts, n).out;
        lemma_changed_slots_prefix(insts, out, prev.out, (n - 1) as nat);
        let st = opt_inst(prev.consts, insts[n - 1]);
        assert(st.folded + st.simplified == (if st.inst.opcode != insts[n - 1].opcode { 1nat } else { 0nat }));
    }
}

/// Each fold and each simplification rewrites exactly one instruction into
/// a move: together they count the slots whose opcode the pass changed; and
/// while a counter does not saturate it grows by exactly its count.
pub proof fn lemma_optimizer_counts_changed_slots(insts: Seq<IRInst>, folded: u32, simplified: u32)
    ensures
        opt_prefix(insts, insts.len()).folded + opt_prefix(insts, insts.len()).simplified
            == changed_slots(insts, optimized(insts), insts.len()),
        folded + opt_prefix(insts, insts.len()).folded <= u32::MAX
            ==> sat_count(folded, opt_prefix(insts, insts.len()).folded) == folded + opt_prefix(insts, insts.len()).folded,
        simplified + opt_prefix(insts, insts.len()).simplified <= u32::MAX
            ==> sat_count(simplified, opt_prefix(insts, insts.len()).simplified) == simplified + opt_prefix(insts, insts.len()).simplified,
{
    lemma_opt_prefix_changed(insts, insts.len());
}

proof fn lemma_opt_prefix_extends(insts: Seq<IRInst>, n: nat, m: nat)
    requires
        n <= m,
        m <= insts.len(),
    ensures
        opt_prefix(insts, n).out.len() == n,
        opt_prefix(insts, m).out.len() == m,
        forall|i: int| 0 <= i < n ==> opt_prefix(insts, m).out[i] == opt_prefix(insts, n).out[i],
    decreases m - n,
{
    lemma_opt_prefix_slots(insts, n);
    lemma_opt_prefix_slots(insts, m);
    if n < m {
        lemma_opt_prefix_extends(insts, n, (m - 1) as nat);
        lemma_opt_prefix_slots(insts, (m - 1) as nat);
    }
}

} // verus!
