use vstd::prelude::*;

use super::IRInst;

verus! {

/// A single guest basic block represented in ARMx64 IR.
#[derive(Debug)]
pub struct Block {
    guest_pc: u64,
    insts: Vec<IRInst>,
    hit_count: u32,
    /// Guest byte span represented by this block. This is independent of the
    /// number of optimized IR instructions so compiler passes cannot corrupt
    /// the architectural fall-through PC by deleting or folding IR. Only
    /// `push` grows it.
    guest_byte_len: u64,
}

/// Four guest bytes added to a span, saturating at `u64::MAX`.
pub open spec fn grow_span(len: u64) -> u64 {
    if len + 4 > u64::MAX { u64::MAX } else { (len + 4) as u64 }
}

/// The span after `n` guest instructions were added to a span of `len` bytes.
pub open spec fn span_after(len: u64, n: nat) -> u64 {
    if len + 4 * n > u64::MAX { u64::MAX } else { (len + 4 * n) as u64 }
}

impl Block {
    /// The guest byte span covered by this block.
    pub closed spec fn span(&self) -> u64 {
        self.guest_byte_len
    }

    /// The guest PC of the block's first instruction.
    pub closed spec fn pc(&self) -> u64 {
        self.guest_pc
    }

    /// The block's IR instructions.
    pub closed spec fn instructions(&self) -> Seq<IRInst> {
        self.insts@
    }

    /// The block's hit count.
    pub closed spec fn hits(&self) -> u32 {
        self.hit_count
    }

    /// The block's IR instructions.
    pub fn insts(&self) -> (r: &Vec<IRInst>)
        ensures
            r@ == self.instructions(),
    {
        &self.insts
    }

    /// The guest PC of the block's first instruction.
    pub fn guest_pc(&self) -> (r: u64)
        ensures
            r == self.pc(),
    {
        self.guest_pc
    }

    /// The block's hit count.
    pub fn hit_count(&self) -> (r: u32)
        ensures
            r == self.hits(),
    {
        self.hit_count
    }

    /// Sets the guest PC of the block's first instruction.
    pub(crate) fn set_guest_pc(&mut self, guest_pc: u64)
        ensures
            final(self).pc() == guest_pc,
            final(self).instructions() == old(self).instructions(),
            final(self).hits() == old(self).hits(),
            final(self).span() == old(self).span(),
    {
        self.guest_pc = guest_pc;
    }

    /// Puts `insts` in place of the block's instructions; the guest span
    /// stays.
    pub(crate) fn replace_insts(&mut self, insts: Vec<IRInst>)
        ensures
            final(self).instructions() == insts@,
            final(self).pc() == old(self).pc(),
            final(self).hits() == old(self).hits(),
            final(self).span() == old(self).span(),
    {
        self.insts = insts;
    }

    /// Puts `inst` in place of instruction `index`; the guest span stays.
    pub(crate) fn set_inst(&mut self, index: usize, inst: IRInst)
        requires
            index < old(self).instructions().len(),
        ensures
            final(self).instructions() == old(self).instructions().update(index as int, inst),
            final(self).pc() == old(self).pc(),
            final(self).hits() == old(self).hits(),
            final(self).span() == old(self).span(),
    {
        self.insts.set(index, inst);
    }

    pub fn new() -> (r: Self)
        ensures
            r.pc() == 0,
            r.instructions() == Seq::<IRInst>::empty(),
            r.hits() == 0,
            r.span() == 0,
    {
        Self::default()
    }

    pub fn at(guest_pc: u64) -> (r: Self)
        ensures
            r.pc() == guest_pc,
            r.instructions() == Seq::<IRInst>::empty(),
            r.hits() == 0,
            r.span() == 0,
    {
        Block { guest_pc, insts: Vec::new(), hit_count: 0, guest_byte_len: 0 }
    }

    /// Appends one IR instruction standing for one 4-byte guest instruction.
    pub fn push(&mut self, inst: IRInst)
        ensures
            final(self).instructions() == old(self).instructions().push(inst),
            final(self).pc() == old(self).pc(),
            final(self).hits() == old(self).hits(),
            final(self).span() == grow_span(old(self).span()),
    {
        self.insts.push(inst);
        self.guest_byte_len = self.guest_byte_len.saturating_add(4);
    }

    pub fn byte_len(&self) -> (r: u64)
        ensures
            r == self.span(),
    {
        self.guest_byte_len
    }
}

impl Default for Block {
    fn default() -> (r: Self)
        ensures
            r.pc() == 0,
            r.instructions() == Seq::<IRInst>::empty(),
            r.hits() == 0,
            r.span() == 0,
    {
        Block { guest_pc: 0, insts: Vec::new(), hit_count: 0, guest_byte_len: 0 }
    }
}

} // verus!
