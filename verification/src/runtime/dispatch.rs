use vstd::prelude::*;

use crate::codegen::{CodeBuffer, CodegenError, EmitEnd};
use crate::ir::{Block, IRInst, Opcode};
use crate::lift::lift_block_at;

verus! {

/// Why a guest block could not be translated.
#[derive(Debug, Clone, Copy, PartialEq, Eq, Structural)]
pub enum TranslateError {
    /// The block holds an instruction the lifter does not support.
    Unsupported { guest_pc: u64 },
    /// Code generation rejected an instruction of the block.
    Codegen { guest_pc: u64, error: CodegenError },
    /// A guest address of the block's exits does not fit in 64 bits.
    AddressOverflow { guest_pc: u64 },
}

/// A translated block: the guest instructions it covers and its x86-64 code.
#[derive(Debug)]
pub struct Translation {
    pub consumed: usize,
    pub code: Vec<u8>,
}

pub open spec fn has_unsupported(insts: Seq<IRInst>) -> bool {
    exists|i: int| 0 <= i < insts.len() && #[trigger] insts[i].opcode == Opcode::Unsupported
}

/// The IR of the guest block at `guest_pc` made of `words`.
pub open spec fn block_ir(words: Seq<u32>) -> Seq<IRInst> {
    crate::lift::block::lifted_block(words)
}

/// The emission of the guest block at `guest_pc` made of `words`.
pub open spec fn block_emission(guest_pc: u64, words: Seq<u32>) -> (Seq<u8>, EmitEnd) {
    crate::codegen::x86_64::block_code(guest_pc, block_ir(words), crate::ir::block::span_after(0, block_ir(words).len()))
}

/// Lifts the guest block at `guest_pc` from `words` and generates its code.
pub fn translate_block(guest_pc: u64, words: &[u32]) -> (r: Result<Translation, TranslateError>)
    ensures
        has_unsupported(block_ir(words@)) ==> r == Err::<Translation, TranslateError>(TranslateError::Unsupported { guest_pc }),
        !has_unsupported(block_ir(words@)) ==> match block_emission(guest_pc, words@).1 {
            EmitEnd::Fault => r == Err::<Translation, TranslateError>(TranslateError::AddressOverflow { guest_pc }),
            EmitEnd::Failed(error) => r == Err::<Translation, TranslateError>(TranslateError::Codegen { guest_pc, error }),
            EmitEnd::Finished => r matches Ok(t) && t.consumed == block_ir(words@).len()
                && t.code@ == block_emission(guest_pc, words@).0,
        },
{
    let mut block = Block::at(guest_pc);
    let consumed = lift_block_at(words, guest_pc, &mut block);
    assert(block.instructions() =~= block_ir(words@));
    let n = block.insts().len();
    let mut i: usize = 0;
    while i < n
        invariant
            n == block.instructions().len(),
            block.instructions() == block_ir(words@),
            i <= n,
            forall|j: int| 0 <= j < i ==> block.instructions()[j].opcode != Opcode::Unsupported,
        decreases n - i,
    {
        if block.insts()[i].opcode == Opcode::Unsupported {
            assert(has_unsupported(block_ir(words@)));
            return Err(TranslateError::Unsupported { guest_pc });
        }
        i = i + 1;
    }
    if crate::codegen::x86_64::emit_faults(&block) {
        return Err(TranslateError::AddressOverflow { guest_pc });
    }
    let mut buffer = CodeBuffer::new();
    match buffer.emit_block(&block) {
        Ok(()) => Ok(Translation { consumed, code: buffer.bytes }),
        Err(error) => Err(TranslateError::Codegen { guest_pc, error }),
    }
}

/// Why a dispatcher run stopped other than at an untranslated guest PC.
#[derive(Debug, Clone, Copy, PartialEq, Eq, Structural)]
pub enum RunError {
    /// The run started at a PC with no translated block.
    NoBlock { pc: u64 },
    /// The run executed its whole budget of blocks.
    BudgetExhausted,
}

/// What the dispatcher does next.
#[derive(Debug, Clone, Copy, PartialEq, Eq, Structural)]
pub enum RunAction {
    /// Execute the translated block at `pc`.
    Execute { pc: u64 },
    /// Stop the run with this error.
    Fail(RunError),
}

/// The budget of a dispatcher run: how many more blocks it may execute.
#[derive(Debug, Clone, Copy)]
pub struct DispatchRun {
    pub remaining: usize,
}

impl DispatchRun {
    /// A run of at most `max_blocks` blocks.
    pub fn new(max_blocks: usize) -> (r: Self)
        ensures
            r.remaining == max_blocks,
    {
        DispatchRun { remaining: max_blocks }
    }
}

/// The translated blocks of a dispatcher, by guest PC: the slot that holds
/// each block's code, and the block's hit count.
#[verifier::external_body]
pub struct BlockTable {
    map: hashbrown::HashMap<u64, (usize, u32)>,
}

/// What `table` holds: for each guest PC with a block, its code slot and its
/// hit count.
pub uninterp spec fn table_entries(table: BlockTable) -> Map<u64, (usize, u32)>;

impl BlockTable {
    /// `hashbrown::HashMap::new`: a table with no entries.
    #[verifier::external_body]
    pub(crate) fn new() -> (t: Self)
        ensures
            table_entries(t).dom() == Set::<u64>::empty(),
    {
        BlockTable { map: hashbrown::HashMap::new() }
    }

    /// `hashbrown::HashMap::get`, copied out: the entry at `pc`, if any.
    #[verifier::external_body]
    pub(crate) fn get(&self, pc: u64) -> (r: Option<(usize, u32)>)
        ensures
            r == (if table_entries(*self).dom().contains(pc) { Some(table_entries(*self)[pc]) } else { None }),
    {
        self.map.get(&pc).copied()
    }

    /// `hashbrown::HashMap::insert`: the table with `entry` at `pc`, in place
    /// of what was there before.
    #[verifier::external_body]
    pub(crate) fn insert(&mut self, pc: u64, entry: (usize, u32))
        ensures
            table_entries(*final(self)) == table_entries(*old(self)).insert(pc, entry),
    {
        self.map.insert(pc, entry);
    }

    /// `hashbrown::HashMap::len`: the number of entries.
    #[verifier::external_body]
    pub(crate) fn len(&self) -> (r: usize)
        ensures
            r == table_entries(*self).len(),
    {
        self.map.len()
    }
}

/// Block-first JIT dispatcher: the translated blocks by guest PC, each with
/// its code (of type `C`, an executable mapping where blocks run natively)
/// and its hit count. Native blocks return to the dispatcher after updating
/// the guest PC.
pub struct Dispatcher<C> {
    blocks: BlockTable,
    codes: Vec<C>,
    pub blocks_executed: u64,
}

impl<C> Dispatcher<C> {
    /// The table is finite, and each block has a slot of its own.
    pub closed spec fn wf(&self) -> bool {
        let entries = table_entries(self.blocks);
        &&& entries.dom().finite()
        &&& forall|pc: u64| #[trigger] entries.dom().contains(pc) ==> entries[pc].0 < self.codes@.len()
        &&& forall|p: u64, q: u64|
            #![trigger entries.dom().contains(p), entries.dom().contains(q)]
            entries.dom().contains(p) && entries.dom().contains(q) && p != q ==> entries[p].0 != entries[q].0
    }

    /// A well-formed dispatcher holds finitely many blocks.
    pub proof fn lemma_finitely_many_blocks(&self)
        requires
            self.wf(),
        ensures
            self.hits().dom().finite(),
    {
        assert(self.hits().dom() =~= table_entries(self.blocks).dom());
    }

    /// The guest PCs with a translated block, each with its hit count.
    pub closed spec fn hits(&self) -> Map<u64, u32> {
        table_entries(self.blocks).map_values(|e: (usize, u32)| e.1)
    }

    /// The number of blocks executed so far, wrapping.
    pub closed spec fn executed(&self) -> u64 {
        self.blocks_executed
    }

    /// The code of the block at guest PC `pc`.
    pub closed spec fn code_at(&self, pc: u64) -> C {
        self.codes@[table_entries(self.blocks)[pc].0 as int]
    }

    pub fn new() -> (d: Self)
        ensures
            d.wf(),
            d.hits().dom().finite(),
            d.hits() == Map::<u64, u32>::empty(),
            d.executed() == 0,
    {
        let d = Dispatcher { blocks: BlockTable::new(), codes: Vec::new(), blocks_executed: 0 };
        assert(d.hits() =~= Map::<u64, u32>::empty());
        d
    }

    pub fn has_block(&self, guest_pc: u64) -> (r: bool)
        ensures
            r == self.hits().dom().contains(guest_pc),
    {
        self.blocks.get(guest_pc).is_some()
    }

    pub fn block_count(&self) -> (r: usize)
        ensures
            r == self.hits().len(),
    {
        assert(self.hits().dom() =~= table_entries(self.blocks).dom());
        self.blocks.len()
    }

    /// The hit count of the block at `guest_pc`, and 0 where there is none.
    pub fn hit_count(&self, guest_pc: u64) -> (r: u32)
        ensures
            r == (if self.hits().dom().contains(guest_pc) { self.hits()[guest_pc] } else { 0 }),
    {
        match self.blocks.get(guest_pc) {
            Some(entry) => entry.1,
            None => 0,
        }
    }

    /// The code of the block at `guest_pc`, if there is one.
    pub fn code(&self, guest_pc: u64) -> (r: Option<&C>)
        requires
            self.wf(),
        ensures
            self.hits().dom().contains(guest_pc) ==> (r matches Some(c) && *c == self.code_at(guest_pc)),
            !self.hits().dom().contains(guest_pc) ==> r is None,
    {
        match self.blocks.get(guest_pc) {
            Some(entry) => Some(&self.codes[entry.0]),
            None => None,
        }
    }

    /// Installs `code` as the block at `guest_pc` with no hits yet, in place
    /// of a block that was there.
    pub fn insert_block(&mut self, guest_pc: u64, code: C)
        requires
            old(self).wf(),
        ensures
            final(self).wf(),
            final(self).hits().dom().finite(),
            final(self).hits() == old(self).hits().insert(guest_pc, 0),
            final(self).hits().len() == old(self).hits().len() + (if old(self).hits().dom().contains(guest_pc) { 0int } else { 1int }),
            final(self).code_at(guest_pc) == code,
            forall|pc: u64| pc != guest_pc && #[trigger] old(self).hits().dom().contains(pc)
                ==> final(self).code_at(pc) == old(self).code_at(pc),
            final(self).executed() == old(self).executed(),
    {
        let ghost before = table_entries(self.blocks);
        match self.blocks.get(guest_pc) {
            Some(entry) => {
                let slot = entry.0;
                self.codes[slot] = code;
                self.blocks.insert(guest_pc, (slot, 0));
            },
            None => {
                let slot = self.codes.len();
                self.codes.push(code);
                self.blocks.insert(guest_pc, (slot, 0));
            },
        }
        proof {
            let after = table_entries(self.blocks);
            assert(after.dom() =~= before.dom().insert(guest_pc));
            assert(self.hits() =~= old(self).hits().insert(guest_pc, 0));
            self.lemma_finitely_many_blocks();
            old(self).lemma_finitely_many_blocks();
            assert(self.hits().dom() =~= old(self).hits().dom().insert(guest_pc));
        }
    }

    /// The next step of a run that stands at guest PC `pc`: it fails when its
    /// budget is spent or no block is at `pc`; otherwise it executes the
    /// block there, which counts one more block executed and one more hit.
    pub fn next_step(&mut self, run: &mut DispatchRun, pc: u64) -> (a: RunAction)
        requires
            old(self).wf(),
        ensures
            final(self).wf(),
            final(self).hits().dom().finite(),
            old(run).remaining == 0 ==> a == RunAction::Fail((RunError::BudgetExhausted))
                && *final(self) == *old(self) && *final(run) == *old(run),
            old(run).remaining > 0 && !old(self).hits().dom().contains(pc) ==> a == RunAction::Fail((RunError::NoBlock { pc }))
                && *final(self) == *old(self) && *final(run) == *old(run),
            old(run).remaining > 0 && old(self).hits().dom().contains(pc) ==> a == (RunAction::Execute { pc })
                && final(run).remaining == old(run).remaining - 1
                && final(self).executed() == vstd::wrapping::u64_specs::wrapping_add(old(self).executed(), 1)
                && final(self).hits() == old(self).hits().insert(pc, count_hit_spec(old(self).hits()[pc]))
                && forall|q: u64| #[trigger] old(self).hits().dom().contains(q) ==> final(self).code_at(q) == old(self).code_at(q),
    {
        proof {
            self.lemma_finitely_many_blocks();
        }
        if run.remaining == 0 {
            return RunAction::Fail((RunError::BudgetExhausted));
        }
        match self.blocks.get(pc) {
            None => RunAction::Fail((RunError::NoBlock { pc })),
            Some(entry) => {
                let ghost before = table_entries(self.blocks);
                run.remaining = run.remaining - 1;
                self.blocks_executed = self.blocks_executed.wrapping_add(1);
                self.blocks.insert(pc, (entry.0, count_hit(entry.1)));
                proof {
                    let after = table_entries(self.blocks);
                    assert(after.dom() =~= before.dom());
                    assert(self.hits() =~= old(self).hits().insert(pc, count_hit_spec(old(self).hits()[pc])));
                    self.lemma_finitely_many_blocks();
                }
                RunAction::Execute { pc }
            },
        }
    }

    /// After a block executed and left the guest at `pc`: the run ends there
    /// when no translated block is at `pc`.
    pub fn after_block(&self, pc: u64) -> (r: Option<u64>)
        ensures
            r == (if self.hits().dom().contains(pc) { None } else { Some(pc) }),
    {
        if self.has_block(pc) {
            None
        } else {
            Some(pc)
        }
    }
}

impl<C> Default for Dispatcher<C> {
    fn default() -> (d: Self)
        ensures
            d.wf(),
            d.hits().dom().finite(),
            d.hits() == Map::<u64, u32>::empty(),
            d.executed() == 0,
    {
        Self::new()
    }
}

/// The hit count of a block after one more execution; it saturates.
pub open spec fn count_hit_spec(hits: u32) -> u32 {
    if hits == u32::MAX { u32::MAX } else { (hits + 1) as u32 }
}

/// The hit count of a block after one more execution; it saturates.
pub fn count_hit(hits: u32) -> (r: u32)
    ensures
        r == count_hit_spec(hits),
{
    hits.saturating_add(1)
}

} // verus!
