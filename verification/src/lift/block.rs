use vstd::prelude::*;

use crate::arch::aarch64::{self, A64DecodeError, A64Decoded, A64Inst, A64Opcode};
use crate::ir::{Block, IRInst};

use super::{lift_decoded, lift_one};

verus! {

/// Guest instructions that end a basic block: branches, calls and returns.
pub open spec fn is_terminal_opcode(opcode: A64Opcode) -> bool {
    match opcode {
        A64Opcode::B | A64Opcode::Br | A64Opcode::Bcc(_) | A64Opcode::Bl | A64Opcode::Blr
        | A64Opcode::Cbz | A64Opcode::Cbnz | A64Opcode::Ret => true,
        _ => false,
    }
}

/// A guest instruction ends its block when it is a terminal one or when it
/// cannot be decoded.
pub open spec fn ends_block(decoded: Result<A64Decoded, A64DecodeError>) -> bool {
    match decoded {
        Ok(d) => is_terminal_opcode(d.opcode),
        Err(_) => true,
    }
}

/// The IR lifted from the first `n` words, and whether the block ended
/// among them.
pub open spec fn lift_prefix(words: Seq<u32>, n: nat) -> (Seq<IRInst>, bool)
    decreases n,
{
    if n == 0 {
        (Seq::empty(), false)
    } else {
        let prev = lift_prefix(words, (n - 1) as nat);
        if prev.1 {
            prev
        } else {
            let inst = A64Inst(words[n - 1]);
            let d = aarch64::decode_of(inst);
            (prev.0.push(super::lifted(inst, d)), ends_block(d))
        }
    }
}

/// The IR lifted from the guest block starting at `words[0]`: every word up
/// to and including the first that ends the block.
pub open spec fn lifted_block(words: Seq<u32>) -> Seq<IRInst> {
    lift_prefix(words, words.len()).0
}

proof fn lemma_lift_prefix_ended(words: Seq<u32>, n: nat, m: nat)
    requires
        n <= m,
        lift_prefix(words, n).1,
    ensures
        lift_prefix(words, m) == lift_prefix(words, n),
    decreases m - n,
{
    if n < m {
        lemma_lift_prefix_ended(words, n, (m - 1) as nat);
    }
}

proof fn lemma_lift_prefix_len(words: Seq<u32>, n: nat)
    ensures
        lift_prefix(words, n).0.len() <= n,
    decreases n,
{
    if n > 0 {
        lemma_lift_prefix_len(words, (n - 1) as nat);
    }
}

proof fn lemma_lift_prefix_shape(words: Seq<u32>, n: nat)
    requires
        n <= words.len(),
    ensures
        lift_prefix(words, n).0.len() <= n,
        forall|i: int| 0 <= i < lift_prefix(words, n).0.len() ==> #[trigger] lift_prefix(words, n).0[i]
            == super::lifted(A64Inst(words[i]), aarch64::decode_of(A64Inst(words[i]))),
        forall|i: int| 0 <= i < lift_prefix(words, n).0.len() - 1 ==> !ends_block(#[trigger] aarch64::decode_of(A64Inst(words[i]))),
        lift_prefix(words, n).1 <==> (lift_prefix(words, n).0.len() > 0
            && ends_block(aarch64::decode_of(A64Inst(words[lift_prefix(words, n).0.len() - 1])))),
        !lift_prefix(words, n).1 ==> lift_prefix(words, n).0.len() == n,
    decreases n,
{
    if n > 0 {
        lemma_lift_prefix_shape(words, (n - 1) as nat);
    }
}

/// A lifted guest block is a prefix of the words, one IR instruction per
/// word: no word before its last one ends a block, and when it stops short of
/// the words its last word is a branch, call, return or undecodable word.
pub proof fn lemma_lifted_block_stops_at_exit(words: Seq<u32>)
    ensures
        lifted_block(words).len() <= words.len(),
        forall|i: int| 0 <= i < lifted_block(words).len() ==> #[trigger] lifted_block(words)[i]
            == super::lifted(A64Inst(words[i]), aarch64::decode_of(A64Inst(words[i]))),
        forall|i: int| 0 <= i < lifted_block(words).len() - 1 ==> !ends_block(#[trigger] aarch64::decode_of(A64Inst(words[i]))),
        lifted_block(words).len() < words.len() ==> lifted_block(words).len() > 0
            && ends_block(aarch64::decode_of(A64Inst(words[lifted_block(words).len() - 1]))),
{
    lemma_lift_prefix_shape(words, words.len());
}

/// A lifted block ends at its first control transfer: no word before its
/// last decodes to a branch (B, BR, B.cond, CBZ, CBNZ), a call (BL, BLR) or
/// a return (RET), nor fails to decode; and where it stops short of the
/// words, its last word is such a transfer or fails to decode.
pub proof fn lemma_block_ends_at_first_transfer(words: Seq<u32>)
    ensures
        ({
            let n = lifted_block(words).len();
            &&& n <= words.len()
            &&& forall|i: int| 0 <= i < n - 1 ==> (#[trigger] aarch64::decode_of(A64Inst(words[i])) matches Ok(d)
                && d.opcode != A64Opcode::B && d.opcode != A64Opcode::Br && !(d.opcode is Bcc)
                && d.opcode != A64Opcode::Cbz && d.opcode != A64Opcode::Cbnz
                && d.opcode != A64Opcode::Bl && d.opcode != A64Opcode::Blr && d.opcode != A64Opcode::Ret)
            &&& n < words.len() ==> n > 0 && (aarch64::decode_of(A64Inst(words[n - 1])) matches Ok(d) ==> (
                d.opcode == A64Opcode::B || d.opcode == A64Opcode::Br || d.opcode is Bcc
                || d.opcode == A64Opcode::Cbz || d.opcode == A64Opcode::Cbnz
                || d.opcode == A64Opcode::Bl || d.opcode == A64Opcode::Blr || d.opcode == A64Opcode::Ret))
        }),
{
    lemma_lifted_block_stops_at_exit(words);
}

/// Lift one guest basic block from little-endian AArch64 words.
pub fn lift_block(words: &[u32], block: &mut Block) -> (consumed: usize)
    ensures
        consumed == lifted_block(words@).len(),
        final(block).instructions() == old(block).instructions() + lifted_block(words@),
        final(block).pc() == old(block).pc(),
        final(block).hits() == old(block).hits(),
        final(block).span() == crate::ir::block::span_after(old(block).span(), consumed as nat),
{
    let mut consumed: usize = 0;
    let n = words.len();
    let mut i: usize = 0;
    while i < n
        invariant
            n == words@.len(),
            i <= n,
            !lift_prefix(words@, i as nat).1,
            consumed == i,
            consumed == lift_prefix(words@, i as nat).0.len(),
            block.instructions() == old(block).instructions() + lift_prefix(words@, i as nat).0,
            block.pc() == old(block).pc(),
            block.hits() == old(block).hits(),
            block.span() == crate::ir::block::span_after(old(block).span(), consumed as nat),
        decreases n - i,
    {
        let word = words[i];
        let inst = A64Inst(word);
        let terminal = match aarch64::decode(inst) {
            Ok(decoded) => matches_terminal(&decoded.opcode),
            Err(_) => true,
        };
        lift_one(inst, block);
        consumed += 1;
        assert(block.instructions() =~= old(block).instructions() + lift_prefix(words@, (i + 1) as nat).0);
        if terminal {
            proof {
                lemma_lift_prefix_ended(words@, (i + 1) as nat, n as nat);
            }
            return consumed;
        }
        i = i + 1;
    }
    consumed
}

/// Start a new basic block with explicit guest PC metadata and lift into it.
pub fn lift_block_at(words: &[u32], guest_pc: u64, block: &mut Block) -> (consumed: usize)
    ensures
        consumed == lifted_block(words@).len(),
        final(block).instructions() == old(block).instructions() + lifted_block(words@),
        final(block).pc() == guest_pc,
        final(block).hits() == old(block).hits(),
        final(block).span() == crate::ir::block::span_after(old(block).span(), consumed as nat),
{
    block.set_guest_pc(guest_pc);
    lift_block(words, block)
}

/// Whether a guest instruction with this opcode ends its basic block.
fn matches_terminal(opcode: &A64Opcode) -> (r: bool)
    ensures
        r == is_terminal_opcode(*opcode),
{
    match opcode {
        A64Opcode::B | A64Opcode::Br | A64Opcode::Bcc(_) | A64Opcode::Bl | A64Opcode::Blr
        | A64Opcode::Cbz | A64Opcode::Cbnz | A64Opcode::Ret => true,
        _ => false,
    }
}

} // verus!
