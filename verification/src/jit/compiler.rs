use vstd::prelude::*;

use crate::ir::Block;

verus! {

/// A block handed to the background tier-1 compiler.
pub struct CompileRequest {
    pub pc: u64,
    pub block: Block,
}

} // verus!
