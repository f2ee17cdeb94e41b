use vstd::prelude::*;

verus! {

/// An SSA value identifier in ARMx64 IR.
#[derive(Clone, Copy, Debug, PartialEq, Eq, Structural)]
pub struct Value(pub u32);

} // verus!
