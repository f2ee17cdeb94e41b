use vstd::prelude::*;

verus! {

/// Architectural state visible to translated ARM64 code.
///
/// Translated code addresses it through the byte offsets below, which follow
/// the C layout of the fields in declaration order.
#[derive(Clone, Debug, Default)]
pub struct GuestState {
    pub gpr: [u64; 31],
    pub sp: u64,
    pub nzcv: u32,
    pub _pad: u32,
    pub pc: u64,
}

/// Byte offset of `gpr[0]` in the guest state.
pub const GPR_BASE: i32 = 0i32;
/// Byte offset of `sp` in the guest state.
pub const SP_OFFSET: i32 = 248i32;
/// Byte offset of `nzcv` in the guest state.
pub const NZCV_OFFSET: i32 = 256i32;
/// Byte offset of `pc` in the guest state.
pub const PC_OFFSET: i32 = 264i32;

impl GuestState {
    pub fn new() -> (r: Self)
        ensures
            forall|i: int| 0 <= i < 31 ==> r.gpr[i] == 0,
            r.sp == 0,
            r.nzcv == 0,
            r._pad == 0,
            r.pc == 0,
    {
        GuestState { gpr: [0u64; 31], sp: 0, nzcv: 0, _pad: 0, pc: 0 }
    }

    /// Reads `x<reg>`; register 31 reads as zero.
    pub fn read_x(&self, reg: u8) -> (r: u64)
        requires
            reg <= 31,
        ensures
            r == (if reg < 31 { self.gpr[reg as int] } else { 0 }),
    {
        if reg < 31 {
            self.gpr[reg as usize]
        } else {
            0
        }
    }

    /// Writes `x<reg>`; writes to register 31 and above are discarded.
    pub fn write_x(&mut self, reg: u8, value: u64)
        ensures
            final(self).gpr@ == (if reg < 31 { old(self).gpr@.update(reg as int, value) } else { old(self).gpr@ }),
            final(self).sp == old(self).sp,
            final(self).nzcv == old(self).nzcv,
            final(self)._pad == old(self)._pad,
            final(self).pc == old(self).pc,
    {
        if reg < 31 {
            self.gpr[reg as usize] = value;
        }
    }

    pub fn read_sp(&self) -> (r: u64)
        ensures
            r == self.sp,
    {
        self.sp
    }

    pub fn write_sp(&mut self, value: u64)
        ensures
            final(self).sp == value,
            final(self).gpr@ == old(self).gpr@,
            final(self).nzcv == old(self).nzcv,
            final(self)._pad == old(self)._pad,
            final(self).pc == old(self).pc,
    {
        self.sp = value;
    }
}

} // verus!
