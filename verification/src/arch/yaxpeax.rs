use vstd::prelude::*;

use yaxpeax_arch::{Decoder, U8Reader};
use yaxpeax_arm::armv8::a64::Opcode::{
    ADD, ADDS, AND, ANDS, ASRV, B, BL, BLR, BR, Bcc, CBNZ, CBZ, EOR, HINT, LDR, LSLV, LSRV, MOVZ, ORR, RET, RORV, STR, SUB, SUBS,
};
use yaxpeax_arm::armv8::a64::Opcode as YaxOpcode;
use yaxpeax_arm::armv8::a64::Operand as YaxOperand;
use yaxpeax_arm::armv8::a64::{DecodeError, InstDecoder, ShiftStyle, SizeCode};

use super::aarch64::{A64Decoded, A64DecodeError, A64Opcode, A64Operand, A64ShiftStyle, A64SizeCode};

verus! {

#[verifier::external_type_specification]
#[verifier::external_body]
pub struct ExYaxOpcode(YaxOpcode);

#[verifier::external_type_specification]
#[verifier::external_body]
pub struct ExYaxOperand(YaxOperand);

#[verifier::external_type_specification]
#[verifier::external_body]
pub struct ExYaxSizeCode(SizeCode);

#[verifier::external_type_specification]
#[verifier::external_body]
pub struct ExYaxShiftStyle(ShiftStyle);

#[verifier::external_type_specification]
#[verifier::external_body]
pub struct ExYaxDecodeError(DecodeError);

/// What yaxpeax-arm's AArch64 decoder makes of the instruction bytes `bytes`.
pub uninterp spec fn a64_decode(bytes: Seq<u8>) -> Result<A64Decoded, A64DecodeError>;

/// Decodes one instruction from `bytes` with `InstDecoder::decode` of
/// yaxpeax-arm (through yaxpeax-arch's `Decoder` and `U8Reader`). The
/// contract claims only that the result is a function of the bytes, named
/// `a64_decode`.
#[verifier::external_body]
pub(crate) fn decode_bytes(bytes: &[u8; 4]) -> (r: Result<A64Decoded, A64DecodeError>)
    ensures
        r == a64_decode(bytes@),
{
    let mut reader = U8Reader::new(bytes);
    match InstDecoder::default().decode(&mut reader) {
        Ok(i) => Ok(A64Decoded {
            opcode: opcode_from(&i.opcode),
            operands: [operand_from(&i.operands[0]), operand_from(&i.operands[1]), operand_from(&i.operands[2]), operand_from(&i.operands[3])],
        }),
        Err(e) => Err(error_from(&e)),
    }
}

/// Names yaxpeax-arm's `Opcode` variants of data processing and memory
/// access that the lifter reads, one for one.
#[verifier::external_body]
fn opcode_from(o: &YaxOpcode) -> A64Opcode {
    match *o {
        HINT => A64Opcode::Hint, ADD => A64Opcode::Add, ADDS => A64Opcode::Adds, SUB => A64Opcode::Sub,
        SUBS => A64Opcode::Subs, AND => A64Opcode::And, ANDS => A64Opcode::Ands, ORR => A64Opcode::Orr,
        EOR => A64Opcode::Eor, MOVZ => A64Opcode::Movz, LSLV => A64Opcode::Lslv, LSRV => A64Opcode::Lsrv,
        ASRV => A64Opcode::Asrv, RORV => A64Opcode::Rorv, LDR => A64Opcode::Ldr, STR => A64Opcode::Str,
        _ => branch_opcode_from(o),
    }
}

/// Names yaxpeax-arm's branch `Opcode` variants that the lifter reads, one
/// for one; every other operation is `Other`.
#[verifier::external_body]
fn branch_opcode_from(o: &YaxOpcode) -> A64Opcode {
    match *o {
        B => A64Opcode::B, BR => A64Opcode::Br, Bcc(c) => A64Opcode::Bcc(c), CBZ => A64Opcode::Cbz,
        CBNZ => A64Opcode::Cbnz, BL => A64Opcode::Bl, BLR => A64Opcode::Blr, RET => A64Opcode::Ret,
        _ => A64Opcode::Other,
    }
}

/// Names yaxpeax-arm's register and immediate `Operand` variants that the
/// lifter reads, one for one.
#[verifier::external_body]
fn operand_from(o: &YaxOperand) -> A64Operand {
    match *o {
        YaxOperand::Nothing => A64Operand::Nothing,
        YaxOperand::Register(s, n) => A64Operand::Register(size_from(&s), n),
        YaxOperand::RegisterOrSP(s, n) => A64Operand::RegisterOrSP(size_from(&s), n),
        YaxOperand::ControlReg(n) => A64Operand::ControlReg(n),
        YaxOperand::Immediate(v) => A64Operand::Immediate(v),
        YaxOperand::Imm64(v) => A64Operand::Imm64(v),
        YaxOperand::Imm16(v) => A64Operand::Imm16(v),
        _ => shaped_operand_from(o),
    }
}

/// Names yaxpeax-arm's offset, shifted and memory `Operand` variants that
/// the lifter reads, one for one; every other operand is `Other`.
#[verifier::external_body]
fn shaped_operand_from(o: &YaxOperand) -> A64Operand {
    match *o {
        YaxOperand::PCOffset(v) => A64Operand::PCOffset(v),
        YaxOperand::ImmShift(v, a) => A64Operand::ImmShift(v, a),
        YaxOperand::RegShift(st, a, s, n) => A64Operand::RegShift(shift_from(&st), a, size_from(&s), n),
        YaxOperand::RegPreIndex(n, off, wb) => A64Operand::RegPreIndex(n, off, wb),
        _ => A64Operand::Other,
    }
}

/// Names yaxpeax-arm's `SizeCode` variants, one for one.
#[verifier::external_body]
fn size_from(s: &SizeCode) -> A64SizeCode {
    match *s {
        SizeCode::X => A64SizeCode::X,
        SizeCode::W => A64SizeCode::W,
    }
}

/// Names yaxpeax-arm's `ShiftStyle` shift variants, one for one.
#[verifier::external_body]
fn shift_from(s: &ShiftStyle) -> A64ShiftStyle {
    match *s {
        ShiftStyle::LSL => A64ShiftStyle::Lsl,
        ShiftStyle::LSR => A64ShiftStyle::Lsr,
        ShiftStyle::ASR => A64ShiftStyle::Asr,
        ShiftStyle::ROR => A64ShiftStyle::Ror,
        _ => A64ShiftStyle::Other,
    }
}

/// Names yaxpeax-arm's `DecodeError` variants, one for one.
#[verifier::external_body]
fn error_from(e: &DecodeError) -> A64DecodeError {
    match *e {
        DecodeError::ExhaustedInput => A64DecodeError::ExhaustedInput,
        DecodeError::InvalidOpcode => A64DecodeError::InvalidOpcode,
        DecodeError::InvalidOperand => A64DecodeError::InvalidOperand,
        DecodeError::IncompleteDecoder => A64DecodeError::IncompleteDecoder,
    }
}

} // verus!
