use armx64::arch::aarch64::{decode, A64DecodeError, A64Decoded, A64Inst, A64Opcode, A64Operand, A64SizeCode};
use armx64::codegen::CodegenError;
use armx64::ir::{Block, GuestReg, IRInst, MemOperand, Opcode, Operand, RegKind, RegWidth};
use armx64::lift::lift_block_at;
use armx64::lift::lift_decoded;
use armx64::runtime::{translate_block, TranslateError};

#[test]
fn instruction_bytes_are_little_endian() {
    assert_eq!(A64Inst(0xd503201f).to_le_bytes(), [0x1f, 0x20, 0x03, 0xd5]);
}

#[test]
fn decoder_reads_an_add() {
    // add x0, x1, x2
    let decoded = decode(A64Inst(0x8b020020)).unwrap();
    assert_eq!(decoded.opcode, A64Opcode::Add);
    assert_eq!(decoded.operands[0], A64Operand::Register(A64SizeCode::X, 0));
    assert_eq!(decoded.operands[1], A64Operand::Register(A64SizeCode::X, 1));
}

#[test]
fn operations_the_lifter_ignores_decode_as_other() {
    // udf #0
    assert_eq!(decode(A64Inst(0)).unwrap().opcode, A64Opcode::Other);
}

#[test]
fn lifting_a_decoded_instruction() {
    let err: Result<A64Decoded, A64DecodeError> = Err(A64DecodeError::InvalidOpcode);
    let ir = lift_decoded(A64Inst(0x1234), &err);
    assert_eq!(ir.opcode, Opcode::Unsupported);
    assert_eq!(ir.a, Operand::RawInst(0x1234));
    let nop = Ok(A64Decoded {
        opcode: A64Opcode::Hint,
        operands: [A64Operand::ControlReg(0), A64Operand::Immediate(0), A64Operand::Nothing, A64Operand::Nothing],
    });
    assert_eq!(lift_decoded(A64Inst(0xd503201f), &nop).opcode, Opcode::Nop);
    let yield_hint = Ok(A64Decoded {
        opcode: A64Opcode::Hint,
        operands: [A64Operand::ControlReg(0), A64Operand::Immediate(1), A64Operand::Nothing, A64Operand::Nothing],
    });
    assert_eq!(lift_decoded(A64Inst(0xd503203f), &yield_hint).opcode, Opcode::Unsupported);
    let subs = Ok(A64Decoded {
        opcode: A64Opcode::Subs,
        operands: [A64Operand::Register(A64SizeCode::W, 31), A64Operand::RegisterOrSP(A64SizeCode::X, 31), A64Operand::Imm64(5), A64Operand::Nothing],
    });
    let ir = lift_decoded(A64Inst(0), &subs);
    assert_eq!(ir.opcode, Opcode::Sub);
    assert_eq!(ir.flags, 1);
    assert_eq!(ir.a, Operand::Reg(GuestReg::w(31)));
    assert_eq!(ir.b, Operand::Reg(GuestReg::xsp()));
    assert_eq!(ir.c, Operand::Imm(5));
}

#[test]
fn translates_a_straight_line_block() {
    // add x0, x1, x2; nop
    let translated = translate_block(0x1000, &[0x8b020020, 0xd503201f]).unwrap();
    assert_eq!(translated.consumed, 2);
    assert_eq!(*translated.code.last().unwrap(), 0xC3);
}

#[test]
fn unsupported_instructions_are_reported() {
    assert_eq!(translate_block(0x1000, &[0xd61f0000]).unwrap_err(), TranslateError::Unsupported { guest_pc: 0x1000 });
}

#[test]
fn pc_relative_branches_do_not_lower_yet() {
    // b .+8
    assert_eq!(
        translate_block(0x1000, &[0x14000002]).unwrap_err(),
        TranslateError::Codegen { guest_pc: 0x1000, error: CodegenError::UnsupportedOperand }
    );
}

#[test]
fn register_or_sp_operands_below_31_are_general_registers() {
    // add x0, x0, #8; add w0, w0, #1; add sp, sp, #16
    let mut block = Block::new();
    assert_eq!(lift_block_at(&[0x91002000, 0x11000400, 0x910043ff], 0x1000, &mut block), 3);
    assert_eq!(block.insts()[0].a, Operand::Reg(GuestReg::x(0)));
    assert_eq!(block.insts()[0].b, Operand::Reg(GuestReg::x(0)));
    assert_eq!(block.insts()[1].a, Operand::Reg(GuestReg::w(0)));
    assert_eq!(block.insts()[1].b, Operand::Reg(GuestReg::w(0)));
    assert_eq!(block.insts()[2].a, Operand::Reg(GuestReg::xsp()));
    assert_eq!(block.insts()[2].b, Operand::Reg(GuestReg::xsp()));
}

#[test]
fn str_and_ldr_lower_to_memory_operands() {
    // mov x0, #50; mov x1, #0x100; str x0, [x1, #8]; ldr x2, [x1, #8]; nop
    let words = [0xd2800640, 0xd2802001, 0xf9000420, 0xf9400422, 0xd503201f];
    let mut block = Block::new();
    assert_eq!(lift_block_at(&words, 0x1000, &mut block), 5);
    let mem = MemOperand { base: GuestReg::x(1), width: RegWidth::X64, offset: 8 };
    assert_eq!(block.insts()[2], IRInst { opcode: Opcode::Store, flags: 0, a: Operand::Mem(mem), b: Operand::Reg(GuestReg::x(0)), c: Operand::Nothing });
    assert_eq!(block.insts()[3], IRInst { opcode: Opcode::Load, flags: 0, a: Operand::Reg(GuestReg::x(2)), b: Operand::Mem(mem), c: Operand::Nothing });
    let translated = translate_block(0x1000, &words).unwrap();
    assert_eq!(translated.consumed, 5);
    assert_eq!(*translated.code.last().unwrap(), 0xC3);
}

#[test]
fn memory_accesses_at_the_stack_pointer_and_of_32_bits() {
    // str w3, [sp, #4]
    let mut block = Block::new();
    assert_eq!(lift_block_at(&[0xb90007e3], 0x1000, &mut block), 1);
    let mem = MemOperand { base: GuestReg { num: 31, width: RegWidth::X64, kind: RegKind::StackPointer }, width: RegWidth::W32, offset: 4 };
    assert_eq!(block.insts()[0], IRInst { opcode: Opcode::Store, flags: 0, a: Operand::Mem(mem), b: Operand::Reg(GuestReg::w(3)), c: Operand::Nothing });
}

#[test]
fn writeback_addressing_is_unsupported() {
    // str x0, [x1, #8]!
    let mut block = Block::new();
    assert_eq!(lift_block_at(&[0xf8008c20], 0x1000, &mut block), 1);
    assert_eq!(block.insts()[0].opcode, Opcode::Unsupported);
}
