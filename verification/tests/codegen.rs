use armx64::codegen::{CodeBuffer, CodegenError};
use armx64::codegen::x86_64::emit_faults;
use armx64::ir::{Block, GuestReg, IRInst, Opcode, Operand};

fn le64(v: u64) -> Vec<u8> {
    v.to_le_bytes().to_vec()
}

/// `mov rax, pc; mov [rdi + 264], rax`
fn set_pc(pc: u64) -> Vec<u8> {
    let mut v = vec![0x48, 0xB8];
    v.extend(le64(pc));
    v.extend([0x48, 0x89, 0x87, 0x08, 0x01, 0x00, 0x00]);
    v
}

#[test]
fn emit8_appends_one_byte() {
    let mut buffer = CodeBuffer::new();
    assert!(buffer.bytes.is_empty());
    buffer.emit8(0x90);
    buffer.emit8(0xC3);
    assert_eq!(buffer.bytes, vec![0x90, 0xC3]);
}

#[test]
fn empty_block_exits_to_its_own_pc() {
    let block = Block::at(0x4000);
    let mut buffer = CodeBuffer::new();
    assert_eq!(buffer.emit_block(&block), Ok(()));
    let mut expected = set_pc(0x4000);
    expected.push(0xC3);
    assert_eq!(buffer.bytes, expected);
}

#[test]
fn mov_immediate_block_stores_and_falls_through() {
    let mut block = Block::at(0x1000);
    block.push(IRInst { opcode: Opcode::Mov, flags: 0, a: Operand::Reg(GuestReg::x(0)), b: Operand::Imm(42), c: Operand::Nothing });
    let mut buffer = CodeBuffer::new();
    assert_eq!(buffer.emit_block(&block), Ok(()));
    let mut expected = vec![0x48, 0xB8];
    expected.extend(le64(42));
    expected.extend([0x48, 0x89, 0x87, 0x00, 0x00, 0x00, 0x00]);
    expected.extend(set_pc(0x1004));
    expected.push(0xC3);
    assert_eq!(buffer.bytes, expected);
}

#[test]
fn w32_add_of_zero_register_and_immediate() {
    let mut block = Block::at(0x1000);
    block.push(IRInst { opcode: Opcode::Add, flags: 0, a: Operand::Reg(GuestReg::w(1)), b: Operand::Reg(GuestReg::w(31)), c: Operand::Imm(7) });
    let mut buffer = CodeBuffer::new();
    assert_eq!(buffer.emit_block(&block), Ok(()));
    // xor eax, eax; mov ecx, 7 (twice); add eax, ecx; mov [rdi + 8], rax
    let mut expected = vec![0x31, 0xC0, 0xB9, 7, 0, 0, 0, 0xB9, 7, 0, 0, 0, 0x01, 0xC8, 0x48, 0x89, 0x87, 0x08, 0x00, 0x00, 0x00];
    expected.extend(set_pc(0x1004));
    expected.push(0xC3);
    assert_eq!(buffer.bytes, expected);
}

#[test]
fn flag_writer_materializes_nzcv() {
    let mut block = Block::at(0x1000);
    block.push(IRInst { opcode: Opcode::Sub, flags: 1, a: Operand::Reg(GuestReg::xsp()), b: Operand::Reg(GuestReg::x(2)), c: Operand::Reg(GuestReg::x(3)) });
    let mut buffer = CodeBuffer::new();
    assert_eq!(buffer.emit_block(&block), Ok(()));
    let mut expected = vec![0x48, 0x8B, 0x87, 0x10, 0, 0, 0];
    expected.extend([0x48, 0x8B, 0x8F, 0x18, 0, 0, 0]);
    expected.extend([0x48, 0x8B, 0x8F, 0x18, 0, 0, 0]);
    expected.extend([0x48, 0x29, 0xC8]);
    // sets dl; sete dh; setae cl (C is "no borrow" after a subtraction); seto ch
    expected.extend([0x0F, 0x98, 0xC2, 0x0F, 0x94, 0xC6, 0x0F, 0x93, 0xC1, 0x0F, 0x90, 0xC5]);
    // shl dl, 1; or dl, dh; shl dl, 1; or dl, cl; shl dl, 1; or dl, ch
    expected.extend([0xD0, 0xE2, 0x08, 0xF2, 0xD0, 0xE2, 0x08, 0xCA, 0xD0, 0xE2, 0x08, 0xEA]);
    // movzx edx, dl; shl edx, 28
    expected.extend([0x0F, 0xB6, 0xD2, 0xC1, 0xE2, 0x1C]);
    expected.extend([0x89, 0x97, 0x00, 0x01, 0x00, 0x00]);
    expected.extend([0x48, 0x89, 0x87, 0xF8, 0x00, 0x00, 0x00]);
    expected.extend(set_pc(0x1004));
    expected.push(0xC3);
    assert_eq!(buffer.bytes, expected);
}

#[test]
fn branch_to_guest_pc_ends_the_block() {
    let mut block = Block::at(0x1000);
    block.push(IRInst { opcode: Opcode::Branch, flags: 0, a: Operand::GuestPc(0x2000), b: Operand::Nothing, c: Operand::Nothing });
    block.push(IRInst { opcode: Opcode::Nop, flags: 0, a: Operand::Nothing, b: Operand::Nothing, c: Operand::Nothing });
    let mut buffer = CodeBuffer::new();
    assert_eq!(buffer.emit_block(&block), Ok(()));
    let mut expected = set_pc(0x2000);
    expected.push(0xC3);
    assert_eq!(buffer.bytes, expected);
}

#[test]
fn conditional_branch_tests_the_truth_table() {
    let mut block = Block::at(0x1000);
    block.push(IRInst { opcode: Opcode::BranchCond, flags: 0, a: Operand::GuestPc(0x3000), b: Operand::Imm(0), c: Operand::Nothing });
    let mut buffer = CodeBuffer::new();
    assert_eq!(buffer.emit_block(&block), Ok(()));
    let mut expected = vec![0x8B, 0x87, 0x00, 0x01, 0x00, 0x00, 0xC1, 0xE8, 0x1C, 0xB9, 0xF0, 0xF0, 0x00, 0x00, 0x66, 0x0F, 0xA3, 0xC1, 0x73, 0x12];
    expected.extend(set_pc(0x3000));
    expected.push(0xC3);
    expected.extend(set_pc(0x1004));
    expected.push(0xC3);
    assert_eq!(buffer.bytes, expected);
}

#[test]
fn condition_code_above_fifteen_is_rejected() {
    let mut block = Block::at(0x1000);
    block.push(IRInst { opcode: Opcode::BranchCond, flags: 0, a: Operand::GuestPc(0x3000), b: Operand::Imm(16), c: Operand::Nothing });
    let mut buffer = CodeBuffer::new();
    assert_eq!(buffer.emit_block(&block), Err(CodegenError::UnsupportedOperand));
    assert!(buffer.bytes.is_empty());
}

#[test]
fn compare_is_an_unsupported_opcode() {
    let mut block = Block::at(0x1000);
    block.push(IRInst { opcode: Opcode::Nop, flags: 0, a: Operand::Nothing, b: Operand::Nothing, c: Operand::Nothing });
    block.push(IRInst { opcode: Opcode::Compare, flags: 0, a: Operand::Nothing, b: Operand::Nothing, c: Operand::Nothing });
    let mut buffer = CodeBuffer::new();
    assert_eq!(buffer.emit_block(&block), Err(CodegenError::UnsupportedOpcode(Opcode::Compare)));
    assert_eq!(buffer.bytes, vec![0x90]);
}

#[test]
fn pc_relative_branch_is_an_unsupported_operand() {
    let mut block = Block::at(0x1000);
    block.push(IRInst { opcode: Opcode::Branch, flags: 0, a: Operand::PCRelative(8), b: Operand::Nothing, c: Operand::Nothing });
    let mut buffer = CodeBuffer::new();
    assert_eq!(buffer.emit_block(&block), Err(CodegenError::UnsupportedOperand));
}

#[test]
fn ret_jumps_to_the_link_register() {
    let mut block = Block::at(0x1000);
    block.push(IRInst { opcode: Opcode::Ret, flags: 0, a: Operand::Nothing, b: Operand::Nothing, c: Operand::Nothing });
    let mut buffer = CodeBuffer::new();
    assert_eq!(buffer.emit_block(&block), Ok(()));
    assert_eq!(buffer.bytes, vec![0x48, 0x8B, 0x87, 0xF0, 0, 0, 0, 0x48, 0x89, 0x87, 0x08, 0x01, 0, 0, 0xC3]);
}

#[test]
fn fall_through_past_the_address_space_faults() {
    let mut block = Block::at(u64::MAX - 2);
    block.push(IRInst { opcode: Opcode::Nop, flags: 0, a: Operand::Nothing, b: Operand::Nothing, c: Operand::Nothing });
    assert!(emit_faults(&block));
    let fine = Block::at(u64::MAX - 2);
    assert!(!emit_faults(&fine));
}

#[test]
fn shifted_immediate_past_sixty_four_bits_faults() {
    let mut block = Block::at(0x1000);
    block.push(IRInst { opcode: Opcode::Mov, flags: 0, a: Operand::Reg(GuestReg::x(0)), b: Operand::ShiftedImm { value: 1, amount: 64 }, c: Operand::Nothing });
    assert!(emit_faults(&block));
}

#[test]
fn adds_reads_the_carry_flag() {
    let mut block = Block::at(0x1000);
    block.push(IRInst { opcode: Opcode::Add, flags: 1, a: Operand::Reg(GuestReg::x(1)), b: Operand::Reg(GuestReg::x(2)), c: Operand::Imm(1) });
    let mut buffer = CodeBuffer::new();
    assert_eq!(buffer.emit_block(&block), Ok(()));
    // the flags are read right after `add rax, rcx`, with setb for C
    let at = buffer.bytes.windows(3).position(|w| w == [0x48, 0x01, 0xC8]).unwrap() + 3;
    assert_eq!(&buffer.bytes[at..at + 12], &[0x0F, 0x98, 0xC2, 0x0F, 0x94, 0xC6, 0x0F, 0x92, 0xC1, 0x0F, 0x90, 0xC5]);
}

#[test]
fn orr_emits_x86_or() {
    let mut block = Block::at(0x1000);
    block.push(IRInst { opcode: Opcode::Orr, flags: 0, a: Operand::Reg(GuestReg::x(0)), b: Operand::Reg(GuestReg::x(1)), c: Operand::Reg(GuestReg::x(2)) });
    let mut buffer = CodeBuffer::new();
    assert_eq!(buffer.emit_block(&block), Ok(()));
    let mut expected = vec![0x48, 0x8B, 0x87, 0x08, 0, 0, 0];
    expected.extend([0x48, 0x8B, 0x8F, 0x10, 0, 0, 0]);
    expected.extend([0x48, 0x8B, 0x8F, 0x10, 0, 0, 0]);
    expected.extend([0x48, 0x09, 0xC8]);
    expected.extend([0x48, 0x89, 0x87, 0x00, 0x00, 0x00, 0x00]);
    expected.extend(set_pc(0x1004));
    expected.push(0xC3);
    assert_eq!(buffer.bytes, expected);
}

#[test]
fn conditional_branches_use_the_aarch64_condition_masks() {
    let masks: [u16; 16] = [0xF0F0, 0x0F0F, 0xCCCC, 0x3333, 0xFF00, 0x00FF, 0xAAAA, 0x5555, 0x0C0C, 0xF3F3, 0xAA55, 0x55AA, 0x0A05, 0xF5FA, 0xFFFF, 0xFFFF];
    for (cond, mask) in masks.iter().enumerate() {
        let mut block = Block::at(0x1000);
        block.push(IRInst { opcode: Opcode::BranchCond, flags: 0, a: Operand::GuestPc(0x2000), b: Operand::Imm(cond as u64), c: Operand::Nothing });
        let mut buffer = CodeBuffer::new();
        assert_eq!(buffer.emit_block(&block), Ok(()));
        assert_eq!(buffer.bytes.len(), 56);
        let [lo, hi] = mask.to_le_bytes();
        assert_eq!(&buffer.bytes[9..14], &[0xB9, lo, hi, 0x00, 0x00]);
    }
}
