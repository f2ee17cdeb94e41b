use armx64::arch::aarch64::A64Inst;
use armx64::ir::{Block, Opcode, Operand, FLAG_WRITES_NZCV};
use armx64::lift::{lift_block_at, lift_one};

#[test]
fn block_preserves_pc_and_stops_after_branch() {
    let mut block = Block::new();
    let consumed = lift_block_at(&[0xd503201f, 0x14000000, 0xd503201f], 0x1000, &mut block);
    assert_eq!(consumed, 2);
    assert_eq!(block.guest_pc(), 0x1000);
    assert_eq!(block.byte_len(), 8);
    assert_eq!(block.insts()[0].opcode, Opcode::Nop);
    assert_eq!(block.insts()[1].opcode, Opcode::Branch);
}

#[test]
fn test_lift_nop() {
    let mut block = Block::new();
    lift_one(A64Inst(0xd503201f), &mut block);
    assert_eq!(block.insts().len(), 1);
    assert_eq!(block.insts()[0].opcode, Opcode::Nop);
}

#[test]
fn test_unsupported_is_not_nop() {
    let mut block = Block::new();
    lift_one(A64Inst(0xd61f0000), &mut block);
    assert_eq!(block.insts().len(), 1);
    assert_eq!(block.insts()[0].opcode, Opcode::Unsupported);
    assert_eq!(block.insts()[0].a, Operand::RawInst(0xd61f0000));
}

#[test]
fn test_flag_setting_opcode_is_preserved() {
    let mut block = Block::new();
    lift_one(A64Inst(0xab000000), &mut block);
    assert_eq!(block.insts().len(), 1);
    assert_eq!(block.insts()[0].opcode, Opcode::Add);
    assert_ne!(block.insts()[0].flags & FLAG_WRITES_NZCV, 0);
}
