use armx64::ir::{Block, GuestReg, IRInst, Opcode, Operand, RegWidth, FLAG_WRITES_NZCV};
use armx64::jit::{InstForm, InstructionSelector, Selection, FLAG_X86_IMM_FORM};

fn select(opcode: Opcode, width: RegWidth, imm: u64, flags: u16) -> bool {
    let mut block = Block::at(0x1000);
    block.push(IRInst {
        opcode,
        flags,
        a: Operand::Reg(match width {
            RegWidth::W32 => GuestReg::w(0),
            RegWidth::X64 => GuestReg::x(0),
        }),
        b: Operand::Reg(GuestReg::x(1)),
        c: Operand::Imm(imm),
    });
    let mut selector = InstructionSelector::default();
    selector.select_block(&mut block);
    block.insts()[0].flags & FLAG_X86_IMM_FORM != 0
}

#[test]
fn selects_add_immediate() {
    assert!(select(Opcode::Add, RegWidth::X64, 7, 0));
}

#[test]
fn selects_logical_immediates() {
    assert!(select(Opcode::Orr, RegWidth::W32, 0xff, 0));
    assert!(select(Opcode::Eor, RegWidth::W32, 0xff, 0));
}

#[test]
fn rejects_non_sign_extended_x64_immediate() {
    assert!(!select(Opcode::Add, RegWidth::X64, 0x8000_0000, 0));
}

#[test]
fn preserves_nzcv_bit() {
    assert!(select(Opcode::Sub, RegWidth::X64, 1, FLAG_WRITES_NZCV));
}

#[test]
fn selection_costs() {
    let selector = InstructionSelector::default();
    let mut inst = IRInst { opcode: Opcode::Load, flags: 0, a: Operand::Nothing, b: Operand::Nothing, c: Operand::Nothing };
    assert_eq!(selector.select(&inst), Selection { opcode: Opcode::Load, form: InstForm::Generic, cost: 3 });
    inst.flags = FLAG_X86_IMM_FORM;
    assert_eq!(selector.select(&inst), Selection { opcode: Opcode::Load, form: InstForm::Immediate, cost: 1 });
}

#[test]
fn selection_counts_candidates_and_keeps_other_bits() {
    let mut block = Block::at(0);
    block.push(IRInst { opcode: Opcode::Add, flags: 1 | FLAG_X86_IMM_FORM, a: Operand::Reg(GuestReg::x(0)), b: Operand::Nothing, c: Operand::Imm(0xFFFF_FFFF_8000_0000) });
    block.push(IRInst { opcode: Opcode::Mov, flags: FLAG_X86_IMM_FORM | 8, a: Operand::Reg(GuestReg::x(0)), b: Operand::Imm(1), c: Operand::Imm(1) });
    let mut selector = InstructionSelector::default();
    selector.select_block(&mut block);
    assert_eq!(block.insts()[0].flags, 1 | FLAG_X86_IMM_FORM);
    assert_eq!(block.insts()[1].flags, 8);
    assert_eq!(selector.immediate_forms, 1);
}
