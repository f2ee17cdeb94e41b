use armx64::ir::{Block, GuestReg, IRInst, Opcode, Operand, RegKind, RegWidth, ShiftKind, FLAG_WRITES_NZCV};
use armx64::jit::Optimizer;

#[test]
fn folds_constant_arithmetic() {
    let mut block = Block::at(0x1000);
    block.push(IRInst { opcode: Opcode::Mov, flags: 0, a: Operand::Reg(GuestReg::x(0)), b: Operand::Imm(40), c: Operand::Nothing });
    block.push(IRInst { opcode: Opcode::Add, flags: 0, a: Operand::Reg(GuestReg::x(1)), b: Operand::Reg(GuestReg::x(0)), c: Operand::Imm(2) });
    let mut opt = Optimizer::default();
    opt.optimize_block(&mut block);
    assert_eq!(block.insts()[1].opcode, Opcode::Mov);
    assert_eq!(block.insts()[1].b, Operand::Imm(42));
    assert_eq!(block.byte_len(), 8);
}

#[test]
fn does_not_propagate_stale_constants_through_unknown_mov() {
    let mut block = Block::at(0x1000);
    block.push(IRInst { opcode: Opcode::Mov, flags: 0, a: Operand::Reg(GuestReg::x(0)), b: Operand::Imm(7), c: Operand::Nothing });
    block.push(IRInst { opcode: Opcode::Mov, flags: 0, a: Operand::Reg(GuestReg::x(0)), b: Operand::Reg(GuestReg::x(1)), c: Operand::Nothing });
    block.push(IRInst { opcode: Opcode::Add, flags: 0, a: Operand::Reg(GuestReg::x(2)), b: Operand::Reg(GuestReg::x(0)), c: Operand::Imm(1) });
    let mut opt = Optimizer::default();
    opt.optimize_block(&mut block);
    assert_eq!(block.insts()[2].b, Operand::Reg(GuestReg::x(0)));
}

#[test]
fn preserves_w32_zero_extension() {
    let mut block = Block::at(0x1000);
    block.push(IRInst { opcode: Opcode::Mov, flags: 0, a: Operand::Reg(GuestReg::w(0)), b: Operand::Imm(u64::MAX), c: Operand::Nothing });
    block.push(IRInst { opcode: Opcode::Add, flags: 0, a: Operand::Reg(GuestReg::x(1)), b: Operand::Reg(GuestReg::w(0)), c: Operand::Imm(1) });
    let mut opt = Optimizer::default();
    opt.optimize_block(&mut block);
    assert_eq!(block.insts()[1].opcode, Opcode::Mov);
    assert_eq!(block.insts()[1].b, Operand::Imm(0));
}

#[test]
fn preserves_flag_writers() {
    let mut block = Block::at(0x1000);
    block.push(IRInst { opcode: Opcode::Add, flags: FLAG_WRITES_NZCV, a: Operand::Reg(GuestReg::x(0)), b: Operand::Imm(1), c: Operand::Imm(2) });
    let mut opt = Optimizer::default();
    opt.optimize_block(&mut block);
    assert_eq!(block.insts()[0].opcode, Opcode::Add);
    assert_eq!(block.insts()[0].flags, FLAG_WRITES_NZCV);
}

#[test]
fn simplifies_identity_without_deleting_guest_slots() {
    let mut block = Block::at(0x1000);
    block.push(IRInst { opcode: Opcode::Nop, flags: 0, a: Operand::Nothing, b: Operand::Nothing, c: Operand::Nothing });
    block.push(IRInst { opcode: Opcode::Add, flags: 0, a: Operand::Reg(GuestReg::x(0)), b: Operand::Reg(GuestReg::x(1)), c: Operand::Imm(0) });
    let mut opt = Optimizer::default();
    opt.optimize_block(&mut block);
    assert_eq!(block.insts().len(), 2);
    assert_eq!(block.insts()[1].opcode, Opcode::Mov);
    assert_eq!(block.byte_len(), 8);
}

#[test]
fn folds_variable_shift_when_amount_is_constant() {
    let mut block = Block::at(0x1000);
    block.push(IRInst { opcode: Opcode::Mov, flags: 0, a: Operand::Reg(GuestReg::x(0)), b: Operand::Imm(1), c: Operand::Nothing });
    block.push(IRInst { opcode: Opcode::Mov, flags: 0, a: Operand::Reg(GuestReg::x(1)), b: Operand::Imm(4), c: Operand::Nothing });
    block.push(IRInst {
        opcode: Opcode::Shift,
        flags: 0,
        a: Operand::Reg(GuestReg::x(2)),
        b: Operand::Reg(GuestReg::x(0)),
        c: Operand::ShiftReg { value: GuestReg::x(0), amount: GuestReg::x(1), kind: ShiftKind::Lsl },
    });
    let mut opt = Optimizer::default();
    opt.optimize_block(&mut block);
    assert_eq!(block.insts()[2].opcode, Opcode::Mov);
    assert_eq!(block.insts()[2].b, Operand::Imm(16));
}

#[test]
fn folds_w32_arithmetic_in_32_bits() {
    let mut block = Block::at(0x1000);
    block.push(IRInst { opcode: Opcode::Mov, flags: 0, a: Operand::Reg(GuestReg::w(3)), b: Operand::Imm(0xFFFF_FFFF), c: Operand::Nothing });
    block.push(IRInst { opcode: Opcode::Add, flags: 0, a: Operand::Reg(GuestReg::w(4)), b: Operand::Reg(GuestReg::w(3)), c: Operand::Imm(2) });
    block.push(IRInst { opcode: Opcode::Sub, flags: 0, a: Operand::Reg(GuestReg::x(5)), b: Operand::Reg(GuestReg::x(4)), c: Operand::Imm(2) });
    let mut opt = Optimizer::default();
    opt.optimize_block(&mut block);
    assert_eq!(block.insts()[1].b, Operand::Imm(1));
    assert_eq!(block.insts()[2].b, Operand::Imm(u64::MAX));
    assert_eq!(opt.folded, 2);
    assert_eq!(opt.propagated, 2);
}

#[test]
fn unsupported_instructions_forget_every_constant() {
    let mut block = Block::at(0x1000);
    block.push(IRInst { opcode: Opcode::Mov, flags: 0, a: Operand::Reg(GuestReg::x(0)), b: Operand::Imm(3), c: Operand::Nothing });
    block.push(IRInst { opcode: Opcode::Unsupported, flags: 0, a: Operand::RawInst(0), b: Operand::Nothing, c: Operand::Nothing });
    block.push(IRInst { opcode: Opcode::Add, flags: 0, a: Operand::Reg(GuestReg::x(1)), b: Operand::Reg(GuestReg::x(0)), c: Operand::Imm(1) });
    let mut opt = Optimizer::default();
    opt.optimize_block(&mut block);
    assert_eq!(block.insts()[2].opcode, Opcode::Add);
    assert_eq!(block.insts()[2].b, Operand::Reg(GuestReg::x(0)));
}

#[test]
fn rotates_and_arithmetic_shifts_fold() {
    let mut block = Block::at(0x1000);
    block.push(IRInst { opcode: Opcode::Mov, flags: 0, a: Operand::Reg(GuestReg::x(0)), b: Operand::Imm(0x8000_0000_0000_0001), c: Operand::Nothing });
    block.push(IRInst { opcode: Opcode::Mov, flags: 0, a: Operand::Reg(GuestReg::x(1)), b: Operand::Imm(65), c: Operand::Nothing });
    block.push(IRInst { opcode: Opcode::Shift, flags: 0, a: Operand::Reg(GuestReg::x(2)), b: Operand::Reg(GuestReg::x(0)), c: Operand::ShiftReg { value: GuestReg::x(0), amount: GuestReg::x(1), kind: ShiftKind::Ror } });
    block.push(IRInst { opcode: Opcode::Shift, flags: 0, a: Operand::Reg(GuestReg::x(3)), b: Operand::Reg(GuestReg::x(0)), c: Operand::ShiftReg { value: GuestReg::x(0), amount: GuestReg::x(1), kind: ShiftKind::Asr } });
    let mut opt = Optimizer::default();
    opt.optimize_block(&mut block);
    assert_eq!(block.insts()[2].b, Operand::Imm(0xC000_0000_0000_0000));
    assert_eq!(block.insts()[3].b, Operand::Imm(0xC000_0000_0000_0000));
}

#[test]
fn and_with_all_ones_becomes_a_move() {
    let mut block = Block::at(0x1000);
    block.push(IRInst { opcode: Opcode::And, flags: 0, a: Operand::Reg(GuestReg::w(0)), b: Operand::Reg(GuestReg::w(1)), c: Operand::Imm(0xFFFF_FFFF) });
    let mut opt = Optimizer::default();
    opt.optimize_block(&mut block);
    assert_eq!(block.insts()[0].opcode, Opcode::Mov);
    assert_eq!(block.insts()[0].b, Operand::Reg(GuestReg::w(1)));
    assert_eq!(block.insts()[0].c, Operand::Nothing);
    assert_eq!(opt.simplified, 1);
}

fn read_operand(regs: &[u64; 31], op: Operand) -> u64 {
    match op {
        Operand::Imm(v) => v,
        Operand::Reg(r) if r.kind == RegKind::Zero => 0,
        Operand::Reg(r) => {
            let v = regs[r.num as usize];
            if r.width == RegWidth::W32 { v as u32 as u64 } else { v }
        }
        _ => panic!("operand outside this test's interpreter"),
    }
}

fn run_block(block: &Block, start: [u64; 31]) -> [u64; 31] {
    let mut regs = start;
    for inst in block.insts() {
        if let Operand::Reg(d) = inst.a {
            let value = match inst.opcode {
                Opcode::Mov => read_operand(&regs, inst.b),
                Opcode::Add => read_operand(&regs, inst.b).wrapping_add(read_operand(&regs, inst.c)),
                Opcode::Sub => read_operand(&regs, inst.b).wrapping_sub(read_operand(&regs, inst.c)),
                Opcode::And => read_operand(&regs, inst.b) & read_operand(&regs, inst.c),
                Opcode::Orr => read_operand(&regs, inst.b) | read_operand(&regs, inst.c),
                Opcode::Eor => read_operand(&regs, inst.b) ^ read_operand(&regs, inst.c),
                _ => panic!("instruction outside this test's interpreter"),
            };
            let value = if d.width == RegWidth::W32 { value as u32 as u64 } else { value };
            regs[d.num as usize] = value;
        }
    }
    regs
}

#[test]
fn optimized_block_leaves_the_same_register_values() {
    let mut block = Block::at(0x2000);
    let insts = [
        IRInst { opcode: Opcode::Mov, flags: 0, a: Operand::Reg(GuestReg::x(0)), b: Operand::Imm(0x1234), c: Operand::Nothing },
        IRInst { opcode: Opcode::Add, flags: 0, a: Operand::Reg(GuestReg::x(1)), b: Operand::Reg(GuestReg::x(0)), c: Operand::Imm(0x10) },
        IRInst { opcode: Opcode::Eor, flags: 0, a: Operand::Reg(GuestReg::x(2)), b: Operand::Reg(GuestReg::x(5)), c: Operand::Imm(0) },
        IRInst { opcode: Opcode::Sub, flags: 0, a: Operand::Reg(GuestReg::w(3)), b: Operand::Reg(GuestReg::w(6)), c: Operand::Reg(GuestReg::w(1)) },
        IRInst { opcode: Opcode::And, flags: 0, a: Operand::Reg(GuestReg::w(4)), b: Operand::Reg(GuestReg::w(0)), c: Operand::Imm(0xFFFF_FFFF) },
        IRInst { opcode: Opcode::Orr, flags: 0, a: Operand::Reg(GuestReg::x(7)), b: Operand::Reg(GuestReg::x(1)), c: Operand::Reg(GuestReg::x(0)) },
    ];
    let mut original = Block::at(0x2000);
    for inst in insts {
        block.push(inst);
        original.push(inst);
    }
    let mut opt = Optimizer::default();
    opt.optimize_block(&mut block);
    assert_ne!(block.insts(), original.insts());
    let mut start = [0u64; 31];
    for (i, slot) in start.iter_mut().enumerate() {
        *slot = 0x0101_0101_0101_0101u64.wrapping_mul(i as u64 + 3);
    }
    assert_eq!(run_block(&block, start), run_block(&original, start));
}

#[test]
fn a_32_bit_rotate_stays_within_32_bits() {
    let mut block = Block::at(0x1000);
    block.push(IRInst { opcode: Opcode::Mov, flags: 0, a: Operand::Reg(GuestReg::w(0)), b: Operand::Imm(1), c: Operand::Nothing });
    block.push(IRInst { opcode: Opcode::Mov, flags: 0, a: Operand::Reg(GuestReg::w(1)), b: Operand::Imm(1), c: Operand::Nothing });
    block.push(IRInst { opcode: Opcode::Shift, flags: 0, a: Operand::Reg(GuestReg::w(2)), b: Operand::Reg(GuestReg::w(0)), c: Operand::ShiftReg { value: GuestReg::w(0), amount: GuestReg::w(1), kind: ShiftKind::Ror } });
    block.push(IRInst { opcode: Opcode::Mov, flags: 0, a: Operand::Reg(GuestReg::w(3)), b: Operand::Imm(33), c: Operand::Nothing });
    block.push(IRInst { opcode: Opcode::Shift, flags: 0, a: Operand::Reg(GuestReg::w(4)), b: Operand::Reg(GuestReg::w(0)), c: Operand::ShiftReg { value: GuestReg::w(0), amount: GuestReg::w(3), kind: ShiftKind::Lsl } });
    block.push(IRInst { opcode: Opcode::Mov, flags: 0, a: Operand::Reg(GuestReg::w(5)), b: Operand::Imm(0x8000_0000), c: Operand::Nothing });
    block.push(IRInst { opcode: Opcode::Mov, flags: 0, a: Operand::Reg(GuestReg::w(6)), b: Operand::Imm(4), c: Operand::Nothing });
    block.push(IRInst { opcode: Opcode::Shift, flags: 0, a: Operand::Reg(GuestReg::w(7)), b: Operand::Reg(GuestReg::w(5)), c: Operand::ShiftReg { value: GuestReg::w(5), amount: GuestReg::w(6), kind: ShiftKind::Asr } });
    let mut opt = Optimizer::default();
    opt.optimize_block(&mut block);
    assert_eq!(block.insts()[2].b, Operand::Imm(0x8000_0000));
    assert_eq!(block.insts()[4].b, Operand::Imm(2));
    assert_eq!(block.insts()[7].b, Operand::Imm(0xF800_0000));
}

#[test]
fn memory_accesses_keep_their_registers() {
    // mov x0, #50; mov x1, #0x100; str x0, [x1, #8]; ldr x2, [x1, #8]; nop
    let mut block = Block::new();
    armx64::lift::lift_block_at(&[0xd2800640, 0xd2802001, 0xf9000420, 0xf9400422, 0xd503201f], 0x1000, &mut block);
    let store = block.insts()[2];
    let load = block.insts()[3];
    let mut opt = Optimizer::default();
    opt.optimize_block(&mut block);
    assert_eq!(block.insts()[2], store);
    assert_eq!(block.insts()[3], load);
    let mut buffer = armx64::codegen::CodeBuffer::new();
    assert_eq!(buffer.emit_block(&block), Ok(()));
}

#[test]
fn folds_and_simplifications_count_the_changed_slots() {
    let mut block = Block::at(0x1000);
    block.push(IRInst { opcode: Opcode::Mov, flags: 0, a: Operand::Reg(GuestReg::x(0)), b: Operand::Imm(5), c: Operand::Nothing });
    block.push(IRInst { opcode: Opcode::Add, flags: 0, a: Operand::Reg(GuestReg::x(1)), b: Operand::Reg(GuestReg::x(0)), c: Operand::Imm(1) });
    block.push(IRInst { opcode: Opcode::Orr, flags: 0, a: Operand::Reg(GuestReg::x(2)), b: Operand::Reg(GuestReg::x(9)), c: Operand::Imm(0) });
    block.push(IRInst { opcode: Opcode::Add, flags: FLAG_WRITES_NZCV, a: Operand::Reg(GuestReg::x(3)), b: Operand::Reg(GuestReg::x(0)), c: Operand::Imm(1) });
    let before: Vec<Opcode> = block.insts().iter().map(|i| i.opcode).collect();
    let mut opt = Optimizer::default();
    opt.optimize_block(&mut block);
    let changed = block.insts().iter().zip(before.iter()).filter(|(i, op)| i.opcode != **op).count() as u32;
    assert_eq!(changed, 2);
    assert_eq!(opt.folded + opt.simplified, changed);
    assert_eq!(block.insts()[3].opcode, Opcode::Add);
    assert_eq!(block.insts()[3].b, Operand::Imm(5));
}
