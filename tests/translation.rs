use gbtrans::{
    Amd64Instr, Amd64Patch, AluBlockOp, CompileError, Condition, Context, HostLabel, HostOp,
    HostReg, Instruction, MemSize, Operand, PrefixOp, Reg, RegOrNum, RegPair, ROM_LEN,
    TranspileInstrRes, transpile_block_at, transpile_cond_jump, transpile_instr_preserve_c_flag,
};

const MEM: HostReg = HostReg::RBP;

fn op2(op: HostOp, dst: Operand, src: Operand) -> Amd64Instr {
    Amd64Instr::new(op, Some(dst), Some(src))
}

fn op1(op: HostOp, dst: Operand) -> Amd64Instr {
    Amd64Instr::new(op, Some(dst), None)
}

fn word_at(index: Option<HostReg>, disp: u16) -> Operand {
    Operand::Mem { size: MemSize::Word, base: MEM, index, disp }
}

fn byte_at(index: Option<HostReg>, disp: u16) -> Operand {
    Operand::Mem { size: MemSize::Byte, base: MEM, index, disp }
}

fn lea(dst: HostReg, base: HostReg, disp: u16) -> Amd64Instr {
    op2(HostOp::Lea, Operand::Reg(dst), Operand::Mem { size: MemSize::Word, base, index: None, disp })
}

fn rom_with(at: usize, bytes: &[u8]) -> Box<[u8; ROM_LEN]> {
    let mut rom = Box::new([0u8; ROM_LEN]);
    rom[at..at + bytes.len()].copy_from_slice(bytes);
    rom
}

#[test]
fn register_binding_keeps_pairs_together() {
    assert_eq!(Reg::A.map(), Some(HostReg::AH));
    assert_eq!(Reg::F.map(), Some(HostReg::AL));
    assert_eq!(Reg::B.map(), Some(HostReg::BH));
    assert_eq!(Reg::C.map(), Some(HostReg::BL));
    assert_eq!(Reg::D.map(), Some(HostReg::CH));
    assert_eq!(Reg::E.map(), Some(HostReg::CL));
    assert_eq!(Reg::H.map(), Some(HostReg::DH));
    assert_eq!(Reg::L.map(), Some(HostReg::DL));
    assert_eq!(Reg::HL_.map(), None);
    assert_eq!(RegPair::BC.map(), HostReg::BX);
    assert_eq!(RegPair::HL.map64(), HostReg::RDX);
    assert_eq!(RegPair::SP.map(), HostReg::DI);
    assert_eq!(RegPair::AF.map(), HostReg::AX);
}

#[test]
fn relative_jump_translates_as_absolute_jump() {
    let rel = transpile_instr_preserve_c_flag(Instruction::JR_r8(-2), MEM, 0x0100);
    let abs = transpile_instr_preserve_c_flag(Instruction::JP_a16(0x00FE), MEM, 0x0100);
    assert_eq!(rel.0, abs.0);
    assert_eq!(rel.1, abs.1);
    assert_eq!(rel.1, TranspileInstrRes::Jump { dest: 0x00FE, to_patch: 0 });
    assert_eq!(rel.0, vec![Amd64Instr::with_label(HostOp::Jmp, HostLabel::Sm83(0x00FE))]);

    let rel = transpile_instr_preserve_c_flag(Instruction::JR_c_r8(Condition::C, 5), MEM, 0xFFFE);
    let abs = transpile_instr_preserve_c_flag(Instruction::JP_c_a16(Condition::C, 0x0003), MEM, 0xFFFE);
    assert_eq!(rel.0, abs.0);
    assert_eq!(rel.1, TranspileInstrRes::Branch { cond: Condition::C, dest: 0x0003, to_patch: 0 });
}

#[test]
fn carry_neutral_instructions_keep_host_carry() {
    let neutral = [
        Instruction::INC_r(Reg::B),
        Instruction::DEC_r(Reg::HL_),
        Instruction::INC_rr(RegPair::DE),
        Instruction::DEC_rr(RegPair::SP),
        Instruction::LD_pHLi_A,
        Instruction::LD_A_pHLd,
        Instruction::PUSH_rr(RegPair::BC),
        Instruction::POP_rr(RegPair::HL),
        Instruction::CALL_a16(0x1234),
        Instruction::CALL_c_a16(Condition::NC, 0x1234),
        Instruction::RST_vector(0x38),
        Instruction::LDH_pC_A,
        Instruction::CPL,
        Instruction::LD_r_r(Reg::B, Reg::HL_),
    ];
    for i in neutral {
        let (code, res) = transpile_instr_preserve_c_flag(i, MEM, 0x0150);
        assert_ne!(res, TranspileInstrRes::Unsupported { pc: 0x0150 });
        assert!(!code.is_empty());
        for h in &code {
            assert!(!h.op.writes_carry(), "{i:?} emits {h:?}");
        }
    }
    let (code, _) = transpile_instr_preserve_c_flag(Instruction::SCF, MEM, 0);
    assert!(code[0].op.writes_carry());
}

#[test]
fn eight_bit_increments_use_host_inc() {
    let (code, res) = transpile_instr_preserve_c_flag(Instruction::INC_r(Reg::B), MEM, 0);
    assert_eq!(code, vec![op1(HostOp::Inc, Operand::Reg(HostReg::BH))]);
    assert_eq!(res, TranspileInstrRes::Fallthrough);
    let (code, _) = transpile_instr_preserve_c_flag(Instruction::DEC_r(Reg::HL_), MEM, 0);
    assert_eq!(code, vec![op1(HostOp::Dec, byte_at(Some(HostReg::RDX), 0))]);
}

#[test]
fn call_pushes_return_address_then_jumps() {
    let (code, res) = transpile_instr_preserve_c_flag(Instruction::CALL_a16(0x4000), MEM, 0x0100);
    assert_eq!(
        code,
        vec![
            lea(HostReg::DI, HostReg::RDI, 0xFFFF),
            lea(HostReg::DI, HostReg::RDI, 0xFFFF),
            op2(HostOp::Mov, word_at(Some(HostReg::RDI), 0), Operand::Imm(0x0103)),
            Amd64Instr::with_label(HostOp::Jmp, HostLabel::Sm83(0x4000)),
        ]
    );
    assert_eq!(res, TranspileInstrRes::Jump { dest: 0x4000, to_patch: 3 });
}

#[test]
fn restart_returns_past_its_single_byte() {
    let (code, res) = transpile_instr_preserve_c_flag(Instruction::RST_vector(0x28), MEM, 0x0200);
    assert_eq!(code[2], op2(HostOp::Mov, word_at(Some(HostReg::RDI), 0), Operand::Imm(0x0201)));
    assert_eq!(res, TranspileInstrRes::Jump { dest: 0x0028, to_patch: 3 });
    let (code, _) = transpile_instr_preserve_c_flag(Instruction::CALL_a16(0x10), MEM, 0xFFFE);
    assert_eq!(code[2], op2(HostOp::Mov, word_at(Some(HostReg::RDI), 0), Operand::Imm(0x0001)));
}

#[test]
fn conditional_call_skips_on_negated_condition() {
    let (code, res) =
        transpile_instr_preserve_c_flag(Instruction::CALL_c_a16(Condition::C, 0x4000), MEM, 0x0100);
    assert_eq!(code.len(), 5);
    assert_eq!(code[0], Amd64Instr::with_label(HostOp::Jnc, HostLabel::Skip(4)));
    assert_eq!(code[4], Amd64Instr::with_label(HostOp::Jmp, HostLabel::Sm83(0x4000)));
    assert_eq!(res, TranspileInstrRes::Branch { cond: Condition::C, dest: 0x4000, to_patch: 4 });
}

#[test]
fn conditions_map_to_host_jumps() {
    assert_eq!(transpile_cond_jump(Condition::C), HostOp::Jc);
    assert_eq!(transpile_cond_jump(Condition::NC), HostOp::Jnc);
    assert_eq!(transpile_cond_jump(Condition::Z), HostOp::Je);
    assert_eq!(transpile_cond_jump(Condition::NZ), HostOp::Jne);
    for c in [Condition::NZ, Condition::Z, Condition::NC, Condition::C] {
        assert_ne!(transpile_cond_jump(c), transpile_cond_jump(c.not()));
    }
}

#[test]
fn accumulator_operations() {
    let (code, _) = transpile_instr_preserve_c_flag(
        Instruction::Alu_A_RegOrNum(AluBlockOp::SBC, RegOrNum::Reg(Reg::C)),
        MEM,
        0,
    );
    assert_eq!(code, vec![op2(HostOp::Sbb, Operand::Reg(HostReg::AH), Operand::Reg(HostReg::BL))]);
    let (code, _) = transpile_instr_preserve_c_flag(
        Instruction::Alu_A_RegOrNum(AluBlockOp::CP, RegOrNum::Num(0x90)),
        MEM,
        0,
    );
    assert_eq!(code, vec![op2(HostOp::Cmp, Operand::Reg(HostReg::AH), Operand::Imm(0x90))]);
}

#[test]
fn memory_loads_go_through_the_base_register() {
    let (code, _) = transpile_instr_preserve_c_flag(Instruction::LDH_pa8_A(0x44), MEM, 0);
    assert_eq!(code, vec![op2(HostOp::Mov, byte_at(None, 0xFF44), Operand::Reg(HostReg::AH))]);
    let (code, _) = transpile_instr_preserve_c_flag(Instruction::LD_A_prr(RegPair::DE), MEM, 0);
    assert_eq!(code, vec![op2(HostOp::Mov, Operand::Reg(HostReg::AH), byte_at(Some(HostReg::RCX), 0))]);
    let (code, _) = transpile_instr_preserve_c_flag(Instruction::LD_rr_d16(RegPair::HL, 0xC000), MEM, 0);
    assert_eq!(code, vec![op2(HostOp::Mov, Operand::Reg(HostReg::DX), Operand::Imm(0xC000))]);
    let (code, _) = transpile_instr_preserve_c_flag(Instruction::POP_rr(RegPair::BC), MEM, 0);
    assert_eq!(
        code,
        vec![
            op2(HostOp::Mov, Operand::Reg(HostReg::BX), word_at(Some(HostReg::RDI), 0)),
            lea(HostReg::DI, HostReg::RDI, 1),
            lea(HostReg::DI, HostReg::RDI, 1),
        ]
    );
}

#[test]
fn swap_tests_the_result_after_rotate() {
    let (code, res) =
        transpile_instr_preserve_c_flag(Instruction::Prefix(PrefixOp::SWAP, Reg::A), MEM, 0);
    assert_eq!(
        code,
        vec![
            op2(HostOp::Rol, Operand::Reg(HostReg::AH), Operand::Imm(4)),
            op2(HostOp::Test, Operand::Reg(HostReg::AH), Operand::Imm(0xFF)),
        ]
    );
    assert_eq!(res, TranspileInstrRes::Fallthrough);
}

#[test]
fn terminating_and_unsupported_instructions_emit_nothing() {
    for (i, res) in [
        (Instruction::HALT, TranspileInstrRes::Lockup { pc: 7 }),
        (Instruction::STOP(0), TranspileInstrRes::Lockup { pc: 7 }),
        (Instruction::Invalid, TranspileInstrRes::Lockup { pc: 7 }),
        (Instruction::DAA, TranspileInstrRes::Unsupported { pc: 7 }),
        (Instruction::PUSH_rr(RegPair::AF), TranspileInstrRes::Unsupported { pc: 7 }),
        (Instruction::POP_rr(RegPair::AF), TranspileInstrRes::Unsupported { pc: 7 }),
        (Instruction::Prefix(PrefixOp::BIT(3), Reg::B), TranspileInstrRes::Unsupported { pc: 7 }),
    ] {
        let (code, r) = transpile_instr_preserve_c_flag(i, MEM, 7);
        assert!(code.is_empty());
        assert_eq!(r, res);
    }
}

#[test]
fn nop_then_jump_makes_one_block_with_one_patch() {
    let mut rom = rom_with(0x0000, &[0x00, 0xC3, 0x00, 0x02]);
    rom[0x0200] = 0x76; // HALT
    let mut ctx = Context::new(MEM);
    let j = ctx.translate_block(&rom, 0).expect("block at 0");
    assert_eq!(j, 0);
    let b = ctx.block(0);
    assert_eq!(b.start(), 0x0000);
    assert_eq!(b.end(), 0x0004);
    assert_eq!(b.patches(), &vec![Amd64Patch { index: 0, sm83_addr: 0x0200 }]);
    assert_eq!(b.instrs(), &vec![Amd64Instr::with_label(HostOp::Jmp, HostLabel::Sm83(0x0200))]);
    assert_eq!(ctx.pending_targets(), vec![0x0200]);
    assert_eq!(ctx.finish(), Err(CompileError::UnresolvedPatch(0x0200)));

    let k = ctx.translate_block(&rom, 0x0200).expect("block at 0x200");
    assert_eq!(k, 1);
    assert_eq!(ctx.pending_targets(), Vec::<u16>::new());
    assert_eq!(ctx.finish(), Ok(()));
    assert_eq!(ctx.block_index_at(0x0200), Some(1));
    assert_eq!(ctx.translate_block(&rom, 0x0200), Ok(1));
    assert_eq!(ctx.num_blocks(), 2);
}

#[test]
fn lockup_ends_the_block() {
    let rom = rom_with(0x0100, &[0x04, 0x76, 0x04, 0x04]);
    let ctx = Context::new(MEM);
    let b = transpile_block_at(&rom, 0x0100, &ctx).expect("block");
    assert_eq!(b.end(), 0x0102);
    assert!(b.patches().is_empty());
    assert_eq!(b.instrs().len(), 1);
    assert_eq!(b.exit(), TranspileInstrRes::Lockup { pc: 0x0101 });
}

#[test]
fn branch_ends_the_block_and_queues_its_fall_through() {
    // JP C,0x0200; INC B
    let rom = rom_with(0x0000, &[0xDA, 0x00, 0x02, 0x04]);
    let mut ctx = Context::new(MEM);
    ctx.translate_block(&rom, 0).expect("block");
    let b = ctx.block(0);
    assert_eq!(b.end(), 3);
    assert_eq!(b.patches(), &vec![Amd64Patch { index: 0, sm83_addr: 0x0200 }]);
    assert_eq!(b.instrs(), &vec![Amd64Instr::with_label(HostOp::Jc, HostLabel::Sm83(0x0200))]);
    assert_eq!(b.exit(), TranspileInstrRes::Branch { cond: Condition::C, dest: 0x0200, to_patch: 0 });
    assert_eq!(
        b.exits(),
        vec![Amd64Patch { index: 0, sm83_addr: 0x0200 }, Amd64Patch { index: 1, sm83_addr: 0x0003 }]
    );
    assert_eq!(ctx.pending_targets(), vec![0x0200, 0x0003]);
}

#[test]
fn jump_after_branch_is_a_block_of_its_own() {
    // JP NZ,0x0000; JP 0x0000
    let rom = rom_with(0x0000, &[0xC2, 0x00, 0x00, 0xC3, 0x00, 0x00]);
    let mut ctx = Context::new(MEM);
    assert_eq!(ctx.translate_from(&rom, 0), Ok(()));
    assert_eq!(ctx.num_blocks(), 2);
    assert_eq!(ctx.block(0).end(), 3);
    assert_eq!(ctx.block(1).start(), 3);
    assert_eq!(ctx.block(1).patches(), &vec![Amd64Patch { index: 0, sm83_addr: 0x0000 }]);
    assert!(ctx.pending_targets().is_empty());
}

#[test]
fn zero_conditions_branch_on_the_host_zero_flag() {
    let (code, res) = transpile_instr_preserve_c_flag(Instruction::JR_c_r8(Condition::NZ, 4), MEM, 0x0100);
    assert_eq!(code, vec![Amd64Instr::with_label(HostOp::Jne, HostLabel::Sm83(0x0104))]);
    assert_eq!(res, TranspileInstrRes::Branch { cond: Condition::NZ, dest: 0x0104, to_patch: 0 });
    let (code, res) =
        transpile_instr_preserve_c_flag(Instruction::CALL_c_a16(Condition::Z, 0x4000), MEM, 0x0100);
    assert_eq!(code[0], Amd64Instr::with_label(HostOp::Jne, HostLabel::Skip(4)));
    assert_eq!(res, TranspileInstrRes::Branch { cond: Condition::Z, dest: 0x4000, to_patch: 4 });
}

#[test]
fn zero_neutral_instructions_keep_host_zero() {
    let neutral = [
        Instruction::INC_rr(RegPair::DE),
        Instruction::DEC_rr(RegPair::SP),
        Instruction::LD_pHLi_A,
        Instruction::LD_A_pHLd,
        Instruction::PUSH_rr(RegPair::BC),
        Instruction::POP_rr(RegPair::HL),
        Instruction::CALL_a16(0x1234),
        Instruction::RET,
        Instruction::JP_HL,
        Instruction::CPL,
        Instruction::SCF,
    ];
    for i in neutral {
        let (code, _) = transpile_instr_preserve_c_flag(i, MEM, 0x0150);
        for h in &code {
            assert!(!h.op.writes_zero(), "{i:?} emits {h:?}");
        }
    }
    let (code, _) = transpile_instr_preserve_c_flag(Instruction::ADD_HL_rr(RegPair::BC), MEM, 0);
    assert_eq!(
        code,
        vec![
            op1(HostOp::Setz, Operand::Reg(HostReg::SIL)),
            op2(HostOp::Add, Operand::Reg(HostReg::DX), Operand::Reg(HostReg::BX)),
            op1(HostOp::Dec, Operand::Reg(HostReg::SIL)),
        ]
    );
}

#[test]
fn increments_of_pairs_step_with_lea() {
    let (code, _) = transpile_instr_preserve_c_flag(Instruction::INC_rr(RegPair::BC), MEM, 0);
    assert_eq!(code, vec![lea(HostReg::BX, HostReg::RBX, 1)]);
    let (code, _) = transpile_instr_preserve_c_flag(Instruction::DEC_rr(RegPair::HL), MEM, 0);
    assert_eq!(code, vec![lea(HostReg::DX, HostReg::RDX, 0xFFFF)]);
}

#[test]
fn rotates_set_zero_from_the_result() {
    let (code, _) = transpile_instr_preserve_c_flag(Instruction::Prefix(PrefixOp::RL, Reg::C), MEM, 0);
    assert_eq!(
        code,
        vec![
            op2(HostOp::Rcl, Operand::Reg(HostReg::BL), Operand::Imm(1)),
            op1(HostOp::Inc, Operand::Reg(HostReg::BL)),
            op1(HostOp::Dec, Operand::Reg(HostReg::BL)),
        ]
    );
    let (code, _) = transpile_instr_preserve_c_flag(Instruction::RLCA, MEM, 0);
    assert_eq!(
        code,
        vec![
            op2(HostOp::Rol, Operand::Reg(HostReg::AH), Operand::Imm(1)),
            op2(HostOp::Mov, Operand::Reg(HostReg::ESI), Operand::Imm(0)),
            op1(HostOp::Inc, Operand::Reg(HostReg::ESI)),
        ]
    );
}

#[test]
fn return_leaves_through_the_dispatcher() {
    let expected = vec![
        op2(HostOp::Movzx, Operand::Reg(HostReg::ESI), word_at(Some(HostReg::RDI), 0)),
        lea(HostReg::DI, HostReg::RDI, 1),
        lea(HostReg::DI, HostReg::RDI, 1),
        Amd64Instr::with_label(HostOp::Jmp, HostLabel::Dispatch),
    ];
    let (code, res) = transpile_instr_preserve_c_flag(Instruction::RET, MEM, 0x0100);
    assert_eq!(code, expected);
    assert_eq!(res, TranspileInstrRes::Indirect);
    let (code, res) = transpile_instr_preserve_c_flag(Instruction::RETI, MEM, 0x0100);
    assert_eq!(code, expected);
    assert_eq!(res, TranspileInstrRes::Indirect);
    let (code, res) = transpile_instr_preserve_c_flag(Instruction::RET_c(Condition::NC), MEM, 0x0100);
    assert_eq!(code[0], Amd64Instr::with_label(HostOp::Jc, HostLabel::Skip(4)));
    assert_eq!(code[1..].to_vec(), expected);
    assert_eq!(res, TranspileInstrRes::Fallthrough);
    let (code, res) = transpile_instr_preserve_c_flag(Instruction::JP_HL, MEM, 0x0100);
    assert_eq!(
        code,
        vec![
            op2(HostOp::Movzx, Operand::Reg(HostReg::ESI), Operand::Reg(HostReg::DX)),
            Amd64Instr::with_label(HostOp::Jmp, HostLabel::Dispatch),
        ]
    );
    assert_eq!(res, TranspileInstrRes::Indirect);
}

#[test]
fn stack_relative_additions_take_carry_from_bit_seven() {
    let (code, res) = transpile_instr_preserve_c_flag(Instruction::ADD_SP_r8(-2), MEM, 0);
    assert_eq!(
        code,
        vec![
            op2(HostOp::Mov, Operand::Reg(HostReg::SI), Operand::Reg(HostReg::DI)),
            op2(HostOp::Add, Operand::Reg(HostReg::SIL), Operand::Imm(0xFE)),
            lea(HostReg::DI, HostReg::RDI, 0xFFFE),
            op2(HostOp::Mov, Operand::Reg(HostReg::ESI), Operand::Imm(0)),
            op1(HostOp::Inc, Operand::Reg(HostReg::ESI)),
        ]
    );
    assert_eq!(res, TranspileInstrRes::Fallthrough);
    let (code, _) = transpile_instr_preserve_c_flag(Instruction::LD_HL_SP_r8(5), MEM, 0);
    assert_eq!(code[1], op2(HostOp::Add, Operand::Reg(HostReg::SIL), Operand::Imm(5)));
    assert_eq!(code[2], lea(HostReg::DX, HostReg::RDI, 5));
}

#[test]
fn return_ends_the_block_without_a_patch() {
    let rom = rom_with(0x0040, &[0x04, 0xC9, 0x04]);
    let mut ctx = Context::new(MEM);
    ctx.translate_block(&rom, 0x0040).expect("block");
    let b = ctx.block(0);
    assert_eq!(b.end(), 0x0042);
    assert!(b.patches().is_empty());
    assert_eq!(b.instrs().len(), 5);
    assert_eq!(b.exit(), TranspileInstrRes::Indirect);
}

#[test]
fn jump_to_own_start_resolves_at_once() {
    let rom = rom_with(0x0150, &[0x18, 0x00]);
    let mut ctx = Context::new(MEM);
    ctx.translate_block(&rom, 0x0150).expect("block");
    assert_eq!(ctx.block(0).patches(), &vec![Amd64Patch { index: 0, sm83_addr: 0x0150 }]);
    assert!(ctx.pending_targets().is_empty());
}

#[test]
fn negative_start_is_self_modifying_code() {
    let rom = rom_with(0, &[]);
    let mut ctx = Context::new(MEM);
    assert_eq!(ctx.translate_block(&rom, -1), Err(CompileError::SelfModifyingCode));
    assert_eq!(ctx.num_blocks(), 0);
}

#[test]
fn running_off_the_rom_is_self_modifying_code() {
    // NOPs up to the end of the ROM window
    let rom = rom_with(0, &[]);
    let mut ctx = Context::new(MEM);
    assert_eq!(ctx.translate_block(&rom, 0x7FF0), Err(CompileError::SelfModifyingCode));
    assert_eq!(ctx.num_blocks(), 0);
}

#[test]
fn unsupported_instruction_fails_the_block() {
    let rom = rom_with(0x0010, &[0x00, 0x27]); // DAA
    let mut ctx = Context::new(MEM);
    assert_eq!(ctx.translate_block(&rom, 0x0010), Err(CompileError::UnsupportedInstruction(0x0011)));
    assert_eq!(ctx.num_blocks(), 0);
    assert!(ctx.pending_targets().is_empty());
}

#[test]
fn region_translation_follows_every_target() {
    let mut rom = rom_with(0x0000, &[0x00, 0xC3, 0x50, 0x01]);
    rom[0x0150..0x0152].copy_from_slice(&[0x38, 0x10]); // JR C, +16 -> 0x0160
    rom[0x0152..0x0155].copy_from_slice(&[0xC3, 0x70, 0x01]); // JP 0x0170
    rom[0x0160..0x0163].copy_from_slice(&[0xC3, 0x00, 0x00]); // JP 0x0000
    rom[0x0170] = 0x76; // HALT
    let mut ctx = Context::new(MEM);
    assert_eq!(ctx.translate_from(&rom, 0), Ok(()));
    assert_eq!(ctx.num_blocks(), 5);
    assert!(ctx.pending_targets().is_empty());
    assert_eq!(ctx.block_index_at(0x0150), Some(1));
    assert_eq!(ctx.block(1).end(), 0x0152);
    assert_eq!(ctx.block_index_at(0x0160), Some(2));
    assert_eq!(ctx.block_index_at(0x0152), Some(3));
    assert_eq!(ctx.block_index_at(0x0170), Some(4));
    assert_eq!(ctx.finish(), Ok(()));
}

#[test]
fn region_translation_stops_at_an_unsupported_block() {
    let mut rom = rom_with(0x0000, &[0xC3, 0x00, 0x01]);
    rom[0x0100] = 0x27; // DAA
    let mut ctx = Context::new(MEM);
    assert_eq!(ctx.translate_from(&rom, 0), Err(CompileError::UnsupportedInstruction(0x0100)));
    assert_eq!(ctx.num_blocks(), 1);
    assert_eq!(ctx.pending_targets(), vec![0x0100]);
}

#[test]
fn region_translation_rejects_jumps_into_writable_memory() {
    let rom = rom_with(0x0000, &[0xC3, 0x00, 0xC0]);
    let mut ctx = Context::new(MEM);
    assert_eq!(ctx.translate_from(&rom, 0), Err(CompileError::SelfModifyingCode));
    assert_eq!(ctx.pending_targets(), vec![0xC000]);
}
