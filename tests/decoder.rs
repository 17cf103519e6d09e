use gbtrans::{
    AluBlockOp, Condition, Instruction, PrefixOp, Reg, RegOrNum, RegPair, decode_instr, prefix,
};

#[test]
fn decodes_every_opcode_window() {
    for op in 0..=255u8 {
        for lo in [0u8, 0x01, 0x7f, 0x80, 0xff] {
            let i = decode_instr([op, lo, 0x12]);
            let len = i.len();
            assert!((1..=3).contains(&len), "opcode {op:#04x}");
        }
    }
    for second in 0..=255u8 {
        match decode_instr([0xCB, second, 0]) {
            Instruction::Prefix(op, r) => {
                assert_ne!(r, Reg::F);
                match op {
                    PrefixOp::BIT(b) | PrefixOp::RES(b) | PrefixOp::SET(b) => assert!(b < 8),
                    _ => {}
                }
            }
            other => panic!("0xCB {second:#04x} decoded to {other:?}"),
        }
    }
}

#[test]
fn load_immediate_is_little_endian() {
    assert_eq!(decode_instr([0x01, 0x34, 0x12]), Instruction::LD_rr_d16(RegPair::BC, 0x1234));
    assert_eq!(decode_instr([0x31, 0xFE, 0xFF]), Instruction::LD_rr_d16(RegPair::SP, 0xFFFE));
    assert_eq!(decode_instr([0x08, 0x00, 0xC0]), Instruction::LD_pa16_SP(0xC000));
    assert_eq!(decode_instr([0xC3, 0x50, 0x01]), Instruction::JP_a16(0x0150));
    assert_eq!(decode_instr([0xEA, 0x00, 0xFF]), Instruction::LD_pa16_A(0xFF00));
}

#[test]
fn decodes_representative_instructions() {
    assert_eq!(decode_instr([0x00, 0, 0]), Instruction::NOP);
    assert_eq!(decode_instr([0x10, 0, 0]), Instruction::STOP(0));
    assert_eq!(decode_instr([0x18, 0xFE, 0]), Instruction::JR_r8(-2));
    assert_eq!(decode_instr([0x20, 0x05, 0]), Instruction::JR_c_r8(Condition::NZ, 5));
    assert_eq!(decode_instr([0x38, 0x80, 0]), Instruction::JR_c_r8(Condition::C, -128));
    assert_eq!(decode_instr([0x09, 0, 0]), Instruction::ADD_HL_rr(RegPair::BC));
    assert_eq!(decode_instr([0x12, 0, 0]), Instruction::LD_prr_A(RegPair::DE));
    assert_eq!(decode_instr([0x0A, 0, 0]), Instruction::LD_A_prr(RegPair::BC));
    assert_eq!(decode_instr([0x22, 0, 0]), Instruction::LD_pHLi_A);
    assert_eq!(decode_instr([0x2A, 0, 0]), Instruction::LD_A_pHLi);
    assert_eq!(decode_instr([0x32, 0, 0]), Instruction::LD_pHLd_A);
    assert_eq!(decode_instr([0x3A, 0, 0]), Instruction::LD_A_pHLd);
    assert_eq!(decode_instr([0x23, 0, 0]), Instruction::INC_rr(RegPair::HL));
    assert_eq!(decode_instr([0x3B, 0, 0]), Instruction::DEC_rr(RegPair::SP));
    assert_eq!(decode_instr([0x34, 0, 0]), Instruction::INC_r(Reg::HL_));
    assert_eq!(decode_instr([0x05, 0, 0]), Instruction::DEC_r(Reg::B));
    assert_eq!(decode_instr([0x3E, 0x42, 0]), Instruction::LD_r_d8(Reg::A, 0x42));
    assert_eq!(decode_instr([0x07, 0, 0]), Instruction::RLCA);
    assert_eq!(decode_instr([0x0F, 0, 0]), Instruction::RRCA);
    assert_eq!(decode_instr([0x17, 0, 0]), Instruction::RLA);
    assert_eq!(decode_instr([0x1F, 0, 0]), Instruction::RRA);
    assert_eq!(decode_instr([0x27, 0, 0]), Instruction::DAA);
    assert_eq!(decode_instr([0x2F, 0, 0]), Instruction::CPL);
    assert_eq!(decode_instr([0x37, 0, 0]), Instruction::SCF);
    assert_eq!(decode_instr([0x3F, 0, 0]), Instruction::CCF);
    assert_eq!(decode_instr([0x76, 0, 0]), Instruction::HALT);
    assert_eq!(decode_instr([0x41, 0, 0]), Instruction::LD_r_r(Reg::B, Reg::C));
    assert_eq!(decode_instr([0x77, 0, 0]), Instruction::LD_r_r(Reg::HL_, Reg::A));
    assert_eq!(decode_instr([0xC0, 0, 0]), Instruction::RET_c(Condition::NZ));
    assert_eq!(decode_instr([0xD8, 0, 0]), Instruction::RET_c(Condition::C));
    assert_eq!(decode_instr([0xE0, 0x44, 0]), Instruction::LDH_pa8_A(0x44));
    assert_eq!(decode_instr([0xE8, 0xFF, 0]), Instruction::ADD_SP_r8(-1));
    assert_eq!(decode_instr([0xF0, 0x44, 0]), Instruction::LDH_A_pa8(0x44));
    assert_eq!(decode_instr([0xF8, 0x02, 0]), Instruction::LD_HL_SP_r8(2));
    assert_eq!(decode_instr([0xC1, 0, 0]), Instruction::POP_rr(RegPair::BC));
    assert_eq!(decode_instr([0xF1, 0, 0]), Instruction::POP_rr(RegPair::AF));
    assert_eq!(decode_instr([0xC9, 0, 0]), Instruction::RET);
    assert_eq!(decode_instr([0xD9, 0, 0]), Instruction::RETI);
    assert_eq!(decode_instr([0xE9, 0, 0]), Instruction::JP_HL);
    assert_eq!(decode_instr([0xF9, 0, 0]), Instruction::LD_SP_HL);
    assert_eq!(decode_instr([0xCA, 0x00, 0x02]), Instruction::JP_c_a16(Condition::Z, 0x0200));
    assert_eq!(decode_instr([0xE2, 0, 0]), Instruction::LDH_pC_A);
    assert_eq!(decode_instr([0xF2, 0, 0]), Instruction::LDH_A_pC);
    assert_eq!(decode_instr([0xFA, 0x34, 0x12]), Instruction::LD_A_pa16(0x1234));
    assert_eq!(decode_instr([0xF3, 0, 0]), Instruction::DI);
    assert_eq!(decode_instr([0xFB, 0, 0]), Instruction::EI);
    assert_eq!(decode_instr([0xDC, 0x00, 0x40]), Instruction::CALL_c_a16(Condition::C, 0x4000));
    assert_eq!(decode_instr([0xC5, 0, 0]), Instruction::PUSH_rr(RegPair::BC));
    assert_eq!(decode_instr([0xF5, 0, 0]), Instruction::PUSH_rr(RegPair::AF));
    assert_eq!(decode_instr([0xCD, 0x00, 0x40]), Instruction::CALL_a16(0x4000));
    assert_eq!(decode_instr([0xC7, 0, 0]), Instruction::RST_vector(0x00));
    assert_eq!(decode_instr([0xFF, 0, 0]), Instruction::RST_vector(0x38));
    assert_eq!(decode_instr([0xCB, 0x7C, 0]), Instruction::Prefix(PrefixOp::BIT(7), Reg::H));
    assert_eq!(decode_instr([0xCB, 0x37, 0]), Instruction::Prefix(PrefixOp::SWAP, Reg::A));
    assert_eq!(decode_instr([0xCB, 0x86, 0]), Instruction::Prefix(PrefixOp::RES(0), Reg::HL_));
    assert_eq!(decode_instr([0xCB, 0xFF, 0]), Instruction::Prefix(PrefixOp::SET(7), Reg::A));
    assert_eq!(decode_instr([0xCB, 0x00, 0]), Instruction::Prefix(PrefixOp::RLC, Reg::B));
}

#[test]
fn illegal_opcodes_decode_to_invalid() {
    for op in [0xD3u8, 0xDB, 0xDD, 0xE3, 0xE4, 0xEB, 0xEC, 0xED, 0xF4, 0xFC, 0xFD] {
        assert_eq!(decode_instr([op, 0, 0]), Instruction::Invalid, "opcode {op:#04x}");
    }
}

#[test]
fn alu_block_collapses_into_one_variant() {
    assert_eq!(
        decode_instr([0xC6, 0x10, 0]),
        Instruction::Alu_A_RegOrNum(AluBlockOp::ADD, RegOrNum::Num(0x10))
    );
    assert_eq!(
        decode_instr([0x80, 0, 0]),
        Instruction::Alu_A_RegOrNum(AluBlockOp::ADD, RegOrNum::Reg(Reg::B))
    );
    let ops = [
        AluBlockOp::ADD,
        AluBlockOp::ADC,
        AluBlockOp::SUB,
        AluBlockOp::SBC,
        AluBlockOp::AND,
        AluBlockOp::XOR,
        AluBlockOp::OR,
        AluBlockOp::CP,
    ];
    let regs = [Reg::B, Reg::C, Reg::D, Reg::E, Reg::H, Reg::L, Reg::HL_, Reg::A];
    for op in 0x80..0xC0u8 {
        let expected = Instruction::Alu_A_RegOrNum(
            ops[((op >> 3) & 7) as usize],
            RegOrNum::Reg(regs[(op & 7) as usize]),
        );
        assert_eq!(decode_instr([op, 0x99, 0]), expected);
    }
    for k in 0..8u8 {
        let op = 0xC6 + 8 * k;
        assert_eq!(
            decode_instr([op, 0x99, 0]),
            Instruction::Alu_A_RegOrNum(ops[k as usize], RegOrNum::Num(0x99))
        );
    }
    assert_eq!(
        decode_instr([0xFE, 0x05, 0]),
        Instruction::Alu_A_RegOrNum(AluBlockOp::CP, RegOrNum::Num(0x05))
    );
}

#[test]
fn instruction_lengths() {
    assert_eq!(Instruction::NOP.len(), 1);
    assert_eq!(Instruction::LD_pa16_SP(0).len(), 3);
    assert_eq!(Instruction::JR_r8(0).len(), 2);
    assert_eq!(Instruction::Prefix(PrefixOp::SWAP, Reg::A).len(), 2);
    assert_eq!(Instruction::Alu_A_RegOrNum(AluBlockOp::ADD, RegOrNum::Num(1)).len(), 2);
    assert_eq!(Instruction::Alu_A_RegOrNum(AluBlockOp::ADD, RegOrNum::Reg(Reg::B)).len(), 1);
    assert_eq!(Instruction::CALL_a16(0).len(), 3);
    assert_eq!(Instruction::RST_vector(0x08).len(), 1);
    assert_eq!(Instruction::Invalid.len(), 1);
}

#[test]
fn register_pairing_is_symmetric() {
    let all = [Reg::B, Reg::C, Reg::D, Reg::E, Reg::H, Reg::L, Reg::HL_, Reg::A, Reg::F];
    let tops = [Reg::B, Reg::D, Reg::H, Reg::A];
    for r in all {
        match r.pair() {
            Some(p) => {
                let (h, l) = p.parts().expect("a pair with members");
                if tops.contains(&r) {
                    assert_eq!(h, r);
                } else {
                    assert_eq!(l, r);
                }
            }
            None => assert_eq!(r, Reg::HL_),
        }
    }
    assert_eq!(RegPair::SP.parts(), None);
    assert_eq!(RegPair::AF.parts(), Some((Reg::A, Reg::F)));
    assert_eq!(RegPair::HL.parts(), Some((Reg::H, Reg::L)));
}

#[test]
fn operand_fields_select_registers() {
    assert_eq!(Reg::by_num(0), Some(Reg::B));
    assert_eq!(Reg::by_num(6), Some(Reg::HL_));
    assert_eq!(Reg::by_num(7), Some(Reg::A));
    assert_eq!(Reg::by_num(8), None);
    assert_eq!(RegPair::by_num_group_hl_sp(0), Some(RegPair::BC));
    assert_eq!(RegPair::by_num_group_hl_sp(3), Some(RegPair::SP));
    assert_eq!(RegPair::by_num_group_hl_sp(4), None);
    assert_eq!(Reg::HL_.name(), "[HL]");
    assert_eq!(Reg::A.name(), "A");
    assert_eq!(Reg::F.name(), "F");
}

#[test]
fn conditions_negate() {
    assert_eq!(Condition::NZ.not(), Condition::Z);
    assert_eq!(Condition::Z.not(), Condition::NZ);
    assert_eq!(Condition::NC.not(), Condition::C);
    assert_eq!(Condition::C.not(), Condition::NC);
}

#[test]
fn prefix_table_is_total() {
    let regs = [Reg::B, Reg::C, Reg::D, Reg::E, Reg::H, Reg::L, Reg::HL_, Reg::A];
    for b in 0..=255u8 {
        match prefix(b) {
            Instruction::Prefix(_, r) => assert_eq!(r, regs[(b & 7) as usize]),
            other => panic!("{b:#04x} decoded to {other:?}"),
        }
        assert_eq!(prefix(b), decode_instr([0xCB, b, 0]));
    }
    assert_eq!(prefix(0x46), Instruction::Prefix(PrefixOp::BIT(0), Reg::HL_));
}
