//! The semantic instruction type that the decoder produces and the
//! translator consumes.

use vstd::prelude::*;

use crate::regs::{Reg, RegPair};

verus! {

/// A branch condition over the zero and carry flags.
#[derive(Debug, PartialEq, Eq, Structural, Clone, Copy)]
pub enum Condition {
    NZ,
    Z,
    NC,
    C,
}

/// The logical negation of a condition.
pub open spec fn cond_not(c: Condition) -> Condition {
    match c {
        Condition::NZ => Condition::Z,
        Condition::Z => Condition::NZ,
        Condition::NC => Condition::C,
        Condition::C => Condition::NC,
    }
}

/// Whether a condition holds for given values of the zero and carry flags.
pub open spec fn cond_holds(c: Condition, zero: bool, carry: bool) -> bool {
    match c {
        Condition::NZ => !zero,
        Condition::Z => zero,
        Condition::NC => !carry,
        Condition::C => carry,
    }
}

impl Condition {
    /// The condition that holds exactly when `self` does not.
    pub fn not(self) -> (r: Self)
        ensures
            r == cond_not(self),
            forall|z: bool, c: bool| cond_holds(r, z, c) == !cond_holds(self, z, c),
    {
        match self {
            Condition::NZ => Condition::Z,
            Condition::Z => Condition::NZ,
            Condition::NC => Condition::C,
            Condition::C => Condition::NC,
        }
    }
}

/// The operations of the 0xCB-prefixed table. The bit operations carry the
/// bit index 0..8.
#[derive(Debug, PartialEq, Eq, Structural, Clone, Copy)]
pub enum PrefixOp {
    RLC,
    RRC,
    RL,
    RR,
    SLA,
    SRA,
    SWAP,
    SRL,
    BIT(u8),
    RES(u8),
    SET(u8),
}

/// The eight accumulator operations of the arithmetic block.
#[derive(Debug, PartialEq, Eq, Structural, Clone, Copy)]
pub enum AluBlockOp {
    ADD,
    ADC,
    SUB,
    SBC,
    AND,
    XOR,
    OR,
    CP,
}

/// The second operand of an accumulator operation.
#[derive(Debug, PartialEq, Eq, Structural, Clone, Copy)]
pub enum RegOrNum {
    Reg(Reg),
    Num(u8),
}

/// One decoded SM83 instruction.
#[allow(non_camel_case_types)]
#[derive(Debug, PartialEq, Eq, Structural, Clone, Copy)]
pub enum Instruction {
    NOP,
    LD_pa16_SP(u16),
    STOP(u8),
    JR_r8(i8),
    JR_c_r8(Condition, i8),
    LD_rr_d16(RegPair, u16),
    ADD_HL_rr(RegPair),
    LD_prr_A(RegPair),
    LD_A_prr(RegPair),
    LD_pHLi_A,
    LD_A_pHLi,
    LD_pHLd_A,
    LD_A_pHLd,
    INC_rr(RegPair),
    DEC_rr(RegPair),
    INC_r(Reg),
    DEC_r(Reg),
    LD_r_d8(Reg, u8),
    RLCA,
    RRCA,
    RLA,
    RRA,
    DAA,
    CPL,
    SCF,
    CCF,
    HALT,
    LD_r_r(Reg, Reg),
    Alu_A_RegOrNum(AluBlockOp, RegOrNum),
    RET_c(Condition),
    LDH_pa8_A(u8),
    ADD_SP_r8(i8),
    LDH_A_pa8(u8),
    LD_HL_SP_r8(i8),
    POP_rr(RegPair),
    RET,
    RETI,
    JP_HL,
    LD_SP_HL,
    JP_c_a16(Condition, u16),
    LDH_pC_A,
    LD_pa16_A(u16),
    LDH_A_pC,
    LD_A_pa16(u16),
    JP_a16(u16),
    Prefix(PrefixOp, Reg),
    Invalid,
    DI,
    EI,
    CALL_c_a16(Condition, u16),
    PUSH_rr(RegPair),
    CALL_a16(u16),
    RST_vector(u8),
}

/// A register that a 3-bit operand field can name (every one but `F`).
pub open spec fn operand_reg(r: Reg) -> bool {
    r != Reg::F
}

/// A pair of the {BC, DE, HL, SP} group.
pub open spec fn group_hl_sp(p: RegPair) -> bool {
    p != RegPair::AF
}

/// A pair of the {BC, DE, HL, AF} group that push and pop address.
pub open spec fn group_hl_af(p: RegPair) -> bool {
    p != RegPair::SP
}

/// The structural validity of an instruction: every operand is one that
/// the encoding can express.
pub open spec fn instr_wf(i: Instruction) -> bool {
    match i {
        Instruction::LD_rr_d16(p, _) => group_hl_sp(p),
        Instruction::ADD_HL_rr(p) => group_hl_sp(p),
        Instruction::LD_prr_A(p) => p == RegPair::BC || p == RegPair::DE,
        Instruction::LD_A_prr(p) => p == RegPair::BC || p == RegPair::DE,
        Instruction::INC_rr(p) => group_hl_sp(p),
        Instruction::DEC_rr(p) => group_hl_sp(p),
        Instruction::INC_r(r) => operand_reg(r),
        Instruction::DEC_r(r) => operand_reg(r),
        Instruction::LD_r_d8(r, _) => operand_reg(r),
        Instruction::LD_r_r(a, b) => operand_reg(a) && operand_reg(b) && !(a == Reg::HL_
            && b == Reg::HL_),
        Instruction::Alu_A_RegOrNum(_, RegOrNum::Reg(r)) => operand_reg(r),
        Instruction::POP_rr(p) => group_hl_af(p),
        Instruction::PUSH_rr(p) => group_hl_af(p),
        Instruction::Prefix(op, r) => operand_reg(r) && match op {
            PrefixOp::BIT(b) => b < 8,
            PrefixOp::RES(b) => b < 8,
            PrefixOp::SET(b) => b < 8,
            _ => true,
        },
        Instruction::RST_vector(v) => v % 8 == 0 && v < 64,
        _ => true,
    }
}

/// The number of bytes an instruction occupies in its encoding.
pub open spec fn instr_len(i: Instruction) -> nat {
    match i {
        Instruction::LD_pa16_SP(_)
        | Instruction::LD_rr_d16(_, _)
        | Instruction::JP_c_a16(_, _)
        | Instruction::LD_pa16_A(_)
        | Instruction::LD_A_pa16(_)
        | Instruction::JP_a16(_)
        | Instruction::CALL_c_a16(_, _)
        | Instruction::CALL_a16(_) => 3,
        Instruction::STOP(_)
        | Instruction::JR_r8(_)
        | Instruction::JR_c_r8(_, _)
        | Instruction::LD_r_d8(_, _)
        | Instruction::Alu_A_RegOrNum(_, RegOrNum::Num(_))
        | Instruction::LDH_pa8_A(_)
        | Instruction::ADD_SP_r8(_)
        | Instruction::LDH_A_pa8(_)
        | Instruction::LD_HL_SP_r8(_)
        | Instruction::Prefix(_, _) => 2,
        _ => 1,
    }
}

impl Instruction {
    /// The encoded length of the instruction in bytes (1, 2 or 3).
    pub fn len(&self) -> (r: u16)
        ensures
            r as nat == instr_len(*self),
            1 <= r <= 3,
    {
        match self {
            Instruction::LD_pa16_SP(_)
            | Instruction::LD_rr_d16(_, _)
            | Instruction::JP_c_a16(_, _)
            | Instruction::LD_pa16_A(_)
            | Instruction::LD_A_pa16(_)
            | Instruction::JP_a16(_)
            | Instruction::CALL_c_a16(_, _)
            | Instruction::CALL_a16(_) => 3,
            Instruction::STOP(_)
            | Instruction::JR_r8(_)
            | Instruction::JR_c_r8(_, _)
            | Instruction::LD_r_d8(_, _)
            | Instruction::Alu_A_RegOrNum(_, RegOrNum::Num(_))
            | Instruction::LDH_pa8_A(_)
            | Instruction::ADD_SP_r8(_)
            | Instruction::LDH_A_pa8(_)
            | Instruction::LD_HL_SP_r8(_)
            | Instruction::Prefix(_, _) => 2,
            _ => 1,
        }
    }
}

} // verus!
