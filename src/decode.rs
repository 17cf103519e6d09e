//! The SM83 decoder: a total function from a three-byte opcode window to
//! an [`Instruction`].
//!
//! The opcode byte is read as three octal digits `x y z` (bits 7-6, 5-3 and
//! 2-0); `y` splits further into `p` (bits 5-4) and `q` (bit 3). The tables
//! below are stated over those fields.

use vstd::prelude::*;

use crate::instructions::{
    AluBlockOp, Condition, Instruction, PrefixOp, RegOrNum, instr_wf,
};
use crate::regs::{Reg, RegPair, pair_by_code_hl_sp, reg_by_code, lemma_reg_code_round_trip};

verus! {

/// The condition selected by a 2-bit field.
pub open spec fn cond_by_code(n: nat) -> Condition {
    if n == 0 {
        Condition::NZ
    } else if n == 1 {
        Condition::Z
    } else if n == 2 {
        Condition::NC
    } else {
        Condition::C
    }
}

/// The accumulator operation selected by a 3-bit field.
pub open spec fn alu_by_code(n: nat) -> AluBlockOp {
    if n == 0 {
        AluBlockOp::ADD
    } else if n == 1 {
        AluBlockOp::ADC
    } else if n == 2 {
        AluBlockOp::SUB
    } else if n == 3 {
        AluBlockOp::SBC
    } else if n == 4 {
        AluBlockOp::AND
    } else if n == 5 {
        AluBlockOp::XOR
    } else if n == 6 {
        AluBlockOp::OR
    } else {
        AluBlockOp::CP
    }
}

/// The rotate or shift selected by a 3-bit field of the prefixed table.
pub open spec fn rot_by_code(n: nat) -> PrefixOp {
    if n == 0 {
        PrefixOp::RLC
    } else if n == 1 {
        PrefixOp::RRC
    } else if n == 2 {
        PrefixOp::RL
    } else if n == 3 {
        PrefixOp::RR
    } else if n == 4 {
        PrefixOp::SLA
    } else if n == 5 {
        PrefixOp::SRA
    } else if n == 6 {
        PrefixOp::SWAP
    } else {
        PrefixOp::SRL
    }
}

/// The pair selected by a 2-bit field of the {BC, DE, HL, AF} group.
pub open spec fn pair_by_code_hl_af(n: nat) -> RegPair {
    if n == 3 {
        RegPair::AF
    } else {
        pair_by_code_hl_sp(n)
    }
}

/// The little-endian 16-bit immediate held in two bytes.
pub open spec fn imm16(lo: u8, hi: u8) -> u16 {
    (lo as nat + 256 * (hi as nat)) as u16
}

/// The instruction that the second byte of a 0xCB-prefixed opcode selects.
pub open spec fn decoded_prefix(b: u8) -> Instruction {
    let x = (b / 64) as nat;
    let y = ((b / 8) % 8) as nat;
    let r = reg_by_code((b % 8) as nat);
    let op = if x == 0 {
        rot_by_code(y)
    } else if x == 1 {
        PrefixOp::BIT(y as u8)
    } else if x == 2 {
        PrefixOp::RES(y as u8)
    } else {
        PrefixOp::SET(y as u8)
    };
    Instruction::Prefix(op, r)
}

/// The instruction held in the opcode window `[op, lo, hi]`.
pub open spec fn decoded(op: u8, lo: u8, hi: u8) -> Instruction {
    let x = (op / 64) as nat;
    let y = ((op / 8) % 8) as nat;
    let z = (op % 8) as nat;
    let p = y / 2;
    let q = y % 2;
    let d16 = imm16(lo, hi);
    let r8 = lo as i8;
    if x == 0 {
        if z == 0 {
            if y == 0 {
                Instruction::NOP
            } else if y == 1 {
                Instruction::LD_pa16_SP(d16)
            } else if y == 2 {
                Instruction::STOP(lo)
            } else if y == 3 {
                Instruction::JR_r8(r8)
            } else {
                Instruction::JR_c_r8(cond_by_code((y - 4) as nat), r8)
            }
        } else if z == 1 {
            if q == 0 {
                Instruction::LD_rr_d16(pair_by_code_hl_sp(p), d16)
            } else {
                Instruction::ADD_HL_rr(pair_by_code_hl_sp(p))
            }
        } else if z == 2 {
            if y == 0 || y == 2 {
                Instruction::LD_prr_A(pair_by_code_hl_sp(p))
            } else if y == 1 || y == 3 {
                Instruction::LD_A_prr(pair_by_code_hl_sp(p))
            } else if y == 4 {
                Instruction::LD_pHLi_A
            } else if y == 5 {
                Instruction::LD_A_pHLi
            } else if y == 6 {
                Instruction::LD_pHLd_A
            } else {
                Instruction::LD_A_pHLd
            }
        } else if z == 3 {
            if q == 0 {
                Instruction::INC_rr(pair_by_code_hl_sp(p))
            } else {
                Instruction::DEC_rr(pair_by_code_hl_sp(p))
            }
        } else if z == 4 {
            Instruction::INC_r(reg_by_code(y))
        } else if z == 5 {
            Instruction::DEC_r(reg_by_code(y))
        } else if z == 6 {
            Instruction::LD_r_d8(reg_by_code(y), lo)
        } else if y == 0 {
            Instruction::RLCA
        } else if y == 1 {
            Instruction::RRCA
        } else if y == 2 {
            Instruction::RLA
        } else if y == 3 {
            Instruction::RRA
        } else if y == 4 {
            Instruction::DAA
        } else if y == 5 {
            Instruction::CPL
        } else if y == 6 {
            Instruction::SCF
        } else {
            Instruction::CCF
        }
    } else if x == 1 {
        if y == 6 && z == 6 {
            Instruction::HALT
        } else {
            Instruction::LD_r_r(reg_by_code(y), reg_by_code(z))
        }
    } else if x == 2 {
        Instruction::Alu_A_RegOrNum(alu_by_code(y), RegOrNum::Reg(reg_by_code(z)))
    } else if z == 0 {
        if y < 4 {
            Instruction::RET_c(cond_by_code(y))
        } else if y == 4 {
            Instruction::LDH_pa8_A(lo)
        } else if y == 5 {
            Instruction::ADD_SP_r8(r8)
        } else if y == 6 {
            Instruction::LDH_A_pa8(lo)
        } else {
            Instruction::LD_HL_SP_r8(r8)
        }
    } else if z == 1 {
        if q == 0 {
            Instruction::POP_rr(pair_by_code_hl_af(p))
        } else if p == 0 {
            Instruction::RET
        } else if p == 1 {
            Instruction::RETI
        } else if p == 2 {
            Instruction::JP_HL
        } else {
            Instruction::LD_SP_HL
        }
    } else if z == 2 {
        if y < 4 {
            Instruction::JP_c_a16(cond_by_code(y), d16)
        } else if y == 4 {
            Instruction::LDH_pC_A
        } else if y == 5 {
            Instruction::LD_pa16_A(d16)
        } else if y == 6 {
            Instruction::LDH_A_pC
        } else {
            Instruction::LD_A_pa16(d16)
        }
    } else if z == 3 {
        if y == 0 {
            Instruction::JP_a16(d16)
        } else if y == 1 {
            decoded_prefix(lo)
        } else if y == 6 {
            Instruction::DI
        } else if y == 7 {
            Instruction::EI
        } else {
            Instruction::Invalid
        }
    } else if z == 4 {
        if y < 4 {
            Instruction::CALL_c_a16(cond_by_code(y), d16)
        } else {
            Instruction::Invalid
        }
    } else if z == 5 {
        if q == 0 {
            Instruction::PUSH_rr(pair_by_code_hl_af(p))
        } else if p == 0 {
            Instruction::CALL_a16(d16)
        } else {
            Instruction::Invalid
        }
    } else if z == 6 {
        Instruction::Alu_A_RegOrNum(alu_by_code(y), RegOrNum::Num(lo))
    } else {
        Instruction::RST_vector((y * 8) as u8)
    }
}

/// The register that a 3-bit field selects.
fn reg_field(n: u8) -> (r: Reg)
    requires
        n < 8,
    ensures
        r == reg_by_code(n as nat),
{
    let r = Reg::by_num(n).unwrap();
    proof {
        lemma_reg_code_round_trip(r);
    }
    r
}

/// The pair that a 2-bit field selects in the {BC, DE, HL, SP} group.
fn pair_field(n: u8) -> (r: RegPair)
    requires
        n < 4,
    ensures
        r == pair_by_code_hl_sp(n as nat),
{
    RegPair::by_num_group_hl_sp(n).unwrap()
}

/// Decodes the instruction at the start of `inst`. Bytes past the
/// instruction's length are ignored.
pub fn decode_instr(inst: [u8; 3]) -> (r: Instruction)
    ensures
        r == decoded(inst[0], inst[1], inst[2]),
        instr_wf(r),
{
    let op: u8 = inst[0];
    let d8: u8 = inst[1];
    let d16: u16 = inst[1] as u16 + (inst[2] as u16) * 256;  // little endian
    let r8: i8 = inst[1] as i8;

    let r1 = reg_field(op / 8 % 8);
    let r2 = reg_field(op % 8);
    let rr = pair_field(op / 16 % 4);
    let c = match op / 8 % 4 {
        0 => Condition::NZ,
        1 => Condition::Z,
        2 => Condition::NC,
        _ => Condition::C,
    };
    let r = match op {
        0o000 => Instruction::NOP,
        0o010 => Instruction::LD_pa16_SP(d16),
        0o020 => Instruction::STOP(d8),
        0o030 => Instruction::JR_r8(r8),
        0o040 | 0o050 | 0o060 | 0o070 => Instruction::JR_c_r8(c, r8),
        0o001 | 0o021 | 0o041 | 0o061 => Instruction::LD_rr_d16(rr, d16),
        0o011 | 0o031 | 0o051 | 0o071 => Instruction::ADD_HL_rr(rr),
        0o002 | 0o022 => Instruction::LD_prr_A(rr),
        0o012 | 0o032 => Instruction::LD_A_prr(rr),
        0o042 => Instruction::LD_pHLi_A,
        0o052 => Instruction::LD_A_pHLi,
        0o062 => Instruction::LD_pHLd_A,
        0o072 => Instruction::LD_A_pHLd,
        0o003 | 0o023 | 0o043 | 0o063 => Instruction::INC_rr(rr),
        0o013 | 0o033 | 0o053 | 0o073 => Instruction::DEC_rr(rr),
        0o004 | 0o014 | 0o024 | 0o034 | 0o044 | 0o054 | 0o064 | 0o074 => Instruction::INC_r(r1),
        0o005 | 0o015 | 0o025 | 0o035 | 0o045 | 0o055 | 0o065 | 0o075 => Instruction::DEC_r(r1),
        0o006 | 0o016 | 0o026 | 0o036 | 0o046 | 0o056 | 0o066 | 0o076 => Instruction::LD_r_d8(
            r1,
            d8,
        ),
        0o007 => Instruction::RLCA,
        0o017 => Instruction::RRCA,
        0o027 => Instruction::RLA,
        0o037 => Instruction::RRA,
        0o047 => Instruction::DAA,
        0o057 => Instruction::CPL,
        0o067 => Instruction::SCF,
        0o077 => Instruction::CCF,
        0o166 => Instruction::HALT,
        0o100..=0o177 => Instruction::LD_r_r(r1, r2),
        0o200..=0o207 => Instruction::Alu_A_RegOrNum(AluBlockOp::ADD, RegOrNum::Reg(r2)),
        0o210..=0o217 => Instruction::Alu_A_RegOrNum(AluBlockOp::ADC, RegOrNum::Reg(r2)),
        0o220..=0o227 => Instruction::Alu_A_RegOrNum(AluBlockOp::SUB, RegOrNum::Reg(r2)),
        0o230..=0o237 => Instruction::Alu_A_RegOrNum(AluBlockOp::SBC, RegOrNum::Reg(r2)),
        0o240..=0o247 => Instruction::Alu_A_RegOrNum(AluBlockOp::AND, RegOrNum::Reg(r2)),
        0o250..=0o257 => Instruction::Alu_A_RegOrNum(AluBlockOp::XOR, RegOrNum::Reg(r2)),
        0o260..=0o267 => Instruction::Alu_A_RegOrNum(AluBlockOp::OR, RegOrNum::Reg(r2)),
        0o270..=0o277 => Instruction::Alu_A_RegOrNum(AluBlockOp::CP, RegOrNum::Reg(r2)),
        0o300 | 0o310 | 0o320 | 0o330 => Instruction::RET_c(c),
        0o340 => Instruction::LDH_pa8_A(d8),
        0o350 => Instruction::ADD_SP_r8(r8),
        0o360 => Instruction::LDH_A_pa8(d8),
        0o370 => Instruction::LD_HL_SP_r8(r8),
        0o301 | 0o321 | 0o341 => Instruction::POP_rr(rr),
        0o361 => Instruction::POP_rr(RegPair::AF),
        0o311 => Instruction::RET,
        0o331 => Instruction::RETI,
        0o351 => Instruction::JP_HL,
        0o371 => Instruction::LD_SP_HL,
        0o302 | 0o312 | 0o322 | 0o332 => Instruction::JP_c_a16(c, d16),
        0o342 => Instruction::LDH_pC_A,
        0o352 => Instruction::LD_pa16_A(d16),
        0o362 => Instruction::LDH_A_pC,
        0o372 => Instruction::LD_A_pa16(d16),
        0o303 => Instruction::JP_a16(d16),
        0o313 => prefix(d8),
        0o323 | 0o333 | 0o343 | 0o353 | 0o344 | 0o354 | 0o364 | 0o374 | 0o335 | 0o355
        | 0o375 => Instruction::Invalid,
        0o363 => Instruction::DI,
        0o373 => Instruction::EI,
        0o304 | 0o314 | 0o324 | 0o334 => Instruction::CALL_c_a16(c, d16),
        0o305 | 0o325 | 0o345 => Instruction::PUSH_rr(rr),
        0o365 => Instruction::PUSH_rr(RegPair::AF),
        0o315 => Instruction::CALL_a16(d16),
        0o306 => Instruction::Alu_A_RegOrNum(AluBlockOp::ADD, RegOrNum::Num(d8)),
        0o316 => Instruction::Alu_A_RegOrNum(AluBlockOp::ADC, RegOrNum::Num(d8)),
        0o326 => Instruction::Alu_A_RegOrNum(AluBlockOp::SUB, RegOrNum::Num(d8)),
        0o336 => Instruction::Alu_A_RegOrNum(AluBlockOp::SBC, RegOrNum::Num(d8)),
        0o346 => Instruction::Alu_A_RegOrNum(AluBlockOp::AND, RegOrNum::Num(d8)),
        0o356 => Instruction::Alu_A_RegOrNum(AluBlockOp::XOR, RegOrNum::Num(d8)),
        0o366 => Instruction::Alu_A_RegOrNum(AluBlockOp::OR, RegOrNum::Num(d8)),
        0o376 => Instruction::Alu_A_RegOrNum(AluBlockOp::CP, RegOrNum::Num(d8)),
        0o307 | 0o317 | 0o327 | 0o337 | 0o347 | 0o357 | 0o367 | 0o377 => Instruction::RST_vector(
            op % 0o100 / 8 * 8,
        ),
    };
    r
}

/// Decodes the second byte of a 0xCB-prefixed opcode.
pub fn prefix(inst: u8) -> (r: Instruction)
    ensures
        r == decoded_prefix(inst),
        instr_wf(r),
{
    let r = reg_field(inst % 8);
    let bit: u8 = inst / 8 % 8;

    let op = match inst {
        0o00..=0o07 => PrefixOp::RLC,
        0o10..=0o17 => PrefixOp::RRC,
        0o20..=0o27 => PrefixOp::RL,
        0o30..=0o37 => PrefixOp::RR,
        0o40..=0o47 => PrefixOp::SLA,
        0o50..=0o57 => PrefixOp::SRA,
        0o60..=0o67 => PrefixOp::SWAP,
        0o70..=0o77 => PrefixOp::SRL,
        0o100..=0o177 => PrefixOp::BIT(bit),
        0o200..=0o277 => PrefixOp::RES(bit),
        0o300..=0o377 => PrefixOp::SET(bit),
    };

    Instruction::Prefix(op, r)
}

/// Every opcode window decodes to a structurally valid instruction: the
/// decoder is total over all 256 first bytes and, under the 0xCB prefix,
/// over all 256 second bytes.
pub proof fn lemma_decode_total(op: u8, lo: u8, hi: u8)
    ensures
        instr_wf(decoded(op, lo, hi)),
        instr_wf(decoded_prefix(lo)),
{
}

/// The arithmetic block collapses into one variant: each of the 64 opcodes
/// 0x80..=0xBF applies the operation of bits 3-5 (ADD, ADC, SUB, SBC, AND,
/// XOR, OR, CP in that order) to the register of bits 0-2, each of the
/// eight opcodes 0xC6, 0xCE, ..., 0xFE applies the operation of bits 3-5
/// to the immediate byte, and no other opcode decodes to that variant.
pub proof fn lemma_alu_block(op: u8, lo: u8, hi: u8)
    ensures
        0x80 <= op < 0xC0 ==> decoded(op, lo, hi) == Instruction::Alu_A_RegOrNum(
            alu_by_code(((op / 8) % 8) as nat),
            RegOrNum::Reg(reg_by_code((op % 8) as nat)),
        ),
        op >= 0xC0 && op % 8 == 6 ==> decoded(op, lo, hi) == Instruction::Alu_A_RegOrNum(
            alu_by_code(((op / 8) % 8) as nat),
            RegOrNum::Num(lo),
        ),
        decoded(op, lo, hi) is Alu_A_RegOrNum ==> (0x80 <= op < 0xC0 || (op >= 0xC0 && op % 8
            == 6)),
{
}

} // verus!
