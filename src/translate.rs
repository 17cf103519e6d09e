//! Translation of one SM83 instruction into symbolic host instructions.
//!
//! Flag strategy: the SM83 zero and carry flags live in the host zero and
//! carry flags. An instruction that the SM83 documents as setting one of
//! them is translated with host operations that leave the host flag equal
//! to the SM83 one; an instruction documented as leaving one alone is
//! translated with host operations that leave that host flag alone, or
//! that save it to `SIL` first and restore it from there last (`ADD HL`).
//! The flag-free idioms used are `lea` for 16-bit steps (the 16-bit
//! destination wraps as the SM83 does), `inc`/`dec` of the result to set
//! the zero flag while keeping carry, and `mov esi, 0; inc esi` to clear
//! the zero flag while keeping carry. The half-carry and subtract flags are
//! not kept in host state: `DAA`, which reads them, and pushing or popping
//! `AF`, which would have to materialise them in the flags byte, are
//! reported as unsupported, as are the bit test/reset/set operations.
//!
//! Return convention: a call leaves its SM83 return address on the
//! emulated stack (see `call_code`). A return loads the 16-bit value at
//! the emulated stack pointer into `ESI`, raises the stack pointer by two,
//! one step at a time, and jumps to the dispatcher, which finds the block
//! of the SM83 address in `ESI`; `JP (HL)` hands `HL` to the dispatcher
//! the same way. `RETI` returns as `RET` does, since interrupts are not
//! emulated.
//!
//! Register use: the pairs live in `AX`, `BX`, `CX`, `DX` and the stack
//! pointer in `DI` (see `host`); `ESI` and its views are scratch; the
//! emulated memory is addressed from the base register passed in.

use vstd::prelude::*;

use crate::host::{
    Amd64Instr, HostLabel, HostOp, HostReg, MemSize, Operand, host_instr, host_jump, mem_base_ok,
    pair_binding, pair_binding64, reg_binding, writes_carry, writes_zero,
};
use crate::instructions::{
    AluBlockOp, Condition, Instruction, PrefixOp, RegOrNum, cond_holds, cond_not,
};
use crate::regs::{Reg, RegPair};

verus! {

/// What control does after a translated instruction.
#[derive(Debug, PartialEq, Eq, Structural, Clone, Copy)]
pub enum TranspileInstrRes {
    /// Execution falls through to the next instruction.
    Fallthrough,
    /// A conditional transfer to the SM83 address `dest`; the host
    /// instruction at index `to_patch` jumps to it. When the condition does
    /// not hold, execution goes on at the next SM83 instruction, which the
    /// block builder starts a block of its own.
    Branch { cond: Condition, dest: u16, to_patch: usize },
    /// An unconditional transfer, likewise.
    Jump { dest: u16, to_patch: usize },
    /// An unconditional transfer to an address known only at run time
    /// (`RET`, `RETI`, `JP (HL)`): the code leaves through the dispatcher.
    Indirect,
    /// Execution stops here (`HALT`, `STOP`, an invalid opcode).
    Lockup { pc: u16 },
    /// No translation rule exists for the instruction at `pc`; no host
    /// code is emitted.
    Unsupported { pc: u16 },
}

/// The SM83 address `pc + d`, wrapping within the 16-bit address space.
pub open spec fn rel_target(pc: u16, d: i8) -> u16 {
    ((pc as int + d as int) % 65536) as u16
}

/// The SM83 address `pc + n`, wrapping within the 16-bit address space.
pub open spec fn addr_after(pc: u16, n: nat) -> u16 {
    ((pc as nat + n) % 65536) as u16
}

/// Relative jumps rewritten into the absolute jumps with the same target.
pub open spec fn normalized(i: Instruction, pc: u16) -> Instruction {
    match i {
        Instruction::JR_r8(d) => Instruction::JP_a16(rel_target(pc, d)),
        Instruction::JR_c_r8(c, d) => Instruction::JP_c_a16(c, rel_target(pc, d)),
        _ => i,
    }
}

/// The host jump that is taken when a condition holds.
pub open spec fn cond_jump(c: Condition) -> HostOp {
    match c {
        Condition::NZ => HostOp::Jne,
        Condition::Z => HostOp::Je,
        Condition::NC => HostOp::Jnc,
        Condition::C => HostOp::Jc,
    }
}

/// Whether a host conditional jump is taken for given values of the host
/// zero and carry flags.
pub open spec fn host_taken(op: HostOp, zf: bool, cf: bool) -> bool {
    match op {
        HostOp::Je => zf,
        HostOp::Jne => !zf,
        HostOp::Jc => cf,
        HostOp::Jnc => !cf,
        _ => false,
    }
}

/// A register operand.
pub open spec fn reg(r: HostReg) -> Operand {
    Operand::Reg(r)
}

/// The byte at `mem + index + disp`.
pub open spec fn mem8(mem: HostReg, index: Option<HostReg>, disp: u16) -> Operand {
    Operand::Mem { size: MemSize::Byte, base: mem, index, disp }
}

/// The word at `mem + index + disp`.
pub open spec fn mem16(mem: HostReg, index: Option<HostReg>, disp: u16) -> Operand {
    Operand::Mem { size: MemSize::Word, base: mem, index, disp }
}

/// The accumulator's host register.
pub open spec fn acc() -> Operand {
    Operand::Reg(HostReg::AH)
}

/// Where an 8-bit operand lives: its bound register, or for `[HL]` the
/// byte of emulated memory that `HL` addresses.
pub open spec fn loc8(r: Reg, mem: HostReg) -> Operand {
    match reg_binding(r) {
        Some(h) => Operand::Reg(h),
        None => mem8(mem, Some(HostReg::RDX), 0),
    }
}

/// `op dst, src`.
pub open spec fn op2(op: HostOp, dst: Operand, src: Operand) -> Amd64Instr {
    host_instr(op, Some(dst), Some(src))
}

/// `op dst`.
pub open spec fn op1(op: HostOp, dst: Operand) -> Amd64Instr {
    host_instr(op, Some(dst), None)
}

/// `op` with no operand.
pub open spec fn op0(op: HostOp) -> Amd64Instr {
    host_instr(op, None, None)
}

/// `lea dst, [base + disp]`: a 16-bit `dst` receives `base + disp` modulo
/// 2^16, and no flag changes.
pub open spec fn lea16(dst: HostReg, base: HostReg, disp: u16) -> Amd64Instr {
    op2(HostOp::Lea, reg(dst), mem16(base, None, disp))
}

/// Clears the zero flag and keeps carry.
pub open spec fn clear_zero() -> Seq<Amd64Instr> {
    seq![op2(HostOp::Mov, reg(HostReg::ESI), Operand::Imm(0)), op1(HostOp::Inc, reg(HostReg::ESI))]
}

/// The host operation of an accumulator operation.
pub open spec fn alu_host_op(op: AluBlockOp) -> HostOp {
    match op {
        AluBlockOp::ADD => HostOp::Add,
        AluBlockOp::ADC => HostOp::Adc,
        AluBlockOp::SUB => HostOp::Sub,
        AluBlockOp::SBC => HostOp::Sbb,
        AluBlockOp::AND => HostOp::And,
        AluBlockOp::XOR => HostOp::Xor,
        AluBlockOp::OR => HostOp::Or,
        AluBlockOp::CP => HostOp::Cmp,
    }
}

/// The host rotate or shift by one of a prefixed rotate or shift.
pub open spec fn rot_host_op(op: PrefixOp) -> HostOp {
    match op {
        PrefixOp::RLC => HostOp::Rol,
        PrefixOp::RRC => HostOp::Ror,
        PrefixOp::RL => HostOp::Rcl,
        PrefixOp::RR => HostOp::Rcr,
        PrefixOp::SLA => HostOp::Sal,
        PrefixOp::SRA => HostOp::Sar,
        _ => HostOp::Shr,
    }
}

/// A call: lower the emulated stack pointer by two, one step at a time,
/// store the SM83 return address there, and jump.
pub open spec fn call_code(mem: HostReg, target: u16, ret: u16) -> Seq<Amd64Instr> {
    seq![
        lea16(HostReg::DI, HostReg::RDI, 0xFFFF),
        lea16(HostReg::DI, HostReg::RDI, 0xFFFF),
        op2(HostOp::Mov, mem16(mem, Some(HostReg::RDI), 0), Operand::Imm(ret)),
        host_jump(HostOp::Jmp, HostLabel::Sm83(target)),
    ]
}

/// A return: load the SM83 return address from the emulated stack into
/// `ESI`, raise the stack pointer by two, one step at a time, and leave
/// through the dispatcher.
pub open spec fn ret_code(mem: HostReg) -> Seq<Amd64Instr> {
    seq![
        op2(HostOp::Movzx, reg(HostReg::ESI), mem16(mem, Some(HostReg::RDI), 0)),
        lea16(HostReg::DI, HostReg::RDI, 1),
        lea16(HostReg::DI, HostReg::RDI, 1),
        host_jump(HostOp::Jmp, HostLabel::Dispatch),
    ]
}

/// `SP + d` into `dst`, with carry out of bit 7 of the low byte and the
/// zero flag cleared, as the stack-relative additions define them.
pub open spec fn sp_plus_code(dst: HostReg, d: i8) -> Seq<Amd64Instr> {
    seq![
        op2(HostOp::Mov, reg(HostReg::SI), reg(HostReg::DI)),
        op2(HostOp::Add, reg(HostReg::SIL), Operand::Imm(d as u8 as u16)),
        lea16(dst, HostReg::RDI, d as i16 as u16),
    ] + clear_zero()
}

/// The host code of an instruction at SM83 address `pc`, with the emulated
/// memory based at `mem`. Empty where the disposition is `Lockup` or
/// `Unsupported`.
pub open spec fn host_code(i: Instruction, mem: HostReg, pc: u16) -> Seq<Amd64Instr> {
    let a = acc();
    match normalized(i, pc) {
        Instruction::LD_pa16_SP(x) => seq![op2(HostOp::Mov, mem16(mem, None, x), reg(HostReg::DI))],
        Instruction::LD_rr_d16(rr, d) => seq![op2(HostOp::Mov, reg(pair_binding(rr)), Operand::Imm(d))],
        Instruction::ADD_HL_rr(rr) => seq![
            op1(HostOp::Setz, reg(HostReg::SIL)),
            op2(HostOp::Add, reg(HostReg::DX), reg(pair_binding(rr))),
            op1(HostOp::Dec, reg(HostReg::SIL)),
        ],
        Instruction::LD_prr_A(rr) => seq![op2(HostOp::Mov, mem8(mem, Some(pair_binding64(rr)), 0), a)],
        Instruction::LD_A_prr(rr) => seq![op2(HostOp::Mov, a, mem8(mem, Some(pair_binding64(rr)), 0))],
        Instruction::LD_pHLi_A => seq![
            op2(HostOp::Mov, mem8(mem, Some(HostReg::RDX), 0), a),
            lea16(HostReg::DX, HostReg::RDX, 1),
        ],
        Instruction::LD_A_pHLi => seq![
            op2(HostOp::Mov, a, mem8(mem, Some(HostReg::RDX), 0)),
            lea16(HostReg::DX, HostReg::RDX, 1),
        ],
        Instruction::LD_pHLd_A => seq![
            op2(HostOp::Mov, mem8(mem, Some(HostReg::RDX), 0), a),
            lea16(HostReg::DX, HostReg::RDX, 0xFFFF),
        ],
        Instruction::LD_A_pHLd => seq![
            op2(HostOp::Mov, a, mem8(mem, Some(HostReg::RDX), 0)),
            lea16(HostReg::DX, HostReg::RDX, 0xFFFF),
        ],
        Instruction::INC_rr(rr) => seq![lea16(pair_binding(rr), pair_binding64(rr), 1)],
        Instruction::DEC_rr(rr) => seq![lea16(pair_binding(rr), pair_binding64(rr), 0xFFFF)],
        Instruction::INC_r(r) => seq![op1(HostOp::Inc, loc8(r, mem))],
        Instruction::DEC_r(r) => seq![op1(HostOp::Dec, loc8(r, mem))],
        Instruction::LD_r_d8(r, d) => seq![op2(HostOp::Mov, loc8(r, mem), Operand::Imm(d as u16))],
        Instruction::RLCA => seq![op2(HostOp::Rol, a, Operand::Imm(1))] + clear_zero(),
        Instruction::RRCA => seq![op2(HostOp::Ror, a, Operand::Imm(1))] + clear_zero(),
        Instruction::RLA => seq![op2(HostOp::Rcl, a, Operand::Imm(1))] + clear_zero(),
        Instruction::RRA => seq![op2(HostOp::Rcr, a, Operand::Imm(1))] + clear_zero(),
        Instruction::CPL => seq![op1(HostOp::Not, a)],
        Instruction::SCF => seq![op0(HostOp::Stc)],
        Instruction::CCF => seq![op0(HostOp::Cmc)],
        Instruction::LD_r_r(x, y) => seq![op2(HostOp::Mov, loc8(x, mem), loc8(y, mem))],
        Instruction::Alu_A_RegOrNum(op, RegOrNum::Reg(r)) => seq![op2(alu_host_op(op), a, loc8(r, mem))],
        Instruction::Alu_A_RegOrNum(op, RegOrNum::Num(d)) => seq![op2(alu_host_op(op), a, Operand::Imm(d as u16))],
        Instruction::RET_c(c) => seq![host_jump(cond_jump(cond_not(c)), HostLabel::Skip(4))] + ret_code(mem),
        Instruction::RET | Instruction::RETI => ret_code(mem),
        Instruction::JP_HL => seq![
            op2(HostOp::Movzx, reg(HostReg::ESI), reg(HostReg::DX)),
            host_jump(HostOp::Jmp, HostLabel::Dispatch),
        ],
        Instruction::LDH_pa8_A(x) => seq![op2(HostOp::Mov, mem8(mem, None, (0xff00 + x) as u16), a)],
        Instruction::LDH_A_pa8(x) => seq![op2(HostOp::Mov, a, mem8(mem, None, (0xff00 + x) as u16))],
        Instruction::ADD_SP_r8(d) => sp_plus_code(HostReg::DI, d),
        Instruction::LD_HL_SP_r8(d) => sp_plus_code(HostReg::DX, d),
        Instruction::POP_rr(rr) => if rr == RegPair::AF {
            seq![]
        } else {
            seq![
                op2(HostOp::Mov, reg(pair_binding(rr)), mem16(mem, Some(HostReg::RDI), 0)),
                lea16(HostReg::DI, HostReg::RDI, 1),
                lea16(HostReg::DI, HostReg::RDI, 1),
            ]
        },
        Instruction::PUSH_rr(rr) => if rr == RegPair::AF {
            seq![]
        } else {
            seq![
                lea16(HostReg::DI, HostReg::RDI, 0xFFFF),
                lea16(HostReg::DI, HostReg::RDI, 0xFFFF),
                op2(HostOp::Mov, mem16(mem, Some(HostReg::RDI), 0), reg(pair_binding(rr))),
            ]
        },
        Instruction::LD_SP_HL => seq![op2(HostOp::Mov, reg(HostReg::DI), reg(HostReg::DX))],
        Instruction::LDH_pC_A => seq![
            op2(HostOp::Movzx, reg(HostReg::ESI), reg(HostReg::BL)),
            op2(HostOp::Mov, mem8(mem, Some(HostReg::RSI), 0xff00), a),
        ],
        Instruction::LDH_A_pC => seq![
            op2(HostOp::Movzx, reg(HostReg::ESI), reg(HostReg::BL)),
            op2(HostOp::Mov, a, mem8(mem, Some(HostReg::RSI), 0xff00)),
        ],
        Instruction::LD_pa16_A(x) => seq![op2(HostOp::Mov, mem8(mem, None, x), a)],
        Instruction::LD_A_pa16(x) => seq![op2(HostOp::Mov, a, mem8(mem, None, x))],
        Instruction::Prefix(op, r) => match op {
            PrefixOp::SWAP => seq![
                op2(HostOp::Rol, loc8(r, mem), Operand::Imm(4)),
                op2(HostOp::Test, loc8(r, mem), Operand::Imm(0xFF)),
            ],
            PrefixOp::RLC | PrefixOp::RRC | PrefixOp::RL | PrefixOp::RR => seq![
                op2(rot_host_op(op), loc8(r, mem), Operand::Imm(1)),
                op1(HostOp::Inc, loc8(r, mem)),
                op1(HostOp::Dec, loc8(r, mem)),
            ],
            PrefixOp::BIT(_) | PrefixOp::RES(_) | PrefixOp::SET(_) => seq![],
            _ => seq![op2(rot_host_op(op), loc8(r, mem), Operand::Imm(1))],
        },
        Instruction::JP_a16(x) => seq![host_jump(HostOp::Jmp, HostLabel::Sm83(x))],
        Instruction::JP_c_a16(c, x) => seq![host_jump(cond_jump(c), HostLabel::Sm83(x))],
        Instruction::CALL_a16(x) => call_code(mem, x, addr_after(pc, 3)),
        Instruction::CALL_c_a16(c, x) => seq![host_jump(cond_jump(cond_not(c)), HostLabel::Skip(4))]
            + call_code(mem, x, addr_after(pc, 3)),
        Instruction::RST_vector(v) => call_code(mem, v as u16, addr_after(pc, 1)),
        _ => seq![],
    }
}

/// The disposition of an instruction at SM83 address `pc`.
pub open spec fn disposition(i: Instruction, pc: u16) -> TranspileInstrRes {
    match normalized(i, pc) {
        Instruction::Invalid | Instruction::HALT | Instruction::STOP(_) => TranspileInstrRes::Lockup {
            pc,
        },
        Instruction::DAA => TranspileInstrRes::Unsupported { pc },
        Instruction::RET | Instruction::RETI | Instruction::JP_HL => TranspileInstrRes::Indirect,
        Instruction::POP_rr(rr) => if rr == RegPair::AF {
            TranspileInstrRes::Unsupported { pc }
        } else {
            TranspileInstrRes::Fallthrough
        },
        Instruction::PUSH_rr(rr) => if rr == RegPair::AF {
            TranspileInstrRes::Unsupported { pc }
        } else {
            TranspileInstrRes::Fallthrough
        },
        Instruction::Prefix(op, _) => match op {
            PrefixOp::BIT(_) | PrefixOp::RES(_) | PrefixOp::SET(_) => TranspileInstrRes::Unsupported {
                pc,
            },
            _ => TranspileInstrRes::Fallthrough,
        },
        Instruction::JP_a16(x) => TranspileInstrRes::Jump { dest: x, to_patch: 0 },
        Instruction::JP_c_a16(c, x) => TranspileInstrRes::Branch { cond: c, dest: x, to_patch: 0 },
        Instruction::CALL_a16(x) => TranspileInstrRes::Jump { dest: x, to_patch: 3 },
        Instruction::CALL_c_a16(c, x) => TranspileInstrRes::Branch { cond: c, dest: x, to_patch: 4 },
        Instruction::RST_vector(v) => TranspileInstrRes::Jump { dest: v as u16, to_patch: 3 },
        _ => TranspileInstrRes::Fallthrough,
    }
}

/// `pc + d`, wrapping within the 16-bit address space.
fn relative_target(pc: u16, d: i8) -> (r: u16)
    ensures
        r == rel_target(pc, d),
{
    let t: i32 = pc as i32 + d as i32;
    if t < 0 {
        (t + 65536) as u16
    } else if t >= 65536 {
        (t - 65536) as u16
    } else {
        t as u16
    }
}

/// `pc + n`, wrapping within the 16-bit address space.
fn address_after(pc: u16, n: u16) -> (r: u16)
    requires
        n <= 3,
    ensures
        r == addr_after(pc, n as nat),
{
    let t: u32 = pc as u32 + n as u32;
    if t >= 65536 {
        (t - 65536) as u16
    } else {
        t as u16
    }
}

/// Rewrites a relative jump into the absolute jump with the same target.
fn normalize(instr: Instruction, pc: u16) -> (r: Instruction)
    ensures
        r == normalized(instr, pc),
{
    match instr {
        Instruction::JR_r8(d) => Instruction::JP_a16(relative_target(pc, d)),
        Instruction::JR_c_r8(c, d) => Instruction::JP_c_a16(c, relative_target(pc, d)),
        _ => instr,
    }
}

fn ins2(op: HostOp, dst: Operand, src: Operand) -> (r: Amd64Instr)
    ensures
        r == op2(op, dst, src),
{
    Amd64Instr::new(op, Some(dst), Some(src))
}

fn ins1(op: HostOp, dst: Operand) -> (r: Amd64Instr)
    ensures
        r == op1(op, dst),
{
    Amd64Instr::new(op, Some(dst), None)
}

fn ins0(op: HostOp) -> (r: Amd64Instr)
    ensures
        r == op0(op),
{
    Amd64Instr::new(op, None, None)
}

fn lea(dst: HostReg, base: HostReg, disp: u16) -> (r: Amd64Instr)
    ensures
        r == lea16(dst, base, disp),
{
    ins2(HostOp::Lea, Operand::Reg(dst), word_at(base, None, disp))
}

fn byte_at(mem: HostReg, index: Option<HostReg>, disp: u16) -> (r: Operand)
    ensures
        r == mem8(mem, index, disp),
{
    Operand::Mem { size: MemSize::Byte, base: mem, index, disp }
}

fn word_at(mem: HostReg, index: Option<HostReg>, disp: u16) -> (r: Operand)
    ensures
        r == mem16(mem, index, disp),
{
    Operand::Mem { size: MemSize::Word, base: mem, index, disp }
}

fn operand8(r: Reg, mem: HostReg) -> (o: Operand)
    ensures
        o == loc8(r, mem),
{
    match r.map() {
        Some(h) => Operand::Reg(h),
        None => byte_at(mem, Some(HostReg::RDX), 0),
    }
}

fn alu_op(op: AluBlockOp) -> (r: HostOp)
    ensures
        r == alu_host_op(op),
{
    match op {
        AluBlockOp::ADD => HostOp::Add,
        AluBlockOp::ADC => HostOp::Adc,
        AluBlockOp::SUB => HostOp::Sub,
        AluBlockOp::SBC => HostOp::Sbb,
        AluBlockOp::AND => HostOp::And,
        AluBlockOp::XOR => HostOp::Xor,
        AluBlockOp::OR => HostOp::Or,
        AluBlockOp::CP => HostOp::Cmp,
    }
}

/// `first` followed by `rest`.
fn then(first: Vec<Amd64Instr>, rest: Vec<Amd64Instr>) -> (r: Vec<Amd64Instr>)
    ensures
        r@ == first@ + rest@,
{
    let mut code = first;
    let mut rest = rest;
    code.append(&mut rest);
    code
}

fn clear_zero_instrs() -> (r: Vec<Amd64Instr>)
    ensures
        r@ == clear_zero(),
{
    vec![
        ins2(HostOp::Mov, Operand::Reg(HostReg::ESI), Operand::Imm(0)),
        ins1(HostOp::Inc, Operand::Reg(HostReg::ESI)),
    ]
}

fn call_instrs(mem: HostReg, target: u16, ret: u16) -> (r: Vec<Amd64Instr>)
    ensures
        r@ == call_code(mem, target, ret),
{
    vec![
        lea(HostReg::DI, HostReg::RDI, 0xFFFF),
        lea(HostReg::DI, HostReg::RDI, 0xFFFF),
        ins2(HostOp::Mov, word_at(mem, Some(HostReg::RDI), 0), Operand::Imm(ret)),
        Amd64Instr::with_label(HostOp::Jmp, HostLabel::Sm83(target)),
    ]
}

fn ret_instrs(mem: HostReg) -> (r: Vec<Amd64Instr>)
    ensures
        r@ == ret_code(mem),
{
    vec![
        ins2(HostOp::Movzx, Operand::Reg(HostReg::ESI), word_at(mem, Some(HostReg::RDI), 0)),
        lea(HostReg::DI, HostReg::RDI, 1),
        lea(HostReg::DI, HostReg::RDI, 1),
        Amd64Instr::with_label(HostOp::Jmp, HostLabel::Dispatch),
    ]
}

fn sp_plus_instrs(dst: HostReg, d: i8) -> (r: Vec<Amd64Instr>)
    ensures
        r@ == sp_plus_code(dst, d),
{
    then(
        vec![
            ins2(HostOp::Mov, Operand::Reg(HostReg::SI), Operand::Reg(HostReg::DI)),
            ins2(HostOp::Add, Operand::Reg(HostReg::SIL), Operand::Imm(d as u8 as u16)),
            lea(dst, HostReg::RDI, d as i16 as u16),
        ],
        clear_zero_instrs(),
    )
}

/// The host jump taken exactly when the condition `c` holds, with the
/// SM83 zero and carry flags held in the host ones.
pub fn transpile_cond_jump(c: Condition) -> (r: HostOp)
    ensures
        r == cond_jump(c),
        forall|zf: bool, cf: bool| host_taken(r, zf, cf) == cond_holds(c, zf, cf),
{
    match c {
        Condition::NZ => HostOp::Jne,
        Condition::Z => HostOp::Je,
        Condition::NC => HostOp::Jnc,
        Condition::C => HostOp::Jc,
    }
}

/// The translation of a prefixed rotate, shift or bit operation.
fn transpile_prefix(op: PrefixOp, r: Reg, mem: HostReg, pc: u16) -> (res: (
    Vec<Amd64Instr>,
    TranspileInstrRes,
))
    ensures
        res.0@ == host_code(Instruction::Prefix(op, r), mem, pc),
        res.1 == disposition(Instruction::Prefix(op, r), pc),
{
    let target = operand8(r, mem);
    let fall = TranspileInstrRes::Fallthrough;
    match op {
        // rotates leave the zero flag alone: set it from the result with a
        // step up and back, which keeps carry
        PrefixOp::RLC => (
            vec![ins2(HostOp::Rol, target, Operand::Imm(1)), ins1(HostOp::Inc, target), ins1(HostOp::Dec, target)],
            fall,
        ),
        PrefixOp::RRC => (
            vec![ins2(HostOp::Ror, target, Operand::Imm(1)), ins1(HostOp::Inc, target), ins1(HostOp::Dec, target)],
            fall,
        ),
        PrefixOp::RL => (
            vec![ins2(HostOp::Rcl, target, Operand::Imm(1)), ins1(HostOp::Inc, target), ins1(HostOp::Dec, target)],
            fall,
        ),
        PrefixOp::RR => (
            vec![ins2(HostOp::Rcr, target, Operand::Imm(1)), ins1(HostOp::Inc, target), ins1(HostOp::Dec, target)],
            fall,
        ),
        PrefixOp::SLA => (vec![ins2(HostOp::Sal, target, Operand::Imm(1))], fall),
        PrefixOp::SRA => (vec![ins2(HostOp::Sar, target, Operand::Imm(1))], fall),
        PrefixOp::SRL => (vec![ins2(HostOp::Shr, target, Operand::Imm(1))], fall),
        // the SM83 clears carry after a swap and sets zero from the result
        PrefixOp::SWAP => (
            vec![ins2(HostOp::Rol, target, Operand::Imm(4)), ins2(HostOp::Test, target, Operand::Imm(0xFF))],
            fall,
        ),
        PrefixOp::BIT(_) | PrefixOp::RES(_) | PrefixOp::SET(_) => (
            vec![],
            TranspileInstrRes::Unsupported { pc },
        ),
    }
}

/// The translation of a jump, call, restart or return.
fn transpile_transfer(instr: Instruction, mem: HostReg, pc: u16) -> (res: (
    Vec<Amd64Instr>,
    TranspileInstrRes,
))
    requires
        instr is JP_a16 || instr is JP_c_a16 || instr is CALL_a16 || instr is CALL_c_a16
            || instr is RST_vector || instr is RET || instr is RETI || instr is RET_c
            || instr is JP_HL,
    ensures
        res.0@ == host_code(instr, mem, pc),
        res.1 == disposition(instr, pc),
{
    match instr {
        Instruction::JP_a16(x) => (
            vec![Amd64Instr::with_label(HostOp::Jmp, HostLabel::Sm83(x))],
            TranspileInstrRes::Jump { dest: x, to_patch: 0 },
        ),
        Instruction::JP_c_a16(c, x) => (
            vec![Amd64Instr::with_label(transpile_cond_jump(c), HostLabel::Sm83(x))],
            TranspileInstrRes::Branch { cond: c, dest: x, to_patch: 0 },
        ),
        Instruction::CALL_a16(x) => (
            call_instrs(mem, x, address_after(pc, 3)),
            TranspileInstrRes::Jump { dest: x, to_patch: 3 },
        ),
        Instruction::CALL_c_a16(c, x) => {
            // skip the call when the condition does not hold
            let skip = vec![Amd64Instr::with_label(transpile_cond_jump(c.not()), HostLabel::Skip(4))];
            (
                then(skip, call_instrs(mem, x, address_after(pc, 3))),
                TranspileInstrRes::Branch { cond: c, dest: x, to_patch: 4 },
            )
        },
        Instruction::RST_vector(v) => (
            call_instrs(mem, v as u16, address_after(pc, 1)),
            TranspileInstrRes::Jump { dest: v as u16, to_patch: 3 },
        ),
        Instruction::RET_c(c) => {
            let skip = vec![Amd64Instr::with_label(transpile_cond_jump(c.not()), HostLabel::Skip(4))];
            (then(skip, ret_instrs(mem)), TranspileInstrRes::Fallthrough)
        },
        Instruction::JP_HL => (
            vec![
                ins2(HostOp::Movzx, Operand::Reg(HostReg::ESI), Operand::Reg(HostReg::DX)),
                Amd64Instr::with_label(HostOp::Jmp, HostLabel::Dispatch),
            ],
            TranspileInstrRes::Indirect,
        ),
        // RET, RETI; the precondition excludes the rest
        _ => (ret_instrs(mem), TranspileInstrRes::Indirect),
    }
}

/// Translates the instruction at SM83 address `pc` into host code, with the
/// emulated memory based at the host register `mem_reg`. Relative jumps are
/// first rewritten into absolute ones. A jump to an SM83 address is emitted
/// against the label of that address, and the disposition gives the index
/// of that jump within the returned code.
#[verifier::rlimit(60)]
#[verifier::spinoff_prover]
pub fn transpile_instr_preserve_c_flag(instr: Instruction, mem_reg: HostReg, pc: u16) -> (r: (
    Vec<Amd64Instr>,
    TranspileInstrRes,
))
    requires
        mem_base_ok(mem_reg),
    ensures
        r.0@ == host_code(instr, mem_reg, pc),
        r.1 == disposition(instr, pc),
{
    let mem = mem_reg;
    let a = Operand::Reg(HostReg::AH);
    let fall = TranspileInstrRes::Fallthrough;
    let instr = normalize(instr, pc);
    match instr {
        Instruction::NOP | Instruction::DI | Instruction::EI => (vec![], fall),
        Instruction::Invalid | Instruction::HALT | Instruction::STOP(_) => (
            vec![],
            TranspileInstrRes::Lockup { pc },
        ),
        Instruction::DAA => (vec![], TranspileInstrRes::Unsupported { pc }),
        // rewritten into absolute jumps above
        Instruction::JR_r8(_) | Instruction::JR_c_r8(_, _) => (vec![], TranspileInstrRes::Unsupported { pc }),
        Instruction::LD_pa16_SP(x) => (
            vec![ins2(HostOp::Mov, word_at(mem, None, x), Operand::Reg(HostReg::DI))],
            fall,
        ),
        Instruction::LD_rr_d16(rr, d) => (
            vec![ins2(HostOp::Mov, Operand::Reg(rr.map()), Operand::Imm(d))],
            fall,
        ),
        // the SM83 leaves the zero flag alone here: keep it in SIL around
        // the add, and restore it by a decrement, which keeps carry
        Instruction::ADD_HL_rr(rr) => (
            vec![
                ins1(HostOp::Setz, Operand::Reg(HostReg::SIL)),
                ins2(HostOp::Add, Operand::Reg(HostReg::DX), Operand::Reg(rr.map())),
                ins1(HostOp::Dec, Operand::Reg(HostReg::SIL)),
            ],
            fall,
        ),
        Instruction::LD_prr_A(rr) => (vec![ins2(HostOp::Mov, byte_at(mem, Some(rr.map64()), 0), a)], fall),
        Instruction::LD_A_prr(rr) => (vec![ins2(HostOp::Mov, a, byte_at(mem, Some(rr.map64()), 0))], fall),
        Instruction::LD_pHLi_A => (
            vec![
                ins2(HostOp::Mov, byte_at(mem, Some(HostReg::RDX), 0), a),
                lea(HostReg::DX, HostReg::RDX, 1),
            ],
            fall,
        ),
        Instruction::LD_A_pHLi => (
            vec![
                ins2(HostOp::Mov, a, byte_at(mem, Some(HostReg::RDX), 0)),
                lea(HostReg::DX, HostReg::RDX, 1),
            ],
            fall,
        ),
        Instruction::LD_pHLd_A => (
            vec![
                ins2(HostOp::Mov, byte_at(mem, Some(HostReg::RDX), 0), a),
                lea(HostReg::DX, HostReg::RDX, 0xFFFF),
            ],
            fall,
        ),
        Instruction::LD_A_pHLd => (
            vec![
                ins2(HostOp::Mov, a, byte_at(mem, Some(HostReg::RDX), 0)),
                lea(HostReg::DX, HostReg::RDX, 0xFFFF),
            ],
            fall,
        ),
        Instruction::INC_rr(rr) => (vec![lea(rr.map(), rr.map64(), 1)], fall),
        Instruction::DEC_rr(rr) => (vec![lea(rr.map(), rr.map64(), 0xFFFF)], fall),
        Instruction::INC_r(r) => (vec![ins1(HostOp::Inc, operand8(r, mem))], fall),
        Instruction::DEC_r(r) => (vec![ins1(HostOp::Dec, operand8(r, mem))], fall),
        Instruction::LD_r_d8(r, d) => (
            vec![ins2(HostOp::Mov, operand8(r, mem), Operand::Imm(d as u16))],
            fall,
        ),
        Instruction::RLCA => (then(vec![ins2(HostOp::Rol, a, Operand::Imm(1))], clear_zero_instrs()), fall),
        Instruction::RRCA => (then(vec![ins2(HostOp::Ror, a, Operand::Imm(1))], clear_zero_instrs()), fall),
        Instruction::RLA => (then(vec![ins2(HostOp::Rcl, a, Operand::Imm(1))], clear_zero_instrs()), fall),
        Instruction::RRA => (then(vec![ins2(HostOp::Rcr, a, Operand::Imm(1))], clear_zero_instrs()), fall),
        Instruction::CPL => (vec![ins1(HostOp::Not, a)], fall),
        Instruction::SCF => (vec![ins0(HostOp::Stc)], fall),
        Instruction::CCF => (vec![ins0(HostOp::Cmc)], fall),
        Instruction::LD_r_r(x, y) => (vec![ins2(HostOp::Mov, operand8(x, mem), operand8(y, mem))], fall),
        Instruction::Alu_A_RegOrNum(op, operand) => {
            let src = match operand {
                RegOrNum::Reg(r) => operand8(r, mem),
                RegOrNum::Num(d) => Operand::Imm(d as u16),
            };
            (vec![ins2(alu_op(op), a, src)], fall)
        },
        Instruction::LDH_pa8_A(x) => (
            vec![ins2(HostOp::Mov, byte_at(mem, None, 0xff00 + x as u16), a)],
            fall,
        ),
        Instruction::LDH_A_pa8(x) => (
            vec![ins2(HostOp::Mov, a, byte_at(mem, None, 0xff00 + x as u16))],
            fall,
        ),
        Instruction::ADD_SP_r8(d) => (sp_plus_instrs(HostReg::DI, d), fall),
        Instruction::LD_HL_SP_r8(d) => (sp_plus_instrs(HostReg::DX, d), fall),
        Instruction::POP_rr(rr) => {
            if rr == RegPair::AF {
                (vec![], TranspileInstrRes::Unsupported { pc })
            } else {
                // both CPUs are little endian
                (
                    vec![
                        ins2(HostOp::Mov, Operand::Reg(rr.map()), word_at(mem, Some(HostReg::RDI), 0)),
                        lea(HostReg::DI, HostReg::RDI, 1),
                        lea(HostReg::DI, HostReg::RDI, 1),
                    ],
                    fall,
                )
            }
        },
        Instruction::PUSH_rr(rr) => {
            if rr == RegPair::AF {
                (vec![], TranspileInstrRes::Unsupported { pc })
            } else {
                (
                    vec![
                        lea(HostReg::DI, HostReg::RDI, 0xFFFF),
                        lea(HostReg::DI, HostReg::RDI, 0xFFFF),
                        ins2(HostOp::Mov, word_at(mem, Some(HostReg::RDI), 0), Operand::Reg(rr.map())),
                    ],
                    fall,
                )
            }
        },
        Instruction::LD_SP_HL => (
            vec![ins2(HostOp::Mov, Operand::Reg(HostReg::DI), Operand::Reg(HostReg::DX))],
            fall,
        ),
        Instruction::LDH_pC_A => (
            vec![
                ins2(HostOp::Movzx, Operand::Reg(HostReg::ESI), Operand::Reg(HostReg::BL)),
                ins2(HostOp::Mov, byte_at(mem, Some(HostReg::RSI), 0xff00), a),
            ],
            fall,
        ),
        Instruction::LDH_A_pC => (
            vec![
                ins2(HostOp::Movzx, Operand::Reg(HostReg::ESI), Operand::Reg(HostReg::BL)),
                ins2(HostOp::Mov, a, byte_at(mem, Some(HostReg::RSI), 0xff00)),
            ],
            fall,
        ),
        Instruction::LD_pa16_A(x) => (vec![ins2(HostOp::Mov, byte_at(mem, None, x), a)], fall),
        Instruction::LD_A_pa16(x) => (vec![ins2(HostOp::Mov, a, byte_at(mem, None, x))], fall),
        Instruction::Prefix(op, r) => transpile_prefix(op, r, mem, pc),
        Instruction::JP_a16(_) | Instruction::JP_c_a16(_, _) | Instruction::CALL_a16(_)
        | Instruction::CALL_c_a16(_, _) | Instruction::RST_vector(_) | Instruction::RET_c(_)
        | Instruction::RET | Instruction::RETI | Instruction::JP_HL => transpile_transfer(
            instr,
            mem,
            pc,
        ),
    }
}

/// Whether the SM83 documents the instruction as able to change the carry
/// flag.
pub open spec fn sm83_affects_carry(i: Instruction) -> bool {
    match i {
        Instruction::ADD_HL_rr(_) | Instruction::ADD_SP_r8(_) | Instruction::LD_HL_SP_r8(_)
        | Instruction::RLCA | Instruction::RRCA | Instruction::RLA | Instruction::RRA
        | Instruction::DAA | Instruction::SCF | Instruction::CCF | Instruction::Alu_A_RegOrNum(
            _,
            _,
        ) => true,
        Instruction::POP_rr(rr) => rr == RegPair::AF,
        Instruction::Prefix(op, _) => !(op is BIT || op is RES || op is SET),
        _ => false,
    }
}

/// Whether the SM83 documents the instruction as able to change the zero
/// flag.
pub open spec fn sm83_affects_zero(i: Instruction) -> bool {
    match i {
        Instruction::INC_r(_) | Instruction::DEC_r(_) | Instruction::Alu_A_RegOrNum(_, _)
        | Instruction::RLCA | Instruction::RRCA | Instruction::RLA | Instruction::RRA
        | Instruction::DAA | Instruction::ADD_SP_r8(_) | Instruction::LD_HL_SP_r8(_) => true,
        Instruction::Prefix(op, _) => !(op is RES || op is SET),
        Instruction::POP_rr(rr) => rr == RegPair::AF,
        _ => false,
    }
}

/// The host zero flag survives `code`: no operation in it can change the
/// flag, or the code saves it to `SIL` first, restores it from there last
/// (`dec sil` sets the flag exactly when `SIL` held 1), and writes no other
/// operation to `SIL`.
pub open spec fn zero_kept(code: Seq<Amd64Instr>) -> bool {
    ||| forall|k: int| 0 <= k < code.len() ==> !writes_zero(#[trigger] code[k].op)
    ||| {
        &&& code.len() >= 2
        &&& code[0] == op1(HostOp::Setz, reg(HostReg::SIL))
        &&& code.last() == op1(HostOp::Dec, reg(HostReg::SIL))
        &&& forall|k: int| 0 < k < code.len() - 1 ==> (#[trigger] code[k]).dst != Some(reg(HostReg::SIL))
    }
}

/// A relative jump translates exactly as the absolute jump to `pc + d`
/// (wrapping): the same host code and the same disposition, conditional or
/// not.
pub proof fn lemma_relative_jump_is_absolute(d: i8, c: Condition, mem: HostReg, pc: u16)
    ensures
        rel_target(pc, d) as int == (pc as int + d as int) % 65536,
        host_code(Instruction::JR_r8(d), mem, pc) == host_code(
            Instruction::JP_a16(rel_target(pc, d)),
            mem,
            pc,
        ),
        disposition(Instruction::JR_r8(d), pc) == disposition(
            Instruction::JP_a16(rel_target(pc, d)),
            pc,
        ),
        host_code(Instruction::JR_c_r8(c, d), mem, pc) == host_code(
            Instruction::JP_c_a16(c, rel_target(pc, d)),
            mem,
            pc,
        ),
        disposition(Instruction::JR_c_r8(c, d), pc) == disposition(
            Instruction::JP_c_a16(c, rel_target(pc, d)),
            pc,
        ),
{
}

/// An instruction that the SM83 defines as leaving carry alone is
/// translated into host operations none of which can change the host carry
/// flag.
pub proof fn lemma_carry_untouched(i: Instruction, mem: HostReg, pc: u16)
    requires
        !sm83_affects_carry(i),
    ensures
        forall|k: int|
            0 <= k < host_code(i, mem, pc).len() ==> !writes_carry(
                #[trigger] host_code(i, mem, pc)[k].op,
            ),
{
}

/// An instruction that the SM83 defines as leaving the zero flag alone is
/// translated into host code that keeps the host zero flag.
pub proof fn lemma_zero_untouched(i: Instruction, mem: HostReg, pc: u16)
    requires
        !sm83_affects_zero(i),
    ensures
        zero_kept(host_code(i, mem, pc)),
{
    let code = host_code(i, mem, pc);
    if let Instruction::ADD_HL_rr(rr) = normalized(i, pc) {
        assert(code.last() == op1(HostOp::Dec, reg(HostReg::SIL)));
    }
}

/// Conditions map to host jumps that are taken exactly when the condition
/// holds of the flags, so the jump of a negated condition is taken exactly
/// when the jump of the condition is not.
pub proof fn lemma_cond_jump_negation(c: Condition, zf: bool, cf: bool)
    ensures
        host_taken(cond_jump(c), zf, cf) == cond_holds(c, zf, cf),
        host_taken(cond_jump(cond_not(c)), zf, cf) == !host_taken(cond_jump(c), zf, cf),
{
}

/// Every transfer to an SM83 address goes through the label of that
/// address, and the disposition points at it: a jump or branch names the
/// one host instruction that carries an SM83 label, which is the last one
/// it emits; an instruction that falls through or leaves through the
/// dispatcher carries none; one that locks up or is unsupported emits
/// nothing.
pub proof fn lemma_transfer_is_labelled(i: Instruction, mem: HostReg, pc: u16)
    ensures
        ({
            let code = host_code(i, mem, pc);
            match disposition(i, pc) {
                TranspileInstrRes::Jump { dest, to_patch } => {
                    &&& to_patch == code.len() - 1
                    &&& code[to_patch as int].dest_label == Some(HostLabel::Sm83(dest))
                    &&& forall|k: int|
                        0 <= k < code.len() && k != to_patch ==> !(#[trigger] code[k].dest_label
                            matches Some(HostLabel::Sm83(_)))
                },
                TranspileInstrRes::Branch { dest, to_patch, .. } => {
                    &&& to_patch == code.len() - 1
                    &&& code[to_patch as int].dest_label == Some(HostLabel::Sm83(dest))
                    &&& forall|k: int|
                        0 <= k < code.len() && k != to_patch ==> !(#[trigger] code[k].dest_label
                            matches Some(HostLabel::Sm83(_)))
                },
                TranspileInstrRes::Fallthrough | TranspileInstrRes::Indirect => forall|k: int|
                    0 <= k < code.len() ==> !(#[trigger] code[k].dest_label matches Some(
                        HostLabel::Sm83(_),
                    )),
                _ => code.len() == 0,
            }
        }),
{
}

} // verus!
