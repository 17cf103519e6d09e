//! The host side: x86-64 registers, the fixed binding of SM83 registers to
//! them, and symbolic host instructions.

use vstd::prelude::*;

use crate::regs::{Reg, RegPair, parts_of};

verus! {

/// An x86-64 general-purpose register, in one of its 8-, 16-, 32- or
/// 64-bit views.
#[derive(Debug, PartialEq, Eq, Structural, Clone, Copy)]
pub enum HostReg {
    AL,
    AH,
    BL,
    BH,
    CL,
    CH,
    DL,
    DH,
    AX,
    BX,
    CX,
    DX,
    SI,
    DI,
    SIL,
    ESI,
    RAX,
    RBX,
    RCX,
    RDX,
    RSI,
    RDI,
    RBP,
}

/// The width of a host register view in bytes.
pub open spec fn host_size(r: HostReg) -> nat {
    match r {
        HostReg::AL | HostReg::AH | HostReg::BL | HostReg::BH | HostReg::CL | HostReg::CH
        | HostReg::DL | HostReg::DH | HostReg::SIL => 1,
        HostReg::AX | HostReg::BX | HostReg::CX | HostReg::DX | HostReg::SI | HostReg::DI => 2,
        HostReg::ESI => 4,
        _ => 8,
    }
}

/// The 64-bit register of which `r` is a view.
pub open spec fn host_full(r: HostReg) -> HostReg {
    match r {
        HostReg::AL | HostReg::AH | HostReg::AX => HostReg::RAX,
        HostReg::BL | HostReg::BH | HostReg::BX => HostReg::RBX,
        HostReg::CL | HostReg::CH | HostReg::CX => HostReg::RCX,
        HostReg::DL | HostReg::DH | HostReg::DX => HostReg::RDX,
        HostReg::SI | HostReg::SIL | HostReg::ESI => HostReg::RSI,
        HostReg::DI => HostReg::RDI,
        _ => r,
    }
}

/// Whether `r` is the second byte (bits 8-15) of its 64-bit register.
pub open spec fn host_high_byte(r: HostReg) -> bool {
    r == HostReg::AH || r == HostReg::BH || r == HostReg::CH || r == HostReg::DH
}

/// Whether `r` can hold the base address of the emulated memory: a 64-bit
/// register that the binding below never uses for an SM83 register nor as
/// scratch, and that needs no REX prefix, since such a prefix rules out
/// `AH`, `BH`, `CH` and `DH` in the same instruction. Only `RBP` qualifies.
pub open spec fn mem_base_ok(r: HostReg) -> bool {
    r == HostReg::RBP
}

/// The host register bound to an 8-bit SM83 register; `[HL]` has none, it
/// is a memory access.
pub open spec fn reg_binding(r: Reg) -> Option<HostReg> {
    match r {
        Reg::A => Some(HostReg::AH),
        Reg::F => Some(HostReg::AL),
        Reg::B => Some(HostReg::BH),
        Reg::C => Some(HostReg::BL),
        Reg::D => Some(HostReg::CH),
        Reg::E => Some(HostReg::CL),
        Reg::H => Some(HostReg::DH),
        Reg::L => Some(HostReg::DL),
        Reg::HL_ => None,
    }
}

/// The 16-bit host register bound to an SM83 register pair.
pub open spec fn pair_binding(p: RegPair) -> HostReg {
    match p {
        RegPair::AF => HostReg::AX,
        RegPair::BC => HostReg::BX,
        RegPair::DE => HostReg::CX,
        RegPair::HL => HostReg::DX,
        RegPair::SP => HostReg::DI,
    }
}

/// The 64-bit host register that holds an SM83 register pair in its low
/// 16 bits, used to form memory addresses.
pub open spec fn pair_binding64(p: RegPair) -> HostReg {
    host_full(pair_binding(p))
}

impl Reg {
    /// The host register this register is bound to; `None` for `[HL]`.
    pub fn map(self) -> (r: Option<HostReg>)
        ensures
            r == reg_binding(self),
    {
        match self {
            Reg::A => Some(HostReg::AH),
            Reg::F => Some(HostReg::AL),
            Reg::B => Some(HostReg::BH),
            Reg::C => Some(HostReg::BL),
            Reg::D => Some(HostReg::CH),
            Reg::E => Some(HostReg::CL),
            Reg::H => Some(HostReg::DH),
            Reg::L => Some(HostReg::DL),
            Reg::HL_ => None,
        }
    }
}

impl RegPair {
    /// The 16-bit host register this pair is bound to.
    pub fn map(self) -> (r: HostReg)
        ensures
            r == pair_binding(self),
            host_size(r) == 2,
    {
        match self {
            RegPair::AF => HostReg::AX,
            RegPair::BC => HostReg::BX,
            RegPair::DE => HostReg::CX,
            RegPair::HL => HostReg::DX,
            RegPair::SP => HostReg::DI,
        }
    }

    /// The 64-bit host register whose low 16 bits hold this pair.
    pub fn map64(self) -> (r: HostReg)
        ensures
            r == pair_binding64(self),
            host_size(r) == 8,
    {
        match self {
            RegPair::AF => HostReg::RAX,
            RegPair::BC => HostReg::RBX,
            RegPair::DE => HostReg::RCX,
            RegPair::HL => HostReg::RDX,
            RegPair::SP => HostReg::RDI,
        }
    }
}

/// The binding keeps pairs together: the high register of every pair is
/// bound to the high byte and the low register to the low byte of the
/// same host register, the one the pair itself is bound to; and two
/// different SM83 registers never share a host register.
pub proof fn lemma_binding_keeps_pairs(p: RegPair, r1: Reg, r2: Reg)
    ensures
        parts_of(p) matches Some((h, l)) ==> {
            &&& reg_binding(h) matches Some(hh)
            &&& reg_binding(l) matches Some(hl)
            &&& host_size(hh) == 1 && host_size(hl) == 1
            &&& host_high_byte(hh) && !host_high_byte(hl)
            &&& host_full(hh) == host_full(pair_binding(p))
            &&& host_full(hl) == host_full(pair_binding(p))
        },
        host_size(pair_binding(p)) == 2,
        r1 != r2 && reg_binding(r1) is Some ==> reg_binding(r1) != reg_binding(r2),
        reg_binding(r1) is None <==> r1 == Reg::HL_,
{
}

/// The size of a memory operand.
#[derive(Debug, PartialEq, Eq, Structural, Clone, Copy)]
pub enum MemSize {
    Byte,
    Word,
}

/// An operand of a host instruction. A memory operand addresses
/// `base + index + disp`.
#[derive(Debug, PartialEq, Eq, Structural, Clone, Copy)]
pub enum Operand {
    Reg(HostReg),
    Imm(u16),
    Mem { size: MemSize, base: HostReg, index: Option<HostReg>, disp: u16 },
}

/// A host mnemonic.
#[derive(Debug, PartialEq, Eq, Structural, Clone, Copy)]
pub enum HostOp {
    Mov,
    Movzx,
    Add,
    Adc,
    Sub,
    Sbb,
    And,
    Xor,
    Or,
    Cmp,
    Inc,
    Dec,
    Not,
    Lea,
    Test,
    Setz,
    Rol,
    Ror,
    Rcl,
    Rcr,
    Sal,
    Sar,
    Shr,
    Stc,
    Cmc,
    Jmp,
    Jc,
    Jnc,
    Je,
    Jne,
}

/// Whether a host operation may change the carry flag.
pub open spec fn writes_carry(op: HostOp) -> bool {
    match op {
        HostOp::Mov | HostOp::Movzx | HostOp::Inc | HostOp::Dec | HostOp::Not | HostOp::Lea
        | HostOp::Setz | HostOp::Jmp | HostOp::Jc | HostOp::Jnc | HostOp::Je | HostOp::Jne => false,
        _ => true,
    }
}

/// Whether a host operation may change the zero flag. (Rotates leave it
/// alone; shifts by one set it from the result.)
pub open spec fn writes_zero(op: HostOp) -> bool {
    match op {
        HostOp::Add | HostOp::Adc | HostOp::Sub | HostOp::Sbb | HostOp::And | HostOp::Xor
        | HostOp::Or | HostOp::Cmp | HostOp::Inc | HostOp::Dec | HostOp::Sal | HostOp::Sar
        | HostOp::Shr | HostOp::Test => true,
        _ => false,
    }
}

impl HostOp {
    /// Whether the operation may change the host carry flag.
    pub fn writes_carry(self) -> (r: bool)
        ensures
            r == writes_carry(self),
    {
        match self {
            HostOp::Mov | HostOp::Movzx | HostOp::Inc | HostOp::Dec | HostOp::Not | HostOp::Lea
            | HostOp::Setz | HostOp::Jmp | HostOp::Jc | HostOp::Jnc | HostOp::Je | HostOp::Jne =>
                false,
            _ => true,
        }
    }

    /// Whether the operation may change the host zero flag.
    pub fn writes_zero(self) -> (r: bool)
        ensures
            r == writes_zero(self),
    {
        match self {
            HostOp::Add | HostOp::Adc | HostOp::Sub | HostOp::Sbb | HostOp::And | HostOp::Xor
            | HostOp::Or | HostOp::Cmp | HostOp::Inc | HostOp::Dec | HostOp::Sal | HostOp::Sar
            | HostOp::Shr | HostOp::Test => true,
            _ => false,
        }
    }
}

/// The target of a host jump: the host location of an SM83 address, which
/// the block builder resolves; the point just past the next `n` host
/// instructions of the same sequence; or the run-time dispatcher, which
/// looks up the block of the SM83 address held in `ESI` (a return or a
/// computed jump, whose target only the running program knows).
#[derive(Debug, PartialEq, Eq, Structural, Clone, Copy)]
pub enum HostLabel {
    Sm83(u16),
    Skip(u8),
    Dispatch,
}

/// A symbolic host instruction: a mnemonic, up to two operands and, for a
/// jump, its target label.
#[derive(Debug, PartialEq, Eq, Structural, Clone, Copy)]
pub struct Amd64Instr {
    pub op: HostOp,
    pub dst: Option<Operand>,
    pub src: Option<Operand>,
    pub dest_label: Option<HostLabel>,
}

/// The instruction `op dst, src` (either operand may be absent).
pub open spec fn host_instr(op: HostOp, dst: Option<Operand>, src: Option<Operand>) -> Amd64Instr {
    Amd64Instr { op, dst, src, dest_label: None }
}

/// The jump `op label`.
pub open spec fn host_jump(op: HostOp, label: HostLabel) -> Amd64Instr {
    Amd64Instr { op, dst: None, src: None, dest_label: Some(label) }
}

impl Amd64Instr {
    /// A non-jump instruction.
    pub fn new(op: HostOp, dst: Option<Operand>, src: Option<Operand>) -> (r: Self)
        ensures
            r == host_instr(op, dst, src),
    {
        Amd64Instr { op, dst, src, dest_label: None }
    }

    /// A jump to `dest_label`.
    pub fn with_label(op: HostOp, dest_label: HostLabel) -> (r: Self)
        ensures
            r == host_jump(op, dest_label),
    {
        Amd64Instr { op, dst: None, src: None, dest_label: Some(dest_label) }
    }
}

} // verus!
