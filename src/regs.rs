//! The SM83 register file: eight addressable 8-bit operands, the flags
//! register, and the five 16-bit register pairs.

use vstd::prelude::*;

verus! {

/// A 16-bit operand of the source CPU.
#[derive(Debug, PartialEq, Eq, Structural, Clone, Copy)]
pub enum RegPair {
    BC,
    DE,
    HL,
    SP,
    AF,
}

/// An 8-bit operand of the source CPU. `HL_` is the pseudo-register that
/// denotes the byte at the address held in `HL`; `F` is the flags register,
/// which no 3-bit operand field can name.
#[allow(non_camel_case_types)]
#[derive(Debug, PartialEq, Eq, Structural, Clone, Copy)]
pub enum Reg {
    B,
    C,
    D,
    E,
    H,
    L,
    HL_,
    A,
    F,
}

/// Which half of its pair a register is.
#[derive(Debug, PartialEq, Eq, Structural, Clone, Copy)]
pub enum HalfPair {
    Neither,
    Top,
    Bottom,
}

/// The decomposition of a pair into its (high, low) registers.
pub open spec fn parts_of(p: RegPair) -> Option<(Reg, Reg)> {
    match p {
        RegPair::SP => None,
        RegPair::AF => Some((Reg::A, Reg::F)),
        RegPair::BC => Some((Reg::B, Reg::C)),
        RegPair::DE => Some((Reg::D, Reg::E)),
        RegPair::HL => Some((Reg::H, Reg::L)),
    }
}

/// The pair a register belongs to, if any.
pub open spec fn pair_of(r: Reg) -> Option<RegPair> {
    match r {
        Reg::HL_ => None,
        Reg::A | Reg::F => Some(RegPair::AF),
        Reg::B | Reg::C => Some(RegPair::BC),
        Reg::D | Reg::E => Some(RegPair::DE),
        Reg::H | Reg::L => Some(RegPair::HL),
    }
}

/// The documented position of a register within its pair.
pub open spec fn half_of(r: Reg) -> HalfPair {
    match r {
        Reg::B | Reg::D | Reg::H | Reg::A => HalfPair::Top,
        Reg::C | Reg::E | Reg::L | Reg::F => HalfPair::Bottom,
        Reg::HL_ => HalfPair::Neither,
    }
}

/// The value of the 3-bit operand field that selects a register; `F` has none.
pub open spec fn reg_code(r: Reg) -> Option<nat> {
    match r {
        Reg::B => Some(0),
        Reg::C => Some(1),
        Reg::D => Some(2),
        Reg::E => Some(3),
        Reg::H => Some(4),
        Reg::L => Some(5),
        Reg::HL_ => Some(6),
        Reg::A => Some(7),
        Reg::F => None,
    }
}

/// The value of the 2-bit field of the {BC, DE, HL, SP} group that selects a pair.
pub open spec fn pair_code_hl_sp(p: RegPair) -> Option<nat> {
    match p {
        RegPair::BC => Some(0),
        RegPair::DE => Some(1),
        RegPair::HL => Some(2),
        RegPair::SP => Some(3),
        RegPair::AF => None,
    }
}

/// The register named by a 3-bit operand field (total on 0..8).
pub open spec fn reg_by_code(n: nat) -> Reg
    recommends
        n < 8,
{
    if n == 0 {
        Reg::B
    } else if n == 1 {
        Reg::C
    } else if n == 2 {
        Reg::D
    } else if n == 3 {
        Reg::E
    } else if n == 4 {
        Reg::H
    } else if n == 5 {
        Reg::L
    } else if n == 6 {
        Reg::HL_
    } else {
        Reg::A
    }
}

/// The pair named by a 2-bit field of the {BC, DE, HL, SP} group (total on 0..4).
pub open spec fn pair_by_code_hl_sp(n: nat) -> RegPair
    recommends
        n < 4,
{
    if n == 0 {
        RegPair::BC
    } else if n == 1 {
        RegPair::DE
    } else if n == 2 {
        RegPair::HL
    } else {
        RegPair::SP
    }
}

/// The printed name of a register.
pub open spec fn reg_name(r: Reg) -> Seq<char> {
    match r {
        Reg::B => seq!['B'],
        Reg::C => seq!['C'],
        Reg::D => seq!['D'],
        Reg::E => seq!['E'],
        Reg::H => seq!['H'],
        Reg::L => seq!['L'],
        Reg::HL_ => seq!['[', 'H', 'L', ']'],
        Reg::A => seq!['A'],
        Reg::F => seq!['F'],
    }
}

impl RegPair {
    /// The (high, low) registers of the pair; `None` for `SP`.
    pub fn parts(self) -> (r: Option<(Reg, Reg)>)
        ensures
            r == parts_of(self),
    {
        match self {
            RegPair::SP => None,
            RegPair::AF => Some((Reg::A, Reg::F)),
            RegPair::BC => Some((Reg::B, Reg::C)),
            RegPair::DE => Some((Reg::D, Reg::E)),
            RegPair::HL => Some((Reg::H, Reg::L)),
        }
    }

    /// The pair that the 2-bit field `n` selects in the {BC, DE, HL, SP} group.
    pub fn by_num_group_hl_sp(n: u8) -> (r: Option<RegPair>)
        ensures
            match r {
                Some(p) => pair_code_hl_sp(p) == Some(n as nat),
                None => n >= 4,
            },
    {
        match n {
            0 => Some(RegPair::BC),
            1 => Some(RegPair::DE),
            2 => Some(RegPair::HL),
            3 => Some(RegPair::SP),
            _ => None,
        }
    }
}

impl Reg {
    /// The pair this register is half of; `None` for the `[HL]` pseudo-register.
    pub fn pair(self) -> (r: Option<RegPair>)
        ensures
            r == pair_of(self),
    {
        match self {
            Reg::HL_ => None,
            Reg::A | Reg::F => Some(RegPair::AF),
            Reg::B | Reg::C => Some(RegPair::BC),
            Reg::D | Reg::E => Some(RegPair::DE),
            Reg::H | Reg::L => Some(RegPair::HL),
        }
    }

    /// The register that the 3-bit operand field `n` selects.
    pub fn by_num(n: u8) -> (r: Option<Reg>)
        ensures
            match r {
                Some(x) => reg_code(x) == Some(n as nat),
                None => n >= 8,
            },
    {
        match n {
            0 => Some(Reg::B),
            1 => Some(Reg::C),
            2 => Some(Reg::D),
            3 => Some(Reg::E),
            4 => Some(Reg::H),
            5 => Some(Reg::L),
            6 => Some(Reg::HL_),
            7 => Some(Reg::A),
            _ => None,
        }
    }

    /// The register's printed name.
    pub fn name(self) -> (r: &'static str)
        ensures
            r@ == reg_name(self),
    {
        match self {
            Reg::B => {
                proof { reveal_strlit("B"); }
                "B"
            },
            Reg::C => {
                proof { reveal_strlit("C"); }
                "C"
            },
            Reg::D => {
                proof { reveal_strlit("D"); }
                "D"
            },
            Reg::E => {
                proof { reveal_strlit("E"); }
                "E"
            },
            Reg::H => {
                proof { reveal_strlit("H"); }
                "H"
            },
            Reg::L => {
                proof { reveal_strlit("L"); }
                "L"
            },
            Reg::HL_ => {
                proof { reveal_strlit("[HL]"); }
                "[HL]"
            },
            Reg::A => {
                proof { reveal_strlit("A"); }
                "A"
            },
            Reg::F => {
                proof { reveal_strlit("F"); }
                "F"
            },
        }
    }
}

/// Pairing is symmetric: a register that belongs to a pair appears in that
/// pair's decomposition, in the high slot when it is the top half and in the
/// low slot when it is the bottom half.
pub proof fn lemma_pair_contains_register(r: Reg)
    ensures
        pair_of(r) matches Some(p) ==> {
            &&& parts_of(p) matches Some((h, l))
            &&& half_of(r) == HalfPair::Top ==> h == r
            &&& half_of(r) == HalfPair::Bottom ==> l == r
            &&& half_of(r) != HalfPair::Neither
        },
        pair_of(r) is None <==> half_of(r) == HalfPair::Neither,
{
}

/// Pairing is symmetric the other way round: both registers of a pair's
/// decomposition name that pair, the first as top half and the second as
/// bottom half.
pub proof fn lemma_parts_name_their_pair(p: RegPair)
    ensures
        parts_of(p) matches Some((h, l)) ==> {
            &&& pair_of(h) == Some(p)
            &&& pair_of(l) == Some(p)
            &&& half_of(h) == HalfPair::Top
            &&& half_of(l) == HalfPair::Bottom
        },
        parts_of(p) is None <==> p == RegPair::SP,
{
}

/// Operand fields round-trip: each register that a 3-bit field can name is
/// named by exactly its own code.
pub proof fn lemma_reg_code_round_trip(r: Reg)
    ensures
        reg_code(r) matches Some(n) ==> n < 8 && reg_by_code(n) == r,
        reg_code(r) is None <==> r == Reg::F,
{
}

} // verus!
