//! The instruction vocabulary of the Hack machine language: load (A-type)
//! instructions, compute (C-type) instructions, and label pseudo-instructions,
//! together with the fixed bit codes of the destination, computation and jump
//! mnemonics.
use vstd::prelude::*;

verus! {

/// One parsed instruction.
#[derive(Debug, Clone, PartialEq, Eq)]
pub enum Instr {
    /// A-instruction: load a value or a symbol's address into the A register.
    A(Load),
    /// C-instruction: compute, optionally store and/or jump.
    C { dest: CDest, comp: Comp, jump: Jump },
    /// Pseudo-instruction binding a name to the next real instruction's address.
    Label(String),
}

/// The operand of a load instruction.
#[derive(Debug, Clone, PartialEq, Eq)]
pub enum Load {
    Symbol(String),
    Value(u16),
}

/// The destination part of a C-instruction: which of A, M and D receive
/// the computed value.
#[derive(Debug, Clone, Copy, PartialEq, Eq, Structural)]
pub enum CDest {
    NoDest,
    M,
    D,
    MD,
    A,
    AM,
    AD,
    AMD,
}

/// The jump part of a C-instruction.
#[derive(Debug, Clone, Copy, PartialEq, Eq, Structural)]
pub enum Jump {
    NoJump,
    JGT,
    JEQ,
    JGE,
    JLT,
    JNE,
    JLE,
    JMP,
}

/// The computation part of a C-instruction. The names spell the formula:
/// `DPlusA` is `D+A`, `NotM` is `!M`, and so on.
#[derive(Debug, Clone, Copy, PartialEq, Eq, Structural)]
pub enum Comp {
    Zero,
    One,
    MinusOne,
    D,
    A,
    NotD,
    NotA,
    MinusD,
    MinusA,
    DPlusOne,
    APlusOne,
    DMinusOne,
    AMinusOne,
    DPlusA,
    DMinusA,
    AMinusD,
    DAndA,
    DOrA,
    M,
    NotM,
    MinusM,
    MPlusOne,
    MMinusOne,
    DPlusM,
    DMinusM,
    MMinusD,
    DAndM,
    DOrM,
}

/// Mathematical image of a `Load`: the symbol text as a sequence of characters.
pub enum LoadV {
    Symbol(Seq<char>),
    Value(u16),
}

/// Mathematical image of an `Instr`.
pub enum InstrV {
    A(LoadV),
    C { dest: CDest, comp: Comp, jump: Jump },
    Label(Seq<char>),
}

impl View for Load {
    type V = LoadV;

    open spec fn view(&self) -> LoadV {
        match self {
            Load::Symbol(s) => LoadV::Symbol(s@),
            Load::Value(v) => LoadV::Value(*v),
        }
    }
}

impl DeepView for Load {
    type V = LoadV;

    open spec fn deep_view(&self) -> LoadV {
        self.view()
    }
}

impl View for Instr {
    type V = InstrV;

    open spec fn view(&self) -> InstrV {
        match self {
            Instr::A(l) => InstrV::A(l@),
            Instr::C { dest, comp, jump } => InstrV::C { dest: *dest, comp: *comp, jump: *jump },
            Instr::Label(s) => InstrV::Label(s@),
        }
    }
}

impl DeepView for Instr {
    type V = InstrV;

    open spec fn deep_view(&self) -> InstrV {
        self.view()
    }
}

/// The 3-bit code of a destination, placed in bits 3..=5 of a C-opcode.
pub open spec fn dest_code(d: CDest) -> u8 {
    match d {
        CDest::NoDest => 0,
        CDest::M => 1,
        CDest::D => 2,
        CDest::MD => 3,
        CDest::A => 4,
        CDest::AM => 5,
        CDest::AD => 6,
        CDest::AMD => 7,
    }
}

/// The 3-bit code of a jump, placed in bits 0..=2 of a C-opcode.
pub open spec fn jump_code(j: Jump) -> u8 {
    match j {
        Jump::NoJump => 0,
        Jump::JGT => 1,
        Jump::JEQ => 2,
        Jump::JGE => 3,
        Jump::JLT => 4,
        Jump::JNE => 5,
        Jump::JLE => 6,
        Jump::JMP => 7,
    }
}

/// The 7-bit code of a computation, placed in bits 6..=12 of a C-opcode.
/// Its own most significant bit selects the direct (A) or indirect (M)
/// operand source.
pub open spec fn comp_code(c: Comp) -> u8 {
    match c {
        Comp::Zero => 0b0_101010,
        Comp::One => 0b0_111111,
        Comp::MinusOne => 0b0_111010,
        Comp::D => 0b0_001100,
        Comp::A => 0b0_110000,
        Comp::NotD => 0b0_001101,
        Comp::NotA => 0b0_110001,
        Comp::MinusD => 0b0_001111,
        Comp::MinusA => 0b0_110011,
        Comp::DPlusOne => 0b0_011111,
        Comp::APlusOne => 0b0_110111,
        Comp::DMinusOne => 0b0_001110,
        Comp::AMinusOne => 0b0_110010,
        Comp::DPlusA => 0b0_000010,
        Comp::DMinusA => 0b0_010011,
        Comp::AMinusD => 0b0_000111,
        Comp::DAndA => 0b0_000000,
        Comp::DOrA => 0b0_010101,
        Comp::M => 0b1_110000,
        Comp::NotM => 0b1_110001,
        Comp::MinusM => 0b1_110011,
        Comp::MPlusOne => 0b1_110111,
        Comp::MMinusOne => 0b1_110010,
        Comp::DPlusM => 0b1_000010,
        Comp::DMinusM => 0b1_010011,
        Comp::MMinusD => 0b1_000111,
        Comp::DAndM => 0b1_000000,
        Comp::DOrM => 0b1_010101,
    }
}

impl CDest {
    /// The 3-bit code of this destination.
    pub fn code(self) -> (r: u8)
        ensures
            r == dest_code(self),
    {
        match self {
            CDest::NoDest => 0,
            CDest::M => 1,
            CDest::D => 2,
            CDest::MD => 3,
            CDest::A => 4,
            CDest::AM => 5,
            CDest::AD => 6,
            CDest::AMD => 7,
        }
    }
}

impl Jump {
    /// The 3-bit code of this jump.
    pub fn code(self) -> (r: u8)
        ensures
            r == jump_code(self),
    {
        match self {
            Jump::NoJump => 0,
            Jump::JGT => 1,
            Jump::JEQ => 2,
            Jump::JGE => 3,
            Jump::JLT => 4,
            Jump::JNE => 5,
            Jump::JLE => 6,
            Jump::JMP => 7,
        }
    }
}

impl Comp {
    /// The 7-bit code of this computation.
    pub fn code(self) -> (r: u8)
        ensures
            r == comp_code(self),
    {
        match self {
            Comp::Zero => 0b0_101010,
            Comp::One => 0b0_111111,
            Comp::MinusOne => 0b0_111010,
            Comp::D => 0b0_001100,
            Comp::A => 0b0_110000,
            Comp::NotD => 0b0_001101,
            Comp::NotA => 0b0_110001,
            Comp::MinusD => 0b0_001111,
            Comp::MinusA => 0b0_110011,
            Comp::DPlusOne => 0b0_011111,
            Comp::APlusOne => 0b0_110111,
            Comp::DMinusOne => 0b0_001110,
            Comp::AMinusOne => 0b0_110010,
            Comp::DPlusA => 0b0_000010,
            Comp::DMinusA => 0b0_010011,
            Comp::AMinusD => 0b0_000111,
            Comp::DAndA => 0b0_000000,
            Comp::DOrA => 0b0_010101,
            Comp::M => 0b1_110000,
            Comp::NotM => 0b1_110001,
            Comp::MinusM => 0b1_110011,
            Comp::MPlusOne => 0b1_110111,
            Comp::MMinusOne => 0b1_110010,
            Comp::DPlusM => 0b1_000010,
            Comp::DMinusM => 0b1_010011,
            Comp::MMinusD => 0b1_000111,
            Comp::DAndM => 0b1_000000,
            Comp::DOrM => 0b1_010101,
        }
    }
}

} // verus!
