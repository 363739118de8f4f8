//! The assembly intermediate representation: registers, condition flags,
//! addressing modes and the instruction set of the register machine.

use vstd::prelude::*;
use crate::span::Span;

verus! {

/// A virtual register name. Registers are allocated monotonically from 0 and
/// are never reused.
#[derive(Debug, Clone, Copy, PartialEq, Eq, Structural)]
pub struct Reg(pub u32);

/// A condition flag. `Al` is the always-true flag, set when the machine starts
/// and never cleared; `Nv` is the never-true flag, which a `CHK` treats as
/// always clear.
#[derive(Debug, Clone, Copy, PartialEq, Eq, Structural)]
pub enum Flag {
    /// Always
    Al,
    /// Equal
    Eq,
    /// Not equal
    Ne,
    /// Less than
    Lt,
    /// Less than or equal to
    Le,
    /// Greater than
    Gt,
    /// Greater than or equal to
    Ge,
    /// Never
    Nv,
}

impl Flag {
    /// The flag whose check succeeds exactly when a check of `self` fails,
    /// for flags set by a single comparison.
    pub open spec fn spec_negate(&self) -> Flag {
        match self {
            Flag::Al => Flag::Nv,
            Flag::Eq => Flag::Ne,
            Flag::Ge => Flag::Lt,
            Flag::Gt => Flag::Le,
            Flag::Le => Flag::Gt,
            Flag::Lt => Flag::Ge,
            Flag::Ne => Flag::Eq,
            Flag::Nv => Flag::Al,
        }
    }

    /// Negate a flag, returning a flag such that checking the result succeeds
    /// exactly when checking `self` fails.
    #[verifier::when_used_as_spec(spec_negate)]
    pub fn negate(&self) -> (r: Flag)
        ensures
            r == self.spec_negate(),
    {
        match self {
            Flag::Al => Flag::Nv,
            Flag::Eq => Flag::Ne,
            Flag::Ge => Flag::Lt,
            Flag::Gt => Flag::Le,
            Flag::Le => Flag::Gt,
            Flag::Lt => Flag::Ge,
            Flag::Ne => Flag::Eq,
            Flag::Nv => Flag::Al,
        }
    }
}

/// How an address register is combined with an offset register during a load
/// or a store.
#[derive(Debug, Clone, Copy, PartialEq, Eq, Structural)]
pub enum Mode {
    /// The address register is used as it stands.
    Plain,
    /// The offset register is added to the address register to form the
    /// effective address; the address register is left unchanged.
    Offset(Reg),
    /// As `Offset`, but the effective address is also written back into the
    /// address register before the access.
    PreOffset(Reg),
    /// The address register is used as it stands, and the offset is added to
    /// it after the access.
    PostOffset(Reg),
}

/// One instruction of the register machine.
#[derive(Debug)]
pub enum Instruction {
    ADD(Reg, Reg, Reg),
    SUB(Reg, Reg, Reg),
    MUL(Reg, Reg, Reg),
    DIV(Reg, Reg, Reg),
    /// Introduce a constant
    CON(Reg, u32),
    /// Move a value from one register to another
    MOV(Reg, Reg),
    /// Bitwise complement of a register
    NOT(Reg, Reg),
    /// Compare two registers and set flags. Carries an optional hint flag,
    /// recording which comparison the author intended.
    CMP(Reg, Reg, Option<Flag>),
    /// If the flag is not set, skip the next instruction.
    CHK(Flag),
    /// Store a register's four big-endian bytes in memory, at an address given
    /// by the second register, under a memory addressing mode.
    STR(Reg, Reg, Mode),
    /// Read four big-endian bytes from memory into a register, at an address
    /// given by the second register, under a memory addressing mode.
    LDR(Reg, Reg, Mode),
    /// A label: a no-op marker that a branch can target.
    LBL(String),
    /// Branch to the label of the given name.
    BRA(String),
    /// Yield a register: send its value to the host and continue executing.
    YLD(Reg),
}

impl Instruction {
    /// The register this instruction writes a fresh value into, for the
    /// value-producing instructions: arithmetic, constants, complement and
    /// loads.
    pub open spec fn spec_output_register(&self) -> Option<Reg> {
        match self {
            Instruction::ADD(r, _, _) => Some(*r),
            Instruction::SUB(r, _, _) => Some(*r),
            Instruction::MUL(r, _, _) => Some(*r),
            Instruction::DIV(r, _, _) => Some(*r),
            Instruction::CON(r, _) => Some(*r),
            Instruction::NOT(r, _) => Some(*r),
            Instruction::LDR(r, _, _) => Some(*r),
            _ => None,
        }
    }

    #[verifier::when_used_as_spec(spec_output_register)]
    pub fn output_register(&self) -> (r: Option<Reg>)
        ensures
            r == self.spec_output_register(),
    {
        match self {
            Instruction::ADD(r, _, _) => Some(*r),
            Instruction::SUB(r, _, _) => Some(*r),
            Instruction::MUL(r, _, _) => Some(*r),
            Instruction::DIV(r, _, _) => Some(*r),
            Instruction::CON(r, _) => Some(*r),
            Instruction::NOT(r, _) => Some(*r),
            Instruction::LDR(r, _, _) => Some(*r),
            _ => None,
        }
    }
}

impl Clone for Instruction {
    fn clone(&self) -> (r: Self)
        ensures
            r == self,
    {
        match self {
            Instruction::ADD(rd, rx, ry) => Instruction::ADD(*rd, *rx, *ry),
            Instruction::SUB(rd, rx, ry) => Instruction::SUB(*rd, *rx, *ry),
            Instruction::MUL(rd, rx, ry) => Instruction::MUL(*rd, *rx, *ry),
            Instruction::DIV(rd, rx, ry) => Instruction::DIV(*rd, *rx, *ry),
            Instruction::CON(rd, val) => Instruction::CON(*rd, *val),
            Instruction::MOV(rd, rx) => Instruction::MOV(*rd, *rx),
            Instruction::NOT(rd, rx) => Instruction::NOT(*rd, *rx),
            Instruction::CMP(rx, ry, hint) => Instruction::CMP(*rx, *ry, *hint),
            Instruction::CHK(flag) => Instruction::CHK(*flag),
            Instruction::STR(rs, ra, mode) => Instruction::STR(*rs, *ra, *mode),
            Instruction::LDR(rd, ra, mode) => Instruction::LDR(*rd, *ra, *mode),
            Instruction::LBL(label) => Instruction::LBL(label.clone()),
            Instruction::BRA(label) => Instruction::BRA(label.clone()),
            Instruction::YLD(rx) => Instruction::YLD(*rx),
        }
    }
}

/// A wrapper type on `Instruction` carrying the span of the source text the
/// instruction was lowered from.
#[derive(Debug)]
pub struct Inst {
    pub instruction: Instruction,
    pub span: Span,
}

impl Inst {
    pub fn new(instruction: Instruction, span: Span) -> (r: Inst)
        ensures
            r.instruction == instruction,
            r.span == span,
    {
        Inst { instruction, span }
    }

    pub fn output_register(&self) -> (r: Option<Reg>)
        ensures
            r == self.instruction.spec_output_register(),
    {
        self.instruction.output_register()
    }

    /// Take the instruction out, dropping the span.
    pub fn instruction(self) -> (r: Instruction)
        ensures
            r == self.instruction,
    {
        self.instruction
    }
}

impl Clone for Inst {
    fn clone(&self) -> (r: Self)
        ensures
            r == self,
    {
        Inst { instruction: self.instruction.clone(), span: self.span }
    }
}

} // verus!
