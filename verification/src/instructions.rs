//! The machine's instruction set: a closed set of variants grouped by
//! category, each carrying exactly the operands its semantics require.
//!
//! Instruction values are immutable; they are produced by the parser and
//! consumed read-only by the evaluator.  Because branch and label
//! instructions carry a heap-allocated label string, the specification
//! level works with [`InstrV`], a mirror of [`Instruction`] whose labels
//! are character sequences.

use crate::registers::Register;
use vstd::prelude::*;

verus! {

/// Arithmetic operations over two source registers.
#[derive(Debug, PartialEq, Eq, Structural, Clone, Copy)]
pub enum ArithmaticType {
    ADD,
    SUB,
    MUL,
    DIV,
    MAX,
    MIN,
}

/// Input/output operations on a single register.
#[derive(Debug, PartialEq, Eq, Structural, Clone, Copy)]
pub enum IOType {
    IN,
    OUT,
}

/// Bitwise operations over two source registers.
#[derive(Debug, PartialEq, Eq, Structural, Clone, Copy)]
pub enum BitwiseType {
    AND,
    OR,
    XOR,
    SHIFT(ShiftType),
}

/// The direction of a shift.
#[derive(Debug, PartialEq, Eq, Structural, Clone, Copy)]
pub enum ShiftType {
    LEFT,
    RIGHT,
}

/// The condition under which a branch redirects control.
#[derive(Debug, PartialEq, Eq, Structural, Clone, Copy)]
pub enum BranchType {
    UNCONDITIONAL,
    ZERO(Register),
    NOTZERO(Register),
}

/// Control instructions: a label definition.
#[derive(Debug, PartialEq)]
pub enum ControlType {
    LBL(String),
}

/// Assignment instructions: load an immediate value, or copy another
/// register.
#[derive(Debug, PartialEq, Eq, Structural, Clone, Copy)]
pub enum AssignmentType {
    STR(i32),
    CPY(Register),
}

/// One machine instruction.
#[derive(Debug, PartialEq)]
pub enum Instruction {
    IO(IOType, Register),
    Arithmatic(ArithmaticType, Register, Register, Register),
    Bitwise(BitwiseType, Register, Register, Register),
    Branch(BranchType, String),
    Control(ControlType),
    Assignment(AssignmentType, Register),
    NOP,
    HLT,
}

/// The specification-level value of an [`Instruction`]: the same shape,
/// with label strings replaced by their character sequences.
pub enum InstrV {
    IO(IOType, Register),
    Arithmatic(ArithmaticType, Register, Register, Register),
    Bitwise(BitwiseType, Register, Register, Register),
    Branch(BranchType, Seq<char>),
    Control(Seq<char>),
    Assignment(AssignmentType, Register),
    NOP,
    HLT,
}

impl View for Instruction {
    type V = InstrV;

    open spec fn view(&self) -> InstrV {
        match self {
            Instruction::IO(kind, register) => InstrV::IO(*kind, *register),
            Instruction::Arithmatic(kind, source, target, destination) => InstrV::Arithmatic(
                *kind,
                *source,
                *target,
                *destination,
            ),
            Instruction::Bitwise(kind, source, target, destination) => InstrV::Bitwise(
                *kind,
                *source,
                *target,
                *destination,
            ),
            Instruction::Branch(kind, label) => InstrV::Branch(*kind, label@),
            Instruction::Control(ControlType::LBL(label)) => InstrV::Control(label@),
            Instruction::Assignment(kind, register) => InstrV::Assignment(*kind, *register),
            Instruction::NOP => InstrV::NOP,
            Instruction::HLT => InstrV::HLT,
        }
    }
}

impl DeepView for Instruction {
    type V = InstrV;

    open spec fn deep_view(&self) -> InstrV {
        self.view()
    }
}

impl Clone for ControlType {
    /// Returns an equal control instruction.
    fn clone(&self) -> (r: Self)
        ensures
            r == *self,
    {
        match self {
            ControlType::LBL(label) => ControlType::LBL(label.clone()),
        }
    }
}

impl Clone for Instruction {
    /// Returns an equal instruction.
    fn clone(&self) -> (r: Self)
        ensures
            r == *self,
    {
        match self {
            Instruction::IO(kind, register) => Instruction::IO(*kind, *register),
            Instruction::Arithmatic(kind, source, target, destination) => Instruction::Arithmatic(
                *kind,
                *source,
                *target,
                *destination,
            ),
            Instruction::Bitwise(kind, source, target, destination) => Instruction::Bitwise(
                *kind,
                *source,
                *target,
                *destination,
            ),
            Instruction::Branch(kind, label) => Instruction::Branch(*kind, label.clone()),
            Instruction::Control(kind) => Instruction::Control(kind.clone()),
            Instruction::Assignment(kind, register) => Instruction::Assignment(*kind, *register),
            Instruction::NOP => Instruction::NOP,
            Instruction::HLT => Instruction::HLT,
        }
    }
}

} // verus!
