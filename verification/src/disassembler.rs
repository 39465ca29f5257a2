//! Textual rendering of instruction values back to assembly source
//! form.
//!
//! Formatting is pure and stateless: every instruction renders to the
//! mnemonic and operands the parser would accept for it.  The exact
//! text is pinned down by [`spec_instruction_text`], a function of the
//! instruction value alone.

use crate::instructions::{
    ArithmaticType, AssignmentType, BitwiseType, BranchType, ControlType, IOType, InstrV,
    Instruction, ShiftType,
};
use crate::registers::Register;
use vstd::prelude::*;
use vstd::string::StringExecFns;

verus! {

/// The decimal digit character for `d`.
pub open spec fn digit_char(d: nat) -> char {
    if d == 0 {
        '0'
    } else if d == 1 {
        '1'
    } else if d == 2 {
        '2'
    } else if d == 3 {
        '3'
    } else if d == 4 {
        '4'
    } else if d == 5 {
        '5'
    } else if d == 6 {
        '6'
    } else if d == 7 {
        '7'
    } else if d == 8 {
        '8'
    } else {
        '9'
    }
}

/// The decimal digits of `n`, most significant first.
pub open spec fn dec_digits(n: nat) -> Seq<char>
    decreases n,
{
    if n < 10 {
        seq![digit_char(n)]
    } else {
        dec_digits(n / 10).push(digit_char(n % 10))
    }
}

/// The decimal rendering of `v`: a minus sign for negative values,
/// then the digits of the magnitude.
pub open spec fn spec_i32_text(v: i32) -> Seq<char> {
    if v >= 0 {
        dec_digits(v as nat)
    } else {
        seq!['-'] + dec_digits((-(v as int)) as nat)
    }
}

/// Appends the decimal digit `d` to `s`.
fn push_digit(s: &mut String, d: u32)
    requires
        d < 10,
    ensures
        final(s)@ == old(s)@.push(digit_char(d as nat)),
{
    let digits = "0123456789";
    proof {
        reveal_strlit("0123456789");
    }
    let one = digits.substring_char(d as usize, d as usize + 1);
    s.append(one);
    proof {
        assert(final(s)@ =~= old(s)@.push(digit_char(d as nat)));
    }
}

/// Appends the decimal digits of `n` to `s`.
fn append_u32_digits(s: &mut String, n: u32)
    ensures
        final(s)@ == old(s)@ + dec_digits(n as nat),
    decreases n,
{
    if n < 10 {
        push_digit(s, n);
        proof {
            assert(final(s)@ =~= old(s)@ + dec_digits(n as nat));
        }
    } else {
        append_u32_digits(s, n / 10);
        push_digit(s, n % 10);
        proof {
            assert(final(s)@ =~= old(s)@ + dec_digits(n as nat));
        }
    }
}

/// Renders `v` in decimal.
pub fn i32_text(v: i32) -> (s: String)
    ensures
        s@ == spec_i32_text(v),
{
    if v >= 0 {
        let mut s = String::new();
        append_u32_digits(&mut s, v as u32);
        proof {
            assert(s@ =~= spec_i32_text(v));
        }
        s
    } else {
        let mut s = String::from_str("-");
        let magnitude = (-(v as i64)) as u32;
        append_u32_digits(&mut s, magnitude);
        proof {
            reveal_strlit("-");
            assert(s@ =~= spec_i32_text(v));
        }
        s
    }
}

impl Register {
    /// The register's name in assembly source.
    pub open spec fn spec_name(self) -> Seq<char> {
        match self {
            Register::RA => "ra"@,
            Register::RB => "rb"@,
            Register::RC => "rc"@,
            Register::RD => "rd"@,
            Register::RE => "re"@,
            Register::RF => "rf"@,
        }
    }

    /// Renders the register's name in assembly source.
    pub fn to_string(&self) -> (s: String)
        ensures
            s@ == self.spec_name(),
    {
        match self {
            Register::RA => String::from_str("ra"),
            Register::RB => String::from_str("rb"),
            Register::RC => String::from_str("rc"),
            Register::RD => String::from_str("rd"),
            Register::RE => String::from_str("re"),
            Register::RF => String::from_str("rf"),
        }
    }
}

/// The mnemonic of an arithmetic instruction.
pub open spec fn spec_arith_mnemonic(kind: ArithmaticType) -> Seq<char> {
    match kind {
        ArithmaticType::ADD => "add"@,
        ArithmaticType::SUB => "sub"@,
        ArithmaticType::MUL => "mul"@,
        ArithmaticType::DIV => "div"@,
        ArithmaticType::MAX => "max"@,
        ArithmaticType::MIN => "min"@,
    }
}

/// The mnemonic of a bitwise instruction.
pub open spec fn spec_bitwise_mnemonic(kind: BitwiseType) -> Seq<char> {
    match kind {
        BitwiseType::AND => "and"@,
        BitwiseType::OR => "or"@,
        BitwiseType::XOR => "xor"@,
        BitwiseType::SHIFT(ShiftType::LEFT) => "shl"@,
        BitwiseType::SHIFT(ShiftType::RIGHT) => "shr"@,
    }
}

/// The source form of an instruction: its mnemonic and operands,
/// separated by single spaces; a label definition renders as the label
/// followed by a colon.
pub open spec fn spec_instruction_text(i: InstrV) -> Seq<char> {
    match i {
        InstrV::IO(IOType::OUT, r) => "out "@ + r.spec_name(),
        InstrV::IO(IOType::IN, r) => "in "@ + r.spec_name(),
        InstrV::Arithmatic(kind, source, target, destination) => spec_arith_mnemonic(kind)
            + " "@ + source.spec_name() + " "@ + target.spec_name() + " "@
            + destination.spec_name(),
        InstrV::Bitwise(kind, source, target, destination) => spec_bitwise_mnemonic(kind) + " "@
            + source.spec_name() + " "@ + target.spec_name() + " "@ + destination.spec_name(),
        InstrV::Branch(BranchType::UNCONDITIONAL, label) => "jmp "@ + label,
        InstrV::Branch(BranchType::NOTZERO(r), label) => "jnz "@ + r.spec_name() + " "@ + label,
        InstrV::Branch(BranchType::ZERO(r), label) => "jz "@ + r.spec_name() + " "@ + label,
        InstrV::Control(label) => label + ":"@,
        InstrV::Assignment(AssignmentType::STR(value), r) => "str "@ + spec_i32_text(value)
            + " "@ + r.spec_name(),
        InstrV::Assignment(AssignmentType::CPY(source), r) => "cpy "@ + source.spec_name() + " "@
            + r.spec_name(),
        InstrV::NOP => "nop"@,
        InstrV::HLT => "hlt"@,
    }
}

impl Instruction {
    /// Renders the instruction in assembly source form.
    pub fn to_string(&self) -> (s: String)
        ensures
            s@ == spec_instruction_text(self@),
    {
        match self {
            Instruction::IO(kind, register) => {
                let mut s = match kind {
                    IOType::OUT => String::from_str("out "),
                    IOType::IN => String::from_str("in "),
                };
                let name = register.to_string();
                s.append(name.as_str());
                s
            },
            Instruction::Arithmatic(kind, source, target, destination) => {
                let mut s = match kind {
                    ArithmaticType::ADD => String::from_str("add"),
                    ArithmaticType::SUB => String::from_str("sub"),
                    ArithmaticType::MUL => String::from_str("mul"),
                    ArithmaticType::DIV => String::from_str("div"),
                    ArithmaticType::MAX => String::from_str("max"),
                    ArithmaticType::MIN => String::from_str("min"),
                };
                s.append(" ");
                s.append(source.to_string().as_str());
                s.append(" ");
                s.append(target.to_string().as_str());
                s.append(" ");
                s.append(destination.to_string().as_str());
                s
            },
            Instruction::Bitwise(kind, source, target, destination) => {
                let mut s = match kind {
                    BitwiseType::AND => String::from_str("and"),
                    BitwiseType::OR => String::from_str("or"),
                    BitwiseType::XOR => String::from_str("xor"),
                    BitwiseType::SHIFT(ShiftType::LEFT) => String::from_str("shl"),
                    BitwiseType::SHIFT(ShiftType::RIGHT) => String::from_str("shr"),
                };
                s.append(" ");
                s.append(source.to_string().as_str());
                s.append(" ");
                s.append(target.to_string().as_str());
                s.append(" ");
                s.append(destination.to_string().as_str());
                s
            },
            Instruction::Branch(kind, label) => {
                let mut s = match kind {
                    BranchType::UNCONDITIONAL => String::from_str("jmp "),
                    BranchType::NOTZERO(register) => {
                        let mut t = String::from_str("jnz ");
                        t.append(register.to_string().as_str());
                        t.append(" ");
                        t
                    },
                    BranchType::ZERO(register) => {
                        let mut t = String::from_str("jz ");
                        t.append(register.to_string().as_str());
                        t.append(" ");
                        t
                    },
                };
                s.append(label.as_str());
                s
            },
            Instruction::Control(ControlType::LBL(label)) => {
                let mut s = label.clone();
                s.append(":");
                s
            },
            Instruction::Assignment(kind, register) => {
                let mut s = match kind {
                    AssignmentType::STR(value) => {
                        let mut t = String::from_str("str ");
                        let rendered = i32_text(*value);
                        t.append(rendered.as_str());
                        t.append(" ");
                        t
                    },
                    AssignmentType::CPY(source) => {
                        let mut t = String::from_str("cpy ");
                        t.append(source.to_string().as_str());
                        t.append(" ");
                        t
                    },
                };
                s.append(register.to_string().as_str());
                s
            },
            Instruction::NOP => String::from_str("nop"),
            Instruction::HLT => String::from_str("hlt"),
        }
    }
}

} // verus!
