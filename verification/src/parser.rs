//! The parser: turns a token sequence into instruction values.
//!
//! Each instruction is one mnemonic identifier followed by the
//! operands its variant requires: register names, a numeric literal,
//! or a branch target label.  An identifier ending in a colon defines
//! a label.  What the parser makes of a token sequence is pinned down
//! by [`spec_next_instruction`]: each step either finishes the input,
//! produces an instruction and a count of consumed tokens, rejects the
//! tokens with a [`ParserError`], or gets stuck.  Stuck means the
//! input ends in the middle of an instruction or names an unknown
//! register; the executable entry points require such input away and
//! reject the rest with errors.

use crate::instructions::{
    ArithmaticType, AssignmentType, BitwiseType, BranchType, ControlType, IOType, InstrV,
    Instruction, ShiftType,
};
use crate::lexer::{Token, TokenV};
use crate::registers::Register;
use crate::util::string_is;
use vstd::prelude::*;
use vstd::string::{StrSliceExecFns, StringExecFns};

verus! {

pub type ParserResult<T> = Result<Option<T>, ParserError>;

/// Why the parser rejected its input.
#[derive(Debug, PartialEq, Eq, Structural, Clone, Copy)]
pub enum ParserError {
    /// A token that opens no instruction stood where a mnemonic was
    /// expected.
    InvalidInstruction,
    /// A token of the wrong kind stood where an operand was expected.
    InvalidArgument,
}

/// What one parse step makes of a token sequence.
pub enum ParseStep {
    /// No tokens are left.
    Done,
    /// An instruction, and how many tokens it consumed.
    Instr(InstrV, nat),
    /// A rejection, and how many tokens were consumed reaching it.
    Fail(ParserError, nat),
    /// The parse cannot proceed: the input ends in the middle of an
    /// instruction, names an unknown register, or holds an empty
    /// identifier.  The executable parser requires this case away.
    Stuck,
}

/// A register operand read from `toks` at position `idx`.
pub enum RegOperand {
    /// The token is missing or names no register.
    Stuck,
    /// The token is not an identifier.
    Invalid,
    /// The named register.
    Found(Register),
}

/// Reads a register operand at position `idx`.
pub open spec fn spec_reg_operand(toks: Seq<TokenV>, idx: int) -> RegOperand {
    if idx >= toks.len() {
        RegOperand::Stuck
    } else {
        match toks[idx] {
            TokenV::Identifier(name) => match Register::spec_of_name(name) {
                Some(r) => RegOperand::Found(r),
                None => RegOperand::Stuck,
            },
            TokenV::Value(_) => RegOperand::Invalid,
        }
    }
}

/// Three register operands read from the front of `toks`.
pub enum Regs3 {
    /// Some operand is missing or names no register.
    Stuck,
    /// Some operand is not an identifier; how many tokens were
    /// consumed reaching it.
    Fail(nat),
    /// The three named registers.
    Found(Register, Register, Register),
}

/// Reads the three register operands of an arithmetic or bitwise
/// instruction from the front of `toks`.
pub open spec fn spec_regs3(toks: Seq<TokenV>) -> Regs3 {
    match spec_reg_operand(toks, 0) {
        RegOperand::Stuck => Regs3::Stuck,
        RegOperand::Invalid => Regs3::Fail(1),
        RegOperand::Found(a) => match spec_reg_operand(toks, 1) {
            RegOperand::Stuck => Regs3::Stuck,
            RegOperand::Invalid => Regs3::Fail(2),
            RegOperand::Found(b) => match spec_reg_operand(toks, 2) {
                RegOperand::Stuck => Regs3::Stuck,
                RegOperand::Invalid => Regs3::Fail(3),
                RegOperand::Found(c) => Regs3::Found(a, b, c),
            },
        },
    }
}

/// A label operand read from `toks` at position `idx`.
pub enum LabelOperand {
    /// The token is missing.
    Stuck,
    /// The token is not an identifier.
    Invalid,
    /// The label name.
    Found(Seq<char>),
}

/// Reads a branch target label at position `idx`.  Any identifier
/// serves as a label name; nothing checks that the label is defined.
pub open spec fn spec_label_operand(toks: Seq<TokenV>, idx: int) -> LabelOperand {
    if idx >= toks.len() {
        LabelOperand::Stuck
    } else {
        match toks[idx] {
            TokenV::Identifier(name) => LabelOperand::Found(name),
            TokenV::Value(_) => LabelOperand::Invalid,
        }
    }
}

/// What the parser makes of the front of `toks`: the next
/// instruction, a rejection, the end of the input, or a stuck parse.
pub open spec fn spec_next_instruction(toks: Seq<TokenV>) -> ParseStep {
    if toks.len() == 0 {
        ParseStep::Done
    } else {
        match toks[0] {
            TokenV::Value(_) => ParseStep::Fail(ParserError::InvalidInstruction, 1),
            TokenV::Identifier(name) => {
                if name == "nop"@ {
                    ParseStep::Instr(InstrV::NOP, 1)
                } else if name == "hlt"@ {
                    ParseStep::Instr(InstrV::HLT, 1)
                } else if name == "out"@ {
                    spec_io_step(toks, IOType::OUT)
                } else if name == "in"@ {
                    spec_io_step(toks, IOType::IN)
                } else if name == "add"@ {
                    spec_arith_step(toks, ArithmaticType::ADD)
                } else if name == "sub"@ {
                    spec_arith_step(toks, ArithmaticType::SUB)
                } else if name == "mul"@ {
                    spec_arith_step(toks, ArithmaticType::MUL)
                } else if name == "div"@ {
                    spec_arith_step(toks, ArithmaticType::DIV)
                } else if name == "max"@ {
                    spec_arith_step(toks, ArithmaticType::MAX)
                } else if name == "min"@ {
                    spec_arith_step(toks, ArithmaticType::MIN)
                } else if name == "and"@ {
                    spec_bitwise_step(toks, BitwiseType::AND)
                } else if name == "or"@ {
                    spec_bitwise_step(toks, BitwiseType::OR)
                } else if name == "xor"@ {
                    spec_bitwise_step(toks, BitwiseType::XOR)
                } else if name == "shr"@ {
                    spec_bitwise_step(toks, BitwiseType::SHIFT(ShiftType::RIGHT))
                } else if name == "shl"@ {
                    spec_bitwise_step(toks, BitwiseType::SHIFT(ShiftType::LEFT))
                } else if name == "jmp"@ {
                    spec_branch_step(toks, BranchType::UNCONDITIONAL, 1)
                } else if name == "jz"@ {
                    match spec_reg_operand(toks, 1) {
                        RegOperand::Stuck => ParseStep::Stuck,
                        RegOperand::Invalid => ParseStep::Fail(ParserError::InvalidArgument, 2),
                        RegOperand::Found(r) => spec_branch_step(toks, BranchType::ZERO(r), 2),
                    }
                } else if name == "jnz"@ {
                    match spec_reg_operand(toks, 1) {
                        RegOperand::Stuck => ParseStep::Stuck,
                        RegOperand::Invalid => ParseStep::Fail(ParserError::InvalidArgument, 2),
                        RegOperand::Found(r) => spec_branch_step(toks, BranchType::NOTZERO(r), 2),
                    }
                } else if name == "str"@ {
                    if toks.len() < 2 {
                        ParseStep::Stuck
                    } else {
                        match toks[1] {
                            TokenV::Identifier(_) => ParseStep::Fail(
                                ParserError::InvalidArgument,
                                2,
                            ),
                            TokenV::Value(v) => match spec_reg_operand(toks, 2) {
                                RegOperand::Stuck => ParseStep::Stuck,
                                RegOperand::Invalid => ParseStep::Fail(
                                    ParserError::InvalidArgument,
                                    3,
                                ),
                                RegOperand::Found(r) => ParseStep::Instr(
                                    InstrV::Assignment(AssignmentType::STR(v), r),
                                    3,
                                ),
                            },
                        }
                    }
                } else if name == "cpy"@ {
                    match spec_reg_operand(toks, 1) {
                        RegOperand::Stuck => ParseStep::Stuck,
                        RegOperand::Invalid => ParseStep::Fail(ParserError::InvalidArgument, 2),
                        RegOperand::Found(source) => match spec_reg_operand(toks, 2) {
                            RegOperand::Stuck => ParseStep::Stuck,
                            RegOperand::Invalid => ParseStep::Fail(
                                ParserError::InvalidArgument,
                                3,
                            ),
                            RegOperand::Found(r) => ParseStep::Instr(
                                InstrV::Assignment(AssignmentType::CPY(source), r),
                                3,
                            ),
                        },
                    }
                } else if name.len() == 0 {
                    ParseStep::Stuck
                } else if name.last() == ':' {
                    ParseStep::Instr(InstrV::Control(name.drop_last()), 1)
                } else {
                    ParseStep::Fail(ParserError::InvalidInstruction, 1)
                }
            },
        }
    }
}

/// The parse step for an input/output instruction: the mnemonic at
/// the front of `toks`, then one register operand.
pub open spec fn spec_io_step(toks: Seq<TokenV>, kind: IOType) -> ParseStep {
    match spec_reg_operand(toks, 1) {
        RegOperand::Stuck => ParseStep::Stuck,
        RegOperand::Invalid => ParseStep::Fail(ParserError::InvalidArgument, 2),
        RegOperand::Found(r) => ParseStep::Instr(InstrV::IO(kind, r), 2),
    }
}

/// The parse step for an arithmetic instruction: the mnemonic, then
/// three register operands.
pub open spec fn spec_arith_step(toks: Seq<TokenV>, kind: ArithmaticType) -> ParseStep {
    match spec_regs3(toks.skip(1)) {
        Regs3::Stuck => ParseStep::Stuck,
        Regs3::Fail(n) => ParseStep::Fail(ParserError::InvalidArgument, n + 1),
        Regs3::Found(a, b, c) => ParseStep::Instr(InstrV::Arithmatic(kind, a, b, c), 4),
    }
}

/// The parse step for a bitwise instruction: the mnemonic, then three
/// register operands.
pub open spec fn spec_bitwise_step(toks: Seq<TokenV>, kind: BitwiseType) -> ParseStep {
    match spec_regs3(toks.skip(1)) {
        Regs3::Stuck => ParseStep::Stuck,
        Regs3::Fail(n) => ParseStep::Fail(ParserError::InvalidArgument, n + 1),
        Regs3::Found(a, b, c) => ParseStep::Instr(InstrV::Bitwise(kind, a, b, c), 4),
    }
}

/// The parse step for a branch instruction whose condition operands
/// have already been read: a label operand at position `idx`.
pub open spec fn spec_branch_step(toks: Seq<TokenV>, kind: BranchType, idx: int) -> ParseStep {
    match spec_label_operand(toks, idx) {
        LabelOperand::Stuck => ParseStep::Stuck,
        LabelOperand::Invalid => ParseStep::Fail(ParserError::InvalidArgument, (idx + 1) as nat),
        LabelOperand::Found(label) => ParseStep::Instr(
            InstrV::Branch(kind, label),
            (idx + 1) as nat,
        ),
    }
}

/// A parsed instruction consumes at least one token and no more than
/// the input holds.
pub proof fn lemma_next_instruction_bounds(toks: Seq<TokenV>)
    ensures
        spec_next_instruction(toks) matches ParseStep::Instr(_, n) ==> 1 <= n <= toks.len(),
{
}

/// The whole input parses: every step yields an instruction until the
/// input is exhausted, and no step rejects or gets stuck.
pub open spec fn wf_tokens(toks: Seq<TokenV>) -> bool
    decreases toks.len(),
    via wf_tokens_decreases
{
    match spec_next_instruction(toks) {
        ParseStep::Done => true,
        ParseStep::Instr(_, n) => wf_tokens(toks.skip(n as int)),
        ParseStep::Fail(_, _) => false,
        ParseStep::Stuck => false,
    }
}

#[via_fn]
proof fn wf_tokens_decreases(toks: Seq<TokenV>) {
    lemma_next_instruction_bounds(toks);
}

/// The program a well-formed token sequence parses to: the
/// instructions of its parse steps, in order.
pub open spec fn spec_parse(toks: Seq<TokenV>) -> Seq<InstrV>
    decreases toks.len(),
    via spec_parse_decreases
{
    match spec_next_instruction(toks) {
        ParseStep::Instr(i, n) => seq![i] + spec_parse(toks.skip(n as int)),
        _ => Seq::empty(),
    }
}

#[via_fn]
proof fn spec_parse_decreases(toks: Seq<TokenV>) {
    lemma_next_instruction_bounds(toks);
}

/// The parser: a cursor over an owned token sequence.  Its abstract
/// value is the sequence of tokens not yet consumed.
pub struct Parser {
    tokens: Vec<Token>,
    pos: usize,
}

impl View for Parser {
    type V = Seq<TokenV>;

    closed spec fn view(&self) -> Seq<TokenV> {
        self.tokens.deep_view().skip(self.pos as int)
    }
}

impl Parser {
    /// The cursor lies within the token sequence.
    pub closed spec fn wf(self) -> bool {
        self.pos <= self.tokens@.len()
    }

    /// Returns a parser over `input`, nothing consumed yet.
    pub fn new(input: Vec<Token>) -> (p: Parser)
        ensures
            p.wf(),
            p@ == input.deep_view(),
    {
        let p = Parser { tokens: input, pos: 0 };
        proof {
            assert(p@ =~= p.tokens.deep_view());
        }
        p
    }

    /// Consumes and returns the next token, if any.
    pub fn advance(&mut self) -> (t: Option<Token>)
        requires
            old(self).wf(),
        ensures
            final(self).wf(),
            match t {
                Some(tok) => old(self)@.len() > 0 && tok@ == old(self)@[0]
                    && final(self)@ == old(self)@.skip(1),
                None => old(self)@.len() == 0 && final(self)@ == old(self)@,
            },
    {
        if self.pos < self.tokens.len() {
            let t = self.tokens[self.pos].clone();
            self.pos = self.pos + 1;
            proof {
                assert(final(self)@ =~= old(self)@.skip(1));
            }
            Some(t)
        } else {
            proof {
                assert(old(self)@.len() == 0);
            }
            None
        }
    }

    /// Consumes one register operand: the named register, or
    /// `InvalidArgument` for a token that names none.
    fn register_operand(&mut self) -> (r: Result<Register, ParserError>)
        requires
            old(self).wf(),
            spec_reg_operand(old(self)@, 0) != RegOperand::Stuck,
        ensures
            final(self).wf(),
            final(self)@ == old(self)@.skip(1),
            match spec_reg_operand(old(self)@, 0) {
                RegOperand::Found(reg) => r == Ok::<Register, ParserError>(reg),
                RegOperand::Invalid => r == Err::<Register, ParserError>(
                    ParserError::InvalidArgument,
                ),
                RegOperand::Stuck => false,
            },
    {
        match self.advance() {
            Some(Token::Identifier(name)) => match Register::from_name(&name) {
                Some(reg) => Ok(reg),
                None => {
                    proof {
                        assert(false);
                    }
                    Err(ParserError::InvalidArgument)
                },
            },
            Some(Token::Value(_)) => Err(ParserError::InvalidArgument),
            None => {
                proof {
                    assert(false);
                }
                Err(ParserError::InvalidArgument)
            },
        }
    }

    /// Parses the register operand of an input/output instruction.
    pub fn handle_io(&mut self, kind: IOType) -> (r: ParserResult<Instruction>)
        requires
            old(self).wf(),
            spec_reg_operand(old(self)@, 0) != RegOperand::Stuck,
        ensures
            final(self).wf(),
            final(self)@ == old(self)@.skip(1),
            match spec_reg_operand(old(self)@, 0) {
                RegOperand::Found(reg) => r matches Ok(Some(i)) && i@ == InstrV::IO(kind, reg),
                RegOperand::Invalid => r == Err::<Option<Instruction>, ParserError>(
                    ParserError::InvalidArgument,
                ),
                RegOperand::Stuck => false,
            },
    {
        let register = match self.register_operand() {
            Ok(reg) => reg,
            Err(e) => {
                return Err(e);
            },
        };
        Ok(Some(Instruction::IO(kind, register)))
    }

    /// Parses the three register operands of an arithmetic
    /// instruction.
    pub fn handle_arithmatic(&mut self, kind: ArithmaticType) -> (r: ParserResult<Instruction>)
        requires
            old(self).wf(),
            spec_regs3(old(self)@) != Regs3::Stuck,
        ensures
            final(self).wf(),
            match spec_regs3(old(self)@) {
                Regs3::Found(a, b, c) => r matches Ok(Some(i)) && i@ == InstrV::Arithmatic(
                    kind,
                    a,
                    b,
                    c,
                ) && final(self)@ == old(self)@.skip(3),
                Regs3::Fail(n) => r == Err::<Option<Instruction>, ParserError>(
                    ParserError::InvalidArgument,
                ) && final(self)@ == old(self)@.skip(n as int),
                Regs3::Stuck => false,
            },
    {
        let source = match self.register_operand() {
            Ok(reg) => reg,
            Err(e) => {
                return Err(e);
            },
        };
        let target = match self.register_operand() {
            Ok(reg) => reg,
            Err(e) => {
                proof {
                    assert(old(self)@.skip(1).skip(1) =~= old(self)@.skip(2));
                    assert(old(self)@.skip(1)[0] == old(self)@[1]);
                }
                return Err(e);
            },
        };
        let destination = match self.register_operand() {
            Ok(reg) => reg,
            Err(e) => {
                proof {
                    assert(old(self)@.skip(1).skip(1) =~= old(self)@.skip(2));
                    assert(old(self)@.skip(2).skip(1) =~= old(self)@.skip(3));
                    assert(old(self)@.skip(1)[0] == old(self)@[1]);
                    assert(old(self)@.skip(2)[0] == old(self)@[2]);
                }
                return Err(e);
            },
        };
        proof {
            assert(old(self)@.skip(1).skip(1) =~= old(self)@.skip(2));
            assert(old(self)@.skip(2).skip(1) =~= old(self)@.skip(3));
            assert(old(self)@.skip(1)[0] == old(self)@[1]);
            assert(old(self)@.skip(2)[0] == old(self)@[2]);
        }
        Ok(Some(Instruction::Arithmatic(kind, source, target, destination)))
    }

    /// Parses the three register operands of a bitwise instruction.
    pub fn handle_bitwise(&mut self, kind: BitwiseType) -> (r: ParserResult<Instruction>)
        requires
            old(self).wf(),
            spec_regs3(old(self)@) != Regs3::Stuck,
        ensures
            final(self).wf(),
            match spec_regs3(old(self)@) {
                Regs3::Found(a, b, c) => r matches Ok(Some(i)) && i@ == InstrV::Bitwise(
                    kind,
                    a,
                    b,
                    c,
                ) && final(self)@ == old(self)@.skip(3),
                Regs3::Fail(n) => r == Err::<Option<Instruction>, ParserError>(
                    ParserError::InvalidArgument,
                ) && final(self)@ == old(self)@.skip(n as int),
                Regs3::Stuck => false,
            },
    {
        let source = match self.register_operand() {
            Ok(reg) => reg,
            Err(e) => {
                return Err(e);
            },
        };
        let target = match self.register_operand() {
            Ok(reg) => reg,
            Err(e) => {
                proof {
                    assert(old(self)@.skip(1).skip(1) =~= old(self)@.skip(2));
                    assert(old(self)@.skip(1)[0] == old(self)@[1]);
                }
                return Err(e);
            },
        };
        let destination = match self.register_operand() {
            Ok(reg) => reg,
            Err(e) => {
                proof {
                    assert(old(self)@.skip(1).skip(1) =~= old(self)@.skip(2));
                    assert(old(self)@.skip(2).skip(1) =~= old(self)@.skip(3));
                    assert(old(self)@.skip(1)[0] == old(self)@[1]);
                    assert(old(self)@.skip(2)[0] == old(self)@[2]);
                }
                return Err(e);
            },
        };
        proof {
            assert(old(self)@.skip(1).skip(1) =~= old(self)@.skip(2));
            assert(old(self)@.skip(2).skip(1) =~= old(self)@.skip(3));
            assert(old(self)@.skip(1)[0] == old(self)@[1]);
            assert(old(self)@.skip(2)[0] == old(self)@[2]);
        }
        Ok(Some(Instruction::Bitwise(kind, source, target, destination)))
    }

    /// Parses the target label of a branch instruction whose
    /// condition operands have already been consumed.
    pub fn handle_branch(&mut self, kind: BranchType) -> (r: ParserResult<Instruction>)
        requires
            old(self).wf(),
            spec_label_operand(old(self)@, 0) != LabelOperand::Stuck,
        ensures
            final(self).wf(),
            final(self)@ == old(self)@.skip(1),
            match spec_label_operand(old(self)@, 0) {
                LabelOperand::Found(label) => r matches Ok(Some(i)) && i@ == InstrV::Branch(
                    kind,
                    label,
                ),
                LabelOperand::Invalid => r == Err::<Option<Instruction>, ParserError>(
                    ParserError::InvalidArgument,
                ),
                LabelOperand::Stuck => false,
            },
    {
        let label = match self.advance() {
            Some(Token::Identifier(name)) => name,
            Some(Token::Value(_)) => {
                return Err(ParserError::InvalidArgument);
            },
            None => {
                proof {
                    assert(false);
                }
                return Err(ParserError::InvalidArgument);
            },
        };
        Ok(Some(Instruction::Branch(kind, label)))
    }

    /// Wraps a label definition as a control instruction; consumes
    /// nothing.
    pub fn handle_control(&mut self, kind: ControlType) -> (r: ParserResult<Instruction>)
        requires
            old(self).wf(),
        ensures
            final(self).wf(),
            final(self)@ == old(self)@,
            match kind {
                ControlType::LBL(label) => r matches Ok(Some(i)) && i@ == InstrV::Control(
                    label@,
                ),
            },
    {
        Ok(Some(Instruction::Control(kind)))
    }

    /// Parses the destination register of an assignment instruction
    /// whose kind operand has already been consumed.
    pub fn handle_assignment(&mut self, kind: AssignmentType) -> (r: ParserResult<Instruction>)
        requires
            old(self).wf(),
            spec_reg_operand(old(self)@, 0) != RegOperand::Stuck,
        ensures
            final(self).wf(),
            final(self)@ == old(self)@.skip(1),
            match spec_reg_operand(old(self)@, 0) {
                RegOperand::Found(reg) => r matches Ok(Some(i)) && i@ == InstrV::Assignment(
                    kind,
                    reg,
                ),
                RegOperand::Invalid => r == Err::<Option<Instruction>, ParserError>(
                    ParserError::InvalidArgument,
                ),
                RegOperand::Stuck => false,
            },
    {
        let register = match self.register_operand() {
            Ok(reg) => reg,
            Err(e) => {
                return Err(e);
            },
        };
        Ok(Some(Instruction::Assignment(kind, register)))
    }

    /// Parses the next instruction: exactly what
    /// [`spec_next_instruction`] makes of the unconsumed tokens.
    #[verifier::rlimit(100)]
    #[verifier::spinoff_prover]
    pub fn next_instruction(&mut self) -> (r: ParserResult<Instruction>)
        requires
            old(self).wf(),
            spec_next_instruction(old(self)@) != ParseStep::Stuck,
        ensures
            final(self).wf(),
            match spec_next_instruction(old(self)@) {
                ParseStep::Done => r matches Ok(None) && final(self)@ == old(self)@,
                ParseStep::Instr(iv, n) => r matches Ok(Some(i)) && i@ == iv && final(self)@
                    == old(self)@.skip(n as int),
                ParseStep::Fail(e, n) => r == Err::<Option<Instruction>, ParserError>(e)
                    && final(self)@ == old(self)@.skip(n as int),
                ParseStep::Stuck => false,
            },
    {
        let name = match self.advance() {
            None => {
                return Ok(None);
            },
            Some(Token::Value(_)) => {
                return Err(ParserError::InvalidInstruction);
            },
            Some(Token::Identifier(name)) => name,
        };
        if string_is(&name, "nop") {
            Ok(Some(Instruction::NOP))
        } else if string_is(&name, "hlt") {
            Ok(Some(Instruction::HLT))
        } else if string_is(&name, "out") {
            self.handle_io(IOType::OUT)
        } else if string_is(&name, "in") {
            self.handle_io(IOType::IN)
        } else if string_is(&name, "add") {
            self.handle_arithmatic(ArithmaticType::ADD)
        } else if string_is(&name, "sub") {
            self.handle_arithmatic(ArithmaticType::SUB)
        } else if string_is(&name, "mul") {
            self.handle_arithmatic(ArithmaticType::MUL)
        } else if string_is(&name, "div") {
            self.handle_arithmatic(ArithmaticType::DIV)
        } else if string_is(&name, "max") {
            self.handle_arithmatic(ArithmaticType::MAX)
        } else if string_is(&name, "min") {
            self.handle_arithmatic(ArithmaticType::MIN)
        } else if string_is(&name, "and") {
            self.handle_bitwise(BitwiseType::AND)
        } else if string_is(&name, "or") {
            self.handle_bitwise(BitwiseType::OR)
        } else if string_is(&name, "xor") {
            self.handle_bitwise(BitwiseType::XOR)
        } else if string_is(&name, "shr") {
            self.handle_bitwise(BitwiseType::SHIFT(ShiftType::RIGHT))
        } else if string_is(&name, "shl") {
            self.handle_bitwise(BitwiseType::SHIFT(ShiftType::LEFT))
        } else if string_is(&name, "jmp") {
            self.handle_branch(BranchType::UNCONDITIONAL)
        } else if string_is(&name, "jz") {
            let register = match self.register_operand() {
                Ok(reg) => reg,
                Err(e) => {
                    return Err(e);
                },
            };
            let r = self.handle_branch(BranchType::ZERO(register));
            proof {
                assert(old(self)@.skip(1).skip(1) =~= old(self)@.skip(2));
                assert(old(self)@.skip(1).skip(2) =~= old(self)@.skip(3));
                assert(old(self)@.skip(1)[1] == old(self)@[2]);
            }
            r
        } else if string_is(&name, "jnz") {
            let register = match self.register_operand() {
                Ok(reg) => reg,
                Err(e) => {
                    return Err(e);
                },
            };
            let r = self.handle_branch(BranchType::NOTZERO(register));
            proof {
                assert(old(self)@.skip(1).skip(1) =~= old(self)@.skip(2));
                assert(old(self)@.skip(1).skip(2) =~= old(self)@.skip(3));
                assert(old(self)@.skip(1)[1] == old(self)@[2]);
            }
            r
        } else if string_is(&name, "str") {
            let value = match self.advance() {
                Some(Token::Value(v)) => v,
                Some(Token::Identifier(_)) => {
                    return Err(ParserError::InvalidArgument);
                },
                None => {
                    proof {
                        assert(false);
                    }
                    return Err(ParserError::InvalidArgument);
                },
            };
            let r = self.handle_assignment(AssignmentType::STR(value));
            proof {
                assert(old(self)@.skip(1).skip(1) =~= old(self)@.skip(2));
                assert(old(self)@.skip(2).skip(1) =~= old(self)@.skip(3));
                assert(old(self)@.skip(2)[0] == old(self)@[2]);
            }
            r
        } else if string_is(&name, "cpy") {
            let register = match self.register_operand() {
                Ok(reg) => reg,
                Err(e) => {
                    return Err(e);
                },
            };
            let r = self.handle_assignment(AssignmentType::CPY(register));
            proof {
                assert(old(self)@.skip(1).skip(1) =~= old(self)@.skip(2));
                assert(old(self)@.skip(2).skip(1) =~= old(self)@.skip(3));
                assert(old(self)@.skip(1)[0] == old(self)@[1]);
                assert(old(self)@.skip(2)[0] == old(self)@[2]);
            }
            r
        } else {
            let name_len = name.as_str().unicode_len();
            assert(name_len > 0);
            if name.as_str().get_char(name_len - 1) == ':' {
                let label = name.as_str().substring_char(0, name_len - 1).to_owned();
                proof {
                    assert(label@ =~= name@.drop_last());
                }
                self.handle_control(ControlType::LBL(label))
            } else {
                Err(ParserError::InvalidInstruction)
            }
        }
    }

    /// Reads the register operand at offset `idx` without consuming
    /// anything.
    fn probe_reg(&self, idx: usize) -> (r: RegOperand)
        requires
            self.wf(),
        ensures
            r == spec_reg_operand(self@, idx as int),
    {
        let remaining = self.tokens.len() - self.pos;
        if idx >= remaining {
            RegOperand::Stuck
        } else {
            match &self.tokens[self.pos + idx] {
                Token::Identifier(name) => match Register::from_name(name) {
                    Some(reg) => RegOperand::Found(reg),
                    None => RegOperand::Stuck,
                },
                Token::Value(_) => RegOperand::Invalid,
            }
        }
    }

    /// Whether the parse is stuck at the unconsumed tokens: the input
    /// ends in the middle of an instruction, names an unknown
    /// register, or holds an empty identifier.  Reads nothing off.
    fn parse_stuck(&self) -> (b: bool)
        requires
            self.wf(),
        ensures
            b == (spec_next_instruction(self@) is Stuck),
    {
        let remaining = self.tokens.len() - self.pos;
        if remaining == 0 {
            return false;
        }
        let name = match &self.tokens[self.pos] {
            Token::Value(_) => {
                return false;
            },
            Token::Identifier(name) => name,
        };
        if string_is(name, "nop") || string_is(name, "hlt") {
            false
        } else if string_is(name, "out") || string_is(name, "in") {
            matches!(self.probe_reg(1), RegOperand::Stuck)
        } else if string_is(name, "add") || string_is(name, "sub") || string_is(name, "mul")
            || string_is(name, "div") || string_is(name, "max") || string_is(name, "min")
            || string_is(name, "and") || string_is(name, "or") || string_is(name, "xor")
            || string_is(name, "shr") || string_is(name, "shl") {
            proof {
                assert(self@.skip(1).len() == self@.len() - 1);
                assert forall|k: int| 0 <= k < self@.skip(1).len() implies self@.skip(1)[k]
                    == self@[k + 1] by {}
            }
            match self.probe_reg(1) {
                RegOperand::Stuck => true,
                RegOperand::Invalid => false,
                RegOperand::Found(_) => match self.probe_reg(2) {
                    RegOperand::Stuck => true,
                    RegOperand::Invalid => false,
                    RegOperand::Found(_) => matches!(self.probe_reg(3), RegOperand::Stuck),
                },
            }
        } else if string_is(name, "jmp") {
            remaining < 2
        } else if string_is(name, "jz") || string_is(name, "jnz") {
            match self.probe_reg(1) {
                RegOperand::Stuck => true,
                RegOperand::Invalid => false,
                RegOperand::Found(_) => remaining < 3,
            }
        } else if string_is(name, "str") {
            if remaining < 2 {
                true
            } else {
                match &self.tokens[self.pos + 1] {
                    Token::Identifier(_) => false,
                    Token::Value(_) => matches!(self.probe_reg(2), RegOperand::Stuck),
                }
            }
        } else if string_is(name, "cpy") {
            match self.probe_reg(1) {
                RegOperand::Stuck => true,
                RegOperand::Invalid => false,
                RegOperand::Found(_) => matches!(self.probe_reg(2), RegOperand::Stuck),
            }
        } else {
            name.as_str().unicode_len() == 0
        }
    }

    /// Parses the next instruction where the input is known to hold
    /// one or to be exhausted.
    pub fn next(&mut self) -> (t: Option<Instruction>)
        requires
            old(self).wf(),
            spec_next_instruction(old(self)@) matches ParseStep::Done
                || spec_next_instruction(old(self)@) matches ParseStep::Instr(_, _),
        ensures
            final(self).wf(),
            match spec_next_instruction(old(self)@) {
                ParseStep::Done => t is None && final(self)@ == old(self)@,
                ParseStep::Instr(iv, n) => t matches Some(i) && i@ == iv
                    && final(self)@ == old(self)@.skip(n as int),
                _ => false,
            },
    {
        match self.next_instruction() {
            Ok(i) => i,
            Err(_) => {
                proof {
                    assert(false);
                }
                None
            },
        }
    }
}

/// Parses a whole token sequence if it is well formed, and reports
/// that it is not otherwise.  Total: callers that cannot know their
/// input use this in place of [`parse`].
#[verifier::loop_isolation(false)]
pub fn try_parse(input: Vec<Token>) -> (r: Option<Vec<Instruction>>)
    ensures
        match r {
            Some(program) => wf_tokens(input.deep_view()) && program.deep_view() == spec_parse(
                input.deep_view(),
            ),
            None => !wf_tokens(input.deep_view()),
        },
{
    let mut parser = Parser::new(input);
    let mut program: Vec<Instruction> = Vec::new();
    proof {
        assert(program.deep_view() =~= Seq::<InstrV>::empty());
    }
    loop
        invariant
            parser.wf(),
            wf_tokens(input.deep_view()) == wf_tokens(parser@),
            program.deep_view() + spec_parse(parser@) == spec_parse(input.deep_view()),
        decreases parser@.len(),
    {
        if parser.parse_stuck() {
            return None;
        }
        let ghost before = parser@;
        match parser.next_instruction() {
            Ok(Some(i)) => {
                let ghost dv = program.deep_view();
                program.push(i);
                proof {
                    assert(program.deep_view() =~= dv.push(i@));
                    assert(dv.push(i@) =~= dv + seq![i@]);
                    lemma_next_instruction_bounds(before);
                }
            },
            Ok(None) => {
                return Some(program);
            },
            Err(_) => {
                return None;
            },
        }
    }
}

/// Parses a whole token sequence into the program it describes,
/// [`spec_parse`] of the tokens.  The sequence must be well formed:
/// every instruction complete, every register name known, no stray
/// token.
#[verifier::loop_isolation(false)]
pub fn parse(input: Vec<Token>) -> (program: Vec<Instruction>)
    requires
        wf_tokens(input.deep_view()),
    ensures
        program.deep_view() == spec_parse(input.deep_view()),
{
    let mut parser = Parser::new(input);
    let mut program: Vec<Instruction> = Vec::new();
    proof {
        assert(program.deep_view() =~= Seq::<InstrV>::empty());
    }
    loop
        invariant
            parser.wf(),
            wf_tokens(parser@),
            program.deep_view() + spec_parse(parser@) == spec_parse(input.deep_view()),
        decreases parser@.len(),
    {
        let ghost before = parser@;
        match parser.next() {
            Some(i) => {
                let ghost dv = program.deep_view();
                program.push(i);
                proof {
                    assert(program.deep_view() =~= dv.push(i@));
                    assert(dv.push(i@) =~= dv + seq![i@]);
                    lemma_next_instruction_bounds(before);
                }
            },
            None => {
                break ;
            },
        }
    }
    program
}

} // verus!
