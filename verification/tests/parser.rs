use thermite::instructions::{
    ArithmaticType, AssignmentType, BitwiseType, BranchType, ControlType, IOType, Instruction,
    ShiftType,
};
use thermite::lexer::{tokenize, Token};
use thermite::parser::{parse, try_parse, Parser, ParserError};
use thermite::registers::Register;

#[test]
fn parser_iter() {
    let tokens = vec![
        Token::Identifier("str".to_string()),
        Token::Value(6),
        Token::Identifier("ra".to_string()),
    ];
    let mut parser = Parser::new(tokens);
    let mut output = vec![];

    loop {
        match parser.next() {
            Some(c) => {
                output.push(c);
            }
            None => break,
        }
    }
    assert_eq!(
        output,
        vec![Instruction::Assignment(AssignmentType::STR(6), Register::RA)]
    );
}

#[test]
fn parse_whole_program() {
    let tokens = tokenize("main:\nstr 10 ra\nstr 5 rb\nadd ra rb rc\nout rc\nhlt");
    let program = parse(tokens);
    assert_eq!(
        program,
        vec![
            Instruction::Control(ControlType::LBL("main".to_string())),
            Instruction::Assignment(AssignmentType::STR(10), Register::RA),
            Instruction::Assignment(AssignmentType::STR(5), Register::RB),
            Instruction::Arithmatic(ArithmaticType::ADD, Register::RA, Register::RB, Register::RC),
            Instruction::IO(IOType::OUT, Register::RC),
            Instruction::HLT,
        ]
    );
}

#[test]
fn parse_branches_and_bitwise() {
    let tokens = tokenize("loop:\njnz ra loop\njz rb out\njmp end\nxor ra rb rc\nshl ra rb rc");
    let program = parse(tokens);
    assert_eq!(
        program,
        vec![
            Instruction::Control(ControlType::LBL("loop".to_string())),
            Instruction::Branch(BranchType::NOTZERO(Register::RA), "loop".to_string()),
            Instruction::Branch(BranchType::ZERO(Register::RB), "out".to_string()),
            Instruction::Branch(BranchType::UNCONDITIONAL, "end".to_string()),
            Instruction::Bitwise(BitwiseType::XOR, Register::RA, Register::RB, Register::RC),
            Instruction::Bitwise(
                BitwiseType::SHIFT(ShiftType::LEFT),
                Register::RA,
                Register::RB,
                Register::RC
            ),
        ]
    );
}

#[test]
fn next_instruction_rejects_value_as_mnemonic() {
    let mut parser = Parser::new(vec![Token::Value(6)]);
    assert_eq!(
        parser.next_instruction(),
        Err(ParserError::InvalidInstruction)
    );
}

#[test]
fn next_instruction_rejects_unknown_mnemonic() {
    let mut parser = Parser::new(vec![Token::Identifier("frobnicate".to_string())]);
    assert_eq!(
        parser.next_instruction(),
        Err(ParserError::InvalidInstruction)
    );
}

#[test]
fn next_instruction_rejects_value_as_register() {
    let mut parser = Parser::new(vec![Token::Identifier("out".to_string()), Token::Value(3)]);
    assert_eq!(parser.next_instruction(), Err(ParserError::InvalidArgument));
}

#[test]
fn next_instruction_rejects_identifier_as_literal() {
    let mut parser = Parser::new(vec![
        Token::Identifier("str".to_string()),
        Token::Identifier("ra".to_string()),
        Token::Identifier("ra".to_string()),
    ]);
    assert_eq!(parser.next_instruction(), Err(ParserError::InvalidArgument));
}

#[test]
fn try_parse_accepts_a_whole_program() {
    let tokens = tokenize("main:\nstr 1 ra\nhlt");
    let program = try_parse(tokens).unwrap();
    assert_eq!(
        program,
        vec![
            Instruction::Control(ControlType::LBL("main".to_string())),
            Instruction::Assignment(AssignmentType::STR(1), Register::RA),
            Instruction::HLT,
        ]
    );
}

#[test]
fn try_parse_rejects_a_truncated_instruction() {
    let tokens = tokenize("add ra rb");
    assert_eq!(try_parse(tokens), None);
}

#[test]
fn try_parse_rejects_an_unknown_register() {
    let tokens = tokenize("out rz");
    assert_eq!(try_parse(tokens), None);
}

#[test]
fn try_parse_rejects_a_stray_value() {
    let tokens = tokenize("7 nop");
    assert_eq!(try_parse(tokens), None);
}

#[test]
fn parse_copy_and_io() {
    let tokens = tokenize("cpy ra rb\nin rc\nmin ra rb rc");
    let program = parse(tokens);
    assert_eq!(
        program,
        vec![
            Instruction::Assignment(AssignmentType::CPY(Register::RA), Register::RB),
            Instruction::IO(IOType::IN, Register::RC),
            Instruction::Arithmatic(ArithmaticType::MIN, Register::RA, Register::RB, Register::RC),
        ]
    );
}
