use thermite::instructions::{
    ArithmaticType, AssignmentType, BitwiseType, BranchType, ControlType, IOType, Instruction,
    ShiftType,
};
use thermite::registers::Register;

#[test]
fn nop() {
    let instruction = Instruction::NOP;
    let string = instruction.to_string();
    assert_eq!(string, "nop")
}

#[test]
fn hlt() {
    let instruction = Instruction::HLT;
    let string = instruction.to_string();
    assert_eq!(string, "hlt")
}

#[test]
fn render_out() {
    let instruction = Instruction::IO(IOType::OUT, Register::RA);
    assert_eq!(instruction.to_string(), "out ra");
}

#[test]
fn render_arithmetic() {
    let instruction =
        Instruction::Arithmatic(ArithmaticType::ADD, Register::RA, Register::RB, Register::RC);
    assert_eq!(instruction.to_string(), "add ra rb rc");
}

#[test]
fn render_shift() {
    let instruction = Instruction::Bitwise(
        BitwiseType::SHIFT(ShiftType::RIGHT),
        Register::RD,
        Register::RE,
        Register::RF,
    );
    assert_eq!(instruction.to_string(), "shr rd re rf");
}

#[test]
fn render_branches() {
    assert_eq!(
        Instruction::Branch(BranchType::UNCONDITIONAL, "end".to_string()).to_string(),
        "jmp end"
    );
    assert_eq!(
        Instruction::Branch(BranchType::ZERO(Register::RA), "end".to_string()).to_string(),
        "jz ra end"
    );
    assert_eq!(
        Instruction::Branch(BranchType::NOTZERO(Register::RA), "end".to_string()).to_string(),
        "jnz ra end"
    );
}

#[test]
fn render_label() {
    let instruction = Instruction::Control(ControlType::LBL("end".to_string()));
    assert_eq!(instruction.to_string(), "end:");
}

#[test]
fn render_store_positive() {
    let instruction = Instruction::Assignment(AssignmentType::STR(6), Register::RA);
    assert_eq!(instruction.to_string(), "str 6 ra");
}

#[test]
fn render_store_negative() {
    let instruction = Instruction::Assignment(AssignmentType::STR(-2147483648), Register::RB);
    assert_eq!(instruction.to_string(), "str -2147483648 rb");
}

#[test]
fn render_copy() {
    let instruction = Instruction::Assignment(AssignmentType::CPY(Register::RA), Register::RB);
    assert_eq!(instruction.to_string(), "cpy ra rb");
}

#[test]
fn render_register_names() {
    assert_eq!(Register::RA.to_string(), "ra");
    assert_eq!(Register::RF.to_string(), "rf");
}
