use thermite::instructions::{
    ArithmaticType, AssignmentType, BitwiseType, BranchType, ControlType, IOType, Instruction,
    ShiftType,
};
use thermite::lexer::tokenize;
use thermite::parser::parse;
use thermite::registers::Register;
use thermite::vm::{VMError, VM};

fn lbl(name: &str) -> Instruction {
    Instruction::Control(ControlType::LBL(name.to_string()))
}

fn str_to(value: i32, register: Register) -> Instruction {
    Instruction::Assignment(AssignmentType::STR(value), register)
}

#[test]
fn vm_add() {
    let mut vm = VM::new();
    let program = vec![
        lbl("main"),
        str_to(10, Register::RA),
        str_to(5, Register::RB),
        Instruction::Arithmatic(ArithmaticType::ADD, Register::RA, Register::RB, Register::RC),
        Instruction::HLT,
    ];
    assert!(vm.run(program).is_ok());
    assert_eq!(vm.read(Register::RC), 15);
}

#[test]
fn vm_sub() {
    let mut vm = VM::new();
    let program = vec![
        lbl("main"),
        str_to(10, Register::RA),
        str_to(5, Register::RB),
        Instruction::Arithmatic(ArithmaticType::SUB, Register::RA, Register::RB, Register::RC),
        Instruction::HLT,
    ];
    assert!(vm.run(program).is_ok());
    assert_eq!(vm.read(Register::RC), 5);
}

#[test]
fn vm_mul() {
    let mut vm = VM::new();
    let program = vec![
        lbl("main"),
        str_to(10, Register::RA),
        str_to(5, Register::RB),
        Instruction::Arithmatic(ArithmaticType::MUL, Register::RA, Register::RB, Register::RC),
        Instruction::HLT,
    ];
    assert!(vm.run(program).is_ok());
    assert_eq!(vm.read(Register::RC), 50);
}

#[test]
fn vm_div() {
    let mut vm = VM::new();
    let program = vec![
        lbl("main"),
        str_to(10, Register::RA),
        str_to(5, Register::RB),
        Instruction::Arithmatic(ArithmaticType::DIV, Register::RA, Register::RB, Register::RC),
        Instruction::HLT,
    ];
    assert!(vm.run(program).is_ok());
    assert_eq!(vm.read(Register::RC), 2);
}

#[test]
fn vm_zerodivision() {
    let mut vm = VM::new();
    let program = vec![
        lbl("main"),
        str_to(10, Register::RA),
        str_to(0, Register::RB),
        Instruction::Arithmatic(ArithmaticType::DIV, Register::RA, Register::RB, Register::RC),
        Instruction::HLT,
    ];
    assert_eq!(vm.run(program), Err(VMError::DivisionByZero));
    // The faulting division writes nothing: the destination register
    // still holds its initial zero.
    assert_eq!(vm.read(Register::RC), 0);
}

#[test]
fn vm_jmp() {
    let mut vm = VM::new();
    let program = vec![
        lbl("main"),
        str_to(10, Register::RA),
        str_to(5, Register::RB),
        Instruction::Branch(BranchType::UNCONDITIONAL, "test".to_string()),
        Instruction::Arithmatic(ArithmaticType::ADD, Register::RA, Register::RB, Register::RB),
        lbl("test"),
        Instruction::HLT,
    ];
    assert!(vm.run(program).is_ok());
    assert_eq!(vm.read(Register::RB), 5);
}

#[test]
fn vm_jz() {
    let mut vm = VM::new();
    let program = vec![
        lbl("main"),
        str_to(0, Register::RA),
        str_to(5, Register::RB),
        str_to(5, Register::RC),
        Instruction::Branch(BranchType::ZERO(Register::RA), "test".to_string()),
        Instruction::Arithmatic(ArithmaticType::ADD, Register::RA, Register::RB, Register::RB),
        lbl("test"),
        Instruction::HLT,
    ];
    assert!(vm.run(program).is_ok());
    assert_eq!(vm.read(Register::RB), 5);
}

#[test]
fn vm_jnz() {
    let mut vm = VM::new();
    let program = vec![
        lbl("main"),
        str_to(0, Register::RA),
        str_to(5, Register::RB),
        str_to(5, Register::RC),
        Instruction::Branch(BranchType::NOTZERO(Register::RB), "test".to_string()),
        Instruction::Arithmatic(ArithmaticType::ADD, Register::RA, Register::RB, Register::RB),
        lbl("test"),
        Instruction::HLT,
    ];
    assert!(vm.run(program).is_ok());
    assert_eq!(vm.read(Register::RB), 5);
}

#[test]
fn registers_zero_after_creation() {
    let vm = VM::new();
    for r in [
        Register::RA,
        Register::RB,
        Register::RC,
        Register::RD,
        Register::RE,
        Register::RF,
    ] {
        assert_eq!(vm.read(r), 0);
    }
}

#[test]
fn str_then_read_yields_value() {
    let mut vm = VM::new();
    assert!(vm.interactive(str_to(-37, Register::RD)).is_ok());
    assert_eq!(vm.read(Register::RD), -37);
}

#[test]
fn add_wraps_like_native_arithmetic() {
    let mut vm = VM::new();
    vm.write(Register::RA, i32::MAX);
    vm.write(Register::RB, 1);
    let add =
        Instruction::Arithmatic(ArithmaticType::ADD, Register::RA, Register::RB, Register::RC);
    assert!(vm.interactive(add).is_ok());
    assert_eq!(vm.read(Register::RC), i32::MIN);
}

#[test]
fn div_truncates_towards_zero() {
    let mut vm = VM::new();
    vm.write(Register::RA, -7);
    vm.write(Register::RB, 2);
    let div =
        Instruction::Arithmatic(ArithmaticType::DIV, Register::RA, Register::RB, Register::RC);
    assert!(vm.interactive(div).is_ok());
    assert_eq!(vm.read(Register::RC), -3);
}

#[test]
fn max_and_min_pick_extremes() {
    let mut vm = VM::new();
    vm.write(Register::RA, -4);
    vm.write(Register::RB, 9);
    let max =
        Instruction::Arithmatic(ArithmaticType::MAX, Register::RA, Register::RB, Register::RC);
    let min =
        Instruction::Arithmatic(ArithmaticType::MIN, Register::RA, Register::RB, Register::RD);
    assert!(vm.interactive(max).is_ok());
    assert!(vm.interactive(min).is_ok());
    assert_eq!(vm.read(Register::RC), 9);
    assert_eq!(vm.read(Register::RD), -4);
}

#[test]
fn bitwise_operations() {
    let mut vm = VM::new();
    vm.write(Register::RA, 0b1100);
    vm.write(Register::RB, 0b1010);
    let and = Instruction::Bitwise(BitwiseType::AND, Register::RA, Register::RB, Register::RC);
    let or = Instruction::Bitwise(BitwiseType::OR, Register::RA, Register::RB, Register::RD);
    let xor = Instruction::Bitwise(BitwiseType::XOR, Register::RA, Register::RB, Register::RE);
    assert!(vm.interactive(and).is_ok());
    assert!(vm.interactive(or).is_ok());
    assert!(vm.interactive(xor).is_ok());
    assert_eq!(vm.read(Register::RC), 0b1000);
    assert_eq!(vm.read(Register::RD), 0b1110);
    assert_eq!(vm.read(Register::RE), 0b0110);
}

#[test]
fn shifts_reduce_the_amount_modulo_width() {
    let mut vm = VM::new();
    vm.write(Register::RA, 5);
    vm.write(Register::RB, 33);
    let shl = Instruction::Bitwise(
        BitwiseType::SHIFT(ShiftType::LEFT),
        Register::RA,
        Register::RB,
        Register::RC,
    );
    let shr = Instruction::Bitwise(
        BitwiseType::SHIFT(ShiftType::RIGHT),
        Register::RA,
        Register::RB,
        Register::RD,
    );
    assert!(vm.interactive(shl).is_ok());
    assert!(vm.interactive(shr).is_ok());
    assert_eq!(vm.read(Register::RC), 10);
    assert_eq!(vm.read(Register::RD), 2);
}

#[test]
fn undefined_label_faults() {
    let mut vm = VM::new();
    let program = vec![
        lbl("main"),
        Instruction::Branch(BranchType::UNCONDITIONAL, "nowhere".to_string()),
        Instruction::HLT,
    ];
    assert_eq!(vm.run(program), Err(VMError::UndefinedLabel));
}

#[test]
fn missing_entry_label_faults_before_execution() {
    let mut vm = VM::new();
    let program = vec![str_to(10, Register::RA), Instruction::HLT];
    assert_eq!(vm.run(program), Err(VMError::MissingEntryLabel));
    // The check runs before any instruction: the store never happened.
    assert_eq!(vm.read(Register::RA), 0);
}

#[test]
fn missing_terminator_faults_before_execution() {
    let mut vm = VM::new();
    let program = vec![lbl("main"), str_to(10, Register::RA)];
    assert_eq!(vm.run(program), Err(VMError::MissingTerminator));
    assert_eq!(vm.read(Register::RA), 0);
}

#[test]
fn input_instruction_is_unsupported() {
    let mut vm = VM::new();
    assert_eq!(
        vm.interactive(Instruction::IO(IOType::IN, Register::RA)),
        Err(VMError::UnsupportedOperation)
    );
}

#[test]
fn out_writes_to_the_output_channel() {
    let mut vm = VM::new();
    let program = vec![
        lbl("main"),
        str_to(10, Register::RA),
        Instruction::IO(IOType::OUT, Register::RA),
        Instruction::IO(IOType::OUT, Register::RA),
        Instruction::HLT,
    ];
    assert!(vm.run(program).is_ok());
    assert_eq!(vm.take_output(), vec![10, 10]);
    assert_eq!(vm.take_output(), Vec::<i32>::new());
}

#[test]
fn incremental_reproduces_batch_end_state() {
    let program = vec![
        lbl("main"),
        str_to(10, Register::RA),
        str_to(5, Register::RB),
        Instruction::Arithmatic(ArithmaticType::ADD, Register::RA, Register::RB, Register::RC),
        Instruction::IO(IOType::OUT, Register::RC),
        Instruction::HLT,
    ];

    let mut batch = VM::new();
    assert!(batch.run(program.clone()).is_ok());

    let mut incremental = VM::new();
    for instruction in program {
        assert!(incremental.interactive(instruction).is_ok());
    }

    for r in [
        Register::RA,
        Register::RB,
        Register::RC,
        Register::RD,
        Register::RE,
        Register::RF,
    ] {
        assert_eq!(batch.read(r), incremental.read(r));
    }
    assert_eq!(batch.take_output(), incremental.take_output());
}

#[test]
fn incremental_fault_keeps_the_session_usable() {
    let mut vm = VM::new();
    assert_eq!(
        vm.interactive(Instruction::Branch(
            BranchType::UNCONDITIONAL,
            "nowhere".to_string()
        )),
        Err(VMError::UndefinedLabel)
    );
    // The next line still evaluates against persistent state.
    assert!(vm.interactive(str_to(4, Register::RA)).is_ok());
    assert_eq!(vm.read(Register::RA), 4);
}

#[test]
fn later_label_definition_wins() {
    let mut vm = VM::new();
    let program = vec![
        lbl("main"),
        str_to(5, Register::RA),
        Instruction::HLT,
        lbl("main"),
        str_to(7, Register::RB),
        Instruction::HLT,
    ];
    assert!(vm.run(program).is_ok());
    // The second `main` overwrites the first, so the run starts there.
    assert_eq!(vm.read(Register::RA), 0);
    assert_eq!(vm.read(Register::RB), 7);
}

#[test]
fn incremental_matches_batch_with_untaken_branch() {
    let program = vec![
        lbl("main"),
        str_to(3, Register::RA),
        Instruction::Branch(BranchType::ZERO(Register::RA), "main".to_string()),
        str_to(4, Register::RB),
        Instruction::HLT,
    ];

    let mut batch = VM::new();
    assert!(batch.run(program.clone()).is_ok());

    let mut incremental = VM::new();
    for instruction in program {
        assert!(incremental.interactive(instruction).is_ok());
    }

    for r in [Register::RA, Register::RB, Register::RC] {
        assert_eq!(batch.read(r), incremental.read(r));
    }
}

#[test]
fn full_pipeline_runs_source_text() {
    let source = "main:\nstr 10 ra\nstr 5 rb\nadd ra rb rc\nout rc\nhlt";
    let program = parse(tokenize(source));
    let mut vm = VM::new();
    assert!(vm.run(program).is_ok());
    assert_eq!(vm.read(Register::RC), 15);
    assert_eq!(vm.take_output(), vec![15]);
}
