//! The virtual machine: register file, machine state, the evaluator
//! that applies one instruction, and the two execution drivers (batch
//! and incremental).
//!
//! The behaviour of the machine is stated against a small-step
//! specification: [`step`] gives the effect of one instruction on the
//! abstract machine state, [`run_from`] iterates it as the batch driver
//! does, and [`istep`] gives the effect of feeding one instruction
//! incrementally.  Every executable entry point's contract says exactly
//! which of these it realises.

use crate::instructions::{
    ArithmaticType, AssignmentType, BitwiseType, BranchType, ControlType, IOType, InstrV,
    Instruction, ShiftType,
};
use crate::jump_table::{targets_below, JumpTable};
use crate::registers::{Register, REG_COUNT};
use vstd::prelude::*;
use vstd::string::StringExecFns;
use vstd::wrapping::i32_specs;

verus! {

/// A fault raised by the evaluator or by batch setup.
#[derive(Debug, PartialEq, Eq, Structural, Clone, Copy)]
pub enum VMError {
    /// The operand register of a DIV instruction held zero.
    DivisionByZero,
    /// A taken branch named a label absent from the jump table.
    UndefinedLabel,
    /// A batch program defined no `main` label.
    MissingEntryLabel,
    /// A batch program contained no HLT instruction.
    MissingTerminator,
    /// The instruction is declared but not implemented (IN).
    UnsupportedOperation,
}

pub type VMResult<T> = Result<T, VMError>;

/// The part of the machine state an instruction can observe or change:
/// register bank, instruction pointer, jump table, running flag, and the
/// values written to the output channel so far.
pub struct CoreState {
    pub regs: Seq<i32>,
    pub ip: nat,
    pub jumps: Map<Seq<char>, nat>,
    pub running: bool,
    pub output: Seq<i32>,
}

/// The whole abstract machine state: the core state plus the program
/// buffer owned by the incremental driver.
pub struct VmState {
    pub program: Seq<InstrV>,
    pub core: CoreState,
}

/// The register bank at machine creation: every register holds zero.
pub open spec fn zero_regs() -> Seq<i32> {
    Seq::new(REG_COUNT as nat, |i: int| 0i32)
}

/// Truncating signed division, as the division instruction performs it:
/// the quotient is rounded towards zero, and the one overflowing case
/// (`i32::MIN / -1`) wraps back to `i32::MIN`.
pub open spec fn trunc_div(a: i32, b: i32) -> i32 {
    match a.checked_div(b) {
        Some(q) => q,
        None => i32::MIN,
    }
}

/// The result an arithmetic instruction stores, as a function of the
/// two source values.  Addition, subtraction and multiplication wrap
/// around on overflow.
pub open spec fn arith_result(kind: ArithmaticType, a: i32, b: i32) -> i32 {
    match kind {
        ArithmaticType::ADD => i32_specs::wrapping_add(a, b),
        ArithmaticType::SUB => i32_specs::wrapping_sub(a, b),
        ArithmaticType::MUL => i32_specs::wrapping_mul(a, b),
        ArithmaticType::DIV => trunc_div(a, b),
        ArithmaticType::MAX => if a >= b {
            a
        } else {
            b
        },
        ArithmaticType::MIN => if a <= b {
            a
        } else {
            b
        },
    }
}

/// The result a bitwise instruction stores, as a function of the two
/// source values.  A shift amount is reduced modulo the register width,
/// as the wrapping shift operations do.
pub open spec fn bitwise_result(kind: BitwiseType, a: i32, b: i32) -> i32 {
    match kind {
        BitwiseType::AND => a & b,
        BitwiseType::OR => a | b,
        BitwiseType::XOR => a ^ b,
        BitwiseType::SHIFT(ShiftType::LEFT) => i32_specs::wrapping_shl(a, b as u32),
        BitwiseType::SHIFT(ShiftType::RIGHT) => i32_specs::wrapping_shr(a, b as u32),
    }
}

/// The state with `value` stored in register `r`.
pub open spec fn write_reg(s: CoreState, r: Register, value: i32) -> CoreState {
    CoreState { regs: s.regs.update(r.spec_index(), value), ..s }
}

/// Whether a branch of kind `kind` redirects control in state `s`.
pub open spec fn branch_taken(s: CoreState, kind: BranchType) -> bool {
    match kind {
        BranchType::UNCONDITIONAL => true,
        BranchType::ZERO(r) => s.regs[r.spec_index()] == 0,
        BranchType::NOTZERO(r) => s.regs[r.spec_index()] != 0,
    }
}

/// The effect of one instruction on the core machine state: the state
/// after the instruction, and the fault it raised, if any.  A faulting
/// instruction leaves the state unchanged; no instruction partially
/// mutates state before faulting.
pub open spec fn step(s: CoreState, i: InstrV) -> (CoreState, Option<VMError>) {
    match i {
        InstrV::NOP => (s, None),
        InstrV::HLT => (CoreState { running: false, ..s }, None),
        InstrV::Control(_) => (s, None),
        InstrV::IO(kind, r) => match kind {
            IOType::OUT => (CoreState { output: s.output.push(s.regs[r.spec_index()]), ..s }, None),
            IOType::IN => (s, Some(VMError::UnsupportedOperation)),
        },
        InstrV::Arithmatic(kind, source, target, destination) => {
            let a = s.regs[source.spec_index()];
            let b = s.regs[target.spec_index()];
            if kind is DIV && b == 0 {
                (s, Some(VMError::DivisionByZero))
            } else {
                (write_reg(s, destination, arith_result(kind, a, b)), None)
            }
        },
        InstrV::Bitwise(kind, source, target, destination) => {
            let a = s.regs[source.spec_index()];
            let b = s.regs[target.spec_index()];
            (write_reg(s, destination, bitwise_result(kind, a, b)), None)
        },
        InstrV::Branch(kind, label) => {
            if branch_taken(s, kind) {
                if s.jumps.contains_key(label) {
                    (CoreState { ip: s.jumps[label], ..s }, None)
                } else {
                    (s, Some(VMError::UndefinedLabel))
                }
            } else {
                (s, None)
            }
        },
        InstrV::Assignment(kind, r) => match kind {
            AssignmentType::STR(value) => (write_reg(s, r, value), None),
            AssignmentType::CPY(source) => (write_reg(s, r, s.regs[source.spec_index()]), None),
        },
    }
}

/// The fault carried by an evaluator result, if any.
pub open spec fn fault_of(r: VMResult<()>) -> Option<VMError> {
    match r {
        Ok(_) => None,
        Err(e) => Some(e),
    }
}

/// The jump table described by a whole program: for every
/// label-defining instruction, its zero-based position, a later
/// definition of the same name overwriting an earlier one.
pub open spec fn spec_build(program: Seq<InstrV>) -> Map<Seq<char>, nat>
    decreases program.len(),
{
    if program.len() == 0 {
        Map::empty()
    } else {
        let m = spec_build(program.drop_last());
        match program.last() {
            InstrV::Control(label) => m.insert(label, (program.len() - 1) as nat),
            _ => m,
        }
    }
}

/// Whether the program contains a halt instruction anywhere.
pub open spec fn has_hlt(program: Seq<InstrV>) -> bool {
    exists|j: int| 0 <= j < program.len() && program[j] is HLT
}

/// Whether the batch execution loop has come to rest: the machine has
/// halted, or the instruction pointer has left the program.
pub open spec fn batch_stopped(core: CoreState, program: Seq<InstrV>) -> bool {
    !core.running || core.ip >= program.len()
}

/// Iterates [`step`] the way the batch driver does, for at most `fuel`
/// steps: evaluate the instruction under the pointer, then advance the
/// pointer by one (a taken branch has already redirected it, so
/// execution resumes one past the branch target).  Stops at the first
/// fault, leaving the state as the faulting instruction left it, or
/// when the machine comes to rest.
pub open spec fn run_from(core: CoreState, program: Seq<InstrV>, fuel: nat) -> (
    CoreState,
    Option<VMError>,
)
    decreases fuel,
{
    if batch_stopped(core, program) || fuel == 0 {
        (core, None)
    } else {
        let r = step(core, program[core.ip as int]);
        match r.1 {
            Some(_) => r,
            None => run_from(CoreState { ip: r.0.ip + 1, ..r.0 }, program, (fuel - 1) as nat),
        }
    }
}

/// The effect of feeding one instruction to the incremental driver:
/// the instruction is appended to the program buffer, the instruction
/// under the pointer is fetched, a label definition is recorded in the
/// jump table, the fetched instruction is evaluated, and the pointer
/// advances by one whatever the outcome.
pub open spec fn istep(s: VmState, i: InstrV) -> (VmState, Option<VMError>) {
    let p2 = s.program.push(i);
    let fetched = p2[s.core.ip as int];
    let jumps2 = match fetched {
        InstrV::Control(label) => s.core.jumps.insert(label, s.core.ip),
        _ => s.core.jumps,
    };
    let r = step(CoreState { jumps: jumps2, ..s.core }, fetched);
    (VmState { program: p2, core: CoreState { ip: r.0.ip + 1, ..r.0 } }, r.1)
}

/// The most instructions one batch run evaluates.  The execution loop
/// must provably terminate, so the driver bounds it; the bound is far
/// beyond what any real program reaches.
pub const STEP_BUDGET: u64 = u64::MAX;

/// Every position a program's jump table records lies inside the
/// program.
pub proof fn lemma_spec_build_targets(program: Seq<InstrV>)
    ensures
        targets_below(spec_build(program), program.len()),
    decreases program.len(),
{
    if program.len() > 0 {
        lemma_spec_build_targets(program.drop_last());
    }
}

/// Immediately after machine creation every register reads zero: the
/// register bank [`VM::new`] establishes holds zero at every register's
/// position, which is what [`VM::read`] returns.
pub proof fn lemma_fresh_registers_zero(r: Register)
    ensures
        0 <= r.spec_index() < zero_regs().len(),
        zero_regs()[r.spec_index()] == 0,
{
}

/// Loading an immediate value and then reading the destination yields
/// exactly that value: a STR instruction faults not and stores `value`
/// in its destination register.
pub proof fn lemma_str_then_read(s: CoreState, value: i32, r: Register)
    requires
        s.regs.len() == REG_COUNT,
    ensures
        step(s, InstrV::Assignment(AssignmentType::STR(value), r)).1 is None,
        step(s, InstrV::Assignment(AssignmentType::STR(value), r)).0.regs[r.spec_index()]
            == value,
{
}

/// What an arithmetic instruction stores in its destination register,
/// read back after the step: addition, subtraction and multiplication
/// match native wrapping signed-integer arithmetic on the two source
/// values; division by a nonzero operand truncates; division by a zero
/// operand register faults with `DivisionByZero` and changes nothing,
/// the destination register included.
pub proof fn lemma_arithmetic_step(
    s: CoreState,
    kind: ArithmaticType,
    source: Register,
    target: Register,
    destination: Register,
)
    requires
        s.regs.len() == REG_COUNT,
    ensures
        ({
            let a = s.regs[source.spec_index()];
            let b = s.regs[target.spec_index()];
            let r = step(s, InstrV::Arithmatic(kind, source, target, destination));
            &&& kind == ArithmaticType::ADD ==> r.1 is None && r.0.regs[destination.spec_index()]
                == i32_specs::wrapping_add(a, b)
            &&& kind == ArithmaticType::SUB ==> r.1 is None && r.0.regs[destination.spec_index()]
                == i32_specs::wrapping_sub(a, b)
            &&& kind == ArithmaticType::MUL ==> r.1 is None && r.0.regs[destination.spec_index()]
                == i32_specs::wrapping_mul(a, b)
            &&& kind == ArithmaticType::DIV && b != 0 ==> r.1 is None
                && r.0.regs[destination.spec_index()] == trunc_div(a, b)
            &&& kind == ArithmaticType::DIV && b == 0 ==> r == (
                s,
                Some(VMError::DivisionByZero),
            )
        }),
{
}

/// A taken branch whose label is absent from the jump table faults
/// with `UndefinedLabel` and changes nothing.
pub proof fn lemma_undefined_label_faults(s: CoreState, kind: BranchType, label: Seq<char>)
    requires
        !s.jumps.contains_key(label),
        branch_taken(s, kind),
    ensures
        step(s, InstrV::Branch(kind, label)) == (s, Some(VMError::UndefinedLabel)),
{
}

/// The virtual machine.  One instance owns the only mutable state in
/// the system; batch runs and incremental feeds mutate it in place.
#[derive(Debug)]
pub struct VM {
    program: Vec<Instruction>,
    registers: Vec<i32>,
    ip: usize,
    jump_map: JumpTable,
    running: bool,
    output: Vec<i32>,
}

impl View for VM {
    type V = VmState;

    closed spec fn view(&self) -> VmState {
        VmState {
            program: self.program.deep_view(),
            core: CoreState {
                regs: self.registers@,
                ip: self.ip as nat,
                jumps: self.jump_map@,
                running: self.running,
                output: self.output@,
            },
        }
    }
}

impl VM {
    /// The register bank always holds exactly one value per register
    /// name.
    pub open spec fn wf(self) -> bool {
        self@.core.regs.len() == REG_COUNT
    }

    /// In incremental use the instruction pointer never runs ahead of
    /// the program buffer by more than one, and every jump target lies
    /// inside the buffer.
    pub open spec fn interactive_inv(self) -> bool {
        &&& self@.core.ip <= self@.program.len()
        &&& targets_below(self@.core.jumps, self@.program.len())
    }

    /// Returns a fresh machine: an empty program buffer, all registers
    /// zero, the instruction pointer at zero, an empty jump table, the
    /// running flag set, and nothing written to the output channel.
    pub fn new() -> (vm: VM)
        ensures
            vm.wf(),
            vm.interactive_inv(),
            vm@.program == Seq::<InstrV>::empty(),
            vm@.core.regs == zero_regs(),
            vm@.core.ip == 0,
            vm@.core.jumps == Map::<Seq<char>, nat>::empty(),
            vm@.core.running,
            vm@.core.output == Seq::<i32>::empty(),
    {
        let mut registers: Vec<i32> = Vec::new();
        let mut i: usize = 0;
        while i < REG_COUNT
            invariant
                i <= REG_COUNT,
                registers@ =~= zero_regs().take(i as int),
            decreases REG_COUNT - i,
        {
            registers.push(0);
            i = i + 1;
        }
        let vm = VM {
            program: Vec::new(),
            registers,
            ip: 0,
            jump_map: JumpTable::new(),
            running: true,
            output: Vec::new(),
        };
        proof {
            assert(vm@.core.regs =~= zero_regs());
            assert(vm@.program =~= Seq::<InstrV>::empty());
        }
        vm
    }

    /// Reads the current value of a register.  Never fails: every
    /// register exists and is defined from creation.
    pub fn read(&self, register: Register) -> (value: i32)
        requires
            self.wf(),
        ensures
            value == self@.core.regs[register.spec_index()],
    {
        self.registers[register.index()]
    }

    /// Stores `value` in a register.  Never fails.
    pub fn write(&mut self, register: Register, value: i32)
        requires
            old(self).wf(),
        ensures
            final(self).wf(),
            final(self)@ == (VmState {
                core: write_reg(old(self)@.core, register, value),
                ..old(self)@
            }),
    {
        let i = register.index();
        self.registers.set(i, value);
    }

    /// Hands the values written to the output channel since the last
    /// take (or since creation) to the caller, leaving the channel
    /// empty.
    pub fn take_output(&mut self) -> (out: Vec<i32>)
        ensures
            old(self).wf() ==> final(self).wf(),
            out@ == old(self)@.core.output,
            final(self)@ == (VmState {
                core: CoreState { output: Seq::<i32>::empty(), ..old(self)@.core },
                ..old(self)@
            }),
    {
        let mut out: Vec<i32> = Vec::new();
        core::mem::swap(&mut out, &mut self.output);
        out
    }

    /// Builds the jump table for a whole program: one linear scan that
    /// records the position of every label-defining instruction,
    /// overwriting any earlier entry for the same name.  Deterministic
    /// and total.
    pub fn build_jump_map(&self, program: &Vec<Instruction>) -> (table: JumpTable)
        ensures
            table@ == spec_build(program.deep_view()),
    {
        let mut table = JumpTable::new();
        let mut position: usize = 0;
        while position < program.len()
            invariant
                position <= program.deep_view().len(),
                table@ == spec_build(program.deep_view().take(position as int)),
            decreases program.deep_view().len() - position,
        {
            match &program[position] {
                Instruction::Control(ControlType::LBL(label)) => {
                    table.insert(label.clone(), position);
                },
                _ => {},
            }
            proof {
                let p = program.deep_view();
                assert(p.take(position + 1).drop_last() =~= p.take(position as int));
                assert(p.take(position + 1).last() == p[position as int]);
            }
            position = position + 1;
        }
        proof {
            let p = program.deep_view();
            assert(p.take(p.len() as int) =~= p);
        }
        table
    }

    /// Runs a complete program in batch mode.
    ///
    /// Setup first builds the jump table, then fails with
    /// `MissingEntryLabel` if the table has no `main` entry and with
    /// `MissingTerminator` if the program holds no HLT anywhere; both
    /// checks happen before any instruction executes.  Otherwise the
    /// pointer is set to the `main` label's position and the machine
    /// iterates exactly as [`run_from`] describes, stopping when the
    /// running flag clears, when the pointer leaves the program, or at
    /// the first fault, which is surfaced to the caller with the
    /// machine state as the fault left it.
    #[verifier::loop_isolation(false)]
    pub fn run(&mut self, program: Vec<Instruction>) -> (r: VMResult<()>)
        requires
            old(self).wf(),
        ensures
            final(self).wf(),
            final(self)@.program == old(self)@.program,
            ({
                let p = program.deep_view();
                let jt = spec_build(p);
                &&& final(self)@.core.jumps == jt
                &&& (if !jt.contains_key("main"@) {
                    &&& r == Err::<(), VMError>(VMError::MissingEntryLabel)
                    &&& final(self)@.core == (CoreState { jumps: jt, ..old(self)@.core })
                } else if !has_hlt(p) {
                    &&& r == Err::<(), VMError>(VMError::MissingTerminator)
                    &&& final(self)@.core == (CoreState {
                        jumps: jt,
                        ip: jt["main"@],
                        ..old(self)@.core
                    })
                } else {
                    let outcome = run_from(
                        CoreState { jumps: jt, ip: jt["main"@], ..old(self)@.core },
                        p,
                        STEP_BUDGET as nat,
                    );
                    &&& final(self)@.core == outcome.0
                    &&& fault_of(r) == outcome.1
                })
            }),
    {
        let table = self.build_jump_map(&program);
        self.jump_map = table;
        let main_label = String::from_str("main");
        match self.jump_map.get(&main_label) {
            Some(position) => {
                self.ip = position;
            },
            None => {
                return Err(VMError::MissingEntryLabel);
            },
        }
        let mut has_terminator = false;
        let mut i: usize = 0;
        while i < program.len()
            invariant
                i <= program.deep_view().len(),
                has_terminator <==> exists|j: int|
                    0 <= j < i && program.deep_view()[j] is HLT,
            decreases program.deep_view().len() - i,
        {
            match &program[i] {
                Instruction::HLT => {
                    has_terminator = true;
                    proof {
                        assert(program.deep_view()[i as int] is HLT);
                    }
                },
                _ => {},
            }
            i = i + 1;
        }
        if !has_terminator {
            return Err(VMError::MissingTerminator);
        }
        let ghost p = program.deep_view();
        let ghost jt = self@.core.jumps;
        let ghost init = self@.core;
        proof {
            lemma_spec_build_targets(p);
        }
        let mut fuel: u64 = STEP_BUDGET;
        while self.running && self.ip < program.len() && fuel > 0
            invariant
                self.wf(),
                self@.program == old(self)@.program,
                self@.core.jumps == jt,
                run_from(init, p, STEP_BUDGET as nat) == run_from(self@.core, p, fuel as nat),
            decreases fuel,
        {
            let instruction = &program[self.ip];
            match self.eval(instruction) {
                Ok(_) => {},
                Err(e) => {
                    return Err(e);
                },
            }
            // A taken branch moved the pointer to a recorded label
            // position, which lies inside the program; otherwise the
            // pointer still stands where the loop condition checked it.
            assert(self.ip < program.len());
            self.ip = self.ip + 1;
            fuel = fuel - 1;
        }
        Ok(())
    }

    /// Feeds one instruction to the machine in incremental mode:
    /// exactly the effect [`istep`] describes.  A fault is reported to
    /// the caller but does not end the session; the pointer advances by
    /// one whatever the outcome, and register and jump-table state
    /// persist for the next call.  No entry label and no terminator are
    /// required.
    ///
    /// The machine must have been driven only incrementally: a batch
    /// run leaves the pointer and the jump table aimed at the batch
    /// program rather than at the incremental buffer, which is what
    /// the second precondition rules out.
    pub fn interactive(&mut self, instruction: Instruction) -> (r: VMResult<()>)
        requires
            old(self).wf(),
            old(self).interactive_inv(),
        ensures
            final(self).wf(),
            final(self).interactive_inv(),
            final(self)@ == istep(old(self)@, instruction@).0,
            fault_of(r) == istep(old(self)@, instruction@).1,
    {
        let ghost s0 = self@;
        self.program.push(instruction);
        proof {
            assert(self@.program =~= s0.program.push(instruction@));
        }
        let position = self.ip;
        let fetched = self.program[position].clone();
        match &fetched {
            Instruction::Control(ControlType::LBL(label)) => {
                self.jump_map.insert(label.clone(), position);
            },
            _ => {},
        }
        let r = self.eval(&fetched);
        let n = self.program.len();
        assert(self.ip < n);
        self.ip = self.ip + 1;
        proof {
            let after = istep(s0, instruction@);
            assert(self@.core == after.0.core);
            assert(self@.program == after.0.program);
            assert forall|l: Seq<char>| self@.core.jumps.contains_key(l) implies #[trigger] self@
                .core
                .jumps[l] < self@.program.len() by {
            }
        }
        r
    }

    /// Applies one instruction to the machine state: exactly the effect
    /// [`step`] describes, including the fault raised, if any.
    pub fn eval(&mut self, instruction: &Instruction) -> (r: VMResult<()>)
        requires
            old(self).wf(),
        ensures
            final(self).wf(),
            final(self)@.program == old(self)@.program,
            final(self)@.core == step(old(self)@.core, instruction@).0,
            fault_of(r) == step(old(self)@.core, instruction@).1,
    {
        match instruction {
            Instruction::NOP => Ok(()),
            Instruction::HLT => {
                self.running = false;
                Ok(())
            },
            Instruction::Control(ControlType::LBL(_)) => Ok(()),
            Instruction::IO(kind, register) => match kind {
                IOType::OUT => {
                    let value = self.registers[register.index()];
                    self.output.push(value);
                    Ok(())
                },
                IOType::IN => Err(VMError::UnsupportedOperation),
            },
            Instruction::Arithmatic(kind, source, target, destination) => {
                let a = self.registers[source.index()];
                let b = self.registers[target.index()];
                match kind {
                    ArithmaticType::ADD => {
                        self.registers.set(destination.index(), a.wrapping_add(b));
                        Ok(())
                    },
                    ArithmaticType::SUB => {
                        self.registers.set(destination.index(), a.wrapping_sub(b));
                        Ok(())
                    },
                    ArithmaticType::MUL => {
                        self.registers.set(destination.index(), a.wrapping_mul(b));
                        Ok(())
                    },
                    ArithmaticType::DIV => {
                        if b == 0 {
                            Err(VMError::DivisionByZero)
                        } else {
                            let q = match a.checked_div(b) {
                                Some(q) => q,
                                None => i32::MIN,
                            };
                            self.registers.set(destination.index(), q);
                            Ok(())
                        }
                    },
                    ArithmaticType::MAX => {
                        self.registers.set(destination.index(), if a >= b { a } else { b });
                        Ok(())
                    },
                    ArithmaticType::MIN => {
                        self.registers.set(destination.index(), if a <= b { a } else { b });
                        Ok(())
                    },
                }
            },
            Instruction::Bitwise(kind, source, target, destination) => {
                let a = self.registers[source.index()];
                let b = self.registers[target.index()];
                let value = match kind {
                    BitwiseType::AND => a & b,
                    BitwiseType::OR => a | b,
                    BitwiseType::XOR => a ^ b,
                    BitwiseType::SHIFT(ShiftType::LEFT) => a.wrapping_shl(b as u32),
                    BitwiseType::SHIFT(ShiftType::RIGHT) => a.wrapping_shr(b as u32),
                };
                self.registers.set(destination.index(), value);
                Ok(())
            },
            Instruction::Branch(kind, label) => {
                let taken = match kind {
                    BranchType::UNCONDITIONAL => true,
                    BranchType::ZERO(register) => self.registers[register.index()] == 0,
                    BranchType::NOTZERO(register) => self.registers[register.index()] != 0,
                };
                if taken {
                    match self.jump_map.get(label) {
                        Some(position) => {
                            self.ip = position;
                            Ok(())
                        },
                        None => Err(VMError::UndefinedLabel),
                    }
                } else {
                    Ok(())
                }
            },
            Instruction::Assignment(kind, register) => {
                match kind {
                    AssignmentType::STR(value) => {
                        self.registers.set(register.index(), *value);
                    },
                    AssignmentType::CPY(source) => {
                        let value = self.registers[source.index()];
                        self.registers.set(register.index(), value);
                    },
                }
                Ok(())
            },
        }
    }
}

} // verus!
