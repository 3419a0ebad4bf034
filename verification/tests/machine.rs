use asmvm::instruction::Instruction;
use asmvm::parser::Parser;
use asmvm::vm::{Step, VmFault, VM};

const FUEL: u64 = 100_000;

fn run_program(code: &str) -> (VM, Result<(), VmFault>) {
    let instructions = Parser::new().process(code).expect("compiles");
    let mut vm = VM::new(instructions);
    let outcome = vm.run(FUEL).expect("finishes within fuel");
    (vm, outcome)
}

#[test]
fn arithmetic_multiplies() {
    let (vm, outcome) = run_program(".data\n.code\nload $0 #6\nload $1 #7\nmul $2 $0 $1\nhlt\n");
    assert_eq!(Ok(()), outcome);
    assert_eq!(42, vm.ir[2]);
}

#[test]
fn division_sets_quotient_and_remainder() {
    let (vm, outcome) = run_program(".data\n.code\nload $0 #7\nload $1 #2\ndiv $2 $0 $1\nhlt\n");
    assert_eq!(Ok(()), outcome);
    assert_eq!(3, vm.ir[2]);
    assert_eq!(1, vm.remainder);
}

#[test]
fn division_truncates_toward_zero() {
    let (vm, outcome) = run_program(".data\n.code\nload $0 #-7\nload $1 #2\ndiv $2 $0 $1\nhlt\n");
    assert_eq!(Ok(()), outcome);
    assert_eq!(-3, vm.ir[2]);
    assert_eq!(-1, vm.remainder);
}

#[test]
fn counted_loop_runs_its_body_three_times() {
    let code = ".data\n.code\ncloop #3\njmp @chk\nbody:\ninc $0\nchk:\nloop @body\nhlt\n";
    let (vm, outcome) = run_program(code);
    assert_eq!(Ok(()), outcome);
    assert_eq!(3, vm.ir[0]);
}

#[test]
fn counted_loop_body_also_runs_on_the_fall_through() {
    // Without a jump over the first pass, the body runs once falling in
    // and then once per decrementing jump.
    let code = ".data\n.code\ncloop #3\nbody:\ninc $0\nloop @body\nhlt\n";
    let (vm, outcome) = run_program(code);
    assert_eq!(Ok(()), outcome);
    assert_eq!(4, vm.ir[0]);
}

#[test]
fn call_and_return() {
    let code = ".data\n.code\ncall @fn\nhlt\nfn:\nload $0 #9\nret\n";
    let (vm, outcome) = run_program(code);
    assert_eq!(Ok(()), outcome);
    assert_eq!(9, vm.ir[0]);
    // Halted at the instruction after the call, not inside `fn`.
    assert_eq!(1, vm.pc);
    assert!(vm.stack.is_empty());
}

#[test]
fn return_without_call_is_a_fault() {
    let (_, outcome) = run_program(".data\n.code\nret\n");
    assert_eq!(Err(VmFault::StackUnderflow), outcome);
}

#[test]
fn division_by_zero_is_a_fault() {
    let code = ".data\n.code\nload $0 #7\nload $1 #0\ndiv $2 $0 $1\nhlt\n";
    let (_, outcome) = run_program(code);
    assert_eq!(Err(VmFault::DivideByZero), outcome);
}

#[test]
fn faults_differ_from_normal_halts() {
    let (_, halted) = run_program(".data\n.code\nhlt\n");
    let (_, faulted) = run_program(".data\n.code\nret\n");
    assert!(halted.is_ok());
    assert!(faulted.is_err());
    assert_ne!(halted, faulted);
}

#[test]
fn running_off_the_end_is_a_fault() {
    let code = ".data\n.code\nload $0 #1\n";
    let (_, outcome) = run_program(code);
    assert_eq!(Err(VmFault::PcOutOfRange), outcome);
}

#[test]
fn register_index_out_of_range_is_a_fault() {
    let (_, outcome) = run_program(".data\n.code\ninc $40\n");
    assert_eq!(Err(VmFault::RegisterOutOfRange), outcome);
}

#[test]
fn comparisons_drive_conditional_jumps() {
    let code = ".data\n.code\nload $0 #5\nload $1 #5\neq $0 $1\njmpe @yes\nload $2 #1\nhlt\n\
yes:\nload $2 #2\nhlt\n";
    let (vm, outcome) = run_program(code);
    assert_eq!(Ok(()), outcome);
    assert_eq!(2, vm.ir[2]);
}

#[test]
fn increment_wraps_on_overflow() {
    let code = ".data\n.code\nload $0 #2147483647\ninc $0\nhlt\n";
    let (vm, outcome) = run_program(code);
    assert_eq!(Ok(()), outcome);
    assert_eq!(i32::MIN, vm.ir[0]);
}

#[test]
fn fresh_machine_starts_clean() {
    let vm = VM::new(vec![Instruction::HLT]);
    assert_eq!([0i32; 32], vm.ir);
    assert_eq!(0, vm.pc);
    assert!(vm.running);
    assert!(!vm.compare_flag);
    assert_eq!(0, vm.loop_counter);
    assert!(vm.stack.is_empty());
}

#[test]
fn single_step_execution() {
    let mut vm = VM::new(vec![Instruction::LOAD { rd: 0, value: 5 }, Instruction::HLT]);
    assert_eq!(Step::PCNext, vm.execute_instruction());
    assert_eq!(5, vm.ir[0]);
    vm.pc += 1;
    assert_eq!(Step::Halt, vm.execute_instruction());
}

#[test]
fn fuel_exhaustion_reports_none() {
    // An endless loop: `jmp` back to itself.
    let code = ".data\n.code\nspin:\njmp @spin\n";
    let instructions = Parser::new().process(code).expect("compiles");
    let mut vm = VM::new(instructions);
    assert_eq!(None, vm.run(1000));
    assert_eq!(0, vm.pc);
}

#[test]
fn whole_pipeline_matches_reference_run() {
    let code = "
.data
.code
load $0 #10
load $2 #0
zaloop:
inc $2
eq $0 $2
jmpne @zaloop
hlt
";
    let (vm, outcome) = run_program(code);
    assert_eq!(Ok(()), outcome);
    assert_eq!(10, vm.ir[2]);
}
