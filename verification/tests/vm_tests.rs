use pl_0::error::RuntimeErrorType;
use pl_0::pcode::{PCodeManager, PcodeType};
use pl_0::vm::{InterpretResult, StepResult, VM};

fn machine(instrs: &[(PcodeType, usize, i64)]) -> VM {
    let mut m = PCodeManager::new();
    for &(f, l, a) in instrs {
        m.gen(f, l, a);
    }
    VM::new(m)
}

#[test]
fn arithmetic_program_runs() {
    // main frame, 7 and 5 pushed, added, written, return
    let mut vm = machine(&[
        (PcodeType::JMP, 0, 1),
        (PcodeType::INT, 0, 3),
        (PcodeType::LIT, 0, 7),
        (PcodeType::LIT, 0, 5),
        (PcodeType::OPR, 0, 2),
        (PcodeType::OPR, 0, 14),
        (PcodeType::OPR, 0, 15),
        (PcodeType::OPR, 0, 0),
    ]);
    assert!(matches!(vm.interpret(1000), InterpretResult::Halted));
    assert_eq!(vm.get_outputs(), &vec![12]);
}

#[test]
fn subtraction_multiplication_division_negation() {
    let mut vm = machine(&[
        (PcodeType::INT, 0, 3),
        (PcodeType::LIT, 0, 9),
        (PcodeType::LIT, 0, 4),
        (PcodeType::OPR, 0, 3),  // 5
        (PcodeType::LIT, 0, 6),
        (PcodeType::OPR, 0, 4),  // 30
        (PcodeType::LIT, 0, 7),
        (PcodeType::OPR, 0, 5),  // 4
        (PcodeType::OPR, 0, 1),  // -4
        (PcodeType::OPR, 0, 14),
        (PcodeType::OPR, 0, 0),
    ]);
    assert!(matches!(vm.interpret(1000), InterpretResult::Halted));
    assert_eq!(vm.get_outputs(), &vec![-4]);
}

#[test]
fn comparisons_produce_zero_or_one() {
    // 3 < 5 -> 1; then 1 >= 9 -> 0
    let mut vm = machine(&[
        (PcodeType::INT, 0, 3),
        (PcodeType::LIT, 0, 3),
        (PcodeType::LIT, 0, 5),
        (PcodeType::OPR, 0, 10),
        (PcodeType::LIT, 0, 9),
        (PcodeType::OPR, 0, 11),
        (PcodeType::OPR, 0, 14),
        (PcodeType::OPR, 0, 0),
    ]);
    assert!(matches!(vm.interpret(1000), InterpretResult::Halted));
    assert_eq!(vm.get_outputs(), &vec![0]);
}

#[test]
fn odd_test_keeps_parity() {
    let mut vm = machine(&[
        (PcodeType::INT, 0, 3),
        (PcodeType::LIT, 0, 7),
        (PcodeType::OPR, 0, 6),
        (PcodeType::OPR, 0, 14),
        (PcodeType::OPR, 0, 0),
    ]);
    assert!(matches!(vm.interpret(1000), InterpretResult::Halted));
    assert_eq!(vm.get_outputs(), &vec![1]);
}

#[test]
fn jpc_pops_and_jumps_on_zero() {
    // condition 0: jump over the write of 111, write 222 instead
    let mut vm = machine(&[
        (PcodeType::INT, 0, 3),
        (PcodeType::LIT, 0, 0),
        (PcodeType::JPC, 0, 5),
        (PcodeType::LIT, 0, 111),
        (PcodeType::OPR, 0, 14),
        (PcodeType::LIT, 0, 222),
        (PcodeType::OPR, 0, 14),
        (PcodeType::OPR, 0, 0),
    ]);
    assert!(matches!(vm.interpret(1000), InterpretResult::Halted));
    assert_eq!(vm.get_outputs(), &vec![222]);
}

#[test]
fn division_by_zero_is_reported() {
    let mut vm = machine(&[
        (PcodeType::INT, 0, 3),
        (PcodeType::LIT, 0, 1),
        (PcodeType::LIT, 0, 0),
        (PcodeType::OPR, 0, 5),
        (PcodeType::OPR, 0, 0),
    ]);
    match vm.interpret(1000) {
        InterpretResult::Failed(e) => {
            assert_eq!(e.error_type, RuntimeErrorType::DivisionByZero);
            assert_eq!(e.line, 3);
            assert_eq!(e.info, "division by zero");
        },
        other => panic!("expected a failure, got {:?}", other),
    }
}

#[test]
fn stack_exhaustion_is_reported() {
    let mut vm = machine(&[(PcodeType::INT, 0, 5000), (PcodeType::OPR, 0, 0)]);
    match vm.interpret(1000) {
        InterpretResult::Failed(e) => {
            assert_eq!(e.error_type, RuntimeErrorType::StackOverflow);
        },
        other => panic!("expected a failure, got {:?}", other),
    }
}

#[test]
fn uninitialised_instruction_is_reported() {
    let mut vm = machine(&[(PcodeType::NIL, 0, 0)]);
    match vm.interpret(1000) {
        InterpretResult::Failed(e) => {
            assert_eq!(e.error_type, RuntimeErrorType::InvalidInstruction);
        },
        other => panic!("expected a failure, got {:?}", other),
    }
}

#[test]
fn undefined_operator_is_reported() {
    let mut vm = machine(&[(PcodeType::OPR, 0, 99)]);
    match vm.interpret(1000) {
        InterpretResult::Failed(e) => {
            assert_eq!(e.error_type, RuntimeErrorType::InvalidOperator);
        },
        other => panic!("expected a failure, got {:?}", other),
    }
}

#[test]
fn interpret_budget_runs_out_on_a_loop() {
    let mut vm = machine(&[(PcodeType::JMP, 0, 1), (PcodeType::JMP, 0, 1)]);
    assert!(matches!(vm.interpret(100), InterpretResult::OutOfSteps));
}

#[test]
fn read_consumes_queued_input() {
    let mut vm = machine(&[
        (PcodeType::INT, 0, 3),
        (PcodeType::OPR, 0, 16),
        (PcodeType::OPR, 0, 14),
        (PcodeType::OPR, 0, 0),
    ]);
    vm.push_input(41);
    assert!(matches!(vm.interpret(1000), InterpretResult::Halted));
    assert_eq!(vm.get_outputs(), &vec![41]);
}

#[test]
fn read_without_input_reports_need_input() {
    let mut vm = machine(&[
        (PcodeType::INT, 0, 3),
        (PcodeType::OPR, 0, 16),
        (PcodeType::OPR, 0, 0),
    ]);
    assert!(matches!(vm.interpret(1000), InterpretResult::NeedInput));
    // supplying the value lets the same machine go on
    vm.push_input(8);
    assert!(matches!(vm.interpret(1000), InterpretResult::Halted));
}

#[test]
fn step_reports_each_effect() {
    let mut vm = machine(&[
        (PcodeType::INT, 0, 3),
        (PcodeType::LIT, 0, 5),
        (PcodeType::OPR, 0, 14),
        (PcodeType::OPR, 0, 15),
        (PcodeType::OPR, 0, 0),
    ]);
    assert!(matches!(vm.step(), StepResult::Running));
    assert!(matches!(vm.step(), StepResult::Running));
    assert!(matches!(vm.step(), StepResult::Output(5)));
    assert!(matches!(vm.step(), StepResult::Newline));
    assert!(matches!(vm.step(), StepResult::Running));
    assert_eq!(vm.pc, 0);
}

#[test]
fn call_builds_a_frame_and_returns() {
    // main at 5 calls the procedure at 1, which writes 9 and returns
    let mut vm = machine(&[
        (PcodeType::JMP, 0, 5),
        (PcodeType::INT, 0, 3),
        (PcodeType::LIT, 0, 9),
        (PcodeType::OPR, 0, 14),
        (PcodeType::OPR, 0, 0),
        (PcodeType::INT, 0, 3),
        (PcodeType::CAL, 0, 1),
        (PcodeType::OPR, 0, 0),
    ]);
    assert!(matches!(vm.interpret(1000), InterpretResult::Halted));
    assert_eq!(vm.get_outputs(), &vec![9]);
}
