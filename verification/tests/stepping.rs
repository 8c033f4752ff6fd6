use intcode::instruction::decode;
use intcode::{Fault, Instruction, Int, IntcodeComputer, Opcode, ParamMode, StepResult};

fn cells(comp: &IntcodeComputer, upto: Int) -> Vec<Int> {
    (0..upto).map(|addr| comp.read_at(addr)).collect()
}

#[test]
fn decode_reads_opcode_and_modes() {
    let p = ParamMode::Position;
    let i = ParamMode::Immediate;
    let r = ParamMode::Relative;
    assert_eq!(decode(1), Ok(Instruction { opcode: Opcode::Add, modes: (p, p, p) }));
    assert_eq!(decode(1002), Ok(Instruction { opcode: Opcode::Multiply, modes: (p, i, p) }));
    assert_eq!(decode(21101), Ok(Instruction { opcode: Opcode::Add, modes: (i, i, r) }));
    assert_eq!(decode(203), Ok(Instruction { opcode: Opcode::Input, modes: (r, p, p) }));
    assert_eq!(decode(104), Ok(Instruction { opcode: Opcode::Output, modes: (i, p, p) }));
    assert_eq!(decode(1105), Ok(Instruction { opcode: Opcode::JumpIfTrue, modes: (i, i, p) }));
    assert_eq!(decode(2006), Ok(Instruction { opcode: Opcode::JumpIfFalse, modes: (p, r, p) }));
    assert_eq!(decode(1207), Ok(Instruction { opcode: Opcode::LessThan, modes: (r, i, p) }));
    assert_eq!(decode(20008), Ok(Instruction { opcode: Opcode::Equals, modes: (p, p, r) }));
    assert_eq!(decode(109), Ok(Instruction { opcode: Opcode::AdjustBase, modes: (i, p, p) }));
    assert_eq!(decode(99), Ok(Instruction { opcode: Opcode::Halt, modes: (p, p, p) }));
}

#[test]
fn decode_ignores_digits_beyond_the_parameters() {
    let p = ParamMode::Position;
    let i = ParamMode::Immediate;
    assert_eq!(decode(7799), Ok(Instruction { opcode: Opcode::Halt, modes: (p, p, p) }));
    assert_eq!(decode(9104), Ok(Instruction { opcode: Opcode::Output, modes: (i, p, p) }));
    assert_eq!(decode(30105), Ok(Instruction { opcode: Opcode::JumpIfTrue, modes: (i, p, p) }));
    assert_eq!(decode(5_000_001), Ok(Instruction { opcode: Opcode::Add, modes: (p, p, p) }));
    assert_eq!(decode(93009), Ok(Instruction { opcode: Opcode::AdjustBase, modes: (p, p, p) }));
}

#[test]
fn decode_rejects_unknown_opcodes() {
    for word in [0, 10, 11, 50, 98, 100, 1000, -1, -99, -101, -1001, Int::MIN, Int::MAX] {
        assert_eq!(decode(word), Err(Fault::UnknownOpcode));
    }
}

#[test]
fn decode_rejects_unknown_modes() {
    for word in [301, 3001, 30001, 902, 304, 3005, 309, 403, Int::MAX - 26] {
        assert_eq!(decode(word), Err(Fault::UnknownParameterMode));
    }
    // The opcode is looked at first.
    assert_eq!(decode(300), Err(Fault::UnknownOpcode));
}

#[test]
fn opcode_table() {
    let table = [
        (1, Opcode::Add, 3),
        (2, Opcode::Multiply, 3),
        (3, Opcode::Input, 1),
        (4, Opcode::Output, 1),
        (5, Opcode::JumpIfTrue, 2),
        (6, Opcode::JumpIfFalse, 2),
        (7, Opcode::LessThan, 3),
        (8, Opcode::Equals, 3),
        (9, Opcode::AdjustBase, 1),
        (99, Opcode::Halt, 0),
    ];
    for (code, opcode, arity) in table {
        assert_eq!(Opcode::from_code(code), Some(opcode));
        assert_eq!(opcode.param_count(), arity);
    }
    for code in (0..=255u8).filter(|code| !(1..=9).contains(code) && *code != 99) {
        assert_eq!(Opcode::from_code(code), None);
    }
}

#[test]
fn step_by_step() {
    let mut comp = IntcodeComputer::new(&[1101, 2, 3, 0, 4, 0, 99]);
    assert_eq!(comp.step(), Ok(StepResult::Continue));
    assert_eq!(comp.read_at(0), 5);
    assert_eq!(comp.step(), Ok(StepResult::Output(5)));
    assert_eq!(comp.step(), Ok(StepResult::Finished));
    assert_eq!(comp.step(), Ok(StepResult::Finished));
    assert_eq!(cells(&comp, 8), vec![5, 2, 3, 0, 4, 0, 99, 0]);
}

#[test]
fn jump_target_is_absolute() {
    // Jumps over the output of 1 to the output of 2.
    let mut comp = IntcodeComputer::new(&[1105, 1, 5, 104, 1, 104, 2, 99]);
    assert_eq!(comp.step(), Ok(StepResult::Continue));
    assert_eq!(comp.step(), Ok(StepResult::Output(2)));
    assert_eq!(comp.step(), Ok(StepResult::Finished));

    // A jump not taken goes on behind its two parameters.
    let mut comp = IntcodeComputer::new(&[1106, 1, 5, 104, 1, 104, 2, 99]);
    assert_eq!(comp.step(), Ok(StepResult::Continue));
    assert_eq!(comp.step(), Ok(StepResult::Output(1)));
    assert_eq!(comp.step(), Ok(StepResult::Output(2)));
    assert_eq!(comp.step(), Ok(StepResult::Finished));
}

#[test]
fn unknown_opcode_faults() {
    let mut comp = IntcodeComputer::new(&[42, 0, 0]);
    assert_eq!(comp.step(), Err(Fault::UnknownOpcode));
    assert_eq!(comp.step(), Err(Fault::UnknownOpcode));
    assert_eq!(cells(&comp, 3), vec![42, 0, 0]);

    // Running off the end of the program meets a zero.
    let mut comp = IntcodeComputer::new(&[1101, 1, 1, 0]);
    assert_eq!(comp.step(), Ok(StepResult::Continue));
    assert_eq!(comp.step(), Err(Fault::UnknownOpcode));

    let mut comp = IntcodeComputer::default();
    assert_eq!(comp.step(), Err(Fault::UnknownOpcode));

    let mut comp = IntcodeComputer::new(&[-1]);
    assert_eq!(comp.step(), Err(Fault::UnknownOpcode));
}

#[test]
fn unknown_mode_faults() {
    let mut comp = IntcodeComputer::new(&[304, 0, 99]);
    assert_eq!(comp.step(), Err(Fault::UnknownParameterMode));
    assert_eq!(cells(&comp, 3), vec![304, 0, 99]);
    let mut comp = IntcodeComputer::new(&[50001, 0, 0, 0, 99]);
    assert_eq!(comp.step(), Err(Fault::UnknownParameterMode));
}

#[test]
fn immediate_write_target_faults() {
    for code in [
        vec![11101, 1, 1, 0, 99],
        vec![10002, 1, 1, 0, 99],
        vec![10007, 1, 1, 0, 99],
        vec![10008, 1, 1, 0, 99],
    ] {
        let mut comp = IntcodeComputer::new(&code);
        assert_eq!(comp.step(), Err(Fault::InvalidWriteTarget));
        assert_eq!(cells(&comp, 5), code);
    }
    let mut comp = IntcodeComputer::new(&[103, 0, 99]);
    comp.input(5);
    assert_eq!(comp.step(), Err(Fault::InvalidWriteTarget));
    assert_eq!(cells(&comp, 3), vec![103, 0, 99]);
}

#[test]
fn empty_input_faults_and_can_be_mended() {
    let mut comp = IntcodeComputer::new(&[3, 0, 4, 0, 99]);
    assert_eq!(comp.step(), Err(Fault::EmptyInput));
    assert_eq!(comp.step(), Err(Fault::EmptyInput));
    assert_eq!(cells(&comp, 5), vec![3, 0, 4, 0, 99]);
    // The fault left the computer as it was: with input it goes on.
    comp.input(12);
    assert_eq!(comp.step(), Ok(StepResult::Continue));
    assert_eq!(comp.step(), Ok(StepResult::Output(12)));
    assert_eq!(comp.step(), Ok(StepResult::Finished));

    // The empty queue is reported before the write target.
    let mut comp = IntcodeComputer::new(&[103, 0, 99]);
    assert_eq!(comp.step(), Err(Fault::EmptyInput));
}

#[test]
fn overflow_faults() {
    // A sum beyond the largest integer.
    let mut comp = IntcodeComputer::new(&[1101, Int::MAX, 1, 0, 99]);
    assert_eq!(comp.step(), Err(Fault::Overflow));
    assert_eq!(cells(&comp, 5), vec![1101, Int::MAX, 1, 0, 99]);
    // A product below the smallest.
    let mut comp = IntcodeComputer::new(&[1102, Int::MIN, 2, 0, 99]);
    assert_eq!(comp.step(), Err(Fault::Overflow));
    // The largest sum that fits.
    let mut comp = IntcodeComputer::new(&[1101, Int::MAX - 1, 1, 0, 99]);
    assert_eq!(comp.step(), Ok(StepResult::Continue));
    assert_eq!(comp.read_at(0), Int::MAX);
    // A relative address beyond the largest integer.
    let mut comp = IntcodeComputer::new(&[109, 1, 204, Int::MAX, 99]);
    assert_eq!(comp.step(), Ok(StepResult::Continue));
    assert_eq!(comp.step(), Err(Fault::Overflow));
    // A relative base beyond the largest integer.
    let mut comp = IntcodeComputer::new(&[109, Int::MAX, 109, 1, 99]);
    assert_eq!(comp.step(), Ok(StepResult::Continue));
    assert_eq!(comp.step(), Err(Fault::Overflow));
    // An instruction that would end beyond the largest address.
    let mut comp = IntcodeComputer::new(&[1105, 1, Int::MAX, 99]);
    assert_eq!(comp.step(), Ok(StepResult::Continue));
    assert_eq!(comp.step(), Err(Fault::UnknownOpcode));
    let mut comp = IntcodeComputer::new(&[3, Int::MAX, 1105, 1, Int::MAX]);
    comp.input(99);
    assert_eq!(comp.step(), Ok(StepResult::Continue));
    assert_eq!(comp.read_at(Int::MAX), 99);
    assert_eq!(comp.step(), Ok(StepResult::Continue));
    assert_eq!(comp.step(), Err(Fault::Overflow));
}

#[test]
fn a_jump_not_taken_does_not_evaluate_its_target() {
    // The target is a relative parameter whose address overflows.
    let mut comp = IntcodeComputer::new(&[109, 1, 2105, 0, Int::MAX, 99]);
    assert_eq!(comp.step(), Ok(StepResult::Continue));
    assert_eq!(comp.step(), Ok(StepResult::Continue));
    assert_eq!(comp.step(), Ok(StepResult::Finished));
    let mut comp = IntcodeComputer::new(&[109, 1, 2105, 1, Int::MAX, 99]);
    assert_eq!(comp.step(), Ok(StepResult::Continue));
    assert_eq!(comp.step(), Err(Fault::Overflow));
}

#[test]
fn negative_addresses_are_cells_too() {
    let mut comp = IntcodeComputer::new(&[1101, 4, 5, -7, 4, -7, 99]);
    assert_eq!(comp.step(), Ok(StepResult::Continue));
    assert_eq!(comp.read_at(-7), 9);
    assert_eq!(comp.step(), Ok(StepResult::Output(9)));
}
