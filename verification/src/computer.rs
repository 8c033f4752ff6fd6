//! The computer itself: the state that the model describes, held in a hash
//! map and a queue, and the operations that drive it.
use std::collections::VecDeque;
use vstd::pervasive::unreached;
use vstd::prelude::*;
use vstd::string::StringSliceAdditionalSpecFns;

use crate::instruction::{decode, Fault, Opcode, Operation, Param, ParamMode};
use crate::laws::lemma_halted_run_is_idle;
use crate::machine::{Int, Machine, RunResult, StepResult};
use crate::memory::{memory_clone, memory_get, memory_insert, memory_new, Memory};
use crate::text::{parse_program, parse_spec, ParseError};

verus! {

/// An Intcode computer. It is loaded once and used for one program.
pub struct IntcodeComputer {
    memory: Memory,
    input_queue: VecDeque<Int>,
    ip: Int,
    rel_base: Int,
    is_finished: bool,
}

impl View for IntcodeComputer {
    type V = Machine;

    closed spec fn view(&self) -> Machine {
        Machine {
            memory: self.memory@,
            ip: self.ip,
            rel_base: self.rel_base,
            input: self.input_queue@,
            finished: self.is_finished,
        }
    }
}

impl IntcodeComputer {
    /// A computer with `code` at the addresses from 0, ready to run from
    /// address 0 with no pending input.
    pub fn new(code: &[Int]) -> (computer: Self)
        ensures
            computer@ == Machine::loaded(code@),
    {
        let mut memory = memory_new();
        let mut i: usize = 0;
        while i < code.len()
            invariant
                i <= code.len(),
                memory@ == Map::new(|addr: Int| 0 <= addr < i, |addr: Int| code@[addr as int]),
            decreases code.len() - i,
        {
            memory_insert(&mut memory, i as Int, code[i]);
            i += 1;
            assert(memory@ =~= Map::new(|addr: Int| 0 <= addr < i, |addr: Int| code@[addr as int]));
        }
        IntcodeComputer {
            memory,
            input_queue: VecDeque::new(),
            ip: 0,
            rel_base: 0,
            is_finished: false,
        }
    }

    /// A computer loaded with the program that `text` denotes, or the
    /// place of the first element of `text` that is no integer literal.
    pub fn from_text(text: &str) -> (r: Result<Self, ParseError>)
        ensures
            match r {
                Ok(computer) => match parse_spec(text.spec_bytes()) {
                    Ok(code) => computer@ == Machine::loaded(code),
                    Err(_) => false,
                },
                Err(error) => parse_spec(text.spec_bytes()) == Err::<Seq<Int>, nat>(
                    error.element as nat,
                ),
            },
    {
        match parse_program(text.as_bytes()) {
            Ok(code) => Ok(IntcodeComputer::new(code.as_slice())),
            Err(error) => Err(error),
        }
    }

    /// Appends `value` to the pending input.
    pub fn input(&mut self, value: Int)
        ensures
            final(self)@ == old(self)@.push_input(value),
    {
        self.input_queue.push_back(value);
    }

    /// The value at `pos`: what was stored there, or zero.
    pub fn read_at(&self, pos: Int) -> (value: Int)
        ensures
            value == self@.read(pos),
    {
        match memory_get(&self.memory, &pos) {
            Some(value) => *value,
            None => 0,
        }
    }

    /// Fetches the instruction at the instruction pointer with its
    /// parameters, and changes nothing.
    fn parse_operation(&self) -> (r: Result<Operation, Fault>)
        ensures
            r == self@.fetch(),
    {
        let instruction = match decode(self.read_at(self.ip)) {
            Ok(instruction) => instruction,
            Err(fault) => {
                return Err(fault);
            },
        };
        let opcode = instruction.opcode;
        let n: usize = opcode.param_count();
        let next_ip: Int = match self.ip.checked_add(1 + n as Int) {
            Some(next_ip) => next_ip,
            None => {
                return Err(Fault::Overflow);
            },
        };
        let empty = Param { mode: ParamMode::Position, value: 0 };
        let first = if 0 < n {
            Param { mode: instruction.modes.0, value: self.read_at(self.ip + 1) }
        } else {
            empty
        };
        let second = if 1 < n {
            Param { mode: instruction.modes.1, value: self.read_at(self.ip + 2) }
        } else {
            empty
        };
        let third = if 2 < n {
            Param { mode: instruction.modes.2, value: self.read_at(self.ip + 3) }
        } else {
            empty
        };
        Ok(Operation { opcode, first, second, third, next_ip })
    }

    /// The address that `param` names.
    fn param_address(&self, param: &Param) -> (r: Result<Int, Fault>)
        ensures
            r == self@.address(*param),
    {
        match param.mode {
            ParamMode::Immediate => Err(Fault::InvalidWriteTarget),
            ParamMode::Position => Ok(param.value),
            ParamMode::Relative => match param.value.checked_add(self.rel_base) {
                Some(addr) => Ok(addr),
                None => Err(Fault::Overflow),
            },
        }
    }

    /// The value that `param` stands for.
    fn param_value(&self, param: &Param) -> (r: Result<Int, Fault>)
        ensures
            r == self@.value(*param),
    {
        match param.mode {
            ParamMode::Immediate => Ok(param.value),
            _ => match self.param_address(param) {
                Ok(addr) => Ok(self.read_at(addr)),
                Err(fault) => Err(fault),
            },
        }
    }

    /// Stores `value` where the third parameter of `op` says, or the first
    /// of an input instruction, and moves behind the instruction.
    fn write_and_advance(&mut self, op: &Operation, value: Int) -> (r: Result<(), Fault>)
        ensures
            match old(self)@.address(if op.opcode == Opcode::Input { op.first } else { op.third }) {
                Ok(addr) => r is Ok && final(self)@ == (Machine {
                    ip: op.next_ip,
                    ..old(self)@
                }).write(addr, value),
                Err(fault) => r == Err::<(), Fault>(fault) && final(self)@ == old(self)@,
            },
    {
        let target = if op.opcode == Opcode::Input { &op.first } else { &op.third };
        match self.write_to(target, value) {
            Ok(()) => {
                self.ip = op.next_ip;
                Ok(())
            },
            Err(fault) => Err(fault),
        }
    }

    /// Stores `value` where `param` says, or reports why it cannot and
    /// changes nothing.
    fn write_to(&mut self, param: &Param, value: Int) -> (r: Result<(), Fault>)
        ensures
            match old(self)@.address(*param) {
                Ok(addr) => r is Ok && final(self)@ == old(self)@.write(addr, value),
                Err(fault) => r == Err::<(), Fault>(fault) && final(self)@ == old(self)@,
            },
    {
        match self.param_address(param) {
            Ok(addr) => {
                memory_insert(&mut self.memory, addr, value);
                Ok(())
            },
            Err(fault) => Err(fault),
        }
    }

    /// Add: stores the sum of the first two parameters where the third says.
    fn op_add(&mut self, op: &Operation) -> (r: Result<(), Fault>)
        requires
            op.opcode == Opcode::Add,
        ensures
            effect_is(old(self)@, final(self)@, r, old(self)@.execute_binary(*op)),
    {
        let v1: Int = match self.param_value(&op.first) {
            Ok(v1) => v1,
            Err(fault) => {
                return Err(fault);
            },
        };
        let v2: Int = match self.param_value(&op.second) {
            Ok(v2) => v2,
            Err(fault) => {
                return Err(fault);
            },
        };
        let res: Int = match v1.checked_add(v2) {
            Some(res) => res,
            None => {
                return Err(Fault::Overflow);
            },
        };
        self.write_and_advance(op, res)
    }

    /// Multiply: stores the product of the first two parameters where the
    /// third says.
    fn op_mul(&mut self, op: &Operation) -> (r: Result<(), Fault>)
        requires
            op.opcode == Opcode::Multiply,
        ensures
            effect_is(old(self)@, final(self)@, r, old(self)@.execute_binary(*op)),
    {
        let v1: Int = match self.param_value(&op.first) {
            Ok(v1) => v1,
            Err(fault) => {
                return Err(fault);
            },
        };
        let v2: Int = match self.param_value(&op.second) {
            Ok(v2) => v2,
            Err(fault) => {
                return Err(fault);
            },
        };
        let res: Int = match v1.checked_mul(v2) {
            Some(res) => res,
            None => {
                return Err(Fault::Overflow);
            },
        };
        self.write_and_advance(op, res)
    }

    /// Input: stores the oldest pending value where the parameter says.
    fn op_in(&mut self, op: &Operation) -> (r: Result<(), Fault>)
        requires
            op.opcode == Opcode::Input,
        ensures
            effect_is(old(self)@, final(self)@, r, old(self)@.execute_input(*op)),
    {
        if self.input_queue.len() == 0 {
            return Err(Fault::EmptyInput);
        }
        let input: Int = self.input_queue[0];
        match self.write_and_advance(op, input) {
            Ok(()) => {
                let _ = self.input_queue.pop_front();
                Ok(())
            },
            Err(fault) => Err(fault),
        }
    }

    /// Jump-if-true: continues at the second parameter's value where the
    /// first is not zero.
    fn op_jmp(&mut self, op: &Operation) -> (r: Result<(), Fault>)
        requires
            op.opcode == Opcode::JumpIfTrue,
        ensures
            effect_is(old(self)@, final(self)@, r, old(self)@.execute_jump(*op)),
    {
        let val: Int = match self.param_value(&op.first) {
            Ok(val) => val,
            Err(fault) => {
                return Err(fault);
            },
        };
        if val != 0 {
            match self.param_value(&op.second) {
                Ok(target) => {
                    self.ip = target;
                    Ok(())
                },
                Err(fault) => Err(fault),
            }
        } else {
            self.ip = op.next_ip;
            Ok(())
        }
    }

    /// Jump-if-false: continues at the second parameter's value where the
    /// first is zero.
    fn op_jmn(&mut self, op: &Operation) -> (r: Result<(), Fault>)
        requires
            op.opcode == Opcode::JumpIfFalse,
        ensures
            effect_is(old(self)@, final(self)@, r, old(self)@.execute_jump(*op)),
    {
        let val: Int = match self.param_value(&op.first) {
            Ok(val) => val,
            Err(fault) => {
                return Err(fault);
            },
        };
        if val == 0 {
            match self.param_value(&op.second) {
                Ok(target) => {
                    self.ip = target;
                    Ok(())
                },
                Err(fault) => Err(fault),
            }
        } else {
            self.ip = op.next_ip;
            Ok(())
        }
    }

    /// Less-than: stores 1 where the third parameter says if the first is
    /// below the second, else 0.
    fn op_lt(&mut self, op: &Operation) -> (r: Result<(), Fault>)
        requires
            op.opcode == Opcode::LessThan,
        ensures
            effect_is(old(self)@, final(self)@, r, old(self)@.execute_binary(*op)),
    {
        let v1: Int = match self.param_value(&op.first) {
            Ok(v1) => v1,
            Err(fault) => {
                return Err(fault);
            },
        };
        let v2: Int = match self.param_value(&op.second) {
            Ok(v2) => v2,
            Err(fault) => {
                return Err(fault);
            },
        };
        let res: Int = if v1 < v2 { 1 } else { 0 };
        self.write_and_advance(op, res)
    }

    /// Equals: stores 1 where the third parameter says if the first two are
    /// equal, else 0.
    fn op_eq(&mut self, op: &Operation) -> (r: Result<(), Fault>)
        requires
            op.opcode == Opcode::Equals,
        ensures
            effect_is(old(self)@, final(self)@, r, old(self)@.execute_binary(*op)),
    {
        let v1: Int = match self.param_value(&op.first) {
            Ok(v1) => v1,
            Err(fault) => {
                return Err(fault);
            },
        };
        let v2: Int = match self.param_value(&op.second) {
            Ok(v2) => v2,
            Err(fault) => {
                return Err(fault);
            },
        };
        let res: Int = if v1 == v2 { 1 } else { 0 };
        self.write_and_advance(op, res)
    }

    /// Adjust-relative-base: adds the parameter's value to the relative base.
    fn op_rlb(&mut self, op: &Operation) -> (r: Result<(), Fault>)
        requires
            op.opcode == Opcode::AdjustBase,
        ensures
            effect_is(old(self)@, final(self)@, r, old(self)@.execute_adjust(*op)),
    {
        let val: Int = match self.param_value(&op.first) {
            Ok(val) => val,
            Err(fault) => {
                return Err(fault);
            },
        };
        match self.rel_base.checked_add(val) {
            Some(base) => {
                self.rel_base = base;
                self.ip = op.next_ip;
                Ok(())
            },
            None => Err(Fault::Overflow),
        }
    }

    /// Executes one instruction. On a fault the computer is left as it was,
    /// so the same call reports the same fault again.
    pub fn step(&mut self) -> (r: Result<StepResult, Fault>)
        ensures
            match old(self)@.step() {
                Ok((next, result)) => r == Ok::<StepResult, Fault>(result) && final(self)@ == next,
                Err(fault) => r == Err::<StepResult, Fault>(fault) && final(self)@ == old(self)@,
            },
    {
        if self.is_finished {
            return Ok(StepResult::Finished);
        }
        let op = match self.parse_operation() {
            Ok(op) => op,
            Err(fault) => {
                return Err(fault);
            },
        };
        let done = match op.opcode {
            Opcode::Add => self.op_add(&op),
            Opcode::Multiply => self.op_mul(&op),
            Opcode::Input => self.op_in(&op),
            Opcode::Output => {
                match self.param_value(&op.first) {
                    Ok(value) => {
                        self.ip = op.next_ip;
                        return Ok(StepResult::Output(value));
                    },
                    Err(fault) => {
                        return Err(fault);
                    },
                }
            },
            Opcode::JumpIfTrue => self.op_jmp(&op),
            Opcode::JumpIfFalse => self.op_jmn(&op),
            Opcode::LessThan => self.op_lt(&op),
            Opcode::Equals => self.op_eq(&op),
            Opcode::AdjustBase => self.op_rlb(&op),
            Opcode::Halt => {
                self.ip = op.next_ip;
                self.is_finished = true;
                return Ok(StepResult::Finished);
            },
        };
        match done {
            Ok(()) => Ok(StepResult::Continue),
            Err(fault) => Err(fault),
        }
    }

    /// Resumes execution and returns at the next output, with its value,
    /// or at the halt instruction. A halted computer reports `Finished`
    /// again and does not change.
    ///
    /// The caller owes that the run ends and meets no fault. Where that is
    /// not known, `step` executes one instruction at a time and reports a
    /// fault as a value.
    pub fn run(&mut self) -> (r: RunResult)
        requires
            old(self)@.can_run(),
        ensures
            (final(self)@, r) == old(self)@.run(),
            old(self)@.finished ==> r == RunResult::Finished && final(self)@ == old(self)@,
            r == RunResult::Finished ==> final(self)@.finished && final(self)@.can_run(),
    {
        let ghost start = self@;
        let ghost fuel: nat = choose|fuel: nat| (#[trigger] start.run_within(fuel)) is Some;
        let ghost mut left: nat = fuel;
        proof {
            start.lemma_run_is(fuel);
        }
        loop
            invariant
                self@.run_within(left) is Some,
                self@.run_within(left) == start.run_within(fuel),
                start.run() == start.run_within(fuel)->0,
                start == old(self)@,
            decreases left,
        {
            match self.step() {
                Ok(StepResult::Continue) => {
                    proof {
                        left = (left - 1) as nat;
                    }
                },
                Ok(StepResult::Output(value)) => {
                    return RunResult::Output(value);
                },
                Ok(StepResult::Finished) => {
                    proof {
                        lemma_halted_run_is_idle(self@);
                    }
                    return RunResult::Finished;
                },
                Err(_) => {
                    return unreached();
                },
            }
        }
    }
}

impl Clone for IntcodeComputer {
    /// A second computer in the same state, independent of this one.
    fn clone(&self) -> (copy: Self)
        ensures
            copy@ == self@,
    {
        let input_queue = self.input_queue.clone();
        assert(input_queue@ =~= self.input_queue@);
        IntcodeComputer {
            memory: memory_clone(&self.memory),
            input_queue,
            ip: self.ip,
            rel_base: self.rel_base,
            is_finished: self.is_finished,
        }
    }
}

impl Default for IntcodeComputer {
    /// A computer with empty memory.
    fn default() -> (computer: Self)
        ensures
            computer@ == Machine::loaded(Seq::empty()),
    {
        let computer = IntcodeComputer {
            memory: memory_new(),
            input_queue: VecDeque::new(),
            ip: 0,
            rel_base: 0,
            is_finished: false,
        };
        assert(computer@.memory =~= Machine::loaded(Seq::empty()).memory);
        computer
    }
}

/// Runs the program that `code` denotes and tells whether it went straight
/// to its halt, with no output before, and left `expected` at `pos`.
///
/// The caller owes that `code` is a program text and that its run ends and
/// meets no fault.
pub fn assert_position_after_running(pos: Int, code: &str, expected: Int) -> (holds: bool)
    requires
        parse_spec(code.spec_bytes()) is Ok,
        Machine::loaded(parse_spec(code.spec_bytes())->Ok_0).can_run(),
    ensures
        holds == ({
            let end = Machine::loaded(parse_spec(code.spec_bytes())->Ok_0).run();
            end.1 == RunResult::Finished && end.0.read(pos) == expected
        }),
{
    let mut computer = match IntcodeComputer::from_text(code) {
        Ok(computer) => computer,
        Err(_) => {
            return unreached();
        },
    };
    match computer.run() {
        RunResult::Finished => computer.read_at(pos) == expected,
        RunResult::Output(_) => false,
    }
}

/// Whether `after` and `r` are what an instruction with the effect
/// `expected` leaves of `before`: the new state, or the fault and the state
/// untouched.
pub open spec fn effect_is(
    before: Machine,
    after: Machine,
    r: Result<(), Fault>,
    expected: Result<Machine, Fault>,
) -> bool {
    match expected {
        Ok(next) => r is Ok && after == next,
        Err(fault) => r == Err::<(), Fault>(fault) && after == before,
    }
}

} // verus!
