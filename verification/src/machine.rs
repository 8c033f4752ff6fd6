//! The mathematical model of the computer: its state, what one instruction
//! does to it, and what a run from one suspension point to the next yields.
use vstd::prelude::*;

use crate::instruction::{decode_spec, Fault, Opcode, Operation, Param, ParamMode};

verus! {

/// The integers the machine computes with.
pub type Int = i128;

/// How a call of `run` ended.
#[derive(Copy, Clone, PartialEq, Eq, Debug, Structural)]
pub enum RunResult {
    /// An output instruction delivered this value; the machine can resume.
    Output(Int),
    /// The halt instruction was reached.
    Finished,
}

/// What one instruction did, as seen from outside.
#[derive(Copy, Clone, PartialEq, Eq, Debug, Structural)]
pub enum StepResult {
    /// The instruction had no visible effect; execution goes on.
    Continue,
    /// The instruction delivered this value.
    Output(Int),
    /// The machine is halted.
    Finished,
}

/// Whether `x` is one of the machine's integers.
pub open spec fn fits(x: int) -> bool {
    Int::MIN <= x <= Int::MAX
}

/// What the four three-parameter operations compute from their operands.
pub open spec fn combine(opcode: Opcode, a: Int, b: Int) -> int {
    match opcode {
        Opcode::Add => a + b,
        Opcode::Multiply => a * b,
        Opcode::LessThan => if a < b { 1 } else { 0 },
        Opcode::Equals => if a == b { 1 } else { 0 },
        _ => 0,
    }
}

/// The state of a computer.
pub struct Machine {
    /// The cells that hold a value. Every other cell reads as zero.
    pub memory: Map<Int, Int>,
    /// The address of the next instruction.
    pub ip: Int,
    /// The offset that relative parameters are counted from.
    pub rel_base: Int,
    /// The pending input values, oldest first.
    pub input: Seq<Int>,
    /// Whether the halt instruction has been reached.
    pub finished: bool,
}

/// What can happen to a computer: it executes one instruction, or its
/// owner submits an input value.
pub enum Event {
    Step,
    Input(Int),
}

impl Machine {
    /// The machine that holds `code` at the addresses from 0 and has done
    /// nothing yet.
    pub open spec fn loaded(code: Seq<Int>) -> Machine {
        Machine {
            memory: Map::new(|addr: Int| 0 <= addr < code.len(), |addr: Int| code[addr as int]),
            ip: 0,
            rel_base: 0,
            input: Seq::empty(),
            finished: false,
        }
    }

    /// The value at `addr`: what was stored there, or zero.
    pub open spec fn read(self, addr: Int) -> Int {
        if self.memory.contains_key(addr) {
            self.memory[addr]
        } else {
            0
        }
    }

    /// This machine with `value` stored at `addr`.
    pub open spec fn write(self, addr: Int, value: Int) -> Machine {
        Machine { memory: self.memory.insert(addr, value), ..self }
    }

    /// This machine with `value` appended to its pending input.
    pub open spec fn push_input(self, value: Int) -> Machine {
        Machine { input: self.input.push(value), ..self }
    }

    /// The address that `param` names. An immediate parameter names none; a
    /// relative one must stay within the machine's integers.
    pub open spec fn address(self, param: Param) -> Result<Int, Fault> {
        match param.mode {
            ParamMode::Position => Ok(param.value),
            ParamMode::Immediate => Err(Fault::InvalidWriteTarget),
            ParamMode::Relative => if fits(param.value + self.rel_base) {
                Ok((param.value + self.rel_base) as Int)
            } else {
                Err(Fault::Overflow)
            },
        }
    }

    /// The value that `param` stands for: itself in immediate mode, else the
    /// content of the cell it names.
    pub open spec fn value(self, param: Param) -> Result<Int, Fault> {
        match param.mode {
            ParamMode::Immediate => Ok(param.value),
            _ => match self.address(param) {
                Ok(addr) => Ok(self.read(addr)),
                Err(fault) => Err(fault),
            },
        }
    }

    /// Parameter slot `index` of the instruction at the instruction pointer:
    /// the given mode with the word that stands `index + 1` cells after the
    /// instruction word, or the empty slot beyond the operation's arity.
    pub open spec fn slot(self, opcode: Opcode, mode: ParamMode, index: int) -> Param {
        if index < opcode.arity() {
            Param { mode, value: self.read((self.ip + 1 + index) as Int) }
        } else {
            Param { mode: ParamMode::Position, value: 0 }
        }
    }

    /// The instruction at the instruction pointer with its parameters. The
    /// instruction word is decoded first; then the instruction and its
    /// parameters must end within the machine's integers.
    pub open spec fn fetch(self) -> Result<Operation, Fault> {
        match decode_spec(self.read(self.ip)) {
            Err(fault) => Err(fault),
            Ok(instruction) => {
                let opcode = instruction.opcode;
                if !fits(self.ip + 1 + opcode.arity()) {
                    Err(Fault::Overflow)
                } else {
                    Ok(
                        Operation {
                            opcode,
                            first: self.slot(opcode, instruction.modes.0, 0),
                            second: self.slot(opcode, instruction.modes.1, 1),
                            third: self.slot(opcode, instruction.modes.2, 2),
                            next_ip: (self.ip + 1 + opcode.arity()) as Int,
                        },
                    )
                }
            },
        }
    }

    /// Add, multiply, less-than and equals: both operands are evaluated,
    /// then the result must fit, then it is stored where the third parameter
    /// says.
    pub open spec fn execute_binary(self, op: Operation) -> Result<Machine, Fault> {
        match self.value(op.first) {
            Err(fault) => Err(fault),
            Ok(a) => match self.value(op.second) {
                Err(fault) => Err(fault),
                Ok(b) => if !fits(combine(op.opcode, a, b)) {
                    Err(Fault::Overflow)
                } else {
                    match self.address(op.third) {
                        Err(fault) => Err(fault),
                        Ok(dst) => Ok(
                            Machine { ip: op.next_ip, ..self }.write(
                                dst,
                                combine(op.opcode, a, b) as Int,
                            ),
                        ),
                    }
                },
            },
        }
    }

    /// Input: the oldest pending value leaves the queue and is stored where
    /// the parameter says.
    pub open spec fn execute_input(self, op: Operation) -> Result<Machine, Fault> {
        if self.input.len() == 0 {
            Err(Fault::EmptyInput)
        } else {
            match self.address(op.first) {
                Err(fault) => Err(fault),
                Ok(dst) => Ok(
                    Machine { ip: op.next_ip, input: self.input.drop_first(), ..self }.write(
                        dst,
                        self.input[0],
                    ),
                ),
            }
        }
    }

    /// The two jumps: where the condition holds the instruction pointer
    /// becomes the value of the second parameter, which is evaluated only
    /// then; else execution goes on behind the instruction.
    pub open spec fn execute_jump(self, op: Operation) -> Result<Machine, Fault> {
        match self.value(op.first) {
            Err(fault) => Err(fault),
            Ok(cond) => if (cond != 0) == (op.opcode == Opcode::JumpIfTrue) {
                match self.value(op.second) {
                    Err(fault) => Err(fault),
                    Ok(target) => Ok(Machine { ip: target, ..self }),
                }
            } else {
                Ok(Machine { ip: op.next_ip, ..self })
            },
        }
    }

    /// Adjust-relative-base: the value of the parameter is added to the
    /// relative base.
    pub open spec fn execute_adjust(self, op: Operation) -> Result<Machine, Fault> {
        match self.value(op.first) {
            Err(fault) => Err(fault),
            Ok(delta) => if !fits(self.rel_base + delta) {
                Err(Fault::Overflow)
            } else {
                Ok(Machine { ip: op.next_ip, rel_base: (self.rel_base + delta) as Int, ..self })
            },
        }
    }

    /// The effect of a fetched instruction. The instruction pointer is moved
    /// behind the instruction before the effect, so a jump target is an
    /// absolute address.
    pub open spec fn execute(self, op: Operation) -> Result<(Machine, StepResult), Fault> {
        match op.opcode {
            Opcode::Add | Opcode::Multiply | Opcode::LessThan | Opcode::Equals => {
                match self.execute_binary(op) {
                    Err(fault) => Err(fault),
                    Ok(next) => Ok((next, StepResult::Continue)),
                }
            },
            Opcode::Input => match self.execute_input(op) {
                Err(fault) => Err(fault),
                Ok(next) => Ok((next, StepResult::Continue)),
            },
            Opcode::Output => match self.value(op.first) {
                Err(fault) => Err(fault),
                Ok(value) => Ok((Machine { ip: op.next_ip, ..self }, StepResult::Output(value))),
            },
            Opcode::JumpIfTrue | Opcode::JumpIfFalse => match self.execute_jump(op) {
                Err(fault) => Err(fault),
                Ok(next) => Ok((next, StepResult::Continue)),
            },
            Opcode::AdjustBase => match self.execute_adjust(op) {
                Err(fault) => Err(fault),
                Ok(next) => Ok((next, StepResult::Continue)),
            },
            Opcode::Halt => Ok(
                (Machine { ip: op.next_ip, finished: true, ..self }, StepResult::Finished),
            ),
        }
    }

    /// One fetch-decode-execute cycle: the machine afterwards and what the
    /// instruction did, or the fault that stopped it. A halted machine
    /// stays as it is.
    pub open spec fn step(self) -> Result<(Machine, StepResult), Fault> {
        if self.finished {
            Ok((self, StepResult::Finished))
        } else {
            match self.fetch() {
                Err(fault) => Err(fault),
                Ok(op) => self.execute(op),
            }
        }
    }

    /// The cell that the next instruction stores to, where it stores.
    pub open spec fn store_target(self) -> Option<Int> {
        if self.finished {
            None
        } else {
            match self.fetch() {
                Err(_) => None,
                Ok(op) => match op.opcode {
                    Opcode::Add | Opcode::Multiply | Opcode::LessThan | Opcode::Equals => {
                        match self.execute_binary(op) {
                            Ok(_) => Some(self.address(op.third)->Ok_0),
                            Err(_) => None,
                        }
                    },
                    Opcode::Input => match self.execute_input(op) {
                        Ok(_) => Some(self.address(op.first)->Ok_0),
                        Err(_) => None,
                    },
                    _ => None,
                },
            }
        }
    }

    /// The machine after `event`. An instruction that faults changes
    /// nothing.
    pub open spec fn apply(self, event: Event) -> Machine {
        match event {
            Event::Input(value) => self.push_input(value),
            Event::Step => match self.step() {
                Ok((next, _)) => next,
                Err(_) => self,
            },
        }
    }

    /// The machine after `events`, taken in order.
    pub open spec fn replay(self, events: Seq<Event>) -> Machine
        decreases events.len(),
    {
        if events.len() == 0 {
            self
        } else {
            self.apply(events[0]).replay(events.drop_first())
        }
    }

    /// Runs until the next output or halt, through at most `fuel`
    /// instructions that do neither. `None` where a fault stops the run or
    /// the fuel does not suffice.
    pub open spec fn run_within(self, fuel: nat) -> Option<(Machine, RunResult)>
        decreases fuel,
    {
        match self.step() {
            Err(_) => None,
            Ok((next, StepResult::Output(value))) => Some((next, RunResult::Output(value))),
            Ok((next, StepResult::Finished)) => Some((next, RunResult::Finished)),
            Ok((next, StepResult::Continue)) => if fuel == 0 {
                None
            } else {
                next.run_within((fuel - 1) as nat)
            },
        }
    }

    /// Whether a run from this state reaches an output or the halt
    /// instruction: no fault stops it and it does not go on for ever.
    pub open spec fn can_run(self) -> bool {
        exists|fuel: nat| (#[trigger] self.run_within(fuel)) is Some
    }

    /// The machine after a run, and how the run ended.
    pub open spec fn run(self) -> (Machine, RunResult)
        recommends
            self.can_run(),
    {
        self.run_within(choose|fuel: nat| (#[trigger] self.run_within(fuel)) is Some)->0
    }

    /// More fuel does not change the outcome of a run that already ends.
    pub proof fn lemma_run_within_more(self, fuel: nat, more: nat)
        requires
            self.run_within(fuel) is Some,
            fuel <= more,
        ensures
            self.run_within(more) == self.run_within(fuel),
        decreases fuel,
    {
        match self.step() {
            Ok((next, StepResult::Continue)) => {
                next.lemma_run_within_more((fuel - 1) as nat, (more - 1) as nat);
            },
            _ => {},
        }
    }

    /// A run that ends within some fuel is the run of this machine.
    pub proof fn lemma_run_is(self, fuel: nat)
        requires
            self.run_within(fuel) is Some,
        ensures
            self.can_run(),
            self.run() == self.run_within(fuel)->0,
    {
        let chosen = choose|fuel: nat| (#[trigger] self.run_within(fuel)) is Some;
        if chosen <= fuel {
            self.lemma_run_within_more(chosen, fuel);
        } else {
            self.lemma_run_within_more(fuel, chosen);
        }
    }
}

} // verus!
