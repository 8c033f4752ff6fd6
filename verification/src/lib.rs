//! A virtual machine for Intcode programs.
//!
//! An [`IntcodeComputer`] owns a sparse memory of signed integers, an
//! instruction pointer, a relative base and a queue of pending input. It is
//! loaded once from a program and then driven by repeated calls of
//! [`IntcodeComputer::run`], each of which ends at the next output or at the
//! halt instruction.
//!
//! Every executable function is specified against [`machine::Machine`], a
//! mathematical model of the computer whose `step` function defines what one
//! instruction does.
pub mod computer;
pub mod instruction;
pub mod laws;
pub mod machine;
pub mod memory;
pub mod text;

pub use computer::{assert_position_after_running, IntcodeComputer};
pub use instruction::{Fault, Instruction, Opcode, Operation, Param, ParamMode};
pub use machine::{Event, Int, Machine, RunResult, StepResult};
pub use text::ParseError;
