//! Instruction words: the opcode table, the parameter modes, and the
//! decoding of a raw memory word into both.
use vstd::prelude::*;

use crate::machine::Int;

verus! {

/// Why an instruction could not be carried out.
#[derive(Copy, Clone, PartialEq, Eq, Debug, Structural)]
pub enum Fault {
    /// The word at the instruction pointer names none of the ten operations.
    UnknownOpcode,
    /// The mode digit of a parameter is not 0, 1 or 2.
    UnknownParameterMode,
    /// The parameter that receives a result is in immediate mode.
    InvalidWriteTarget,
    /// An input instruction found the input queue empty.
    EmptyInput,
    /// A sum, a product or an address does not fit the machine's integers.
    Overflow,
}

/// The ten operations of the machine.
#[derive(Copy, Clone, PartialEq, Eq, Debug, Structural)]
pub enum Opcode {
    Add,
    Multiply,
    Input,
    Output,
    JumpIfTrue,
    JumpIfFalse,
    LessThan,
    Equals,
    AdjustBase,
    Halt,
}

impl Opcode {
    /// The operation that a two-digit code selects.
    pub open spec fn of_code(code: int) -> Option<Opcode> {
        if code == 1 {
            Some(Opcode::Add)
        } else if code == 2 {
            Some(Opcode::Multiply)
        } else if code == 3 {
            Some(Opcode::Input)
        } else if code == 4 {
            Some(Opcode::Output)
        } else if code == 5 {
            Some(Opcode::JumpIfTrue)
        } else if code == 6 {
            Some(Opcode::JumpIfFalse)
        } else if code == 7 {
            Some(Opcode::LessThan)
        } else if code == 8 {
            Some(Opcode::Equals)
        } else if code == 9 {
            Some(Opcode::AdjustBase)
        } else if code == 99 {
            Some(Opcode::Halt)
        } else {
            None
        }
    }

    /// The operation that an instruction word selects by its two lowest
    /// decimal digits. A negative word selects none.
    pub open spec fn of_word(word: Int) -> Option<Opcode> {
        if word < 0 {
            None
        } else {
            Opcode::of_code(word as int % 100)
        }
    }

    /// How many parameters follow the instruction word.
    pub open spec fn arity(self) -> int {
        match self {
            Opcode::Halt => 0,
            Opcode::Input | Opcode::Output | Opcode::AdjustBase => 1,
            Opcode::JumpIfTrue | Opcode::JumpIfFalse => 2,
            Opcode::Add | Opcode::Multiply | Opcode::LessThan | Opcode::Equals => 3,
        }
    }

    /// The operation selected by `code`, if there is one.
    pub fn from_code(code: u8) -> (r: Option<Opcode>)
        ensures
            r == Opcode::of_code(code as int),
    {
        if code == 1 {
            Some(Opcode::Add)
        } else if code == 2 {
            Some(Opcode::Multiply)
        } else if code == 3 {
            Some(Opcode::Input)
        } else if code == 4 {
            Some(Opcode::Output)
        } else if code == 5 {
            Some(Opcode::JumpIfTrue)
        } else if code == 6 {
            Some(Opcode::JumpIfFalse)
        } else if code == 7 {
            Some(Opcode::LessThan)
        } else if code == 8 {
            Some(Opcode::Equals)
        } else if code == 9 {
            Some(Opcode::AdjustBase)
        } else if code == 99 {
            Some(Opcode::Halt)
        } else {
            None
        }
    }

    /// The number of parameters of this operation.
    pub fn param_count(self) -> (n: usize)
        ensures
            n == self.arity(),
    {
        match self {
            Opcode::Halt => 0,
            Opcode::Input | Opcode::Output | Opcode::AdjustBase => 1,
            Opcode::JumpIfTrue | Opcode::JumpIfFalse => 2,
            Opcode::Add | Opcode::Multiply | Opcode::LessThan | Opcode::Equals => 3,
        }
    }
}

/// How the raw value of a parameter is read.
#[derive(Copy, Clone, PartialEq, Eq, Debug, Structural)]
pub enum ParamMode {
    /// The value is an address.
    Position,
    /// The value stands for itself.
    Immediate,
    /// The value is an address, counted from the relative base.
    Relative,
}

impl ParamMode {
    /// The mode that a decimal digit selects.
    pub open spec fn of_digit(digit: int) -> Option<ParamMode> {
        if digit == 0 {
            Some(ParamMode::Position)
        } else if digit == 1 {
            Some(ParamMode::Immediate)
        } else if digit == 2 {
            Some(ParamMode::Relative)
        } else {
            None
        }
    }
}

/// A parameter as it stands in memory, with the mode its instruction gives it.
#[derive(Copy, Clone, PartialEq, Eq, Debug, Structural)]
pub struct Param {
    pub mode: ParamMode,
    pub value: Int,
}

/// A decoded instruction word.
///
/// `modes` has one entry for each of the three parameter slots; the slots
/// beyond the operation's arity are `Position`.
#[derive(Copy, Clone, PartialEq, Eq, Debug)]
pub struct Instruction {
    pub opcode: Opcode,
    pub modes: (ParamMode, ParamMode, ParamMode),
}

/// An instruction as fetched from memory: its operation, the three parameter
/// slots, and the address of the instruction that follows it.
///
/// The slots beyond the operation's arity hold `Position` and 0.
#[derive(Copy, Clone, PartialEq, Eq, Debug)]
pub struct Operation {
    pub opcode: Opcode,
    pub first: Param,
    pub second: Param,
    pub third: Param,
    pub next_ip: Int,
}

/// The mode digit of parameter `index` (counted from 0) in a non-negative
/// instruction word: the digits above the two opcode digits, lowest first.
pub open spec fn mode_digit(word: int, index: int) -> int {
    if index == 0 {
        word / 100 % 10
    } else if index == 1 {
        word / 1000 % 10
    } else {
        word / 10000 % 10
    }
}

/// The mode of parameter slot `index` of `word` under operation `opcode`.
/// `None` where the slot is in use and its digit selects no mode.
pub open spec fn slot_mode(word: Int, opcode: Opcode, index: int) -> Option<ParamMode> {
    if index < opcode.arity() {
        ParamMode::of_digit(mode_digit(word as int, index))
    } else {
        Some(ParamMode::Position)
    }
}

/// What an instruction word decodes to. An unknown opcode is reported before
/// an unknown mode; digits above those of the operation's parameters are
/// ignored.
pub open spec fn decode_spec(word: Int) -> Result<Instruction, Fault> {
    match Opcode::of_word(word) {
        None => Err(Fault::UnknownOpcode),
        Some(opcode) => match (
            slot_mode(word, opcode, 0),
            slot_mode(word, opcode, 1),
            slot_mode(word, opcode, 2),
        ) {
            (Some(m0), Some(m1), Some(m2)) => Ok(Instruction { opcode, modes: (m0, m1, m2) }),
            _ => Err(Fault::UnknownParameterMode),
        },
    }
}

/// Reads the mode of one parameter slot off `flags`, the instruction word
/// without its two opcode digits and without the digits of earlier slots.
fn decode_mode(flags: u128, used: bool) -> (r: Option<ParamMode>)
    ensures
        r == if used {
            ParamMode::of_digit(flags as int % 10)
        } else {
            Some(ParamMode::Position)
        },
{
    if !used {
        return Some(ParamMode::Position);
    }
    let digit: u128 = flags % 10;
    if digit == 0 {
        Some(ParamMode::Position)
    } else if digit == 1 {
        Some(ParamMode::Immediate)
    } else if digit == 2 {
        Some(ParamMode::Relative)
    } else {
        None
    }
}

/// Decodes an instruction word into its operation and the modes of its
/// parameters.
pub fn decode(word: Int) -> (r: Result<Instruction, Fault>)
    ensures
        r == decode_spec(word),
{
    if word < 0 {
        return Err(Fault::UnknownOpcode);
    }
    let bits: u128 = word as u128;
    let code: u8 = (bits % 100) as u8;
    let opcode = match Opcode::from_code(code) {
        Some(opcode) => opcode,
        None => {
            return Err(Fault::UnknownOpcode);
        },
    };
    let n: usize = opcode.param_count();
    let flags: u128 = bits / 100;
    let m0 = decode_mode(flags, 0 < n);
    let m1 = decode_mode(flags / 10, 1 < n);
    let m2 = decode_mode(flags / 100, 2 < n);
    match (m0, m1, m2) {
        (Some(m0), Some(m1), Some(m2)) => Ok(Instruction { opcode, modes: (m0, m1, m2) }),
        _ => Err(Fault::UnknownParameterMode),
    }
}

} // verus!
