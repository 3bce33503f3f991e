//! A rover command: move one unit forward, or rotate in place, with its
//! single-character text codec.

use vstd::prelude::*;

verus! {

/// Error returned when a character is not one of the three command codes.
#[derive(Debug)]
pub struct ParseInstructionError {}

/// One atomic rover command.
#[derive(Clone, Copy, Debug, PartialEq, Eq, Structural)]
pub enum Instruction {
    Move,
    Left,
    Right,
}

/// The command denoted by a character, if any: exactly `'L'`, `'R'` and
/// `'M'` are accepted.
pub open spec fn spec_parse_instruction(c: char) -> Option<Instruction> {
    if c == 'L' {
        Some(Instruction::Left)
    } else if c == 'R' {
        Some(Instruction::Right)
    } else if c == 'M' {
        Some(Instruction::Move)
    } else {
        None
    }
}

/// Any character other than the three command codes is rejected.
pub proof fn lemma_unknown_command_rejected(c: char)
    requires
        c != 'L' && c != 'R' && c != 'M',
    ensures
        spec_parse_instruction(c) is None,
{
}

impl Instruction {
    /// Parses one command character.
    pub fn parse(c: char) -> (r: Result<Instruction, ParseInstructionError>)
        ensures
            match r {
                Ok(ins) => spec_parse_instruction(c) == Some(ins),
                Err(_) => spec_parse_instruction(c) is None,
            },
    {
        match c {
            'L' => Ok(Instruction::Left),
            'R' => Ok(Instruction::Right),
            'M' => Ok(Instruction::Move),
            _ => Err(ParseInstructionError {}),
        }
    }
}

} // verus!
