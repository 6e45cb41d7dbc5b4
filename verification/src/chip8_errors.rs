//! The conditions under which the machine refuses to go on.

use crate::hex::{prefixed_hex, push_prefixed_hex};
use crate::instruction::Instruction;
use vstd::prelude::*;
use vstd::string::StringExecFns;

verus! {

/// Every way in which an operation of the machine can fail.
#[derive(Debug, Clone, Copy, PartialEq, Eq, Structural)]
pub enum Chip8ErrorKind {
    /// An address at or past the end of memory, or an invalid address range.
    SegmentationFault,
    /// An instruction word that matches no operation; it carries the word.
    UnknownInstruction(Instruction),
    /// A return with no call frame on the stack.
    EmptyStack,
    /// A call with sixteen frames already on the stack.
    StackOverflow,
}

impl Chip8ErrorKind {
    /// The text that tells a user what went wrong.
    pub open spec fn message(self) -> Seq<char> {
        match self {
            Chip8ErrorKind::SegmentationFault => "Segmentation fault"@,
            Chip8ErrorKind::UnknownInstruction(instr) => "Unknown instruction, opcode "@
                + prefixed_hex(instr@ as nat),
            Chip8ErrorKind::EmptyStack => "The stack is empty!"@,
            Chip8ErrorKind::StackOverflow => "Stack overflow"@,
        }
    }

    /// Renders the error for a user.
    pub fn to_string(&self) -> (r: String)
        ensures
            r@ == self.message(),
    {
        match self {
            Chip8ErrorKind::SegmentationFault => String::from_str("Segmentation fault"),
            Chip8ErrorKind::UnknownInstruction(instr) => {
                let mut s = String::from_str("Unknown instruction, opcode ");
                push_prefixed_hex(&mut s, instr.opcode());
                s
            },
            Chip8ErrorKind::EmptyStack => String::from_str("The stack is empty!"),
            Chip8ErrorKind::StackOverflow => String::from_str("Stack overflow"),
        }
    }
}

} // verus!
