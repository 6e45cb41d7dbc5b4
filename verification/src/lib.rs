//! A CHIP-8 virtual machine whose instruction semantics are stated as
//! mathematical functions on machine states and proved of the executable code.

use vstd::prelude::*;

pub mod chip8;
pub mod chip8_errors;
pub mod cpu;
pub mod draw;
pub mod graphics;
pub mod hex;
pub mod inspect;
pub mod instruction;
pub mod keypad;
pub mod laws;
pub mod memory;
pub mod operations;
pub mod semantics;
pub mod session;
pub mod timer;

verus! {

/// First address of the built-in hexadecimal font.
pub const FONT_START_ADDRESS: usize = 0x0;

/// Address at which a program image is placed and at which execution starts.
pub const PROGRAM_START_ADDRESS: usize = 0x200;

} // verus!
