//! What a front end shows of a loaded program.

use crate::instruction::{instruction_of, Instruction};
use crate::memory::word;
use crate::PROGRAM_START_ADDRESS;
use vstd::prelude::*;

verus! {

/// How many instruction words before the program counter a listing shows.
pub const LISTING_LEAD: usize = 6;

/// Where a listing around the program counter `pc` starts: up to
/// `LISTING_LEAD` bytes before it, but not before the program origin.
pub open spec fn spec_listing_start(pc: usize) -> usize {
    if pc > PROGRAM_START_ADDRESS + LISTING_LEAD {
        (pc - LISTING_LEAD) as usize
    } else {
        PROGRAM_START_ADDRESS
    }
}

/// Where a listing around the program counter `pc` starts.
#[verifier::when_used_as_spec(spec_listing_start)]
pub fn listing_start(pc: usize) -> (r: usize)
    ensures
        r == spec_listing_start(pc),
{
    if pc > PROGRAM_START_ADDRESS {
        let diff = pc - PROGRAM_START_ADDRESS;
        pc - if diff < LISTING_LEAD {
            diff
        } else {
            LISTING_LEAD
        }
    } else {
        PROGRAM_START_ADDRESS
    }
}

/// Whether the program counter `pc` points at an instruction of a program
/// of `length` bytes: there is a program, and its last word does not lie
/// before `pc`.
pub open spec fn spec_in_program(pc: u16, length: usize) -> bool {
    length > 0 && length + PROGRAM_START_ADDRESS - 2 >= pc
}

/// Whether the program counter `pc` points at an instruction of a program
/// of `length` bytes.
#[verifier::when_used_as_spec(spec_in_program)]
pub fn in_program(pc: u16, length: usize) -> (r: bool)
    ensures
        r == spec_in_program(pc, length),
{
    length > 0 && (length >= 0x10000 || length + PROGRAM_START_ADDRESS - 2 >= pc as usize)
}

/// The instruction words that `code` holds, each with its address, where
/// the first byte of `code` lies at address `start`. A last byte without a
/// partner is left out.
pub fn listing(code: &[u8], start: usize) -> (r: Vec<(usize, Instruction)>)
    requires
        start + code@.len() <= usize::MAX,
    ensures
        r@.len() == code@.len() / 2,
        forall|k: int|
            0 <= k < r@.len() ==> (#[trigger] r@[k]).0 == start + 2 * k && r@[k].1
                == instruction_of(word(code@[2 * k], code@[2 * k + 1])),
{
    let mut out: Vec<(usize, Instruction)> = Vec::new();
    let mut i: usize = 0;
    while i + 1 < code.len()
        invariant
            i % 2 == 0,
            i <= code@.len(),
            start + code@.len() <= usize::MAX,
            out@.len() == i / 2,
            forall|k: int|
                0 <= k < out@.len() ==> (#[trigger] out@[k]).0 == start + 2 * k && out@[k].1
                    == instruction_of(word(code@[2 * k], code@[2 * k + 1])),
        decreases code@.len() - i,
    {
        let hi = code[i] as u16;
        let lo = code[i + 1] as u16;
        assert((hi << 8u16) | lo == hi * 256 + lo) by (bit_vector)
            requires
                hi < 256,
                lo < 256,
        ;
        out.push((start + i, Instruction::new((hi << 8) | lo)));
        i += 2;
    }
    out
}

} // verus!
