//! What holds of the operations taken together.

use crate::chip8::DevicesView;
use crate::chip8_errors::Chip8ErrorKind;
use crate::cpu::{CpuView, STACK_SIZE};
use crate::graphics::{collides, law_blit_twice, SCREEN_HEIGHT, SCREEN_SIZE, SCREEN_WIDTH};
use crate::instruction::{
    decode, field_hi, field_n, field_x, field_y, instruction_of, Operation,
};
use crate::keypad::{lemma_lowest_down, lowest_down, Key};
use crate::semantics::{
    can_fetch, cycle, drawn, execute_op, execute_word, fetched, lemma_execute_word, next_word,
    sprite_rows, Outcome,
};
use vstd::prelude::*;

verus! {

/// Bitwise or, and, and exclusive or of two registers leave the flag
/// register at zero, whatever the registers held and whichever they are.
pub proof fn law_logic_resets_flag(c: CpuView, d: DevicesView, x: u8, y: u8, rand_byte: u8)
    requires
        c.wf(),
        x < 16,
        y < 16,
    ensures
        execute_op(c, d, Operation::Or { x, y }, rand_byte).cpu.v[0xF] == 0,
        execute_op(c, d, Operation::And { x, y }, rand_byte).cpu.v[0xF] == 0,
        execute_op(c, d, Operation::Xor { x, y }, rand_byte).cpu.v[0xF] == 0,
{
}

/// Adding a byte to a register wraps at 256 and touches no other register,
/// the flag register included.
pub proof fn law_add_imm_wraps(c: CpuView, d: DevicesView, x: u8, nn: u8, other: u8)
    requires
        c.wf(),
        x < 16,
        other < 16,
        other != x,
    ensures
        execute_op(c, d, Operation::AddImm { x, nn }, 0).cpu.v[x as int] == (c.v[x as int] + nn)
            % 256,
        execute_op(c, d, Operation::AddImm { x, nn }, 0).cpu.v[other as int] == c.v[other as int],
{
}

/// Adding two registers sets the flag register to 1 exactly if the sum
/// passed 255, and to 0 otherwise.
pub proof fn law_add_sets_carry(c: CpuView, d: DevicesView, x: u8, y: u8)
    requires
        c.wf(),
        x < 16,
        y < 16,
    ensures
        execute_op(c, d, Operation::Add { x, y }, 0).cpu.v[0xF] == (if c.v[x as int] + c.v[y as int]
            > 255 {
            1u8
        } else {
            0u8
        }),
        x != 0xF ==> execute_op(c, d, Operation::Add { x, y }, 0).cpu.v[x as int] == (c.v[x as int]
            + c.v[y as int]) % 256,
{
}

/// The shifts take their operand from `Vy`, not from `Vx`.
pub proof fn law_shifts_read_vy(c: CpuView, d: DevicesView, x: u8, y: u8)
    requires
        c.wf(),
        x < 16,
        y < 16,
        x != 0xF,
    ensures
        execute_op(c, d, Operation::Shr { x, y }, 0).cpu.v[x as int] == c.v[y as int] / 2,
        execute_op(c, d, Operation::Shr { x, y }, 0).cpu.v[0xF] == c.v[y as int] % 2,
        execute_op(c, d, Operation::Shl { x, y }, 0).cpu.v[x as int] == (c.v[y as int] * 2) % 256,
        execute_op(c, d, Operation::Shl { x, y }, 0).cpu.v[0xF] == c.v[y as int] / 128,
{
}

/// A call followed by a return brings the processor back to where it was
/// when the call was executed: right behind the call instruction.
pub proof fn law_call_return(c: CpuView, d: DevicesView, nnn: u16)
    requires
        c.wf(),
        c.stack.len() < STACK_SIZE,
    ensures
        ({
            let call = execute_op(c, d, Operation::Call { nnn }, 0);
            let back = execute_op(call.cpu, call.dev, Operation::Return, 0);
            &&& call.result == Ok::<(), Chip8ErrorKind>(())
            &&& call.cpu.pc == nnn
            &&& back.result == Ok::<(), Chip8ErrorKind>(())
            &&& back.cpu == c
            &&& back.dev == d
        }),
{
    let call = execute_op(c, d, Operation::Call { nnn }, 0);
    assert(call.cpu.stack.drop_last() =~= c.stack);
}

/// A call with sixteen frames live fails with `StackOverflow`, a return
/// with none live fails with `EmptyStack`, and neither changes anything.
pub proof fn law_stack_limits(c: CpuView, d: DevicesView, nnn: u16)
    requires
        c.wf(),
    ensures
        c.stack.len() == STACK_SIZE ==> execute_op(c, d, Operation::Call { nnn }, 0) == (
        Outcome { cpu: c, dev: d, result: Err(Chip8ErrorKind::StackOverflow) }),
        c.stack.len() == 0 ==> execute_op(c, d, Operation::Return, 0) == (Outcome {
            cpu: c,
            dev: d,
            result: Err(Chip8ErrorKind::EmptyStack),
        }),
{
}

/// Chance decides nothing but the byte that `Random` stores: every other
/// instruction word has one outcome.
pub proof fn law_chance_only_in_random(c: CpuView, d: DevicesView, opcode: u16, a: u8, b: u8)
    requires
        !(decode(opcode) matches Some(Operation::Random { .. })),
    ensures
        execute_word(c, d, opcode, a) == execute_word(c, d, opcode, b),
{
    lemma_execute_word(c, d, opcode, a);
    lemma_execute_word(c, d, opcode, b);
}

/// A word with leading nibble 5 encodes an operation only where its last
/// nibble is zero.
pub proof fn law_skip_eq_reg_needs_zero(opcode: u16)
    requires
        field_hi(opcode) == 5,
    ensures
        field_n(opcode) == 0 ==> decode(opcode) == Some(
            Operation::SkipEqReg { x: field_x(opcode), y: field_y(opcode) },
        ),
        field_n(opcode) != 0 ==> decode(opcode) is None,
{
}

/// A word that encodes no operation fails the cycle with
/// `UnknownInstruction` and that word, and leaves the program counter
/// behind it and everything else as it was.
pub proof fn law_unknown_instruction(c: CpuView, d: DevicesView, rand_byte: u8)
    requires
        can_fetch(c),
        decode(next_word(c, d)) is None,
    ensures
        cycle(c, d, rand_byte) == (Outcome {
            cpu: c.at((c.pc + 2) as u16),
            dev: d,
            result: Err(Chip8ErrorKind::UnknownInstruction(instruction_of(next_word(c, d)))),
        }),
{
    lemma_execute_word(fetched(c), d, next_word(c, d), rand_byte);
}

/// Drawing a sprite twice in succession restores the picture, and the flag
/// register after the first draw tells whether that draw darkened a pixel.
/// The registers that hold the position must not be the flag register,
/// which the first draw changes.
pub proof fn law_draw_twice(c: CpuView, d: DevicesView, x: u8, y: u8, n: u8)
    requires
        c.wf(),
        d.screen.pixels.len() == SCREEN_SIZE,
        x < 15,
        y < 15,
    ensures
        ({
            let first = drawn(c, d, x, y, n);
            let second = drawn(first.cpu, first.dev, x, y, n);
            let sx = (c.v[x as int] % (SCREEN_WIDTH as u8)) as int;
            let sy = (c.v[y as int] % (SCREEN_HEIGHT as u8)) as int;
            &&& second.dev.screen.pixels == d.screen.pixels
            &&& second.result == first.result
            &&& first.cpu.v[0xF] == 1 <==> collides(
                d.screen.pixels,
                sx,
                sy,
                sprite_rows(d.ram, c.i, sy, n),
            )
            &&& first.cpu.v[0xF] == 0 <==> !collides(
                d.screen.pixels,
                sx,
                sy,
                sprite_rows(d.ram, c.i, sy, n),
            )
        }),
{
    let sx = (c.v[x as int] % (SCREEN_WIDTH as u8)) as int;
    let sy = (c.v[y as int] % (SCREEN_HEIGHT as u8)) as int;
    law_blit_twice(d.screen.pixels, sx, sy, sprite_rows(d.ram, c.i, sy, n));
}

/// A key wait with no key held down, and none seen before, changes nothing
/// at all: the cycle ends with the program counter on the instruction again.
pub proof fn law_key_wait_repeats(c: CpuView, d: DevicesView, x: u8, rand_byte: u8)
    requires
        c.wf(),
        d.keys.len() == 16,
        can_fetch(c),
        decode(next_word(c, d)) == Some(Operation::WaitKey { x }),
        c.key_pressed is None,
        forall|k: int| 0 <= k < 16 ==> !d.keys[k],
    ensures
        cycle(c, d, rand_byte) == (Outcome { cpu: c, dev: d, result: Ok(()) }),
{
    lemma_execute_word(fetched(c), d, next_word(c, d), rand_byte);
    lemma_lowest_down(d.keys, 16);
}

/// A key wait that finds a key held down takes two cycles to end: the
/// first sees the lowest key held down and leaves the program counter on the
/// instruction, the second, with that key still held down, puts the key's
/// digit into `Vx` and leaves the program counter behind the instruction.
pub proof fn law_key_wait_ends(c: CpuView, d: DevicesView, x: u8, key: Key, rand_byte: u8)
    requires
        c.wf(),
        d.keys.len() == 16,
        can_fetch(c),
        decode(next_word(c, d)) == Some(Operation::WaitKey { x }),
        c.key_pressed is None,
        lowest_down(d.keys, 16) == Some(key.code() as int),
    ensures
        ({
            let first = cycle(c, d, rand_byte);
            let second = cycle(first.cpu, first.dev, rand_byte);
            &&& first == (Outcome {
                cpu: CpuView { key_pressed: Some(key), ..c },
                dev: d,
                result: Ok(()),
            })
            &&& second == (Outcome {
                cpu: c.with_reg(x, key.code()).at((c.pc + 2) as u16),
                dev: d,
                result: Ok(()),
            })
        }),
{
    lemma_execute_word(fetched(c), d, next_word(c, d), rand_byte);
    lemma_lowest_down(d.keys, 16);
    Key::lemma_code_key(key, key.code() as int);
    let first = cycle(c, d, rand_byte);
    lemma_execute_word(fetched(first.cpu), d, next_word(c, d), rand_byte);
}

} // verus!
