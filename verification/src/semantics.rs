//! What each operation does to the processor and the devices, as
//! functions on their states.

use crate::chip8::{Devices, DevicesView};
use crate::chip8_errors::Chip8ErrorKind;
use crate::cpu::{flag_of, wrap16, wrap8, CpuView, CPU, STACK_SIZE};
use crate::graphics::{blank, blit, collides, ScreenView, SCREEN_HEIGHT, SCREEN_WIDTH};
use crate::instruction::{decode, instruction_of, Operation};
use crate::keypad::{key_of, lowest_down};
use crate::memory::{inside, span, stored, word, RAM_SIZE};
use crate::FONT_START_ADDRESS;
use vstd::prelude::*;

verus! {

/// What an operation leaves behind: the processor, the devices, and whether
/// it went through.
pub struct Outcome {
    pub cpu: CpuView,
    pub dev: DevicesView,
    pub result: Result<(), Chip8ErrorKind>,
}

/// The outcome of an operation that went through.
pub open spec fn done(cpu: CpuView, dev: DevicesView) -> Outcome {
    Outcome { cpu, dev, result: Ok(()) }
}

/// The outcome of an operation that stopped with `error`.
pub open spec fn failed(cpu: CpuView, dev: DevicesView, error: Chip8ErrorKind) -> Outcome {
    Outcome { cpu, dev, result: Err(error) }
}

/// Whether the key with digit `value` is held down. A value that is no
/// digit names no key.
pub open spec fn key_down(keys: Seq<bool>, value: u8) -> bool {
    value < 16 && keys[value as int]
}

/// The processor after a return, or `EmptyStack` where no frame is live.
pub open spec fn returned(c: CpuView, d: DevicesView) -> Outcome {
    if c.stack.len() == 0 {
        failed(c, d, Chip8ErrorKind::EmptyStack)
    } else {
        done(CpuView { pc: c.stack.last(), stack: c.stack.drop_last(), ..c }, d)
    }
}

/// The processor after a call of `nnn`, or `StackOverflow` where sixteen
/// frames are live.
pub open spec fn called(c: CpuView, d: DevicesView, nnn: u16) -> Outcome {
    if c.stack.len() >= STACK_SIZE {
        failed(c, d, Chip8ErrorKind::StackOverflow)
    } else {
        done(CpuView { pc: nnn, stack: c.stack.push(c.pc), ..c }, d)
    }
}

/// Whether a key wait ends now: a key was seen before, and either it is
/// still held down or no key is.
pub open spec fn wait_ends(c: CpuView, keys: Seq<bool>) -> bool {
    match c.key_pressed {
        Some(k) => keys[k.code() as int] || lowest_down(keys, 16) is None,
        None => false,
    }
}

/// The processor after one attempt at a key wait. Where the wait ends, the
/// key seen before goes to register `x` and is forgotten. Otherwise the
/// program counter goes back to the instruction, and the lowest key held
/// down, if there is one, is the key seen from now on.
pub open spec fn waited(c: CpuView, keys: Seq<bool>, x: u8) -> CpuView {
    if wait_ends(c, keys) {
        CpuView { key_pressed: None, ..c.with_reg(x, c.key_pressed->Some_0.code()) }
    } else {
        CpuView {
            pc: (c.pc - 2) as u16,
            key_pressed: match lowest_down(keys, 16) {
                Some(j) => Some(key_of(j)),
                None => c.key_pressed,
            },
            ..c
        }
    }
}

/// Memory after `value` is written to `addr`, which changes nothing where
/// `addr` lies outside.
pub open spec fn store_byte(ram: Seq<u8>, addr: u16, value: u8) -> Seq<u8> {
    if addr < RAM_SIZE {
        ram.update(addr as int, value)
    } else {
        ram
    }
}

/// The outcome of storing the decimal digits of register `x` at the index
/// register and the two addresses after it. The digits are written from the
/// last to the first, each address is taken modulo 65536, and the first one
/// outside memory stops the operation.
pub open spec fn stored_bcd(c: CpuView, d: DevicesView, x: u8) -> Outcome {
    let value = c.v[x as int];
    let ones = wrap16(c.i + 2);
    let tens = wrap16(c.i + 1);
    let ram1 = store_byte(d.ram, ones, value % 10);
    let ram2 = store_byte(ram1, tens, (value / 10) % 10);
    let ram3 = store_byte(ram2, c.i, value / 100);
    if ones >= RAM_SIZE {
        failed(c, d, Chip8ErrorKind::SegmentationFault)
    } else if tens >= RAM_SIZE {
        failed(c, DevicesView { ram: ram1, ..d }, Chip8ErrorKind::SegmentationFault)
    } else if c.i >= RAM_SIZE {
        failed(c, DevicesView { ram: ram2, ..d }, Chip8ErrorKind::SegmentationFault)
    } else {
        done(c, DevicesView { ram: ram3, ..d })
    }
}

/// The outcome of storing registers `V0` to `Vx` from the index register
/// on. The registers that find room in memory are stored; where all do, the
/// index register moves past them.
pub open spec fn stored_regs(c: CpuView, d: DevicesView, x: u8) -> Outcome {
    let room = inside(c.i as int, x + 1);
    let dev = DevicesView { ram: stored(d.ram, c.i as int, c.v, room), ..d };
    if room == x + 1 {
        done(c.with_index(wrap16(c.i + x + 1)), dev)
    } else {
        failed(c, dev, Chip8ErrorKind::SegmentationFault)
    }
}

/// The registers `v` after the first `count` of them are loaded from the
/// bytes that `ram` holds from `start` on.
pub open spec fn loaded(v: Seq<u8>, ram: Seq<u8>, start: int, count: int) -> Seq<u8> {
    Seq::new(
        v.len(),
        |k: int|
            if k < count {
                ram[start + k]
            } else {
                v[k]
            },
    )
}

/// The outcome of loading registers `V0` to `Vx` from the index register
/// on. The registers whose byte lies in memory are loaded; where all do, the
/// index register moves past them.
pub open spec fn loaded_regs(c: CpuView, d: DevicesView, x: u8) -> Outcome {
    let room = inside(c.i as int, x + 1);
    let v = loaded(c.v, d.ram, c.i as int, room);
    if room == x + 1 {
        done(CpuView { v, ..c }.with_index(wrap16(c.i + x + 1)), d)
    } else {
        failed(CpuView { v, ..c }, d, Chip8ErrorKind::SegmentationFault)
    }
}

/// How many rows of a sprite of `n` rows lie on the screen when its top row
/// is row `sy`.
pub open spec fn rows_on_screen(sy: int, n: u8) -> int {
    if sy + n <= SCREEN_HEIGHT {
        n as int
    } else {
        SCREEN_HEIGHT - sy
    }
}

/// The rows of the sprite that a draw of `n` rows at row `sy` takes from
/// memory at `i`: those that lie on the screen and in memory.
pub open spec fn sprite_rows(ram: Seq<u8>, i: u16, sy: int, n: u8) -> Seq<u8> {
    span(ram, i as int, inside(i as int, rows_on_screen(sy, n)))
}

/// The outcome of drawing the sprite of `n` rows that memory holds at the
/// index register, with its top left corner at column `Vx mod 64` of row
/// `Vy mod 32`. Rows below the last row of the screen are neither read nor
/// drawn; columns right of the last column are cut off. A row that lies
/// outside memory stops the operation, with the rows before it drawn. The
/// flag register ends as 1 if a lit pixel went dark, else as 0.
pub open spec fn drawn(c: CpuView, d: DevicesView, x: u8, y: u8, n: u8) -> Outcome {
    let sx = (c.v[x as int] % (SCREEN_WIDTH as u8)) as int;
    let sy = (c.v[y as int] % (SCREEN_HEIGHT as u8)) as int;
    let rows = sprite_rows(d.ram, c.i, sy, n);
    let cpu = c.with_flag(flag_of(collides(d.screen.pixels, sx, sy, rows)));
    let dev = DevicesView {
        screen: ScreenView {
            pixels: blit(d.screen.pixels, sx, sy, rows),
            updated: d.screen.updated || rows.len() > 0,
        },
        ..d
    };
    if rows.len() == rows_on_screen(sy, n) {
        done(cpu, dev)
    } else {
        failed(cpu, dev, Chip8ErrorKind::SegmentationFault)
    }
}

/// What `op` does to the processor `c` and the devices `d`. `rand_byte` is
/// the byte that chance supplies; only `Random` looks at it.
pub open spec fn execute_op(c: CpuView, d: DevicesView, op: Operation, rand_byte: u8) -> Outcome {
    match op {
        Operation::ClearScreen => done(
            c,
            DevicesView { screen: ScreenView { pixels: blank(), updated: true }, ..d },
        ),
        Operation::Return => returned(c, d),
        Operation::Sys { nnn } => done(c, d),
        Operation::Jump { nnn } => done(c.at(nnn), d),
        Operation::Call { nnn } => called(c, d, nnn),
        Operation::SkipEqImm { x, nn } => done(c.skipped(c.v[x as int] == nn), d),
        Operation::SkipNeImm { x, nn } => done(c.skipped(c.v[x as int] != nn), d),
        Operation::SkipEqReg { x, y } => done(c.skipped(c.v[x as int] == c.v[y as int]), d),
        Operation::LoadImm { x, nn } => done(c.with_reg(x, nn), d),
        Operation::AddImm { x, nn } => done(c.with_reg(x, wrap8(c.v[x as int] + nn)), d),
        Operation::Move { x, y } => done(c.with_reg(x, c.v[y as int]), d),
        Operation::Or { x, y } => done(c.computed(x, c.v[x as int] | c.v[y as int], 0), d),
        Operation::And { x, y } => done(c.computed(x, c.v[x as int] & c.v[y as int], 0), d),
        Operation::Xor { x, y } => done(c.computed(x, c.v[x as int] ^ c.v[y as int], 0), d),
        Operation::Add { x, y } => done(
            c.computed(
                x,
                wrap8(c.v[x as int] + c.v[y as int]),
                flag_of(c.v[x as int] + c.v[y as int] > 255),
            ),
            d,
        ),
        Operation::Sub { x, y } => done(
            c.computed(
                x,
                wrap8(c.v[x as int] - c.v[y as int]),
                flag_of(c.v[x as int] > c.v[y as int]),
            ),
            d,
        ),
        Operation::Shr { x, y } => done(
            c.computed(x, c.v[y as int] / 2, c.v[y as int] % 2),
            d,
        ),
        Operation::SubN { x, y } => done(
            c.computed(
                x,
                wrap8(c.v[y as int] - c.v[x as int]),
                flag_of(c.v[x as int] < c.v[y as int]),
            ),
            d,
        ),
        Operation::Shl { x, y } => done(
            c.computed(x, wrap8(c.v[y as int] * 2), c.v[y as int] / 128),
            d,
        ),
        Operation::SkipNeReg { x, y } => done(c.skipped(c.v[x as int] != c.v[y as int]), d),
        Operation::SetIndex { nnn } => done(c.with_index(nnn), d),
        Operation::JumpOffset { nnn } => done(c.at((nnn + c.v[0]) as u16), d),
        Operation::Random { x, nn } => done(c.with_reg(x, rand_byte & nn), d),
        Operation::Draw { x, y, n } => drawn(c, d, x, y, n),
        Operation::SkipIfKey { x } => done(c.skipped(key_down(d.keys, c.v[x as int])), d),
        Operation::SkipIfNotKey { x } => done(c.skipped(!key_down(d.keys, c.v[x as int])), d),
        Operation::LoadDelay { x } => done(c.with_reg(x, c.delay_timer), d),
        Operation::WaitKey { x } => done(waited(c, d.keys, x), d),
        Operation::SetDelay { x } => done(CpuView { delay_timer: c.v[x as int], ..c }, d),
        Operation::SetSound { x } => done(CpuView { sound_timer: c.v[x as int], ..c }, d),
        Operation::AddIndex { x } => done(c.with_index(wrap16(c.i + c.v[x as int])), d),
        Operation::LoadFontAddr { x } => done(
            c.with_index(wrap16(FONT_START_ADDRESS + wrap8(c.v[x as int] * 5))),
            d,
        ),
        Operation::StoreBcd { x } => stored_bcd(c, d, x),
        Operation::StoreRegs { x } => stored_regs(c, d, x),
        Operation::LoadRegs { x } => loaded_regs(c, d, x),
    }
}

/// Whether a skip can be taken without the program counter leaving its range.
pub open spec fn can_skip(c: CpuView, cond: bool) -> bool {
    cond ==> c.pc + 2 <= u16::MAX
}

/// Whether `op` is defined on `c` and `d`: the registers it names exist, a
/// key test names a key, and the program counter stays within sixteen bits.
/// Every operation that `decode` gives is defined right after its
/// instruction was fetched, but for a key test on a register that holds
/// sixteen or more.
pub open spec fn defined(c: CpuView, d: DevicesView, op: Operation) -> bool {
    op.registers_exist() && match op {
        Operation::SkipEqImm { x, nn } => can_skip(c, c.v[x as int] == nn),
        Operation::SkipNeImm { x, nn } => can_skip(c, c.v[x as int] != nn),
        Operation::SkipEqReg { x, y } => can_skip(c, c.v[x as int] == c.v[y as int]),
        Operation::SkipNeReg { x, y } => can_skip(c, c.v[x as int] != c.v[y as int]),
        Operation::JumpOffset { nnn } => nnn + c.v[0] <= u16::MAX,
        Operation::SkipIfKey { x } => c.v[x as int] < 16 && can_skip(
            c,
            key_down(d.keys, c.v[x as int]),
        ),
        Operation::SkipIfNotKey { x } => c.v[x as int] < 16 && can_skip(
            c,
            !key_down(d.keys, c.v[x as int]),
        ),
        Operation::WaitKey { x } => !wait_ends(c, d.keys) ==> c.pc >= 2,
        _ => true,
    }
}

/// What executing the instruction word `opcode` does: what its operation
/// does, or `UnknownInstruction` with the word where it encodes none.
/// `lemma_execute_word` unfolds it.
#[verifier::opaque]
pub open spec fn execute_word(c: CpuView, d: DevicesView, opcode: u16, rand_byte: u8) -> Outcome {
    match decode(opcode) {
        Some(op) => execute_op(c, d, op, rand_byte),
        None => failed(c, d, Chip8ErrorKind::UnknownInstruction(instruction_of(opcode))),
    }
}

/// Whether the instruction word `opcode` can be executed on `c` and `d`.
/// `lemma_execute_word` unfolds it.
#[verifier::opaque]
pub open spec fn word_defined(c: CpuView, d: DevicesView, opcode: u16) -> bool {
    match decode(opcode) {
        Some(op) => defined(c, d, op),
        None => true,
    }
}

/// What `execute_word` and `word_defined` stand for.
pub proof fn lemma_execute_word(c: CpuView, d: DevicesView, opcode: u16, rand_byte: u8)
    ensures
        execute_word(c, d, opcode, rand_byte) == match decode(opcode) {
            Some(op) => execute_op(c, d, op, rand_byte),
            None => failed(c, d, Chip8ErrorKind::UnknownInstruction(instruction_of(opcode))),
        },
        word_defined(c, d, opcode) == match decode(opcode) {
            Some(op) => defined(c, d, op),
            None => true,
        },
{
    reveal(execute_word);
    reveal(word_defined);
}

/// Whether an instruction can be fetched at the program counter.
pub open spec fn can_fetch(c: CpuView) -> bool {
    c.pc + 1 < RAM_SIZE
}

/// The instruction word at the program counter.
pub open spec fn next_word(c: CpuView, d: DevicesView) -> u16 {
    word(d.ram[c.pc as int], d.ram[c.pc + 1])
}

/// The processor once the instruction at the program counter is fetched.
pub open spec fn fetched(c: CpuView) -> CpuView {
    c.at((c.pc + 2) as u16)
}

/// Whether one cycle can run: the instruction at the program counter, if
/// one can be fetched, is defined once it is fetched.
pub open spec fn cycle_defined(c: CpuView, d: DevicesView) -> bool {
    can_fetch(c) ==> word_defined(fetched(c), d, next_word(c, d))
}

/// What one cycle does: fetch the instruction at the program counter, move
/// the program counter past it, execute it. Where no instruction can be
/// fetched nothing changes. An instruction that fails leaves the program
/// counter past it.
pub open spec fn cycle(c: CpuView, d: DevicesView, rand_byte: u8) -> Outcome {
    if can_fetch(c) {
        execute_word(fetched(c), d, next_word(c, d), rand_byte)
    } else {
        failed(c, d, Chip8ErrorKind::SegmentationFault)
    }
}

/// An operation's outcome as the executable code leaves it.
pub open spec fn outcome(cpu: CPU, dev: Devices, result: Result<(), Chip8ErrorKind>) -> Outcome {
    Outcome { cpu: cpu@, dev: dev@, result }
}

/// Right after an instruction was fetched, every operation is defined but
/// a key test on a register that holds sixteen or more.
pub proof fn lemma_defined_after_fetch(c: CpuView, d: DevicesView, opcode: u16)
    requires
        can_fetch(c),
    ensures
        word_defined(fetched(c), d, opcode) <==> match decode(opcode) {
            Some(Operation::SkipIfKey { x }) => c.v[x as int] < 16,
            Some(Operation::SkipIfNotKey { x }) => c.v[x as int] < 16,
            _ => true,
        },
{
    reveal(word_defined);
}

} // verus!
