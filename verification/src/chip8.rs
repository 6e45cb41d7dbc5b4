//! The machine: a processor and its devices, program loading and the
//! sixty-hertz timers.

use crate::chip8_errors::Chip8ErrorKind;
use crate::cpu::{initial_cpu, law_ticks_saturate, CpuView, CPU};
use crate::graphics::{blank, FrameBuffer, Screen, ScreenView};
use crate::instruction::{Instruction, Operation};
use crate::keypad::KeyPad;
use crate::memory::{inside, stored, zeroed, Ram, RAM_SIZE};
use crate::semantics::{
    can_fetch, cycle, cycle_defined, lemma_defined_after_fetch, next_word, outcome,
};
use crate::timer::Timer;
use crate::{FONT_START_ADDRESS, PROGRAM_START_ADDRESS};
use vstd::prelude::*;

verus! {

/// The glyphs of the sixteen hexadecimal digits, five bytes each.
pub const FONT_DATA: [u8; 80] = [
    0xF0, 0x90, 0x90, 0x90, 0xF0,
    0x20, 0x60, 0x20, 0x20, 0x70,
    0xF0, 0x10, 0xF0, 0x80, 0xF0,
    0xF0, 0x10, 0xF0, 0x10, 0xF0,
    0x90, 0x90, 0xF0, 0x10, 0x10,
    0xF0, 0x80, 0xF0, 0x10, 0xF0,
    0xF0, 0x80, 0xF0, 0x90, 0xF0,
    0xF0, 0x10, 0x20, 0x40, 0x40,
    0xF0, 0x90, 0xF0, 0x90, 0xF0,
    0xF0, 0x90, 0xF0, 0x10, 0xF0,
    0xF0, 0x90, 0xF0, 0x90, 0x90,
    0xE0, 0x90, 0xE0, 0x90, 0xE0,
    0xF0, 0x80, 0x80, 0x80, 0xF0,
    0xE0, 0x90, 0x90, 0x90, 0xE0,
    0xF0, 0x80, 0xF0, 0x80, 0xF0,
    0xF0, 0x80, 0xF0, 0x80, 0x80,
];

/// What the processor works on while it executes one instruction.
pub struct Devices {
    pub ram: Ram,
    pub keypad: KeyPad,
    pub screen: Screen,
}

/// The state of the devices: memory, key states and picture.
pub struct DevicesView {
    pub ram: Seq<u8>,
    pub keys: Seq<bool>,
    pub screen: ScreenView,
}

impl View for Devices {
    type V = DevicesView;

    open spec fn view(&self) -> DevicesView {
        DevicesView { ram: self.ram@, keys: self.keypad@, screen: self.screen@ }
    }
}

/// Memory as a fresh machine has it: the font at its place, zero elsewhere.
pub open spec fn initial_ram() -> Seq<u8> {
    Seq::new(
        RAM_SIZE as nat,
        |a: int|
            if FONT_START_ADDRESS <= a < FONT_START_ADDRESS + 80 {
                FONT_DATA[a - FONT_START_ADDRESS]
            } else {
                0u8
            },
    )
}

/// The devices of a fresh machine.
pub open spec fn initial_devices() -> DevicesView {
    DevicesView {
        ram: initial_ram(),
        keys: Seq::new(16, |k: int| false),
        screen: ScreenView { pixels: blank(), updated: false },
    }
}

impl Devices {
    /// The size of each device's state never changes.
    pub proof fn lemma_sizes(&self)
        ensures
            self@.ram.len() == RAM_SIZE,
            self@.keys.len() == 16,
            self@.screen.pixels.len() == crate::graphics::SCREEN_SIZE,
    {
        self.ram.lemma_len();
        self.keypad.lemma_len();
        self.screen.lemma_len();
    }

    pub fn new() -> (r: Devices)
        ensures
            r@ == initial_devices(),
    {
        let mut ram = Ram::new();

        let font = FONT_DATA;
        ram.write_bytes(FONT_START_ADDRESS as u16, font.as_slice()).unwrap();
        assert(ram@ =~= initial_ram());

        Self { ram, keypad: KeyPad::new(), screen: Screen::new() }
    }
}

/// Nanoseconds in one second.
pub const NANOS_PER_SECOND: u128 = 1_000_000_000;

/// Timer ticks in one second.
pub const TICKS_PER_SECOND: u128 = 60;

/// The machine.
pub struct Chip8 {
    cpu: CPU,
    devices: Devices,
    read_program_length: usize,
    clock_update_timer: Timer,
}

/// The state of the machine: processor, devices, and the length of the
/// program that was loaded last.
pub struct MachineView {
    pub cpu: CpuView,
    pub dev: DevicesView,
    pub program_length: nat,
}

impl View for Chip8 {
    type V = MachineView;

    closed spec fn view(&self) -> MachineView {
        MachineView {
            cpu: self.cpu@,
            dev: self.devices@,
            program_length: self.read_program_length as nat,
        }
    }
}

/// The state of a fresh machine.
pub open spec fn initial_machine() -> MachineView {
    MachineView { cpu: initial_cpu(), dev: initial_devices(), program_length: 0 }
}

/// The devices after a reset that clears memory from `from` on: the keys
/// are released, the screen is dark and marked as changed.
pub open spec fn reset_devices(d: DevicesView, from: int) -> DevicesView {
    DevicesView {
        ram: zeroed(d.ram, from, RAM_SIZE as int),
        keys: Seq::new(16, |k: int| false),
        screen: ScreenView { pixels: blank(), updated: true },
    }
}

/// The machine after a whole reset: the processor is at its start, memory
/// is zero from the program origin on, and below it, the font included, as
/// it was.
pub open spec fn reset_machine(m: MachineView) -> MachineView {
    MachineView {
        cpu: initial_cpu(),
        dev: reset_devices(m.dev, PROGRAM_START_ADDRESS as int),
        ..m
    }
}

/// The machine after a reload: as after a reset, but the program that was
/// loaded last stays in memory.
pub open spec fn reloaded(m: MachineView) -> MachineView {
    MachineView {
        cpu: initial_cpu(),
        dev: reset_devices(m.dev, PROGRAM_START_ADDRESS + m.program_length),
        ..m
    }
}

/// The machine after `program` is placed at the program origin. Of a
/// program that is longer than the space from there on, what has room is
/// placed.
pub open spec fn loaded(m: MachineView, program: Seq<u8>) -> MachineView {
    MachineView {
        dev: DevicesView {
            ram: stored(
                m.dev.ram,
                PROGRAM_START_ADDRESS as int,
                program,
                inside(PROGRAM_START_ADDRESS as int, program.len() as int),
            ),
            ..m.dev
        },
        program_length: program.len(),
        ..m
    }
}

/// How many whole sixtieths of a second `nanos` nanoseconds hold.
pub open spec fn whole_ticks(nanos: nat) -> nat {
    nanos * (TICKS_PER_SECOND as nat) / (NANOS_PER_SECOND as nat)
}

/// Whether the machine can advance: see `cycle_defined`.
pub open spec fn runnable(m: MachineView) -> bool {
    cycle_defined(m.cpu, m.dev)
}

/// The machine after it advanced by one instruction, `nanos` nanoseconds
/// after the timers were last brought up to date, and whether the
/// instruction went through. The timers first catch up by every whole tick
/// in `nanos`, then one cycle runs.
pub open spec fn advanced(m: MachineView, nanos: nat, rand_byte: u8) -> (
    MachineView,
    Result<(), Chip8ErrorKind>,
) {
    let out = cycle(m.cpu.ticked_by(whole_ticks(nanos)), m.dev, rand_byte);
    (MachineView { cpu: out.cpu, dev: out.dev, ..m }, out.result)
}

/// Loading a program and then reloading keeps the program where it was
/// placed and leaves zero from its end to the end of memory.
pub proof fn law_reload_keeps_program(m: MachineView, program: Seq<u8>, a: int)
    requires
        m.dev.ram.len() == RAM_SIZE,
        PROGRAM_START_ADDRESS <= a < RAM_SIZE,
    ensures
        a < PROGRAM_START_ADDRESS + program.len() ==> reloaded(loaded(m, program)).dev.ram[a]
            == program[a - PROGRAM_START_ADDRESS],
        a >= PROGRAM_START_ADDRESS + program.len() ==> reloaded(loaded(m, program)).dev.ram[a]
            == 0,
{
}

/// Passing time does not change whether the machine can advance.
pub proof fn lemma_runnable_ticked(m: MachineView, n: nat)
    ensures
        cycle_defined(m.cpu.ticked_by(n), m.dev) == runnable(m),
{
    let c = m.cpu;
    let t = m.cpu.ticked_by(n);
    if can_fetch(c) {
        lemma_defined_after_fetch(c, m.dev, next_word(c, m.dev));
        lemma_defined_after_fetch(t, m.dev, next_word(t, m.dev));
    }
}

impl Chip8 {
    /// The processor's stack pointer stays within the stack.
    pub closed spec fn wf(&self) -> bool {
        self.cpu.wf()
    }

    pub fn new() -> (r: Chip8)
        ensures
            r.wf(),
            r@ == initial_machine(),
    {
        Self {
            cpu: CPU::new(),
            devices: Devices::new(),
            read_program_length: 0,
            clock_update_timer: Timer::new(),
        }
    }

    pub fn get_cpu(&self) -> (r: &CPU)
        ensures
            r@ == self@.cpu,
            self.wf() ==> r.wf(),
    {
        &self.cpu
    }

    pub fn get_ram(&self) -> (r: &Ram)
        ensures
            r@ == self@.dev.ram,
    {
        &self.devices.ram
    }

    pub fn get_program_length(&self) -> (r: usize)
        ensures
            r == self@.program_length,
    {
        self.read_program_length
    }

    pub fn get_screen(&self) -> (r: &Screen)
        ensures
            r@ == self@.dev.screen,
    {
        &self.devices.screen
    }

    /// Hands out the key states for the caller to change; nothing else of
    /// the machine changes with them.
    pub fn get_keypad_mut(&mut self) -> (r: &mut KeyPad)
        ensures
            r@ == old(self)@.dev.keys,
            final(self)@ == (MachineView {
                dev: DevicesView { keys: final(r)@, ..old(self)@.dev },
                ..old(self)@
            }),
            old(self).wf() ==> final(self).wf(),
    {
        &mut self.devices.keypad
    }

    pub fn get_keypad(&self) -> (r: &KeyPad)
        ensures
            r@ == self@.dev.keys,
    {
        &self.devices.keypad
    }

    /// Resets the whole machine: see `reset_machine`.
    pub fn reset(&mut self)
        ensures
            final(self).wf(),
            final(self)@ == reset_machine(old(self)@),
    {
        self.cpu.reset();
        self.devices.ram.reset();
        self.devices.keypad.reset();
        self.devices.screen.clear();
    }

    /// Resets the machine but keeps the loaded program: see `reloaded`.
    pub fn reload_program(&mut self)
        ensures
            final(self).wf(),
            final(self)@ == reloaded(old(self)@),
    {
        self.cpu.reset();
        proof {
            self.devices.lemma_sizes();
        }
        match PROGRAM_START_ADDRESS.checked_add(self.read_program_length) {
            Some(start) => {
                self.devices.ram.reset_range(start, RAM_SIZE);
            },
            None => {
                assert(self.devices.ram@ =~= zeroed(
                    self.devices.ram@,
                    PROGRAM_START_ADDRESS + self.read_program_length,
                    RAM_SIZE as int,
                ));
            },
        }
        self.devices.keypad.reset();
        self.devices.screen.clear();
    }

    /// Places `program` in memory at the program origin and records its
    /// length. A program that is longer than the space from there on fails
    /// with `SegmentationFault` at the first byte without room.
    pub fn load_program(&mut self, program: &[u8]) -> (r: Result<(), Chip8ErrorKind>)
        ensures
            old(self).wf() ==> final(self).wf(),
            final(self)@ == loaded(old(self)@, program@),
            PROGRAM_START_ADDRESS + program@.len() <= RAM_SIZE ==> r == Ok::<
                (),
                Chip8ErrorKind,
            >(()),
            PROGRAM_START_ADDRESS + program@.len() > RAM_SIZE ==> r == Err::<(), Chip8ErrorKind>(
                Chip8ErrorKind::SegmentationFault,
            ),
    {
        self.read_program_length = program.len();

        self.devices.ram.write_bytes(PROGRAM_START_ADDRESS as u16, program)
    }

    /// Whether a tone should sound now.
    pub fn can_play_sound(&self) -> (r: bool)
        ensures
            r == (self@.cpu.sound_timer > 1),
    {
        self.cpu.sound_timer > 1
    }
}

/// The number of whole ticks in `nanos` nanoseconds.
pub fn ticks_in(nanos: u128) -> (r: u128)
    ensures
        r == whole_ticks(nanos as nat),
{
    let seconds = nanos / NANOS_PER_SECOND;
    let rest = nanos % NANOS_PER_SECOND;
    assert(nanos * 60 == seconds * 60 * 1_000_000_000 + rest * 60);
    assert((seconds * 60 * 1_000_000_000 + rest * 60) / 1_000_000_000 == seconds * 60 + (rest
        * 60) / 1_000_000_000);
    seconds * TICKS_PER_SECOND + rest * TICKS_PER_SECOND / NANOS_PER_SECOND
}

impl Chip8 {
    /// Hands the picture to `framebuffer` if it changed since it was last
    /// handed over, and marks it as handed over: the frame buffer then holds
    /// the picture. Without a change the frame buffer is left alone.
    pub fn update_framebuffer<F: FrameBuffer>(&mut self, framebuffer: &mut F)
        ensures
            old(self).wf() ==> final(self).wf(),
            final(self)@ == (MachineView {
                dev: DevicesView {
                    screen: ScreenView { updated: false, ..old(self)@.dev.screen },
                    ..old(self)@.dev
                },
                ..old(self)@
            }),
            old(self)@.dev.screen.updated ==> final(framebuffer).shown() == old(
                self,
            )@.dev.screen.pixels,
            !old(self)@.dev.screen.updated ==> *final(framebuffer) == *old(framebuffer),
    {
        if self.devices.screen.is_updated() {
            framebuffer.update(&self.devices.screen);
            self.devices.screen.mark_consumed();
        }
    }

    /// Whether the machine can advance: the instruction at the program
    /// counter is not a key test on a register that names no key.
    pub fn can_run_instruction(&self) -> (r: bool)
        requires
            self.wf(),
        ensures
            r == runnable(self@),
    {
        proof {
            if can_fetch(self@.cpu) {
                lemma_defined_after_fetch(
                    self@.cpu,
                    self@.dev,
                    next_word(self@.cpu, self@.dev),
                );
            }
        }
        match self.devices.ram.read16(self.cpu.pc) {
            Ok(opcode) => match Instruction::new(opcode).operation() {
                Some(Operation::SkipIfKey { x }) => self.cpu.v[x as usize] < 16,
                Some(Operation::SkipIfNotKey { x }) => self.cpu.v[x as usize] < 16,
                _ => true,
            },
            Err(_) => true,
        }
    }

    /// Advances the machine by one instruction, `elapsed_nanos` nanoseconds
    /// after the timers were last brought up to date and with `rand_byte`
    /// as the byte that chance supplies: see `advanced`.
    pub fn run_instruction_with(&mut self, elapsed_nanos: u128, rand_byte: u8) -> (r: Result<
        (),
        Chip8ErrorKind,
    >)
        requires
            old(self).wf(),
            runnable(old(self)@),
        ensures
            final(self).wf(),
            (final(self)@, r) == advanced(old(self)@, elapsed_nanos as nat, rand_byte),
    {
        self.catch_up(ticks_in(elapsed_nanos));
        proof {
            lemma_runnable_ticked(old(self)@, whole_ticks(elapsed_nanos as nat));
        }
        self.cpu.clock_with(&mut self.devices, rand_byte)
    }

    /// Lets `ticks` sixtieths of a second pass for the timers.
    fn catch_up(&mut self, ticks: u128)
        requires
            old(self).wf(),
        ensures
            final(self).wf(),
            final(self)@ == (MachineView {
                cpu: old(self)@.cpu.ticked_by(ticks as nat),
                ..old(self)@
            }),
    {
        let mut done: u128 = 0;
        while done < ticks && done < 255
            invariant
                done <= ticks,
                done <= 255,
                self.wf(),
                self@ == (MachineView {
                    cpu: old(self)@.cpu.ticked_by(done as nat),
                    ..old(self)@
                }),
            decreases 255 - done,
        {
            self.cpu.update_timers();
            done += 1;
        }
        proof {
            if ticks >= 255 {
                law_ticks_saturate(old(self)@.cpu, ticks as nat);
            }
        }
    }

    /// Advances the machine by one instruction. The timers first catch up
    /// with the time that has passed since they last did, by whole ticks;
    /// then the processor runs one cycle. An error leaves the machine as the
    /// failing instruction left it.
    pub fn run_instruction(&mut self) -> (r: Result<(), Chip8ErrorKind>)
        requires
            old(self).wf(),
            runnable(old(self)@),
        ensures
            final(self).wf(),
            exists|nanos: nat, rand_byte: u8|
                (final(self)@, r) == #[trigger] advanced(old(self)@, nanos, rand_byte),
    {
        let nanos = self.clock_update_timer.elapsed().as_nanos();
        let ticks = ticks_in(nanos);
        self.catch_up(ticks);
        if ticks > 0 {
            self.clock_update_timer.restart();
        }
        let ghost mid = self@;
        proof {
            lemma_runnable_ticked(old(self)@, whole_ticks(nanos as nat));
        }
        let r = self.cpu.clock(&mut self.devices);
        proof {
            let b = choose|b: u8|
                outcome(self.cpu, self.devices, r) == #[trigger] cycle(mid.cpu, mid.dev, b);
            assert((self@, r) == advanced(old(self)@, nanos as nat, b));
        }
        r
    }
}

} // verus!
