//! The processor: registers, call stack and timers, and the cycle of
//! fetching an instruction and executing it.

use crate::chip8::Devices;
use crate::chip8_errors::Chip8ErrorKind;
use crate::instruction::{instruction_of, lemma_instruction_of, Instruction, Operation};
use crate::keypad::Key;
use crate::semantics::{
    can_fetch, cycle, cycle_defined, execute_word, fetched, next_word, outcome, word_defined,
};
use crate::PROGRAM_START_ADDRESS;
use vstd::prelude::*;

verus! {


/// Number of return addresses that the call stack can hold.
pub const STACK_SIZE: usize = 16;

/// The call stack: `sp` frames are live, the oldest first.
pub struct Stack {
    pub sp: u8,
    pub stack: [u16; 16],
}

impl View for Stack {
    type V = Seq<u16>;

    /// The live return addresses, the oldest first.
    open spec fn view(&self) -> Seq<u16> {
        self.stack@.take(self.sp as int)
    }
}

impl Stack {
    /// The stack pointer stays within the stack.
    pub open spec fn wf(&self) -> bool {
        self.sp <= STACK_SIZE
    }

    /// An empty stack: no frame is live and every slot holds zero.
    pub fn new() -> (r: Stack)
        ensures
            r.wf(),
            r@ == Seq::<u16>::empty(),
            r.sp == 0,
            r.stack@ == Seq::new(STACK_SIZE as nat, |k: int| 0u16),
    {
        let r = Stack { sp: 0, stack: [0;16] };
        assert(r.stack@ =~= Seq::new(STACK_SIZE as nat, |k: int| 0u16));
        r
    }

    /// Puts `value` on top, unless sixteen frames are live.
    pub fn push(&mut self, value: u16) -> (r: Result<(), Chip8ErrorKind>)
        requires
            old(self).wf(),
        ensures
            final(self).wf(),
            old(self)@.len() < STACK_SIZE ==> r == Ok::<(), Chip8ErrorKind>(()) && final(self)@
                == old(self)@.push(value),
            old(self)@.len() >= STACK_SIZE ==> r == Err::<(), Chip8ErrorKind>(
                Chip8ErrorKind::StackOverflow,
            ) && *final(self) == *old(self),
    {
        if self.sp >= 16 {
            return Err(Chip8ErrorKind::StackOverflow);
        }
        self.stack[self.sp as usize] = value;
        self.sp += 1;
        assert(self@ =~= old(self)@.push(value));

        Ok(())
    }

    /// Takes the top frame off, unless none is live.
    pub fn pop(&mut self) -> (r: Result<u16, Chip8ErrorKind>)
        requires
            old(self).wf(),
        ensures
            final(self).wf(),
            old(self)@.len() > 0 ==> r == Ok::<u16, Chip8ErrorKind>(old(self)@.last())
                && final(self)@ == old(self)@.drop_last(),
            old(self)@.len() == 0 ==> r == Err::<u16, Chip8ErrorKind>(Chip8ErrorKind::EmptyStack)
                && *final(self) == *old(self),
    {
        if self.sp == 0 {
            return Err(Chip8ErrorKind::EmptyStack)
        }
        self.sp -= 1;
        assert(self@ =~= old(self)@.drop_last());
        Ok(self.stack[self.sp as usize])
    }

    /// Drops every frame.
    pub fn reset(&mut self)
        ensures
            final(self).wf(),
            final(self)@ == Seq::<u16>::empty(),
    {
        self.sp = 0;
        self.stack = [0;16];
    }
}

/// The processor.
pub struct CPU {
    /// The general registers `V0` to `VF`; `VF` doubles as the flag.
    pub v: [u8; 16],
    /// The index register.
    pub i: u16,
    /// The program counter.
    pub pc: u16,
    pub stack: Stack,
    pub sound_timer: u8,
    pub delay_timer: u8,
    /// The key that a pending key wait has seen held down.
    pub key_pressed: Option<Key>,
}

/// The state of the processor.
pub struct CpuView {
    pub v: Seq<u8>,
    pub i: u16,
    pub pc: u16,
    /// The live return addresses, the oldest first.
    pub stack: Seq<u16>,
    pub sound_timer: u8,
    pub delay_timer: u8,
    pub key_pressed: Option<Key>,
}

impl View for CPU {
    type V = CpuView;

    open spec fn view(&self) -> CpuView {
        CpuView {
            v: self.v@,
            i: self.i,
            pc: self.pc,
            stack: self.stack@,
            sound_timer: self.sound_timer,
            delay_timer: self.delay_timer,
            key_pressed: self.key_pressed,
        }
    }
}

/// The low eight bits of `n`.
pub open spec fn wrap8(n: int) -> u8 {
    (n % 256) as u8
}

/// The low sixteen bits of `n`.
pub open spec fn wrap16(n: int) -> u16 {
    (n % 65536) as u16
}

/// A condition as the flag register holds it.
pub open spec fn flag_of(b: bool) -> u8 {
    if b {
        1
    } else {
        0
    }
}

/// The state in which a processor starts.
pub open spec fn initial_cpu() -> CpuView {
    CpuView {
        v: Seq::new(16, |k: int| 0u8),
        i: 0,
        pc: PROGRAM_START_ADDRESS as u16,
        stack: Seq::empty(),
        sound_timer: 1,
        delay_timer: 0,
        key_pressed: None,
    }
}

impl CpuView {
    /// Sixteen registers and at most sixteen frames.
    pub open spec fn wf(self) -> bool {
        self.v.len() == 16 && self.stack.len() <= STACK_SIZE
    }

    /// The state with register `x` holding `value`.
    pub open spec fn with_reg(self, x: u8, value: u8) -> CpuView {
        CpuView { v: self.v.update(x as int, value), ..self }
    }

    /// The state with the flag register holding `value`.
    pub open spec fn with_flag(self, value: u8) -> CpuView {
        self.with_reg(0xF, value)
    }

    /// The state after register `x` took `value` and then the flag register
    /// took `flag`: where `x` is the flag register, the flag is what stays.
    pub open spec fn computed(self, x: u8, value: u8, flag: u8) -> CpuView {
        self.with_reg(x, value).with_flag(flag)
    }

    /// The state with the program counter at `pc`.
    pub open spec fn at(self, pc: u16) -> CpuView {
        CpuView { pc, ..self }
    }

    /// The state with the index register holding `i`.
    pub open spec fn with_index(self, i: u16) -> CpuView {
        CpuView { i, ..self }
    }

    /// The state after the next instruction is passed over, if `cond` holds.
    pub open spec fn skipped(self, cond: bool) -> CpuView {
        if cond {
            self.at((self.pc + 2) as u16)
        } else {
            self
        }
    }

    /// The state after one sixtieth of a second: the delay timer goes down
    /// towards zero, the sound timer towards one.
    pub open spec fn ticked(self) -> CpuView {
        CpuView {
            sound_timer: if self.sound_timer > 1 {
                (self.sound_timer - 1) as u8
            } else {
                self.sound_timer
            },
            delay_timer: if self.delay_timer > 0 {
                (self.delay_timer - 1) as u8
            } else {
                self.delay_timer
            },
            ..self
        }
    }

    /// The state after `n` sixtieths of a second.
    pub open spec fn ticked_by(self, n: nat) -> CpuView {
        CpuView {
            sound_timer: if self.sound_timer <= 1 {
                self.sound_timer
            } else if self.sound_timer - n >= 1 {
                (self.sound_timer - n) as u8
            } else {
                1
            },
            delay_timer: if self.delay_timer - n >= 0 {
                (self.delay_timer - n) as u8
            } else {
                0
            },
            ..self
        }
    }

    /// The state after `n` single ticks, one after another.
    pub open spec fn ticked_times(self, n: nat) -> CpuView
        decreases n,
    {
        if n == 0 {
            self
        } else {
            self.ticked_times((n - 1) as nat).ticked()
        }
    }
}

/// Ticking `n` times one by one is ticking by `n` at once.
pub proof fn law_ticks(c: CpuView, n: nat)
    ensures
        c.ticked_times(n) == c.ticked_by(n),
    decreases n,
{
    if n > 0 {
        law_ticks(c, (n - 1) as nat);
    }
}

/// Once both timers rest, more ticks change nothing: 255 ticks are as
/// good as any larger number.
pub proof fn law_ticks_saturate(c: CpuView, n: nat)
    requires
        n >= 255,
    ensures
        c.ticked_by(n) == c.ticked_by(255),
{
}

impl CPU {
    /// The stack pointer stays within the stack.
    pub open spec fn wf(&self) -> bool {
        self.stack.wf()
    }

    pub fn new() -> (r: CPU)
        ensures
            r.wf(),
            r@ == initial_cpu(),
    {
        let r = Self {
            v: [0;16],
            i: 0,
            pc: PROGRAM_START_ADDRESS as u16,
            stack: Stack::new(),
            sound_timer: 0x1,
            delay_timer: 0x0,
            key_pressed: None,
        };
        assert(r@.v =~= initial_cpu().v);
        r
    }

    /// Puts the processor back to the state in which it starts.
    pub fn reset(&mut self)
        ensures
            final(self).wf(),
            final(self)@ == initial_cpu(),
    {
        self.v = [0;16];
        self.i = 0;
        self.pc = PROGRAM_START_ADDRESS as u16;
        self.stack.reset();
        self.sound_timer = 0x1;
        self.delay_timer = 0x0;
        self.key_pressed = None;
        assert(self@.v =~= initial_cpu().v);
    }

    /// Lets one sixtieth of a second pass.
    pub fn update_timers(&mut self)
        ensures
            final(self)@ == old(self)@.ticked(),
            final(self).stack == old(self).stack,
    {
        if self.sound_timer > 1 {
            self.sound_timer -= 1;
        }
        if self.delay_timer > 0 {
            self.delay_timer -= 1;
        }
    }

    /// Reads the instruction at the program counter and moves the program
    /// counter past it. Where the instruction does not lie in memory, nothing
    /// changes.
    pub fn fetch(&mut self, devices: &Devices) -> (r: Result<Instruction, Chip8ErrorKind>)
        requires
            old(self).wf(),
        ensures
            final(self).wf(),
            can_fetch(old(self)@) ==> r == Ok::<Instruction, Chip8ErrorKind>(
                instruction_of(next_word(old(self)@, devices@)),
            ) && final(self)@ == fetched(old(self)@),
            !can_fetch(old(self)@) ==> r == Err::<Instruction, Chip8ErrorKind>(
                Chip8ErrorKind::SegmentationFault,
            ) && final(self)@ == old(self)@,
    {
        let opcode = devices.ram.read16(self.pc)?;
        self.pc += 2;

        Ok(Instruction::new(opcode))
    }

    /// Executes `instruction`, with `rand_byte` as the byte that chance
    /// supplies.
    pub fn execute_with(
        &mut self,
        instruction: &Instruction,
        devices: &mut Devices,
        rand_byte: u8,
    ) -> (r: Result<(), Chip8ErrorKind>)
        requires
            old(self).wf(),
            word_defined(old(self)@, old(devices)@, instruction@),
        ensures
            final(self).wf(),
            outcome(*final(self), *final(devices), r) == execute_word(
                old(self)@,
                old(devices)@,
                instruction@,
                rand_byte,
            ),
    {
        proof {
            reveal(execute_word);
            reveal(word_defined);
        }
        match instruction.operation() {
            Some(Operation::ClearScreen) => self.instr_00e0(devices),
            Some(Operation::Return) => self.instr_00ee(),
            Some(Operation::Sys { nnn }) => self.instr_0nnn(nnn),
            Some(Operation::Jump { nnn }) => self.instr_1nnn(nnn),
            Some(Operation::Call { nnn }) => self.instr_2nnn(nnn),
            Some(Operation::SkipEqImm { x, nn }) => self.instr_3xnn(x, nn),
            Some(Operation::SkipNeImm { x, nn }) => self.instr_4xnn(x, nn),
            Some(Operation::SkipEqReg { x, y }) => self.instr_5xy0(x, y),
            Some(Operation::LoadImm { x, nn }) => self.instr_6xnn(x, nn),
            Some(Operation::AddImm { x, nn }) => self.instr_7xnn(x, nn),
            Some(Operation::Move { x, y }) => self.instr_8xy0(x, y),
            Some(Operation::Or { x, y }) => self.instr_8xy1(x, y),
            Some(Operation::And { x, y }) => self.instr_8xy2(x, y),
            Some(Operation::Xor { x, y }) => self.instr_8xy3(x, y),
            Some(Operation::Add { x, y }) => self.instr_8xy4(x, y),
            Some(Operation::Sub { x, y }) => self.instr_8xy5(x, y),
            Some(Operation::Shr { x, y }) => self.instr_8xy6(x, y),
            Some(Operation::SubN { x, y }) => self.instr_8xy7(x, y),
            Some(Operation::Shl { x, y }) => self.instr_8xye(x, y),
            Some(Operation::SkipNeReg { x, y }) => self.instr_9xy0(x, y),
            Some(Operation::SetIndex { nnn }) => self.instr_annn(nnn),
            Some(Operation::JumpOffset { nnn }) => self.instr_bnnn(nnn),
            Some(Operation::Random { x, nn }) => self.instr_cxnn_with(x, nn, rand_byte),
            Some(Operation::Draw { x, y, n }) => self.instr_dxyn(x, y, n, devices),
            Some(Operation::SkipIfKey { x }) => self.instr_ex9e(x, devices),
            Some(Operation::SkipIfNotKey { x }) => self.instr_exa1(x, devices),
            Some(Operation::LoadDelay { x }) => self.instr_fx07(x),
            Some(Operation::WaitKey { x }) => self.instr_fx0a(x, devices),
            Some(Operation::SetDelay { x }) => self.instr_fx15(x),
            Some(Operation::SetSound { x }) => self.instr_fx18(x),
            Some(Operation::AddIndex { x }) => self.instr_fx1e(x),
            Some(Operation::LoadFontAddr { x }) => self.instr_fx29(x),
            Some(Operation::StoreBcd { x }) => self.instr_fx33(x, devices),
            Some(Operation::StoreRegs { x }) => self.instr_fx55(x, devices),
            Some(Operation::LoadRegs { x }) => self.instr_fx65(x, devices),
            None => Err(Chip8ErrorKind::UnknownInstruction(Instruction::new(instruction.opcode()))),
        }
    }

    /// Executes `instruction`. Chance enters only where the instruction asks
    /// for a random byte.
    pub fn execute(&mut self, instruction: &Instruction, devices: &mut Devices) -> (r: Result<
        (),
        Chip8ErrorKind,
    >)
        requires
            old(self).wf(),
            word_defined(old(self)@, old(devices)@, instruction@),
        ensures
            final(self).wf(),
            exists|rand_byte: u8|
                outcome(*final(self), *final(devices), r) == #[trigger] execute_word(
                    old(self)@,
                    old(devices)@,
                    instruction@,
                    rand_byte,
                ),
    {
        match instruction.operation() {
            Some(Operation::Random { x, nn }) => {
                proof {
                    reveal(word_defined);
                }
                let r = self.instr_cxnn(x, nn);
                proof {
                    reveal(execute_word);
                    let b = choose|b: u8| self@ == #[trigger] old(self)@.with_reg(x, b & nn);
                    assert(outcome(*self, *devices, r) == execute_word(
                        old(self)@,
                        old(devices)@,
                        instruction@,
                        b,
                    ));
                }
                r
            },
            _ => {
                let r = self.execute_with(instruction, devices, 0);
                assert(outcome(*self, *devices, r) == execute_word(
                    old(self)@,
                    old(devices)@,
                    instruction@,
                    0,
                ));
                r
            },
        }
    }

    /// Runs one cycle, with `rand_byte` as the byte that chance supplies:
    /// see `cycle`.
    pub fn clock_with(&mut self, devices: &mut Devices, rand_byte: u8) -> (r: Result<
        (),
        Chip8ErrorKind,
    >)
        requires
            old(self).wf(),
            cycle_defined(old(self)@, old(devices)@),
        ensures
            final(self).wf(),
            outcome(*final(self), *final(devices), r) == cycle(
                old(self)@,
                old(devices)@,
                rand_byte,
            ),
    {
        let instruction = self.fetch(devices)?;
        proof {
            lemma_instruction_of(instruction, next_word(old(self)@, old(devices)@));
        }

        self.execute_with(&instruction, devices, rand_byte)
    }

    /// Runs one cycle: fetch, then execute.
    pub fn clock(&mut self, devices: &mut Devices) -> (r: Result<(), Chip8ErrorKind>)
        requires
            old(self).wf(),
            cycle_defined(old(self)@, old(devices)@),
        ensures
            final(self).wf(),
            exists|rand_byte: u8|
                outcome(*final(self), *final(devices), r) == #[trigger] cycle(
                    old(self)@,
                    old(devices)@,
                    rand_byte,
                ),
    {
        let ghost start = self@;
        match self.fetch(devices) {
            Ok(instruction) => {
                let ghost mid = self@;
                proof {
                    lemma_instruction_of(instruction, next_word(start, old(devices)@));
                }
                let r = self.execute(&instruction, devices);
                proof {
                    let b = choose|b: u8|
                        outcome(*self, *devices, r) == #[trigger] execute_word(
                            mid,
                            old(devices)@,
                            instruction@,
                            b,
                        );
                    assert(outcome(*self, *devices, r) == cycle(start, old(devices)@, b));
                }
                r
            },
            Err(e) => {
                assert(outcome(*self, *devices, Err(e)) == cycle(start, old(devices)@, 0));
                Err(e)
            },
        }
    }
}

} // verus!
