//! The operations of the processor, one function each, but for drawing.

use crate::chip8::{Devices, DevicesView};
use crate::chip8_errors::Chip8ErrorKind;
use crate::cpu::{flag_of, wrap16, wrap8, CpuView, CPU, STACK_SIZE};
use crate::instruction::Operation;
use crate::keypad::Key;
use crate::memory::{inside, stored, RAM_SIZE};
use crate::semantics::{
    can_skip, execute_op, key_down, loaded, loaded_regs, outcome, stored_bcd, stored_regs,
    wait_ends, waited,
};
use crate::FONT_START_ADDRESS;
use vstd::prelude::*;

verus! {

/// Draws one byte from the thread's random generator, by `rand::random`.
/// Nothing is promised of the byte.
#[verifier::external_body]
fn random_byte() -> (r: u8) {
    rand::random::<u8>()
}

impl CPU {
    /// A call into the host machine: nothing happens.
    pub fn instr_0nnn(&mut self, _nnn: u16) -> (r: Result<(), Chip8ErrorKind>)
        requires
            old(self).wf(),
        ensures
            final(self).wf(),
            final(self)@ == old(self)@,
            r == Ok::<(), Chip8ErrorKind>(()),
    {
        Ok(())
    }

    /// Clears the screen.
    pub fn instr_00e0(&mut self, devices: &mut Devices) -> (r: Result<(), Chip8ErrorKind>)
        requires
            old(self).wf(),
        ensures
            final(self).wf(),
            outcome(*final(self), *final(devices), r) == execute_op(
                old(self)@,
                old(devices)@,
                Operation::ClearScreen,
                0,
            ),
    {
        devices.screen.clear();

        Ok(())
    }

    /// Return: the program counter becomes the top frame, which leaves the
    /// stack. Fails with `EmptyStack` where no frame is live.
    pub fn instr_00ee(&mut self) -> (r: Result<(), Chip8ErrorKind>)
        requires
            old(self).wf(),
        ensures
            final(self).wf(),
            old(self)@.stack.len() > 0 ==> r == Ok::<(), Chip8ErrorKind>(()) && final(self)@ == (
            CpuView {
                pc: old(self)@.stack.last(),
                stack: old(self)@.stack.drop_last(),
                ..old(self)@
            }),
            old(self)@.stack.len() == 0 ==> r == Err::<(), Chip8ErrorKind>(
                Chip8ErrorKind::EmptyStack,
            ) && final(self)@ == old(self)@,
    {
        match self.stack.pop() {
            Ok(pc) => {
                self.pc = pc;
                Ok(())
            },
            Err(e) => Err(e),
        }
    }

    /// Jump: the program counter becomes `nnn`.
    pub fn instr_1nnn(&mut self, nnn: u16) -> (r: Result<(), Chip8ErrorKind>)
        requires
            old(self).wf(),
        ensures
            final(self).wf(),
            final(self)@ == old(self)@.at(nnn),
            r == Ok::<(), Chip8ErrorKind>(()),
    {
        self.pc = nnn;
        Ok(())
    }

    /// Call: the program counter goes on the stack and becomes `nnn`. Fails
    /// with `StackOverflow` where sixteen frames are live.
    pub fn instr_2nnn(&mut self, nnn: u16) -> (r: Result<(), Chip8ErrorKind>)
        requires
            old(self).wf(),
        ensures
            final(self).wf(),
            old(self)@.stack.len() < STACK_SIZE ==> r == Ok::<(), Chip8ErrorKind>(())
                && final(self)@ == (CpuView {
                pc: nnn,
                stack: old(self)@.stack.push(old(self)@.pc),
                ..old(self)@
            }),
            old(self)@.stack.len() >= STACK_SIZE ==> r == Err::<(), Chip8ErrorKind>(
                Chip8ErrorKind::StackOverflow,
            ) && final(self)@ == old(self)@,
    {
        match self.stack.push(self.pc) {
            Ok(()) => {
                self.pc = nnn;
                Ok(())
            },
            Err(e) => Err(e),
        }
    }

    /// Skips the next instruction if `Vx` equals `nn`.
    pub fn instr_3xnn(&mut self, x: u8, nn: u8) -> (r: Result<(), Chip8ErrorKind>)
        requires
            old(self).wf(),
            x < 16,
            can_skip(old(self)@, old(self)@.v[x as int] == nn),
        ensures
            final(self).wf(),
            final(self)@ == old(self)@.skipped(old(self)@.v[x as int] == nn),
            r == Ok::<(), Chip8ErrorKind>(()),
    {
        let vx = self.v[x as usize];
        if vx == nn {
            self.pc += 2;
        }
        Ok(())
    }

    /// Skips the next instruction if `Vx` differs from `nn`.
    pub fn instr_4xnn(&mut self, x: u8, nn: u8) -> (r: Result<(), Chip8ErrorKind>)
        requires
            old(self).wf(),
            x < 16,
            can_skip(old(self)@, old(self)@.v[x as int] != nn),
        ensures
            final(self).wf(),
            final(self)@ == old(self)@.skipped(old(self)@.v[x as int] != nn),
            r == Ok::<(), Chip8ErrorKind>(()),
    {
        let vx = self.v[x as usize];
        if vx != nn {
            self.pc += 2;
        }
        Ok(())
    }

    /// Skips the next instruction if `Vx` equals `Vy`.
    pub fn instr_5xy0(&mut self, x: u8, y: u8) -> (r: Result<(), Chip8ErrorKind>)
        requires
            old(self).wf(),
            x < 16,
            y < 16,
            can_skip(old(self)@, old(self)@.v[x as int] == old(self)@.v[y as int]),
        ensures
            final(self).wf(),
            final(self)@ == old(self)@.skipped(old(self)@.v[x as int] == old(self)@.v[y as int]),
            r == Ok::<(), Chip8ErrorKind>(()),
    {
        let vx = self.v[x as usize];
        let vy = self.v[y as usize];
        if vx == vy {
            self.pc += 2;
        }
        Ok(())
    }

    /// `Vx` becomes `nn`.
    pub fn instr_6xnn(&mut self, x: u8, nn: u8) -> (r: Result<(), Chip8ErrorKind>)
        requires
            old(self).wf(),
            x < 16,
        ensures
            final(self).wf(),
            final(self)@ == old(self)@.with_reg(x, nn),
            r == Ok::<(), Chip8ErrorKind>(()),
    {
        self.v[x as usize] = nn;
        Ok(())
    }

    /// `Vx` becomes `Vx + nn` modulo 256; the flag register is left alone.
    pub fn instr_7xnn(&mut self, x: u8, nn: u8) -> (r: Result<(), Chip8ErrorKind>)
        requires
            old(self).wf(),
            x < 16,
        ensures
            final(self).wf(),
            final(self)@ == old(self)@.with_reg(x, wrap8(old(self)@.v[x as int] + nn)),
            r == Ok::<(), Chip8ErrorKind>(()),
    {
        let vx = self.v[x as usize];
        self.v[x as usize] = vx.wrapping_add(nn);
        Ok(())
    }

    /// `Vx` becomes `Vy`.
    pub fn instr_8xy0(&mut self, x: u8, y: u8) -> (r: Result<(), Chip8ErrorKind>)
        requires
            old(self).wf(),
            x < 16,
            y < 16,
        ensures
            final(self).wf(),
            final(self)@ == old(self)@.with_reg(x, old(self)@.v[y as int]),
            r == Ok::<(), Chip8ErrorKind>(()),
    {
        self.v[x as usize] = self.v[y as usize];
        Ok(())
    }

    /// `Vx` becomes the bitwise or of `Vx` and `Vy`, and the flag register 0.
    pub fn instr_8xy1(&mut self, x: u8, y: u8) -> (r: Result<(), Chip8ErrorKind>)
        requires
            old(self).wf(),
            x < 16,
            y < 16,
        ensures
            final(self).wf(),
            final(self)@ == old(self)@.computed(
                x,
                old(self)@.v[x as int] | old(self)@.v[y as int],
                0,
            ),
            r == Ok::<(), Chip8ErrorKind>(()),
    {
        let vx = self.v[x as usize];
        let vy = self.v[y as usize];
        self.v[x as usize] = vx | vy;
        self.v[0xF] = 0;
        Ok(())
    }

    /// `Vx` becomes the bitwise and of `Vx` and `Vy`, and the flag register 0.
    pub fn instr_8xy2(&mut self, x: u8, y: u8) -> (r: Result<(), Chip8ErrorKind>)
        requires
            old(self).wf(),
            x < 16,
            y < 16,
        ensures
            final(self).wf(),
            final(self)@ == old(self)@.computed(
                x,
                old(self)@.v[x as int] & old(self)@.v[y as int],
                0,
            ),
            r == Ok::<(), Chip8ErrorKind>(()),
    {
        let vx = self.v[x as usize];
        let vy = self.v[y as usize];
        self.v[x as usize] = vx & vy;
        self.v[0xF] = 0;
        Ok(())
    }

    /// `Vx` becomes the bitwise exclusive or of `Vx` and `Vy`, and the flag register 0.
    pub fn instr_8xy3(&mut self, x: u8, y: u8) -> (r: Result<(), Chip8ErrorKind>)
        requires
            old(self).wf(),
            x < 16,
            y < 16,
        ensures
            final(self).wf(),
            final(self)@ == old(self)@.computed(
                x,
                old(self)@.v[x as int] ^ old(self)@.v[y as int],
                0,
            ),
            r == Ok::<(), Chip8ErrorKind>(()),
    {
        let vx = self.v[x as usize];
        let vy = self.v[y as usize];
        self.v[x as usize] = vx ^ vy;
        self.v[0xF] = 0;
        Ok(())
    }

    /// `Vx` becomes `Vx + Vy` modulo 256, and the flag register 1 if the sum
    /// passed 255, else 0.
    pub fn instr_8xy4(&mut self, x: u8, y: u8) -> (r: Result<(), Chip8ErrorKind>)
        requires
            old(self).wf(),
            x < 16,
            y < 16,
        ensures
            final(self).wf(),
            final(self)@ == old(self)@.computed(
                x,
                wrap8(old(self)@.v[x as int] + old(self)@.v[y as int]),
                flag_of(old(self)@.v[x as int] + old(self)@.v[y as int] > 255),
            ),
            r == Ok::<(), Chip8ErrorKind>(()),
    {
        let vx = self.v[x as usize];
        let vy = self.v[y as usize];
        let overflow = vx as u16 + vy as u16 > 255;
        self.v[x as usize] = vx.wrapping_add(vy);
        self.v[0xF] = if overflow {
            1
        } else {
            0
        };
        Ok(())
    }

    /// `Vx` becomes `Vx - Vy` modulo 256, and the flag register 1 if `Vx` was
    /// greater than `Vy`, else 0.
    pub fn instr_8xy5(&mut self, x: u8, y: u8) -> (r: Result<(), Chip8ErrorKind>)
        requires
            old(self).wf(),
            x < 16,
            y < 16,
        ensures
            final(self).wf(),
            final(self)@ == old(self)@.computed(
                x,
                wrap8(old(self)@.v[x as int] - old(self)@.v[y as int]),
                flag_of(old(self)@.v[x as int] > old(self)@.v[y as int]),
            ),
            r == Ok::<(), Chip8ErrorKind>(()),
    {
        let vx = self.v[x as usize];
        let vy = self.v[y as usize];

        let not_borrow = vx > vy;
        self.v[x as usize] = vx.wrapping_sub(vy);
        self.v[0xF] = if not_borrow {
            1
        } else {
            0
        };
        Ok(())
    }

    /// `Vx` becomes `Vy` shifted right by one, and the flag register the bit
    /// that fell out.
    pub fn instr_8xy6(&mut self, x: u8, y: u8) -> (r: Result<(), Chip8ErrorKind>)
        requires
            old(self).wf(),
            x < 16,
            y < 16,
        ensures
            final(self).wf(),
            final(self)@ == old(self)@.computed(
                x,
                old(self)@.v[y as int] / 2,
                old(self)@.v[y as int] % 2,
            ),
            r == Ok::<(), Chip8ErrorKind>(()),
    {
        let vy = self.v[y as usize];
        assert(vy & 0x1 == vy % 2 && vy >> 1u8 == vy / 2) by (bit_vector);
        let bit = vy & 0x1;
        self.v[x as usize] = vy >> 1u8;
        self.v[0xF] = bit;
        Ok(())
    }

    /// `Vx` becomes `Vy - Vx` modulo 256, and the flag register 1 if `Vy` was
    /// greater than `Vx`, else 0.
    pub fn instr_8xy7(&mut self, x: u8, y: u8) -> (r: Result<(), Chip8ErrorKind>)
        requires
            old(self).wf(),
            x < 16,
            y < 16,
        ensures
            final(self).wf(),
            final(self)@ == old(self)@.computed(
                x,
                wrap8(old(self)@.v[y as int] - old(self)@.v[x as int]),
                flag_of(old(self)@.v[x as int] < old(self)@.v[y as int]),
            ),
            r == Ok::<(), Chip8ErrorKind>(()),
    {
        let vx = self.v[x as usize];
        let vy = self.v[y as usize];

        let not_borrow = vx < vy;
        self.v[x as usize] = vy.wrapping_sub(vx);
        self.v[0xF] = if not_borrow {
            1
        } else {
            0
        };
        Ok(())
    }

    /// `Vx` becomes `Vy` shifted left by one, and the flag register the bit
    /// that fell out.
    pub fn instr_8xye(&mut self, x: u8, y: u8) -> (r: Result<(), Chip8ErrorKind>)
        requires
            old(self).wf(),
            x < 16,
            y < 16,
        ensures
            final(self).wf(),
            final(self)@ == old(self)@.computed(
                x,
                wrap8(old(self)@.v[y as int] * 2),
                old(self)@.v[y as int] / 128,
            ),
            r == Ok::<(), Chip8ErrorKind>(()),
    {
        let vy = self.v[y as usize];
        assert((vy & 0x80) >> 7u8 == vy / 128 && vy << 1u8 == (vy * 2) % 256) by (bit_vector);
        let bit = (vy & 0x80) >> 7u8;
        self.v[x as usize] = vy << 1u8;
        self.v[0xF] = bit;
        Ok(())
    }

    /// Skips the next instruction if `Vx` differs from `Vy`.
    pub fn instr_9xy0(&mut self, x: u8, y: u8) -> (r: Result<(), Chip8ErrorKind>)
        requires
            old(self).wf(),
            x < 16,
            y < 16,
            can_skip(old(self)@, old(self)@.v[x as int] != old(self)@.v[y as int]),
        ensures
            final(self).wf(),
            final(self)@ == old(self)@.skipped(old(self)@.v[x as int] != old(self)@.v[y as int]),
            r == Ok::<(), Chip8ErrorKind>(()),
    {
        let vx = self.v[x as usize];
        let vy = self.v[y as usize];
        if vx != vy {
            self.pc += 2;
        }
        Ok(())
    }

    /// The index register becomes `nnn`.
    pub fn instr_annn(&mut self, nnn: u16) -> (r: Result<(), Chip8ErrorKind>)
        requires
            old(self).wf(),
        ensures
            final(self).wf(),
            final(self)@ == old(self)@.with_index(nnn),
            r == Ok::<(), Chip8ErrorKind>(()),
    {
        self.i = nnn;
        Ok(())
    }

    /// Jump with offset: the program counter becomes `nnn + V0`.
    pub fn instr_bnnn(&mut self, nnn: u16) -> (r: Result<(), Chip8ErrorKind>)
        requires
            old(self).wf(),
            nnn + old(self)@.v[0] <= u16::MAX,
        ensures
            final(self).wf(),
            final(self)@ == old(self)@.at((nnn + old(self)@.v[0]) as u16),
            r == Ok::<(), Chip8ErrorKind>(()),
    {
        self.pc = nnn + self.v[0x0] as u16;
        Ok(())
    }

    /// `Vx` becomes a random byte masked by `nn`.
    pub fn instr_cxnn(&mut self, x: u8, nn: u8) -> (r: Result<(), Chip8ErrorKind>)
        requires
            old(self).wf(),
            x < 16,
        ensures
            final(self).wf(),
            exists|rand_byte: u8| final(self)@ == #[trigger] old(self)@.with_reg(x, rand_byte & nn),
            r == Ok::<(), Chip8ErrorKind>(()),
    {
        let rand_byte = random_byte();
        self.instr_cxnn_with(x, nn, rand_byte)
    }

    /// `Vx` becomes `rand_byte` masked by `nn`.
    pub fn instr_cxnn_with(&mut self, x: u8, nn: u8, rand_byte: u8) -> (r: Result<
        (),
        Chip8ErrorKind,
    >)
        requires
            old(self).wf(),
            x < 16,
        ensures
            final(self).wf(),
            final(self)@ == old(self)@.with_reg(x, rand_byte & nn),
            r == Ok::<(), Chip8ErrorKind>(()),
    {
        self.v[x as usize] = rand_byte & nn;
        Ok(())
    }

    /// Skips the next instruction if the key that `Vx` names is held down.
    pub fn instr_ex9e(&mut self, x: u8, devices: &Devices) -> (r: Result<(), Chip8ErrorKind>)
        requires
            old(self).wf(),
            x < 16,
            old(self)@.v[x as int] < 16,
            can_skip(old(self)@, key_down(devices@.keys, old(self)@.v[x as int])),
        ensures
            final(self).wf(),
            final(self)@ == old(self)@.skipped(key_down(devices@.keys, old(self)@.v[x as int])),
            r == Ok::<(), Chip8ErrorKind>(()),
    {
        match Key::try_from(self.v[x as usize]) {
            Ok(key) => {
                proof {
                    Key::lemma_code_key(key, self.v[x as int] as int);
                }
                if devices.keypad.key_pressed(key) {
                    self.pc += 2;
                }
            },
            Err(_) => {},
        }

        Ok(())
    }

    /// Skips the next instruction if the key that `Vx` names is not held down.
    pub fn instr_exa1(&mut self, x: u8, devices: &Devices) -> (r: Result<(), Chip8ErrorKind>)
        requires
            old(self).wf(),
            x < 16,
            old(self)@.v[x as int] < 16,
            can_skip(old(self)@, !key_down(devices@.keys, old(self)@.v[x as int])),
        ensures
            final(self).wf(),
            final(self)@ == old(self)@.skipped(!key_down(devices@.keys, old(self)@.v[x as int])),
            r == Ok::<(), Chip8ErrorKind>(()),
    {
        match Key::try_from(self.v[x as usize]) {
            Ok(key) => {
                proof {
                    Key::lemma_code_key(key, self.v[x as int] as int);
                }
                if !devices.keypad.key_pressed(key) {
                    self.pc += 2;
                }
            },
            Err(_) => {},
        }

        Ok(())
    }

    /// `Vx` becomes the delay timer.
    pub fn instr_fx07(&mut self, x: u8) -> (r: Result<(), Chip8ErrorKind>)
        requires
            old(self).wf(),
            x < 16,
        ensures
            final(self).wf(),
            final(self)@ == old(self)@.with_reg(x, old(self)@.delay_timer),
            r == Ok::<(), Chip8ErrorKind>(()),
    {
        self.v[x as usize] = self.delay_timer;
        Ok(())
    }

    /// Waits for a key: see `waited`.
    pub fn instr_fx0a(&mut self, x: u8, devices: &Devices) -> (r: Result<(), Chip8ErrorKind>)
        requires
            old(self).wf(),
            x < 16,
            !wait_ends(old(self)@, devices@.keys) ==> old(self)@.pc >= 2,
        ensures
            final(self).wf(),
            final(self)@ == waited(old(self)@, devices@.keys, x),
            r == Ok::<(), Chip8ErrorKind>(()),
    {
        let down = devices.keypad.get_key_pressed();
        let ends = match self.key_pressed {
            Some(key) => down.is_none() || devices.keypad.key_pressed(key),
            None => false,
        };
        if ends {
            if let Some(key) = self.key_pressed {
                self.v[x as usize] = key.code();
                self.key_pressed = None;
            }
        } else {
            if let Some(key) = down {
                self.key_pressed = Some(key);
            }
            self.pc -= 2;
        }

        Ok(())
    }

    /// The delay timer becomes `Vx`.
    pub fn instr_fx15(&mut self, x: u8) -> (r: Result<(), Chip8ErrorKind>)
        requires
            old(self).wf(),
            x < 16,
        ensures
            final(self).wf(),
            final(self)@ == (CpuView { delay_timer: old(self)@.v[x as int], ..old(self)@ }),
            r == Ok::<(), Chip8ErrorKind>(()),
    {
        self.delay_timer = self.v[x as usize];
        Ok(())
    }

    /// The sound timer becomes `Vx`.
    pub fn instr_fx18(&mut self, x: u8) -> (r: Result<(), Chip8ErrorKind>)
        requires
            old(self).wf(),
            x < 16,
        ensures
            final(self).wf(),
            final(self)@ == (CpuView { sound_timer: old(self)@.v[x as int], ..old(self)@ }),
            r == Ok::<(), Chip8ErrorKind>(()),
    {
        self.sound_timer = self.v[x as usize];
        Ok(())
    }

    /// The index register becomes `I + Vx` modulo 65536.
    pub fn instr_fx1e(&mut self, x: u8) -> (r: Result<(), Chip8ErrorKind>)
        requires
            old(self).wf(),
            x < 16,
        ensures
            final(self).wf(),
            final(self)@ == old(self)@.with_index(wrap16(old(self)@.i + old(self)@.v[x as int])),
            r == Ok::<(), Chip8ErrorKind>(()),
    {
        self.i = self.i.wrapping_add(self.v[x as usize] as u16);
        Ok(())
    }

    /// The index register becomes the address of the glyph for `Vx`: the
    /// font base plus `Vx * 5` modulo 256.
    pub fn instr_fx29(&mut self, x: u8) -> (r: Result<(), Chip8ErrorKind>)
        requires
            old(self).wf(),
            x < 16,
        ensures
            final(self).wf(),
            final(self)@ == old(self)@.with_index(
                wrap16(FONT_START_ADDRESS + wrap8(old(self)@.v[x as int] * 5)),
            ),
            r == Ok::<(), Chip8ErrorKind>(()),
    {
        self.i = (FONT_START_ADDRESS as u16).wrapping_add(
            self.v[x as usize].wrapping_mul(5) as u16,
        );
        Ok(())
    }

    /// Stores the three decimal digits of `Vx`: see `stored_bcd`.
    pub fn instr_fx33(&mut self, x: u8, devices: &mut Devices) -> (r: Result<(), Chip8ErrorKind>)
        requires
            old(self).wf(),
            x < 16,
        ensures
            final(self).wf(),
            outcome(*final(self), *final(devices), r) == stored_bcd(
                old(self)@,
                old(devices)@,
                x,
            ),
    {
        let vx = self.v[x as usize];
        devices.ram.write8(self.i.wrapping_add(2), vx % 10)?;

        let vx = vx / 10;
        devices.ram.write8(self.i.wrapping_add(1), vx % 10)?;

        let vx = vx / 10;
        devices.ram.write8(self.i, vx)
    }

    /// Stores `V0` to `Vx` in memory: see `stored_regs`.
    pub fn instr_fx55(&mut self, x: u8, devices: &mut Devices) -> (r: Result<(), Chip8ErrorKind>)
        requires
            old(self).wf(),
            x < 16,
        ensures
            final(self).wf(),
            outcome(*final(self), *final(devices), r) == stored_regs(
                old(self)@,
                old(devices)@,
                x,
            ),
    {
        let mut k: u8 = 0;
        proof {
            old(devices).lemma_sizes();
            assert(devices@.ram =~= stored(old(devices)@.ram, self.i as int, self.v@, 0));
        }
        while k <= x
            invariant
                x < 16,
                k <= x + 1,
                self.wf(),
                *self == *old(self),
                k == inside(self.i as int, k as int),
                devices@ == (DevicesView {
                    ram: stored(old(devices)@.ram, self.i as int, self.v@, k as int),
                    ..old(devices)@
                }),
                devices@.ram.len() == RAM_SIZE,
            decreases x + 1 - k,
        {
            devices.ram.write8(self.i.wrapping_add(k as u16), self.v[k as usize])?;
            assert(devices@.ram =~= stored(
                old(devices)@.ram,
                self.i as int,
                self.v@,
                k as int + 1,
            ));
            k += 1;
        }
        self.i = self.i.wrapping_add(x as u16 + 1);
        Ok(())
    }

    /// Loads `V0` to `Vx` from memory: see `loaded_regs`.
    pub fn instr_fx65(&mut self, x: u8, devices: &Devices) -> (r: Result<(), Chip8ErrorKind>)
        requires
            old(self).wf(),
            x < 16,
        ensures
            final(self).wf(),
            outcome(*final(self), *devices, r) == loaded_regs(old(self)@, devices@, x),
    {
        let mut k: u8 = 0;
        proof {
            devices.lemma_sizes();
            assert(self@.v =~= loaded(old(self)@.v, devices@.ram, self.i as int, 0));
        }
        while k <= x
            invariant
                x < 16,
                k <= x + 1,
                self.wf(),
                k == inside(self.i as int, k as int),
                devices@.ram.len() == RAM_SIZE,
                self@ == (CpuView {
                    v: loaded(old(self)@.v, devices@.ram, old(self)@.i as int, k as int),
                    ..old(self)@
                }),
            decreases x + 1 - k,
        {
            match devices.ram.read8(self.i.wrapping_add(k as u16)) {
                Ok(byte) => {
                    self.v[k as usize] = byte;
                },
                Err(e) => {
                    return Err(e);
                },
            }
            assert(self@.v =~= loaded(
                old(self)@.v,
                devices@.ram,
                old(self)@.i as int,
                k as int + 1,
            ));
            k += 1;
        }
        self.i = self.i.wrapping_add(x as u16 + 1);

        Ok(())
    }
}

} // verus!
