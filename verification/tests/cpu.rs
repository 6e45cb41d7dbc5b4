use chip8_core::chip8::Devices;
use chip8_core::chip8_errors::Chip8ErrorKind;
use chip8_core::cpu::{Stack, CPU};
use chip8_core::instruction::Instruction;
use chip8_core::keypad::Key;

fn lit(devices: &Devices) -> Vec<(usize, usize)> {
    let mut out = Vec::new();
    for y in 0..32 {
        for x in 0..64 {
            if devices.screen.is_pixel_set(x, y) {
                out.push((x, y));
            }
        }
    }
    out
}

#[test]
fn new_cpu_state() {
    let cpu = CPU::new();
    assert_eq!(cpu.v, [0; 16]);
    assert_eq!(cpu.i, 0);
    assert_eq!(cpu.pc, 0x200);
    assert_eq!(cpu.stack.sp, 0);
    assert_eq!(cpu.sound_timer, 1);
    assert_eq!(cpu.delay_timer, 0);
    assert_eq!(cpu.key_pressed, None);
}

#[test]
fn reset_restores_the_start() {
    let mut cpu = CPU::new();
    cpu.v = [9; 16];
    cpu.i = 0x123;
    cpu.pc = 0x456;
    cpu.instr_2nnn(0x300).unwrap();
    cpu.sound_timer = 7;
    cpu.delay_timer = 8;
    cpu.key_pressed = Some(Key::A);
    cpu.reset();
    assert_eq!(cpu.v, [0; 16]);
    assert_eq!(cpu.i, 0);
    assert_eq!(cpu.pc, 0x200);
    assert_eq!(cpu.stack.sp, 0);
    assert_eq!(cpu.stack.stack, [0; 16]);
    assert_eq!(cpu.sound_timer, 1);
    assert_eq!(cpu.delay_timer, 0);
    assert_eq!(cpu.key_pressed, None);
}

#[test]
fn new_stack_is_empty_with_zeroed_slots() {
    let stack = Stack::new();
    assert_eq!(stack.sp, 0);
    assert_eq!(stack.stack, [0; 16]);
}

#[test]
fn stack_push_pop_in_order() {
    let mut stack = Stack::new();
    assert_eq!(stack.sp, 0);
    assert_eq!(stack.push(0x111), Ok(()));
    assert_eq!(stack.push(0x222), Ok(()));
    assert_eq!(stack.sp, 2);
    assert_eq!(stack.pop(), Ok(0x222));
    assert_eq!(stack.pop(), Ok(0x111));
    assert_eq!(stack.pop(), Err(Chip8ErrorKind::EmptyStack));
    assert_eq!(stack.sp, 0);
}

#[test]
fn stack_holds_sixteen_frames() {
    let mut stack = Stack::new();
    for k in 0..16u16 {
        assert_eq!(stack.push(k), Ok(()));
    }
    assert_eq!(stack.push(99), Err(Chip8ErrorKind::StackOverflow));
    assert_eq!(stack.sp, 16);
    for k in (0..16u16).rev() {
        assert_eq!(stack.pop(), Ok(k));
    }
    stack.push(5).unwrap();
    stack.reset();
    assert_eq!(stack.sp, 0);
    assert_eq!(stack.pop(), Err(Chip8ErrorKind::EmptyStack));
}

#[test]
fn timers_tick_towards_their_floors() {
    let mut cpu = CPU::new();
    cpu.delay_timer = 2;
    cpu.sound_timer = 3;
    cpu.update_timers();
    assert_eq!((cpu.delay_timer, cpu.sound_timer), (1, 2));
    cpu.update_timers();
    assert_eq!((cpu.delay_timer, cpu.sound_timer), (0, 1));
    cpu.update_timers();
    assert_eq!((cpu.delay_timer, cpu.sound_timer), (0, 1));
}

#[test]
fn a_sound_timer_of_zero_stays_zero() {
    let mut cpu = CPU::new();
    cpu.sound_timer = 0;
    cpu.update_timers();
    assert_eq!(cpu.sound_timer, 0);
}

#[test]
fn sys_does_nothing() {
    let mut cpu = CPU::new();
    assert_eq!(cpu.instr_0nnn(0x123), Ok(()));
    assert_eq!(cpu.pc, 0x200);
    assert_eq!(cpu.v, [0; 16]);
}

#[test]
fn clear_screen_darkens_and_marks() {
    let mut cpu = CPU::new();
    let mut dev = Devices::new();
    dev.screen.set_pixel(3, 3, true);
    dev.screen.mark_consumed();
    assert_eq!(cpu.instr_00e0(&mut dev), Ok(()));
    assert!(lit(&dev).is_empty());
    assert!(dev.screen.updated);
}

#[test]
fn jump_sets_the_program_counter() {
    let mut cpu = CPU::new();
    assert_eq!(cpu.instr_1nnn(0xABC), Ok(()));
    assert_eq!(cpu.pc, 0xABC);
}

#[test]
fn call_then_return_comes_back() {
    let mut cpu = CPU::new();
    cpu.pc = 0x202;
    assert_eq!(cpu.instr_2nnn(0x400), Ok(()));
    assert_eq!(cpu.pc, 0x400);
    assert_eq!(cpu.stack.sp, 1);
    assert_eq!(cpu.instr_00ee(), Ok(()));
    assert_eq!(cpu.pc, 0x202);
    assert_eq!(cpu.stack.sp, 0);
}

#[test]
fn seventeenth_nested_call_overflows() {
    let mut cpu = CPU::new();
    for k in 0..16u16 {
        assert_eq!(cpu.instr_2nnn(0x300 + 2 * k), Ok(()));
    }
    let pc = cpu.pc;
    assert_eq!(cpu.instr_2nnn(0x500), Err(Chip8ErrorKind::StackOverflow));
    assert_eq!(cpu.pc, pc);
    assert_eq!(cpu.stack.sp, 16);
    for k in (1..16u16).rev() {
        assert_eq!(cpu.instr_00ee(), Ok(()));
        assert_eq!(cpu.pc, 0x300 + 2 * (k - 1));
    }
    assert_eq!(cpu.instr_00ee(), Ok(()));
    assert_eq!(cpu.pc, 0x200);
}

#[test]
fn return_on_an_empty_stack_fails() {
    let mut cpu = CPU::new();
    assert_eq!(cpu.instr_00ee(), Err(Chip8ErrorKind::EmptyStack));
    assert_eq!(cpu.pc, 0x200);
}

#[test]
fn skips_compare_raw_bytes() {
    let mut cpu = CPU::new();
    cpu.v[1] = 0x80;
    cpu.v[2] = 0x80;
    cpu.v[3] = 0x7F;
    cpu.instr_3xnn(1, 0x80).unwrap();
    assert_eq!(cpu.pc, 0x202);
    cpu.instr_3xnn(1, 0x81).unwrap();
    assert_eq!(cpu.pc, 0x202);
    cpu.instr_4xnn(1, 0x81).unwrap();
    assert_eq!(cpu.pc, 0x204);
    cpu.instr_4xnn(1, 0x80).unwrap();
    assert_eq!(cpu.pc, 0x204);
    cpu.instr_5xy0(1, 2).unwrap();
    assert_eq!(cpu.pc, 0x206);
    cpu.instr_5xy0(1, 3).unwrap();
    assert_eq!(cpu.pc, 0x206);
    cpu.instr_9xy0(1, 3).unwrap();
    assert_eq!(cpu.pc, 0x208);
    cpu.instr_9xy0(1, 2).unwrap();
    assert_eq!(cpu.pc, 0x208);
}

#[test]
fn load_immediate() {
    let mut cpu = CPU::new();
    cpu.instr_6xnn(0xE, 0x42).unwrap();
    assert_eq!(cpu.v[0xE], 0x42);
    cpu.instr_6xnn(0xF, 0x99).unwrap();
    assert_eq!(cpu.v[0xF], 0x99);
}

#[test]
fn add_immediate_wraps_without_touching_the_flag() {
    let mut cpu = CPU::new();
    cpu.v[3] = 0xFF;
    cpu.v[0xF] = 0x55;
    cpu.instr_7xnn(3, 0x02).unwrap();
    assert_eq!(cpu.v[3], 0x01);
    assert_eq!(cpu.v[0xF], 0x55);
    cpu.v[0xF] = 0;
    cpu.instr_7xnn(3, 0xFF).unwrap();
    assert_eq!(cpu.v[3], 0x00);
    assert_eq!(cpu.v[0xF], 0);
}

#[test]
fn move_copies_vy() {
    let mut cpu = CPU::new();
    cpu.v[2] = 0x77;
    cpu.instr_8xy0(1, 2).unwrap();
    assert_eq!(cpu.v[1], 0x77);
    assert_eq!(cpu.v[2], 0x77);
}

#[test]
fn logic_operations_reset_the_flag() {
    let mut cpu = CPU::new();
    cpu.v[1] = 0b1100;
    cpu.v[2] = 0b1010;
    cpu.v[0xF] = 1;
    cpu.instr_8xy1(1, 2).unwrap();
    assert_eq!(cpu.v[1], 0b1110);
    assert_eq!(cpu.v[0xF], 0);

    cpu.v[1] = 0b1100;
    cpu.v[0xF] = 0xFF;
    cpu.instr_8xy2(1, 2).unwrap();
    assert_eq!(cpu.v[1], 0b1000);
    assert_eq!(cpu.v[0xF], 0);

    cpu.v[1] = 0b1100;
    cpu.v[0xF] = 7;
    cpu.instr_8xy3(1, 2).unwrap();
    assert_eq!(cpu.v[1], 0b0110);
    assert_eq!(cpu.v[0xF], 0);
}

#[test]
fn logic_operations_on_the_flag_register_leave_zero() {
    let mut cpu = CPU::new();
    cpu.v[0xF] = 0xF0;
    cpu.v[2] = 0x0F;
    cpu.instr_8xy1(0xF, 2).unwrap();
    assert_eq!(cpu.v[0xF], 0);
    cpu.v[0xF] = 0xFF;
    cpu.instr_8xy2(0xF, 0xF).unwrap();
    assert_eq!(cpu.v[0xF], 0);
    cpu.v[0xF] = 0xFF;
    cpu.instr_8xy3(0xF, 2).unwrap();
    assert_eq!(cpu.v[0xF], 0);
}

#[test]
fn add_sets_the_flag_on_overflow_only() {
    let mut cpu = CPU::new();
    cpu.v[1] = 0xF0;
    cpu.v[2] = 0x20;
    cpu.instr_8xy4(1, 2).unwrap();
    assert_eq!(cpu.v[1], 0x10);
    assert_eq!(cpu.v[0xF], 1);

    cpu.v[1] = 0x10;
    cpu.v[2] = 0x20;
    cpu.instr_8xy4(1, 2).unwrap();
    assert_eq!(cpu.v[1], 0x30);
    assert_eq!(cpu.v[0xF], 0);

    cpu.v[1] = 0xFF;
    cpu.v[2] = 0x00;
    cpu.instr_8xy4(1, 2).unwrap();
    assert_eq!(cpu.v[1], 0xFF);
    assert_eq!(cpu.v[0xF], 0);

    cpu.v[1] = 0xFF;
    cpu.v[2] = 0x01;
    cpu.instr_8xy4(1, 2).unwrap();
    assert_eq!(cpu.v[1], 0x00);
    assert_eq!(cpu.v[0xF], 1);
}

#[test]
fn sub_sets_the_flag_when_vx_is_greater() {
    let mut cpu = CPU::new();
    cpu.v[1] = 0x30;
    cpu.v[2] = 0x10;
    cpu.instr_8xy5(1, 2).unwrap();
    assert_eq!(cpu.v[1], 0x20);
    assert_eq!(cpu.v[0xF], 1);

    cpu.v[1] = 0x10;
    cpu.v[2] = 0x30;
    cpu.instr_8xy5(1, 2).unwrap();
    assert_eq!(cpu.v[1], 0xE0);
    assert_eq!(cpu.v[0xF], 0);

    cpu.v[1] = 0x10;
    cpu.v[2] = 0x10;
    cpu.instr_8xy5(1, 2).unwrap();
    assert_eq!(cpu.v[1], 0x00);
    assert_eq!(cpu.v[0xF], 0);
}

#[test]
fn subn_computes_vy_minus_vx() {
    let mut cpu = CPU::new();
    cpu.v[1] = 0x10;
    cpu.v[2] = 0x30;
    cpu.instr_8xy7(1, 2).unwrap();
    assert_eq!(cpu.v[1], 0x20);
    assert_eq!(cpu.v[0xF], 1);

    cpu.v[1] = 0x30;
    cpu.v[2] = 0x10;
    cpu.instr_8xy7(1, 2).unwrap();
    assert_eq!(cpu.v[1], 0xE0);
    assert_eq!(cpu.v[0xF], 0);

    cpu.v[1] = 0x10;
    cpu.v[2] = 0x10;
    cpu.instr_8xy7(1, 2).unwrap();
    assert_eq!(cpu.v[1], 0x00);
    assert_eq!(cpu.v[0xF], 0);
}

#[test]
fn shift_right_reads_vy() {
    let mut cpu = CPU::new();
    cpu.v[1] = 0xFF;
    cpu.v[2] = 0x81;
    cpu.instr_8xy6(1, 2).unwrap();
    assert_eq!(cpu.v[1], 0x40);
    assert_eq!(cpu.v[2], 0x81);
    assert_eq!(cpu.v[0xF], 1);

    cpu.v[2] = 0x04;
    cpu.instr_8xy6(1, 2).unwrap();
    assert_eq!(cpu.v[1], 0x02);
    assert_eq!(cpu.v[0xF], 0);
}

#[test]
fn shift_left_reads_vy() {
    let mut cpu = CPU::new();
    cpu.v[1] = 0x00;
    cpu.v[2] = 0x81;
    cpu.instr_8xye(1, 2).unwrap();
    assert_eq!(cpu.v[1], 0x02);
    assert_eq!(cpu.v[2], 0x81);
    assert_eq!(cpu.v[0xF], 1);

    cpu.v[2] = 0x41;
    cpu.instr_8xye(1, 2).unwrap();
    assert_eq!(cpu.v[1], 0x82);
    assert_eq!(cpu.v[0xF], 0);
}

#[test]
fn the_flag_wins_where_vx_is_the_flag_register() {
    let mut cpu = CPU::new();
    cpu.v[0xF] = 0xF0;
    cpu.v[2] = 0x20;
    cpu.instr_8xy4(0xF, 2).unwrap();
    assert_eq!(cpu.v[0xF], 1);
    cpu.v[2] = 0x03;
    cpu.instr_8xy6(0xF, 2).unwrap();
    assert_eq!(cpu.v[0xF], 1);
    cpu.v[2] = 0x02;
    cpu.instr_8xy6(0xF, 2).unwrap();
    assert_eq!(cpu.v[0xF], 0);
}

#[test]
fn index_and_jump_offset() {
    let mut cpu = CPU::new();
    cpu.instr_annn(0x123).unwrap();
    assert_eq!(cpu.i, 0x123);
    cpu.v[0] = 0xFF;
    cpu.instr_bnnn(0xFFF).unwrap();
    assert_eq!(cpu.pc, 0x10FE);
    cpu.v[0] = 0x02;
    cpu.instr_bnnn(0x300).unwrap();
    assert_eq!(cpu.pc, 0x302);
}

#[test]
fn random_is_masked() {
    let mut cpu = CPU::new();
    cpu.instr_cxnn_with(4, 0x0F, 0xAB).unwrap();
    assert_eq!(cpu.v[4], 0x0B);
    cpu.instr_cxnn_with(4, 0xF0, 0xAB).unwrap();
    assert_eq!(cpu.v[4], 0xA0);
    cpu.instr_cxnn_with(4, 0x00, 0xFF).unwrap();
    assert_eq!(cpu.v[4], 0x00);
    for _ in 0..200 {
        cpu.instr_cxnn(5, 0x3C).unwrap();
        assert_eq!(cpu.v[5] & !0x3C, 0);
    }
    cpu.v[6] = 0xFF;
    cpu.instr_cxnn(6, 0x00).unwrap();
    assert_eq!(cpu.v[6], 0);
}

#[test]
fn random_bytes_vary() {
    let mut cpu = CPU::new();
    let mut seen = [false; 256];
    for _ in 0..4000 {
        cpu.instr_cxnn(0, 0xFF).unwrap();
        seen[cpu.v[0] as usize] = true;
    }
    assert!(seen.iter().filter(|s| **s).count() > 100);
}

#[test]
fn delay_and_sound_registers() {
    let mut cpu = CPU::new();
    cpu.v[1] = 0x33;
    cpu.instr_fx15(1).unwrap();
    assert_eq!(cpu.delay_timer, 0x33);
    cpu.instr_fx18(1).unwrap();
    assert_eq!(cpu.sound_timer, 0x33);
    cpu.instr_fx07(2).unwrap();
    assert_eq!(cpu.v[2], 0x33);
}

#[test]
fn add_index_wraps_at_sixteen_bits() {
    let mut cpu = CPU::new();
    cpu.i = 0x0FF0;
    cpu.v[1] = 0x20;
    cpu.v[0xF] = 9;
    cpu.instr_fx1e(1).unwrap();
    assert_eq!(cpu.i, 0x1010);
    assert_eq!(cpu.v[0xF], 9);
    cpu.i = 0xFFFF;
    cpu.v[1] = 0x02;
    cpu.instr_fx1e(1).unwrap();
    assert_eq!(cpu.i, 0x0001);
}

#[test]
fn font_address_is_five_times_the_digit() {
    let mut cpu = CPU::new();
    for digit in 0..16u8 {
        cpu.v[1] = digit;
        cpu.instr_fx29(1).unwrap();
        assert_eq!(cpu.i, digit as u16 * 5);
    }
    cpu.v[1] = 52;
    cpu.instr_fx29(1).unwrap();
    assert_eq!(cpu.i, 4);
    cpu.v[1] = 0xFF;
    cpu.instr_fx29(1).unwrap();
    assert_eq!(cpu.i, 251);
}

#[test]
fn bcd_stores_hundreds_tens_ones() {
    let mut cpu = CPU::new();
    let mut dev = Devices::new();
    cpu.i = 0x300;
    cpu.v[1] = 254;
    assert_eq!(cpu.instr_fx33(1, &mut dev), Ok(()));
    assert_eq!(dev.ram.read_bytes(0x300, 0x303), Ok(&[2u8, 5, 4][..]));
    cpu.v[1] = 7;
    cpu.instr_fx33(1, &mut dev).unwrap();
    assert_eq!(dev.ram.read_bytes(0x300, 0x303), Ok(&[0u8, 0, 7][..]));
    cpu.v[1] = 100;
    cpu.instr_fx33(1, &mut dev).unwrap();
    assert_eq!(dev.ram.read_bytes(0x300, 0x303), Ok(&[1u8, 0, 0][..]));
    assert_eq!(cpu.i, 0x300);
}

#[test]
fn bcd_at_the_end_of_memory() {
    let mut cpu = CPU::new();
    let mut dev = Devices::new();
    cpu.v[1] = 123;
    cpu.i = 4093;
    assert_eq!(cpu.instr_fx33(1, &mut dev), Ok(()));
    assert_eq!(dev.ram.read8(4093), Ok(1));
    assert_eq!(dev.ram.read8(4094), Ok(2));
    assert_eq!(dev.ram.read8(4095), Ok(3));

    let mut dev = Devices::new();
    cpu.i = 4094;
    assert_eq!(cpu.instr_fx33(1, &mut dev), Err(Chip8ErrorKind::SegmentationFault));
    assert_eq!(dev.ram.read8(4094), Ok(0));
    assert_eq!(dev.ram.read8(4095), Ok(0));
}

#[test]
fn bcd_with_a_wrapping_index_writes_what_lands_inside() {
    let mut cpu = CPU::new();
    let mut dev = Devices::new();
    cpu.v[1] = 123;
    cpu.i = 0xFFFE;
    assert_eq!(cpu.instr_fx33(1, &mut dev), Err(Chip8ErrorKind::SegmentationFault));
    assert_eq!(dev.ram.read8(0), Ok(3));
    assert_eq!(dev.ram.read8(1), Ok(0x90));

    let mut dev = Devices::new();
    cpu.i = 0xFFFF;
    assert_eq!(cpu.instr_fx33(1, &mut dev), Err(Chip8ErrorKind::SegmentationFault));
    assert_eq!(dev.ram.read8(1), Ok(3));
    assert_eq!(dev.ram.read8(0), Ok(2));
}

#[test]
fn store_registers_moves_the_index() {
    let mut cpu = CPU::new();
    let mut dev = Devices::new();
    for k in 0..16 {
        cpu.v[k] = 0x10 + k as u8;
    }
    cpu.i = 0x300;
    assert_eq!(cpu.instr_fx55(3, &mut dev), Ok(()));
    assert_eq!(dev.ram.read_bytes(0x300, 0x305), Ok(&[0x10u8, 0x11, 0x12, 0x13, 0][..]));
    assert_eq!(cpu.i, 0x304);
    cpu.i = 0x400;
    assert_eq!(cpu.instr_fx55(0, &mut dev), Ok(()));
    assert_eq!(dev.ram.read_bytes(0x400, 0x402), Ok(&[0x10u8, 0][..]));
    assert_eq!(cpu.i, 0x401);
    cpu.i = 0x500;
    assert_eq!(cpu.instr_fx55(15, &mut dev), Ok(()));
    assert_eq!(dev.ram.read8(0x50F), Ok(0x1F));
    assert_eq!(cpu.i, 0x510);
}

#[test]
fn store_registers_past_the_end_fails_after_what_fits() {
    let mut cpu = CPU::new();
    let mut dev = Devices::new();
    for k in 0..16 {
        cpu.v[k] = 0x10 + k as u8;
    }
    cpu.i = 4094;
    assert_eq!(cpu.instr_fx55(3, &mut dev), Err(Chip8ErrorKind::SegmentationFault));
    assert_eq!(dev.ram.read8(4094), Ok(0x10));
    assert_eq!(dev.ram.read8(4095), Ok(0x11));
    assert_eq!(cpu.i, 4094);
    cpu.i = 4092;
    assert_eq!(cpu.instr_fx55(3, &mut dev), Ok(()));
    assert_eq!(cpu.i, 4096);
    assert_eq!(cpu.instr_fx55(0, &mut dev), Err(Chip8ErrorKind::SegmentationFault));
    assert_eq!(cpu.i, 4096);
}

#[test]
fn load_registers_moves_the_index() {
    let mut cpu = CPU::new();
    let mut dev = Devices::new();
    dev.ram.write_bytes(0x300, &[1, 2, 3, 4, 5]).unwrap();
    cpu.v = [0xEE; 16];
    cpu.i = 0x300;
    assert_eq!(cpu.instr_fx65(2, &dev), Ok(()));
    assert_eq!(&cpu.v[..4], &[1, 2, 3, 0xEE]);
    assert_eq!(cpu.i, 0x303);
}

#[test]
fn load_registers_past_the_end_fails_after_what_is_there() {
    let mut cpu = CPU::new();
    let mut dev = Devices::new();
    dev.ram.write_bytes(4094, &[7, 8]).unwrap();
    cpu.v = [0xEE; 16];
    cpu.i = 4094;
    assert_eq!(cpu.instr_fx65(4, &dev), Err(Chip8ErrorKind::SegmentationFault));
    assert_eq!(&cpu.v[..4], &[7, 8, 0xEE, 0xEE]);
    assert_eq!(cpu.i, 4094);
}

#[test]
fn key_skips() {
    let mut cpu = CPU::new();
    let mut dev = Devices::new();
    dev.keypad.set_key_pressed(Key::A, true);
    cpu.v[1] = 0xA;
    cpu.v[2] = 0xB;
    cpu.instr_ex9e(1, &dev).unwrap();
    assert_eq!(cpu.pc, 0x202);
    cpu.instr_ex9e(2, &dev).unwrap();
    assert_eq!(cpu.pc, 0x202);
    cpu.instr_exa1(2, &dev).unwrap();
    assert_eq!(cpu.pc, 0x204);
    cpu.instr_exa1(1, &dev).unwrap();
    assert_eq!(cpu.pc, 0x204);
}

#[test]
fn key_wait_without_a_key_rewinds() {
    let mut cpu = CPU::new();
    let dev = Devices::new();
    cpu.pc = 0x202;
    cpu.v[3] = 0x77;
    for _ in 0..5 {
        cpu.pc = 0x202;
        cpu.instr_fx0a(3, &dev).unwrap();
        assert_eq!(cpu.pc, 0x200);
        assert_eq!(cpu.v[3], 0x77);
        assert_eq!(cpu.key_pressed, None);
    }
}

#[test]
fn key_wait_sees_a_key_then_stores_it_while_it_is_held() {
    let mut cpu = CPU::new();
    let mut dev = Devices::new();
    dev.keypad.set_key_pressed(Key::C, true);
    cpu.pc = 0x202;
    cpu.instr_fx0a(3, &dev).unwrap();
    assert_eq!(cpu.pc, 0x200);
    assert_eq!(cpu.key_pressed, Some(Key::C));
    assert_eq!(cpu.v[3], 0);
    cpu.pc = 0x202;
    cpu.instr_fx0a(3, &dev).unwrap();
    assert_eq!(cpu.pc, 0x202);
    assert_eq!(cpu.key_pressed, None);
    assert_eq!(cpu.v[3], 0xC);
}

#[test]
fn key_wait_stores_a_seen_key_after_its_release() {
    let mut cpu = CPU::new();
    let mut dev = Devices::new();
    dev.keypad.set_key_pressed(Key::Num5, true);
    cpu.pc = 0x202;
    cpu.instr_fx0a(1, &dev).unwrap();
    assert_eq!(cpu.key_pressed, Some(Key::Num5));
    dev.keypad.set_key_pressed(Key::Num5, false);
    cpu.pc = 0x202;
    cpu.instr_fx0a(1, &dev).unwrap();
    assert_eq!(cpu.pc, 0x202);
    assert_eq!(cpu.v[1], 5);
    assert_eq!(cpu.key_pressed, None);
}

#[test]
fn key_wait_follows_another_key_when_the_seen_one_is_released() {
    let mut cpu = CPU::new();
    let mut dev = Devices::new();
    dev.keypad.set_key_pressed(Key::Num5, true);
    cpu.pc = 0x202;
    cpu.instr_fx0a(1, &dev).unwrap();
    dev.keypad.set_key_pressed(Key::Num5, false);
    dev.keypad.set_key_pressed(Key::Num9, true);
    cpu.pc = 0x202;
    cpu.instr_fx0a(1, &dev).unwrap();
    assert_eq!(cpu.pc, 0x200);
    assert_eq!(cpu.key_pressed, Some(Key::Num9));
    assert_eq!(cpu.v[1], 0);
}

#[test]
fn key_wait_keeps_the_seen_key_when_a_lower_one_joins() {
    let mut cpu = CPU::new();
    let mut dev = Devices::new();
    dev.keypad.set_key_pressed(Key::Num5, true);
    cpu.pc = 0x202;
    cpu.instr_fx0a(1, &dev).unwrap();
    dev.keypad.set_key_pressed(Key::Num2, true);
    cpu.pc = 0x202;
    cpu.instr_fx0a(1, &dev).unwrap();
    assert_eq!(cpu.pc, 0x202);
    assert_eq!(cpu.v[1], 5);
}

#[test]
fn draw_a_font_glyph() {
    let mut cpu = CPU::new();
    let mut dev = Devices::new();
    cpu.i = 0;
    cpu.v[1] = 0;
    cpu.v[2] = 0;
    assert_eq!(cpu.instr_dxyn(1, 2, 5, &mut dev), Ok(()));
    let expected = vec![
        (0, 0),
        (1, 0),
        (2, 0),
        (3, 0),
        (0, 1),
        (3, 1),
        (0, 2),
        (3, 2),
        (0, 3),
        (3, 3),
        (0, 4),
        (1, 4),
        (2, 4),
        (3, 4),
    ];
    assert_eq!(lit(&dev), expected);
    assert_eq!(cpu.v[0xF], 0);
    assert!(dev.screen.updated);
}

#[test]
fn draw_twice_restores_the_picture_and_reports_the_overlap() {
    let mut cpu = CPU::new();
    let mut dev = Devices::new();
    dev.screen.set_pixel(11, 8, true);
    dev.screen.set_pixel(40, 20, true);
    let before = lit(&dev);
    cpu.i = 5;
    cpu.v[1] = 9;
    cpu.v[2] = 8;
    assert_eq!(cpu.instr_dxyn(1, 2, 5, &mut dev), Ok(()));
    let first_flag = cpu.v[0xF];
    let middle = lit(&dev);
    assert_ne!(middle, before);
    assert_eq!(cpu.instr_dxyn(1, 2, 5, &mut dev), Ok(()));
    assert_eq!(lit(&dev), before);
    assert_eq!(first_flag, 1);
    assert_eq!(cpu.v[0xF], 1);
}

#[test]
fn draw_twice_of_one_lit_pixel_reports_the_overlap_of_each_draw() {
    let mut cpu = CPU::new();
    let mut dev = Devices::new();
    dev.ram.write_bytes(0x300, &[0x80]).unwrap();
    dev.screen.set_pixel(20, 10, true);
    cpu.i = 0x300;
    cpu.v[1] = 20;
    cpu.v[2] = 10;
    assert_eq!(cpu.instr_dxyn(1, 2, 1, &mut dev), Ok(()));
    assert_eq!(cpu.v[0xF], 1);
    assert!(lit(&dev).is_empty());
    assert_eq!(cpu.instr_dxyn(1, 2, 1, &mut dev), Ok(()));
    assert_eq!(cpu.v[0xF], 0);
    assert_eq!(lit(&dev), vec![(20, 10)]);
}

#[test]
fn draw_without_overlap_leaves_the_flag_at_zero() {
    let mut cpu = CPU::new();
    let mut dev = Devices::new();
    dev.screen.set_pixel(50, 30, true);
    cpu.v[0xF] = 1;
    cpu.i = 0;
    assert_eq!(cpu.instr_dxyn(1, 2, 5, &mut dev), Ok(()));
    assert_eq!(cpu.v[0xF], 0);
    assert!(dev.screen.is_pixel_set(50, 30));
}

#[test]
fn draw_position_wraps_but_sprite_is_clipped() {
    let mut cpu = CPU::new();
    let mut dev = Devices::new();
    dev.ram.write_bytes(0x300, &[0xFF, 0xFF, 0xFF]).unwrap();
    cpu.i = 0x300;
    cpu.v[1] = 64 + 60;
    cpu.v[2] = 32 + 30;
    assert_eq!(cpu.instr_dxyn(1, 2, 3, &mut dev), Ok(()));
    let expected = vec![
        (60, 30),
        (61, 30),
        (62, 30),
        (63, 30),
        (60, 31),
        (61, 31),
        (62, 31),
        (63, 31),
    ];
    assert_eq!(lit(&dev), expected);
}

#[test]
fn draw_of_no_rows_clears_the_flag_and_touches_nothing() {
    let mut cpu = CPU::new();
    let mut dev = Devices::new();
    cpu.v[0xF] = 1;
    cpu.i = 0xFFFF;
    assert_eq!(cpu.instr_dxyn(1, 2, 0, &mut dev), Ok(()));
    assert_eq!(cpu.v[0xF], 0);
    assert!(!dev.screen.updated);
    assert!(lit(&dev).is_empty());
}

#[test]
fn draw_from_outside_memory_fails() {
    let mut cpu = CPU::new();
    let mut dev = Devices::new();
    cpu.i = 4096;
    cpu.v[0xF] = 1;
    assert_eq!(cpu.instr_dxyn(1, 2, 1, &mut dev), Err(Chip8ErrorKind::SegmentationFault));
    assert_eq!(cpu.v[0xF], 0);
    assert!(!dev.screen.updated);
}

#[test]
fn draw_across_the_end_of_memory_draws_the_rows_before_it() {
    let mut cpu = CPU::new();
    let mut dev = Devices::new();
    dev.ram.write_bytes(4094, &[0x80, 0x40]).unwrap();
    cpu.i = 4094;
    assert_eq!(cpu.instr_dxyn(1, 2, 3, &mut dev), Err(Chip8ErrorKind::SegmentationFault));
    assert_eq!(lit(&dev), vec![(0, 0), (1, 1)]);
    assert!(dev.screen.updated);
}

#[test]
fn draw_does_not_read_rows_below_the_screen() {
    let mut cpu = CPU::new();
    let mut dev = Devices::new();
    dev.ram.write_bytes(4095, &[0x80]).unwrap();
    cpu.i = 4095;
    cpu.v[2] = 31;
    assert_eq!(cpu.instr_dxyn(1, 2, 15, &mut dev), Ok(()));
    assert_eq!(lit(&dev), vec![(0, 31)]);
}

#[test]
fn draw_with_the_flag_register_as_position() {
    let mut cpu = CPU::new();
    let mut dev = Devices::new();
    dev.ram.write_bytes(0x300, &[0x80]).unwrap();
    cpu.i = 0x300;
    cpu.v[0xF] = 7;
    cpu.v[2] = 3;
    assert_eq!(cpu.instr_dxyn(0xF, 2, 1, &mut dev), Ok(()));
    assert_eq!(lit(&dev), vec![(7, 3)]);
    assert_eq!(cpu.v[0xF], 0);
}

#[test]
fn fetch_reads_big_endian_and_advances() {
    let mut cpu = CPU::new();
    let mut dev = Devices::new();
    dev.ram.write_bytes(0x200, &[0x12, 0x34]).unwrap();
    assert_eq!(cpu.fetch(&dev), Ok(Instruction::new(0x1234)));
    assert_eq!(cpu.pc, 0x202);
}

#[test]
fn fetch_outside_memory_fails_and_stays() {
    let mut cpu = CPU::new();
    let dev = Devices::new();
    cpu.pc = 4095;
    assert_eq!(cpu.fetch(&dev), Err(Chip8ErrorKind::SegmentationFault));
    assert_eq!(cpu.pc, 4095);
    cpu.pc = 0xFFFF;
    assert_eq!(cpu.fetch(&dev), Err(Chip8ErrorKind::SegmentationFault));
    assert_eq!(cpu.pc, 0xFFFF);
    cpu.pc = 4094;
    assert_eq!(cpu.fetch(&dev), Ok(Instruction::new(0)));
    assert_eq!(cpu.pc, 4096);
}

#[test]
fn execute_dispatches() {
    let mut cpu = CPU::new();
    let mut dev = Devices::new();
    cpu.pc = 0x202;
    cpu.execute(&Instruction::new(0x6A42), &mut dev).unwrap();
    assert_eq!(cpu.v[0xA], 0x42);
    cpu.execute(&Instruction::new(0x7A01), &mut dev).unwrap();
    assert_eq!(cpu.v[0xA], 0x43);
    cpu.execute(&Instruction::new(0x8BA0), &mut dev).unwrap();
    assert_eq!(cpu.v[0xB], 0x43);
    cpu.execute(&Instruction::new(0x5AB0), &mut dev).unwrap();
    assert_eq!(cpu.pc, 0x204);
    cpu.execute(&Instruction::new(0xA123), &mut dev).unwrap();
    assert_eq!(cpu.i, 0x123);
    cpu.execute(&Instruction::new(0xC00F), &mut dev).unwrap();
    assert!(cpu.v[0] <= 0x0F);
    cpu.execute_with(&Instruction::new(0xC1F0), &mut dev, 0xAA).unwrap();
    assert_eq!(cpu.v[1], 0xA0);
    assert_eq!(
        cpu.execute(&Instruction::new(0xFFFF), &mut dev),
        Err(Chip8ErrorKind::UnknownInstruction(Instruction::new(0xFFFF)))
    );
    assert_eq!(
        cpu.execute_with(&Instruction::new(0x800F), &mut dev, 0),
        Err(Chip8ErrorKind::UnknownInstruction(Instruction::new(0x800F)))
    );
}

#[test]
fn a_register_comparison_with_a_last_nibble_is_refused() {
    let mut cpu = CPU::new();
    let mut dev = Devices::new();
    cpu.v[1] = 7;
    let v = cpu.v;
    assert_eq!(
        cpu.execute(&Instruction::new(0x5001), &mut dev),
        Err(Chip8ErrorKind::UnknownInstruction(Instruction::new(0x5001)))
    );
    assert_eq!(cpu.pc, 0x200);
    assert_eq!(cpu.v, v);
    assert_eq!(
        cpu.execute_with(&Instruction::new(0x511F), &mut dev, 0),
        Err(Chip8ErrorKind::UnknownInstruction(Instruction::new(0x511F)))
    );
    assert_eq!(cpu.pc, 0x200);
    assert_eq!(cpu.execute(&Instruction::new(0x5110), &mut dev), Ok(()));
    assert_eq!(cpu.pc, 0x202);
}

#[test]
fn clock_fetches_then_executes() {
    let mut cpu = CPU::new();
    let mut dev = Devices::new();
    dev.ram.write_bytes(0x200, &[0x61, 0x05, 0x71, 0x03, 0x12, 0x00]).unwrap();
    cpu.clock(&mut dev).unwrap();
    assert_eq!((cpu.pc, cpu.v[1]), (0x202, 5));
    cpu.clock_with(&mut dev, 0).unwrap();
    assert_eq!((cpu.pc, cpu.v[1]), (0x204, 8));
    cpu.clock(&mut dev).unwrap();
    assert_eq!(cpu.pc, 0x200);
}
