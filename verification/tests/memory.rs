use chip8_core::chip8_errors::Chip8ErrorKind;
use chip8_core::memory::{Ram, RAM_SIZE};

#[test]
fn new_memory_is_all_zero() {
    let ram = Ram::new();
    for addr in 0..RAM_SIZE as u16 {
        assert_eq!(ram.read8(addr), Ok(0));
    }
}

#[test]
fn capacity_is_four_kilobytes() {
    assert_eq!(RAM_SIZE, 4096);
}

#[test]
fn write_then_read_gives_the_byte_back_everywhere() {
    let mut ram = Ram::new();
    for addr in 0..RAM_SIZE as u16 {
        let val = (addr % 251) as u8 ^ 0x5A;
        assert_eq!(ram.write8(addr, val), Ok(()));
        assert_eq!(ram.read8(addr), Ok(val));
    }
    for addr in 0..RAM_SIZE as u16 {
        assert_eq!(ram.read8(addr), Ok((addr % 251) as u8 ^ 0x5A));
    }
}

#[test]
fn write_changes_no_other_byte() {
    let mut ram = Ram::new();
    ram.write8(0x123, 0xAB).unwrap();
    assert_eq!(ram.read8(0x122), Ok(0));
    assert_eq!(ram.read8(0x123), Ok(0xAB));
    assert_eq!(ram.read8(0x124), Ok(0));
}

#[test]
fn read_at_or_past_capacity_fails() {
    let ram = Ram::new();
    assert_eq!(ram.read8(4095), Ok(0));
    assert_eq!(ram.read8(4096), Err(Chip8ErrorKind::SegmentationFault));
    assert_eq!(ram.read8(0x8000), Err(Chip8ErrorKind::SegmentationFault));
    assert_eq!(ram.read8(0xFFFF), Err(Chip8ErrorKind::SegmentationFault));
}

#[test]
fn write_at_or_past_capacity_fails_and_changes_nothing() {
    let mut ram = Ram::new();
    assert_eq!(ram.write8(4096, 1), Err(Chip8ErrorKind::SegmentationFault));
    assert_eq!(ram.write8(0xFFFF, 1), Err(Chip8ErrorKind::SegmentationFault));
    for addr in 0..RAM_SIZE as u16 {
        assert_eq!(ram.read8(addr), Ok(0));
    }
}

#[test]
fn read16_is_big_endian() {
    let mut ram = Ram::new();
    ram.write8(0x300, 0x12).unwrap();
    ram.write8(0x301, 0x34).unwrap();
    assert_eq!(ram.read16(0x300), Ok(0x1234));
    assert_eq!(ram.read16(0x301), Ok(0x3400));
    assert_eq!(ram.read16(0x2FF), Ok(0x0012));
}

#[test]
fn read16_needs_both_bytes_inside() {
    let mut ram = Ram::new();
    ram.write8(4094, 0xAB).unwrap();
    ram.write8(4095, 0xCD).unwrap();
    assert_eq!(ram.read16(4094), Ok(0xABCD));
    assert_eq!(ram.read16(4095), Err(Chip8ErrorKind::SegmentationFault));
    assert_eq!(ram.read16(4096), Err(Chip8ErrorKind::SegmentationFault));
    assert_eq!(ram.read16(0xFFFF), Err(Chip8ErrorKind::SegmentationFault));
}

#[test]
fn write_bytes_places_the_bytes_in_order() {
    let mut ram = Ram::new();
    assert_eq!(ram.write_bytes(0x200, &[1, 2, 3, 4]), Ok(()));
    assert_eq!(ram.read8(0x1FF), Ok(0));
    assert_eq!(ram.read8(0x200), Ok(1));
    assert_eq!(ram.read8(0x201), Ok(2));
    assert_eq!(ram.read8(0x202), Ok(3));
    assert_eq!(ram.read8(0x203), Ok(4));
    assert_eq!(ram.read8(0x204), Ok(0));
}

#[test]
fn write_bytes_up_to_the_last_byte_succeeds() {
    let mut ram = Ram::new();
    assert_eq!(ram.write_bytes(4094, &[7, 8]), Ok(()));
    assert_eq!(ram.read8(4094), Ok(7));
    assert_eq!(ram.read8(4095), Ok(8));
}

#[test]
fn write_bytes_past_the_end_fails_after_writing_what_fits() {
    let mut ram = Ram::new();
    assert_eq!(
        ram.write_bytes(4094, &[7, 8, 9]),
        Err(Chip8ErrorKind::SegmentationFault)
    );
    assert_eq!(ram.read8(4094), Ok(7));
    assert_eq!(ram.read8(4095), Ok(8));
}

#[test]
fn write_bytes_outside_memory_fails_unless_empty() {
    let mut ram = Ram::new();
    assert_eq!(ram.write_bytes(4096, &[1]), Err(Chip8ErrorKind::SegmentationFault));
    assert_eq!(ram.write_bytes(0xFFFF, &[1, 2]), Err(Chip8ErrorKind::SegmentationFault));
    assert_eq!(ram.write_bytes(0xFFFF, &[]), Ok(()));
    assert_eq!(ram.write_bytes(4096, &[]), Ok(()));
}

#[test]
fn write_bytes_of_a_very_long_slice_fails_without_panic() {
    let mut ram = Ram::new();
    let bytes = vec![0xEE; 70_000];
    assert_eq!(ram.write_bytes(0, &bytes), Err(Chip8ErrorKind::SegmentationFault));
    assert_eq!(ram.read8(0), Ok(0xEE));
    assert_eq!(ram.read8(4095), Ok(0xEE));
}

#[test]
fn read_bytes_borrows_the_range() {
    let mut ram = Ram::new();
    ram.write_bytes(0x200, &[1, 2, 3, 4, 5]).unwrap();
    assert_eq!(ram.read_bytes(0x201, 0x204), Ok(&[2u8, 3, 4][..]));
    assert_eq!(ram.read_bytes(0x200, 0x201), Ok(&[1u8][..]));
}

#[test]
fn read_bytes_rejects_empty_and_reversed_ranges() {
    let ram = Ram::new();
    assert_eq!(ram.read_bytes(0x200, 0x200), Err(Chip8ErrorKind::SegmentationFault));
    assert_eq!(ram.read_bytes(0x201, 0x200), Err(Chip8ErrorKind::SegmentationFault));
}

#[test]
fn read_bytes_rejects_bounds_at_or_past_capacity() {
    let ram = Ram::new();
    assert_eq!(ram.read_bytes(0, 4095).map(|b| b.len()), Ok(4095));
    assert_eq!(ram.read_bytes(0, 4096), Err(Chip8ErrorKind::SegmentationFault));
    assert_eq!(ram.read_bytes(4096, 4097), Err(Chip8ErrorKind::SegmentationFault));
    assert_eq!(ram.read_bytes(4095, 0xFFFF), Err(Chip8ErrorKind::SegmentationFault));
}

#[test]
fn reset_clears_the_program_region_only() {
    let mut ram = Ram::new();
    ram.write8(0x000, 0xF0).unwrap();
    ram.write8(0x1FF, 0x11).unwrap();
    ram.write8(0x200, 0x22).unwrap();
    ram.write8(0xFFF, 0x33).unwrap();
    ram.reset();
    assert_eq!(ram.read8(0x000), Ok(0xF0));
    assert_eq!(ram.read8(0x1FF), Ok(0x11));
    assert_eq!(ram.read8(0x200), Ok(0));
    assert_eq!(ram.read8(0xFFF), Ok(0));
}

#[test]
fn reset_range_clears_exactly_the_range() {
    let mut ram = Ram::new();
    ram.write_bytes(0x10, &[1, 2, 3, 4, 5]).unwrap();
    ram.reset_range(0x11, 0x13);
    assert_eq!(ram.read_bytes(0x10, 0x15), Ok(&[1u8, 0, 0, 4, 5][..]));
}

#[test]
fn reset_range_of_an_empty_or_reversed_range_changes_nothing() {
    let mut ram = Ram::new();
    ram.write_bytes(0x10, &[1, 2, 3]).unwrap();
    ram.reset_range(0x11, 0x11);
    ram.reset_range(0x12, 0x10);
    ram.reset_range(5000, 4096);
    ram.reset_range(usize::MAX, 0);
    assert_eq!(ram.read_bytes(0x10, 0x13), Ok(&[1u8, 2, 3][..]));
}
