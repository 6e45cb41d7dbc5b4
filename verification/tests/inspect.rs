use chip8_core::inspect::{in_program, listing, listing_start, LISTING_LEAD};
use chip8_core::instruction::Instruction;

#[test]
fn listing_starts_up_to_six_bytes_before_the_program_counter() {
    assert_eq!(LISTING_LEAD, 6);
    assert_eq!(listing_start(0), 0x200);
    assert_eq!(listing_start(0x1FF), 0x200);
    assert_eq!(listing_start(0x200), 0x200);
    assert_eq!(listing_start(0x202), 0x200);
    assert_eq!(listing_start(0x206), 0x200);
    assert_eq!(listing_start(0x207), 0x201);
    assert_eq!(listing_start(0x208), 0x202);
    assert_eq!(listing_start(0xFFF), 0xFF9);
    assert_eq!(listing_start(usize::MAX), usize::MAX - 6);
}

#[test]
fn program_counter_in_program() {
    assert!(!in_program(0x200, 0));
    assert!(!in_program(0, 0));
    assert!(in_program(0x200, 2));
    assert!(!in_program(0x201, 2));
    assert!(!in_program(0x202, 2));
    assert!(in_program(0x202, 4));
    assert!(in_program(0x0, 1));
    assert!(in_program(0x1FF, 1));
    assert!(!in_program(0x200, 1));
    assert!(in_program(0xFFE, 3584));
    assert!(!in_program(0xFFF, 3584));
    assert!(in_program(0xFFFF, 0x10000));
    assert!(in_program(0xFFFF, usize::MAX));
    assert!(in_program(0xFFFF, 0xFFFF - 0x200 + 2));
    assert!(!in_program(0xFFFF, 0xFFFF - 0x200 + 1));
}

#[test]
fn listing_pairs_bytes_into_words() {
    let lines = listing(&[0x12, 0x34, 0x00, 0xE0, 0xAB], 0x200);
    assert_eq!(
        lines,
        vec![(0x200, Instruction::new(0x1234)), (0x202, Instruction::new(0x00E0))]
    );
    assert_eq!(lines[1].1.to_string(), "CLS");
}

#[test]
fn listing_of_little_code() {
    assert_eq!(listing(&[], 0x200), vec![]);
    assert_eq!(listing(&[0x12], 0x200), vec![]);
    assert_eq!(listing(&[0x12, 0x34], 7), vec![(7, Instruction::new(0x1234))]);
}
