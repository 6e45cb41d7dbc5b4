use chip8_core::keypad::{Key, KeyPad, UnknownKeyError, CHIP8_KEYPAD};

fn all_keys() -> [Key; 16] {
    [
        Key::Num0,
        Key::Num1,
        Key::Num2,
        Key::Num3,
        Key::Num4,
        Key::Num5,
        Key::Num6,
        Key::Num7,
        Key::Num8,
        Key::Num9,
        Key::A,
        Key::B,
        Key::C,
        Key::D,
        Key::E,
        Key::F,
    ]
}

#[test]
fn key_codes_are_the_digits() {
    for (i, key) in all_keys().iter().enumerate() {
        assert_eq!(key.code() as usize, i);
    }
}

#[test]
fn try_from_names_the_key_of_each_digit() {
    for (i, key) in all_keys().iter().enumerate() {
        assert_eq!(Key::try_from(i as u8), Ok(*key));
    }
}

#[test]
fn try_from_rejects_every_other_byte() {
    for value in 16..=255u8 {
        assert_eq!(Key::try_from(value), Err(UnknownKeyError(value)));
    }
}

#[test]
fn keypad_layout_is_the_classic_grid() {
    assert_eq!(
        CHIP8_KEYPAD,
        [
            Key::Num1,
            Key::Num2,
            Key::Num3,
            Key::C,
            Key::Num4,
            Key::Num5,
            Key::Num6,
            Key::D,
            Key::Num7,
            Key::Num8,
            Key::Num9,
            Key::E,
            Key::A,
            Key::Num0,
            Key::B,
            Key::F,
        ]
    );
}

#[test]
fn new_keypad_has_no_key_down() {
    let pad = KeyPad::new();
    for key in all_keys() {
        assert!(!pad.key_pressed(key));
    }
    assert_eq!(pad.get_key_pressed(), None);
}

#[test]
fn keys_are_set_independently() {
    let mut pad = KeyPad::new();
    pad.set_key_pressed(Key::A, true);
    for key in all_keys() {
        assert_eq!(pad.key_pressed(key), key == Key::A);
    }
    pad.set_key_pressed(Key::Num3, true);
    pad.set_key_pressed(Key::A, false);
    for key in all_keys() {
        assert_eq!(pad.key_pressed(key), key == Key::Num3);
    }
}

#[test]
fn lowest_key_wins() {
    let mut pad = KeyPad::new();
    pad.set_key_pressed(Key::F, true);
    assert_eq!(pad.get_key_pressed(), Some(Key::F));
    pad.set_key_pressed(Key::Num7, true);
    assert_eq!(pad.get_key_pressed(), Some(Key::Num7));
    pad.set_key_pressed(Key::Num0, true);
    assert_eq!(pad.get_key_pressed(), Some(Key::Num0));
    pad.set_key_pressed(Key::Num0, false);
    assert_eq!(pad.get_key_pressed(), Some(Key::Num7));
}

#[test]
fn each_single_key_is_found() {
    for key in all_keys() {
        let mut pad = KeyPad::new();
        pad.set_key_pressed(key, true);
        assert_eq!(pad.get_key_pressed(), Some(key));
    }
}

#[test]
fn reset_releases_every_key() {
    let mut pad = KeyPad::new();
    for key in all_keys() {
        pad.set_key_pressed(key, true);
    }
    pad.reset();
    for key in all_keys() {
        assert!(!pad.key_pressed(key));
    }
    assert_eq!(pad.get_key_pressed(), None);
}
