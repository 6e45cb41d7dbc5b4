use chip8_core::graphics::{FrameBuffer, Screen, SCREEN_HEIGHT, SCREEN_SIZE, SCREEN_WIDTH};

#[test]
fn screen_is_64_by_32() {
    assert_eq!(SCREEN_WIDTH, 64);
    assert_eq!(SCREEN_HEIGHT, 32);
    assert_eq!(SCREEN_SIZE, 2048);
}

#[test]
fn new_screen_is_dark_and_unchanged() {
    let screen = Screen::new();
    assert!(!screen.updated);
    assert!(!screen.is_updated());
    for y in 0..SCREEN_HEIGHT {
        for x in 0..SCREEN_WIDTH {
            assert!(!screen.is_pixel_set(x, y));
        }
    }
}

#[test]
fn set_pixel_is_exclusive_or() {
    let mut screen = Screen::new();
    screen.set_pixel(3, 4, true);
    assert!(screen.is_pixel_set(3, 4));
    screen.set_pixel(3, 4, false);
    assert!(screen.is_pixel_set(3, 4));
    screen.set_pixel(3, 4, true);
    assert!(!screen.is_pixel_set(3, 4));
    screen.set_pixel(3, 4, false);
    assert!(!screen.is_pixel_set(3, 4));
}

#[test]
fn set_pixel_touches_one_pixel() {
    let mut screen = Screen::new();
    screen.set_pixel(63, 31, true);
    for y in 0..SCREEN_HEIGHT {
        for x in 0..SCREEN_WIDTH {
            assert_eq!(screen.is_pixel_set(x, y), x == 63 && y == 31);
        }
    }
}

#[test]
fn set_pixel_raises_the_flag_even_without_a_change() {
    let mut screen = Screen::new();
    screen.set_pixel(0, 0, false);
    assert!(screen.updated);
    assert!(!screen.is_pixel_set(0, 0));
}

#[test]
fn pixels_are_stored_row_after_row() {
    let mut screen = Screen::new();
    screen.set_pixel(64, 0, true);
    assert!(screen.is_pixel_set(0, 1));
    assert!(!screen.is_pixel_set(0, 0));
}

#[test]
fn clear_darkens_everything_and_raises_the_flag() {
    let mut screen = Screen::new();
    screen.set_pixel(1, 1, true);
    screen.set_pixel(10, 20, true);
    screen.mark_consumed();
    assert!(!screen.updated);
    screen.clear();
    assert!(screen.updated);
    for y in 0..SCREEN_HEIGHT {
        for x in 0..SCREEN_WIDTH {
            assert!(!screen.is_pixel_set(x, y));
        }
    }
}

#[test]
fn reading_does_not_lower_the_flag() {
    let mut screen = Screen::new();
    screen.set_pixel(1, 1, true);
    assert!(screen.is_pixel_set(1, 1));
    assert!(screen.is_updated());
    assert!(screen.is_updated());
}

#[test]
fn mark_consumed_lowers_the_flag_and_keeps_the_picture() {
    let mut screen = Screen::new();
    screen.set_pixel(5, 6, true);
    screen.mark_consumed();
    assert!(!screen.is_updated());
    assert!(screen.is_pixel_set(5, 6));
}

struct Counting {
    calls: usize,
    lit: usize,
}

impl FrameBuffer for Counting {
    fn update(&mut self, screen: &Screen) {
        self.calls += 1;
        self.lit = 0;
        for y in 0..SCREEN_HEIGHT {
            for x in 0..SCREEN_WIDTH {
                if screen.is_pixel_set(x, y) {
                    self.lit += 1;
                }
            }
        }
    }
}

#[test]
fn a_frame_buffer_can_be_implemented_outside() {
    let mut screen = Screen::new();
    screen.set_pixel(1, 2, true);
    screen.set_pixel(3, 4, true);
    let mut fb = Counting { calls: 0, lit: 0 };
    fb.update(&screen);
    assert_eq!(fb.calls, 1);
    assert_eq!(fb.lit, 2);
}
