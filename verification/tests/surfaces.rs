use chip8::display::Display;
use chip8::frontend::{frame, UiEvent};
use chip8::fuse::Fuse;
use chip8::keypad::Keypad;

fn lit(display: &Display) -> Vec<(usize, usize)> {
    let pixels = display.snapshot();
    let mut found = Vec::new();
    for row in 0..32 {
        for col in 0..64 {
            if pixels[row * 64 + col] {
                found.push((col, row));
            }
        }
    }
    found
}

#[test]
fn new_display_is_dark() {
    let display = Display::new();
    assert!(lit(&display).is_empty());
    assert_eq!(display.snapshot().len(), 2048);
}

#[test]
fn blit_row_draws_set_bits_left_to_right() {
    let mut display = Display::new();
    assert!(!display.blit_row(0b1010_0001, 10, 5));
    assert_eq!(lit(&display), vec![(10, 5), (12, 5), (17, 5)]);
}

#[test]
fn blit_row_wraps_at_the_right_edge() {
    let mut display = Display::new();
    assert!(!display.blit_row(0xFF, 60, 0));
    assert_eq!(
        lit(&display),
        vec![(0, 0), (1, 0), (2, 0), (3, 0), (60, 0), (61, 0), (62, 0), (63, 0)]
    );
}

#[test]
fn blit_row_wraps_its_coordinates() {
    let mut display = Display::new();
    assert!(!display.blit_row(0x80, 64 + 3, 32 + 4));
    assert_eq!(lit(&display), vec![(3, 4)]);
    assert!(display.pixel(3, 4));
    assert!(display.pixel(64 + 3, 32 + 4));
}

#[test]
fn blit_row_collides_only_where_a_lit_pixel_goes_dark() {
    let mut display = Display::new();
    assert!(!display.blit_row(0b1100_0000, 0, 0));
    assert!(!display.blit_row(0b0011_0000, 0, 0));
    assert!(display.blit_row(0b0001_1000, 0, 0));
    assert_eq!(lit(&display), vec![(0, 0), (1, 0), (2, 0), (4, 0)]);
}

#[test]
fn blit_draws_rows_downwards_and_wraps_at_the_bottom() {
    let mut display = Display::new();
    assert!(!display.blit(&[0x80, 0x40, 0x20], 0, 30));
    assert_eq!(lit(&display), vec![(2, 0), (0, 30), (1, 31)]);
}

#[test]
fn blit_twice_restores_the_screen_and_collides() {
    let mut display = Display::new();
    let sprite = [0xF0, 0x90, 0x90, 0x90, 0xF0];
    assert!(!display.blit(&sprite, 20, 10));
    assert_eq!(lit(&display).len(), 14);
    assert!(display.blit(&sprite, 20, 10));
    assert!(lit(&display).is_empty());
}

#[test]
fn blit_of_nothing_is_a_no_op() {
    let mut display = Display::new();
    display.blit_row(0xFF, 0, 0);
    assert!(!display.blit(&[], 0, 0));
    assert!(!display.blit(&[0x00, 0x00], 0, 0));
    assert_eq!(lit(&display).len(), 8);
}

#[test]
fn clear_turns_everything_off() {
    let mut display = Display::new();
    display.blit(&[0xFF; 15], 7, 7);
    assert_eq!(lit(&display).len(), 120);
    display.clear();
    assert!(lit(&display).is_empty());
}

#[test]
fn snapshot_is_a_copy() {
    let mut display = Display::new();
    display.blit_row(0x80, 1, 1);
    let before = display.snapshot();
    display.clear();
    assert!(before[65]);
    assert!(!display.snapshot()[65]);
}

#[test]
fn keypad_starts_with_all_keys_up() {
    let keypad = Keypad::new();
    assert_eq!(keypad.snapshot(), [false; 16]);
    assert_eq!(keypad.await_any_pressed(), None);
}

#[test]
fn keypad_set_updates_one_key() {
    let mut keypad = Keypad::new();
    keypad.set(0xA, true);
    let mut expected = [false; 16];
    expected[0xA] = true;
    assert_eq!(keypad.snapshot(), expected);
    assert!(keypad.is_pressed(0xA));
    assert!(!keypad.is_pressed(0xB));
    keypad.set(0xA, false);
    assert_eq!(keypad.snapshot(), [false; 16]);
}

#[test]
fn keypad_ignores_keys_that_do_not_exist() {
    let mut keypad = Keypad::new();
    keypad.set(16, true);
    keypad.set(255, true);
    assert_eq!(keypad.snapshot(), [false; 16]);
    assert!(!keypad.is_pressed(16));
}

#[test]
fn await_any_pressed_names_the_lowest_key() {
    let mut keypad = Keypad::new();
    keypad.set(0xF, true);
    assert_eq!(keypad.await_any_pressed(), Some(0xF));
    keypad.set(3, true);
    keypad.set(9, true);
    assert_eq!(keypad.await_any_pressed(), Some(3));
    keypad.set(0, true);
    assert_eq!(keypad.await_any_pressed(), Some(0));
    keypad.set(0, false);
    keypad.set(3, false);
    assert_eq!(keypad.await_any_pressed(), Some(9));
}

#[test]
fn fuse_trips_once_and_for_all() {
    let mut fuse = Fuse::new();
    assert!(!fuse.is_tripped());
    fuse.trip();
    assert!(fuse.is_tripped());
    fuse.trip();
    assert!(fuse.is_tripped());
}

#[test]
fn frame_forwards_key_events_and_returns_the_picture() {
    let mut fuse = Fuse::new();
    let mut keypad = Keypad::new();
    let mut display = Display::new();
    display.blit_row(0x80, 5, 6);
    let events = [
        UiEvent::KeyDown(1),
        UiEvent::KeyDown(2),
        UiEvent::KeyUp(1),
        UiEvent::KeyDown(99),
    ];
    let shown = frame(&mut fuse, &mut keypad, &display, &events);
    assert_eq!(shown, Some(display.snapshot()));
    assert!(shown.unwrap()[6 * 64 + 5]);
    assert!(!keypad.is_pressed(1));
    assert!(keypad.is_pressed(2));
    assert!(!fuse.is_tripped());
}

#[test]
fn frame_without_events_only_renders() {
    let mut fuse = Fuse::new();
    let mut keypad = Keypad::new();
    keypad.set(4, true);
    let display = Display::new();
    assert_eq!(frame(&mut fuse, &mut keypad, &display, &[]), Some([false; 2048]));
    assert!(keypad.is_pressed(4));
}

#[test]
fn frame_trips_the_fuse_on_close() {
    let mut fuse = Fuse::new();
    let mut keypad = Keypad::new();
    let display = Display::new();
    let events = [UiEvent::KeyDown(3), UiEvent::Close, UiEvent::KeyDown(4)];
    assert_eq!(frame(&mut fuse, &mut keypad, &display, &events), None);
    assert!(fuse.is_tripped());
    assert!(keypad.is_pressed(3));
    assert!(keypad.is_pressed(4));
}

#[test]
fn frame_ends_at_once_when_the_fuse_is_tripped() {
    let mut fuse = Fuse::new();
    fuse.trip();
    let mut keypad = Keypad::new();
    let display = Display::new();
    assert_eq!(frame(&mut fuse, &mut keypad, &display, &[UiEvent::KeyDown(3)]), None);
    assert!(!keypad.is_pressed(3));
    assert!(fuse.is_tripped());
}
