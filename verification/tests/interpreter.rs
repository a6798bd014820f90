use chip8::display::Display;
use chip8::fault::{Fault, LoadError, StepOutcome};
use chip8::interpreter::Interpreter;
use chip8::keypad::Keypad;

fn boot(program: &[u8]) -> (Interpreter, Keypad, Display) {
    let vm = match Interpreter::load(program) {
        Ok(vm) => vm,
        Err(error) => panic!("image refused: {:?}", error),
    };
    (vm, Keypad::new(), Display::new())
}

fn run(vm: &mut Interpreter, keypad: &Keypad, display: &mut Display, steps: usize) {
    for _ in 0..steps {
        assert_eq!(vm.step(keypad, display, 0), Ok(StepOutcome::Executed));
    }
}

#[test]
fn load_accepts_every_valid_length() {
    for length in [1usize, 2, 100, 3583, 3584] {
        let image = vec![0x12u8; length];
        let vm = Interpreter::load(&image);
        assert!(vm.is_ok(), "length {}", length);
        assert_eq!(vm.unwrap().pc(), 0x200);
    }
}

#[test]
fn load_places_image_and_font() {
    let (vm, _, _) = boot(&[0xAB, 0xCD, 0xEF]);
    assert_eq!(vm.read(0x200), Ok(0xAB));
    assert_eq!(vm.read(0x201), Ok(0xCD));
    assert_eq!(vm.read(0x202), Ok(0xEF));
    assert_eq!(vm.read(0x203), Ok(0));
    assert_eq!(vm.read(0x1FF), Ok(0));
    assert_eq!(vm.read(0), Ok(0xF0));
    assert_eq!(vm.read(4), Ok(0xF0));
    assert_eq!(vm.read(5), Ok(0x20));
    assert_eq!(vm.read(75), Ok(0xF0));
    assert_eq!(vm.read(79), Ok(0x80));
    assert_eq!(vm.read(80), Ok(0));
    assert_eq!(vm.read(0xFFF), Ok(0));
    assert_eq!(vm.registers(), [0u8; 16]);
    assert_eq!(vm.index(), 0);
    assert_eq!(vm.stack_depth(), 0);
    assert_eq!(vm.delay_timer(), 0);
    assert_eq!(vm.sound_timer(), 0);
    assert!(!vm.is_waiting_for_key());
}

#[test]
fn load_fills_memory_to_its_end() {
    let mut image = vec![0u8; 3584];
    image[3583] = 0x77;
    let (vm, _, _) = boot(&image);
    assert_eq!(vm.read(0xFFF), Ok(0x77));
}

#[test]
fn load_rejects_empty_image() {
    assert!(matches!(Interpreter::load(&[]), Err(LoadError::Empty)));
}

#[test]
fn load_rejects_oversized_image() {
    let image = vec![0u8; 3585];
    assert!(matches!(Interpreter::load(&image), Err(LoadError::TooLarge)));
    let image = vec![0u8; 10_000];
    assert!(matches!(Interpreter::load(&image), Err(LoadError::TooLarge)));
}

#[test]
fn read_and_write_are_range_checked() {
    let (mut vm, _, _) = boot(&[0x00, 0xE0]);
    assert_eq!(vm.read(4095), Ok(0));
    assert_eq!(vm.read(4096), Err(Fault::MemoryOutOfBounds));
    assert_eq!(vm.read(0xFFFF), Err(Fault::MemoryOutOfBounds));
    assert_eq!(vm.write(4095, 9), Ok(()));
    assert_eq!(vm.read(4095), Ok(9));
    assert_eq!(vm.write(4096, 9), Err(Fault::MemoryOutOfBounds));
}

#[test]
fn clear_screen_darkens_every_pixel() {
    let (mut vm, keypad, mut display) = boot(&[0x00, 0xE0]);
    display.blit(&[0xFF, 0x81, 0xFF], 3, 4);
    assert!(display.snapshot().iter().any(|lit| *lit));
    run(&mut vm, &keypad, &mut display, 1);
    assert!(display.snapshot().iter().all(|lit| !*lit));
    assert_eq!(vm.pc(), 0x202);
}

#[test]
fn load_load_add_sequence() {
    let (mut vm, keypad, mut display) = boot(&[0x60, 0x05, 0x61, 0x03, 0x80, 0x14]);
    run(&mut vm, &keypad, &mut display, 3);
    let v = vm.registers();
    assert_eq!(v[0], 8);
    assert_eq!(v[1], 3);
    assert_eq!(v[0xF], 0);
    assert_eq!(vm.pc(), 0x206);
}

#[test]
fn add_with_carry_wraps_and_sets_flag() {
    let (mut vm, keypad, mut display) = boot(&[0x60, 0xF0, 0x61, 0x20, 0x80, 0x14]);
    run(&mut vm, &keypad, &mut display, 3);
    let v = vm.registers();
    assert_eq!(v[0], 0x10);
    assert_eq!(v[0xF], 1);
}

#[test]
fn add_to_255_does_not_carry() {
    let (mut vm, keypad, mut display) = boot(&[0x60, 0xF0, 0x61, 0x0F, 0x80, 0x14]);
    run(&mut vm, &keypad, &mut display, 3);
    let v = vm.registers();
    assert_eq!(v[0], 0xFF);
    assert_eq!(v[0xF], 0);
}

#[test]
fn add_into_flag_register_keeps_the_flag() {
    let (mut vm, keypad, mut display) = boot(&[0x6F, 0xF0, 0x61, 0x20, 0x8F, 0x14]);
    run(&mut vm, &keypad, &mut display, 3);
    assert_eq!(vm.registers()[0xF], 1);
}

#[test]
fn add_immediate_wraps_without_flag() {
    let (mut vm, keypad, mut display) = boot(&[0x60, 0xFF, 0x70, 0x02]);
    run(&mut vm, &keypad, &mut display, 2);
    let v = vm.registers();
    assert_eq!(v[0], 1);
    assert_eq!(v[0xF], 0);
}

#[test]
fn subtract_sets_flag_when_nothing_is_borrowed() {
    let (mut vm, keypad, mut display) = boot(&[0x60, 0x09, 0x61, 0x04, 0x80, 0x15]);
    run(&mut vm, &keypad, &mut display, 3);
    let v = vm.registers();
    assert_eq!(v[0], 5);
    assert_eq!(v[0xF], 1);
}

#[test]
fn subtract_wraps_and_clears_flag_on_borrow() {
    let (mut vm, keypad, mut display) = boot(&[0x60, 0x04, 0x61, 0x09, 0x80, 0x15]);
    run(&mut vm, &keypad, &mut display, 3);
    let v = vm.registers();
    assert_eq!(v[0], 251);
    assert_eq!(v[0xF], 0);
}

#[test]
fn subtract_equal_values_sets_flag() {
    let (mut vm, keypad, mut display) = boot(&[0x60, 0x07, 0x61, 0x07, 0x80, 0x15]);
    run(&mut vm, &keypad, &mut display, 3);
    let v = vm.registers();
    assert_eq!(v[0], 0);
    assert_eq!(v[0xF], 1);
}

#[test]
fn reversed_subtract_takes_vx_from_vy() {
    let (mut vm, keypad, mut display) = boot(&[0x60, 0x04, 0x61, 0x09, 0x80, 0x17]);
    run(&mut vm, &keypad, &mut display, 3);
    let v = vm.registers();
    assert_eq!(v[0], 5);
    assert_eq!(v[0xF], 1);
}

#[test]
fn reversed_subtract_borrows() {
    let (mut vm, keypad, mut display) = boot(&[0x60, 0x09, 0x61, 0x04, 0x80, 0x17]);
    run(&mut vm, &keypad, &mut display, 3);
    let v = vm.registers();
    assert_eq!(v[0], 251);
    assert_eq!(v[0xF], 0);
}

#[test]
fn shift_right_moves_low_bit_to_flag() {
    let (mut vm, keypad, mut display) = boot(&[0x60, 0x05, 0x80, 0x06, 0x80, 0x06]);
    run(&mut vm, &keypad, &mut display, 2);
    assert_eq!(vm.registers()[0], 2);
    assert_eq!(vm.registers()[0xF], 1);
    run(&mut vm, &keypad, &mut display, 1);
    assert_eq!(vm.registers()[0], 1);
    assert_eq!(vm.registers()[0xF], 0);
}

#[test]
fn shift_left_moves_high_bit_to_flag() {
    let (mut vm, keypad, mut display) = boot(&[0x60, 0xC1, 0x80, 0x0E, 0x80, 0x0E, 0x80, 0x0E]);
    run(&mut vm, &keypad, &mut display, 2);
    assert_eq!(vm.registers()[0], 0x82);
    assert_eq!(vm.registers()[0xF], 1);
    run(&mut vm, &keypad, &mut display, 1);
    assert_eq!(vm.registers()[0], 0x04);
    assert_eq!(vm.registers()[0xF], 1);
    run(&mut vm, &keypad, &mut display, 1);
    assert_eq!(vm.registers()[0], 0x08);
    assert_eq!(vm.registers()[0xF], 0);
}

#[test]
fn bitwise_operations() {
    let program = [
        0x60, 0x0C, 0x61, 0x0A, 0x62, 0x0C, 0x63, 0x0C, 0x64, 0x0C, 0x80, 0x11, 0x82, 0x12, 0x83,
        0x13, 0x84, 0x10,
    ];
    let (mut vm, keypad, mut display) = boot(&program);
    run(&mut vm, &keypad, &mut display, 9);
    let v = vm.registers();
    assert_eq!(v[0], 0x0E);
    assert_eq!(v[2], 0x08);
    assert_eq!(v[3], 0x06);
    assert_eq!(v[4], 0x0A);
    assert_eq!(v[0xF], 0);
}

#[test]
fn skips_compare_register_with_immediate() {
    let (mut vm, keypad, mut display) = boot(&[0x60, 0x05, 0x30, 0x05, 0x00, 0x00, 0x40, 0x05]);
    run(&mut vm, &keypad, &mut display, 2);
    assert_eq!(vm.pc(), 0x206);
    run(&mut vm, &keypad, &mut display, 1);
    assert_eq!(vm.pc(), 0x208);
}

#[test]
fn skips_not_taken() {
    let (mut vm, keypad, mut display) = boot(&[0x60, 0x05, 0x30, 0x06, 0x40, 0x06, 0x00, 0x00]);
    run(&mut vm, &keypad, &mut display, 2);
    assert_eq!(vm.pc(), 0x204);
    run(&mut vm, &keypad, &mut display, 1);
    assert_eq!(vm.pc(), 0x208);
}

#[test]
fn skips_compare_two_registers() {
    let (mut vm, keypad, mut display) =
        boot(&[0x60, 0x05, 0x61, 0x05, 0x50, 0x10, 0x00, 0x00, 0x90, 0x10, 0x62, 0x01]);
    run(&mut vm, &keypad, &mut display, 3);
    assert_eq!(vm.pc(), 0x208);
    run(&mut vm, &keypad, &mut display, 1);
    assert_eq!(vm.pc(), 0x20A);
}

#[test]
fn jump_sets_program_counter() {
    let (mut vm, keypad, mut display) = boot(&[0x1A, 0xBC]);
    run(&mut vm, &keypad, &mut display, 1);
    assert_eq!(vm.pc(), 0xABC);
}

#[test]
fn jump_with_offset_adds_v0() {
    let (mut vm, keypad, mut display) = boot(&[0x60, 0x10, 0xB3, 0x00]);
    run(&mut vm, &keypad, &mut display, 2);
    assert_eq!(vm.pc(), 0x310);
}

#[test]
fn call_then_return_resumes_after_the_call() {
    let (mut vm, keypad, mut display) = boot(&[0x22, 0x06, 0x60, 0x01, 0x00, 0x00, 0x00, 0xEE]);
    run(&mut vm, &keypad, &mut display, 1);
    assert_eq!(vm.pc(), 0x206);
    assert_eq!(vm.stack_depth(), 1);
    run(&mut vm, &keypad, &mut display, 1);
    assert_eq!(vm.pc(), 0x202);
    assert_eq!(vm.stack_depth(), 0);
    run(&mut vm, &keypad, &mut display, 1);
    assert_eq!(vm.registers()[0], 1);
}

#[test]
fn seventeen_nested_calls_overflow_the_stack() {
    let (mut vm, keypad, mut display) = boot(&[0x22, 0x00]);
    for depth in 1..=16usize {
        assert_eq!(vm.step(&keypad, &mut display, 0), Ok(StepOutcome::Executed));
        assert_eq!(vm.stack_depth(), depth);
    }
    assert_eq!(vm.step(&keypad, &mut display, 0), Err(Fault::StackOverflow));
    assert_eq!(vm.stack_depth(), 16);
}

#[test]
fn return_on_empty_stack_underflows() {
    let (mut vm, keypad, mut display) = boot(&[0x00, 0xEE]);
    assert_eq!(vm.step(&keypad, &mut display, 0), Err(Fault::StackUnderflow));
    assert_eq!(vm.pc(), 0x202);
}

#[test]
fn unknown_opcodes_are_invalid() {
    for opcode in [0x0000u16, 0x0123, 0x5121, 0x8128, 0x812F, 0x9121, 0xE100, 0xF1FF, 0xF000] {
        let image = [(opcode >> 8) as u8, (opcode & 0xFF) as u8];
        let (mut vm, keypad, mut display) = boot(&image);
        assert_eq!(
            vm.step(&keypad, &mut display, 0),
            Err(Fault::InvalidOpcode { opcode }),
            "{:04X}",
            opcode
        );
        assert_eq!(vm.pc(), 0x202);
    }
}

#[test]
fn fetch_past_the_end_of_memory_faults() {
    let (mut vm, keypad, mut display) = boot(&[0x1F, 0xFF]);
    run(&mut vm, &keypad, &mut display, 1);
    assert_eq!(vm.pc(), 0xFFF);
    assert_eq!(vm.step(&keypad, &mut display, 0), Err(Fault::MemoryOutOfBounds));
    assert_eq!(vm.pc(), 0xFFF);
}

#[test]
fn running_off_the_end_of_memory_faults() {
    let mut image = vec![0u8; 3584];
    image[0] = 0x1F;
    image[1] = 0xFE;
    image[3582] = 0x60;
    image[3583] = 0x01;
    let (mut vm, keypad, mut display) = boot(&image);
    run(&mut vm, &keypad, &mut display, 2);
    assert_eq!(vm.pc(), 0x1000);
    assert_eq!(vm.step(&keypad, &mut display, 0), Err(Fault::MemoryOutOfBounds));
}

#[test]
fn random_is_masked() {
    let (mut vm, keypad, mut display) = boot(&[0xC0, 0x0F, 0xC1, 0xF0, 0xC2, 0x00]);
    assert_eq!(vm.step(&keypad, &mut display, 0xAB), Ok(StepOutcome::Executed));
    assert_eq!(vm.step(&keypad, &mut display, 0xAB), Ok(StepOutcome::Executed));
    assert_eq!(vm.step(&keypad, &mut display, 0xAB), Ok(StepOutcome::Executed));
    let v = vm.registers();
    assert_eq!(v[0], 0x0B);
    assert_eq!(v[1], 0xA0);
    assert_eq!(v[2], 0x00);
}

#[test]
fn index_register_loads_and_adds() {
    let (mut vm, keypad, mut display) = boot(&[0xA1, 0x23, 0x60, 0x10, 0xF0, 0x1E]);
    run(&mut vm, &keypad, &mut display, 1);
    assert_eq!(vm.index(), 0x123);
    run(&mut vm, &keypad, &mut display, 2);
    assert_eq!(vm.index(), 0x133);
}

#[test]
fn font_address_is_five_times_the_digit() {
    let (mut vm, keypad, mut display) = boot(&[0x60, 0x0A, 0xF0, 0x29, 0x60, 0x1B, 0xF0, 0x29]);
    run(&mut vm, &keypad, &mut display, 2);
    assert_eq!(vm.index(), 50);
    run(&mut vm, &keypad, &mut display, 2);
    assert_eq!(vm.index(), 55);
}

#[test]
fn bcd_stores_three_digits() {
    let (mut vm, keypad, mut display) = boot(&[0x60, 0xEA, 0xA3, 0x00, 0xF0, 0x33]);
    run(&mut vm, &keypad, &mut display, 3);
    assert_eq!(vm.read(0x300), Ok(2));
    assert_eq!(vm.read(0x301), Ok(3));
    assert_eq!(vm.read(0x302), Ok(4));
    assert_eq!(vm.read(0x303), Ok(0));
    assert_eq!(vm.index(), 0x300);
}

#[test]
fn bcd_past_the_end_of_memory_faults() {
    let (mut vm, keypad, mut display) = boot(&[0xAF, 0xFE, 0xF0, 0x33]);
    run(&mut vm, &keypad, &mut display, 1);
    assert_eq!(vm.step(&keypad, &mut display, 0), Err(Fault::MemoryOutOfBounds));
    assert_eq!(vm.read(0xFFE), Ok(0));
}

#[test]
fn bcd_at_the_last_three_bytes() {
    let (mut vm, keypad, mut display) = boot(&[0x60, 0x7B, 0xAF, 0xFD, 0xF0, 0x33]);
    run(&mut vm, &keypad, &mut display, 3);
    assert_eq!(vm.read(0xFFD), Ok(1));
    assert_eq!(vm.read(0xFFE), Ok(2));
    assert_eq!(vm.read(0xFFF), Ok(3));
}

#[test]
fn registers_store_and_load() {
    let program = [
        0x60, 0x11, 0x61, 0x22, 0x62, 0x33, 0xA3, 0x00, 0xF1, 0x55, 0x60, 0x00, 0x61, 0x00, 0x62,
        0x00, 0xF2, 0x65,
    ];
    let (mut vm, keypad, mut display) = boot(&program);
    run(&mut vm, &keypad, &mut display, 5);
    assert_eq!(vm.read(0x300), Ok(0x11));
    assert_eq!(vm.read(0x301), Ok(0x22));
    assert_eq!(vm.read(0x302), Ok(0));
    assert_eq!(vm.index(), 0x300);
    run(&mut vm, &keypad, &mut display, 4);
    let v = vm.registers();
    assert_eq!(v[0], 0x11);
    assert_eq!(v[1], 0x22);
    assert_eq!(v[2], 0);
}

#[test]
fn register_store_past_the_end_of_memory_faults() {
    let (mut vm, keypad, mut display) = boot(&[0x60, 0x55, 0xAF, 0xFF, 0xF1, 0x55, 0xF1, 0x65]);
    run(&mut vm, &keypad, &mut display, 2);
    assert_eq!(vm.step(&keypad, &mut display, 0), Err(Fault::MemoryOutOfBounds));
    assert_eq!(vm.read(0xFFF), Ok(0));
    assert_eq!(vm.step(&keypad, &mut display, 0), Err(Fault::MemoryOutOfBounds));
    assert_eq!(vm.registers()[0], 0x55);
}

#[test]
fn timers_are_set_and_read() {
    let (mut vm, keypad, mut display) = boot(&[0x60, 0x2A, 0xF0, 0x15, 0xF0, 0x18, 0xF1, 0x07]);
    run(&mut vm, &keypad, &mut display, 4);
    assert_eq!(vm.delay_timer(), 42);
    assert_eq!(vm.sound_timer(), 42);
    assert_eq!(vm.registers()[1], 42);
}

#[test]
fn timers_tick_down_and_stop_at_zero() {
    let (mut vm, keypad, mut display) = boot(&[0x60, 0x03, 0xF0, 0x15, 0x60, 0x05, 0xF0, 0x18]);
    run(&mut vm, &keypad, &mut display, 4);
    vm.tick_timers(1);
    assert_eq!((vm.delay_timer(), vm.sound_timer()), (2, 4));
    vm.tick_timers(0);
    assert_eq!((vm.delay_timer(), vm.sound_timer()), (2, 4));
    vm.tick_timers(3);
    assert_eq!((vm.delay_timer(), vm.sound_timer()), (0, 1));
    vm.tick_timers(u64::MAX);
    assert_eq!((vm.delay_timer(), vm.sound_timer()), (0, 0));
}

#[test]
fn draw_reports_collision_in_flag() {
    let (mut vm, keypad, mut display) = boot(&[0xA0, 0x00, 0xD0, 0x15, 0xD0, 0x15, 0xD0, 0x15]);
    run(&mut vm, &keypad, &mut display, 2);
    assert_eq!(vm.registers()[0xF], 0);
    assert!(display.pixel(0, 0));
    assert!(display.pixel(3, 0));
    assert!(!display.pixel(4, 0));
    assert!(display.pixel(0, 1));
    assert!(!display.pixel(1, 1));
    assert!(display.pixel(3, 4));
    run(&mut vm, &keypad, &mut display, 1);
    assert_eq!(vm.registers()[0xF], 1);
    assert!(display.snapshot().iter().all(|lit| !*lit));
    run(&mut vm, &keypad, &mut display, 1);
    assert_eq!(vm.registers()[0xF], 0);
}

#[test]
fn draw_without_overlap_clears_flag() {
    let program = [0x6F, 0x01, 0xA0, 0x00, 0xD0, 0x15, 0x60, 0x08, 0xA0, 0x05, 0xD0, 0x15];
    let (mut vm, keypad, mut display) = boot(&program);
    run(&mut vm, &keypad, &mut display, 3);
    assert_eq!(vm.registers()[0xF], 0);
    run(&mut vm, &keypad, &mut display, 3);
    assert_eq!(vm.registers()[0xF], 0);
    assert!(display.pixel(0, 0));
    assert!(display.pixel(10, 0));
}

#[test]
fn draw_uses_register_coordinates() {
    let program = [0x60, 0x3E, 0x61, 0x1F, 0xA2, 0x0A, 0xD0, 0x12, 0x00, 0x00, 0xF0, 0x0F];
    let (mut vm, keypad, mut display) = boot(&program);
    run(&mut vm, &keypad, &mut display, 4);
    assert!(display.pixel(62, 31));
    assert!(display.pixel(63, 31));
    assert!(display.pixel(0, 31));
    assert!(display.pixel(1, 31));
    assert!(!display.pixel(2, 31));
    assert!(display.pixel(2, 0));
    assert!(display.pixel(5, 0));
    assert!(!display.pixel(62, 0));
    assert_eq!(display.snapshot().iter().filter(|lit| **lit).count(), 8);
}

#[test]
fn draw_past_the_end_of_memory_faults() {
    let (mut vm, keypad, mut display) = boot(&[0xAF, 0xFF, 0xD0, 0x02]);
    run(&mut vm, &keypad, &mut display, 1);
    assert_eq!(vm.step(&keypad, &mut display, 0), Err(Fault::MemoryOutOfBounds));
    assert!(display.snapshot().iter().all(|lit| !*lit));
}

#[test]
fn draw_of_no_rows_changes_nothing() {
    let (mut vm, keypad, mut display) = boot(&[0x6F, 0x07, 0xD0, 0x10]);
    run(&mut vm, &keypad, &mut display, 2);
    assert_eq!(vm.registers()[0xF], 0);
    assert!(display.snapshot().iter().all(|lit| !*lit));
}

#[test]
fn key_skips_follow_the_keypad() {
    let program = [0x60, 0x07, 0xE0, 0x9E, 0xE0, 0xA1, 0x00, 0x00, 0xE0, 0x9E, 0x00, 0x00, 0xE0, 0xA1];
    let (mut vm, mut keypad, mut display) = boot(&program);
    run(&mut vm, &keypad, &mut display, 2);
    assert_eq!(vm.pc(), 0x204);
    run(&mut vm, &keypad, &mut display, 1);
    assert_eq!(vm.pc(), 0x208);
    keypad.set(7, true);
    run(&mut vm, &keypad, &mut display, 1);
    assert_eq!(vm.pc(), 0x20C);
    run(&mut vm, &keypad, &mut display, 1);
    assert_eq!(vm.pc(), 0x20E);
}

#[test]
fn key_wait_parks_until_a_key_is_down() {
    let (mut vm, mut keypad, mut display) = boot(&[0xF3, 0x0A, 0x64, 0x01]);
    assert_eq!(vm.step(&keypad, &mut display, 0), Ok(StepOutcome::WaitingForKey));
    assert!(vm.is_waiting_for_key());
    assert_eq!(vm.pc(), 0x202);
    assert_eq!(vm.step(&keypad, &mut display, 0), Ok(StepOutcome::WaitingForKey));
    assert_eq!(vm.pc(), 0x202);
    assert_eq!(vm.registers(), [0u8; 16]);
    keypad.set(0xB, true);
    keypad.set(0xC, true);
    assert_eq!(vm.step(&keypad, &mut display, 0), Ok(StepOutcome::Executed));
    assert!(!vm.is_waiting_for_key());
    assert_eq!(vm.registers()[3], 0xB);
    assert_eq!(vm.pc(), 0x202);
    assert_eq!(vm.step(&keypad, &mut display, 0), Ok(StepOutcome::Executed));
    assert_eq!(vm.registers()[4], 1);
    assert_eq!(vm.pc(), 0x204);
}

#[test]
fn key_wait_with_a_key_already_down_does_not_park() {
    let (mut vm, mut keypad, mut display) = boot(&[0xF3, 0x0A]);
    keypad.set(2, true);
    assert_eq!(vm.step(&keypad, &mut display, 0), Ok(StepOutcome::Executed));
    assert!(!vm.is_waiting_for_key());
    assert_eq!(vm.registers()[3], 2);
}
