use chip8::display::Display;
use chip8::fault::Fault;
use chip8::fuse::Fuse;
use chip8::interpreter::Interpreter;
use chip8::keypad::Keypad;
use chip8::scheduler::{
    cycles_or_default, tick_interval_nanos, Scheduler, TickOutcome, DEFAULT_CYCLES_PER_TICK,
    DEFAULT_FREQUENCY_HZ,
};

const SET_TIMERS_THEN_SPIN: [u8; 8] = [0x60, 0xFF, 0xF0, 0x15, 0xF0, 0x18, 0x12, 0x06];

fn machine(program: &[u8]) -> (Interpreter, Keypad, Display, Fuse) {
    (Interpreter::load(program).unwrap(), Keypad::new(), Display::new(), Fuse::new())
}

fn timer_ticks_in_one_second(cycles: usize, ticks_per_second: u64) -> u8 {
    let (mut vm, keypad, mut display, mut fuse) = machine(&SET_TIMERS_THEN_SPIN);
    let mut warm_up = Scheduler::new(0, 3).unwrap();
    let outcome = warm_up.tick(&mut vm, &keypad, &mut display, &mut fuse, 0, &[0; 3]);
    assert_eq!(outcome, TickOutcome::Continue);
    assert_eq!(vm.delay_timer(), 255);
    let interval = 1_000_000_000 / ticks_per_second;
    let mut scheduler = Scheduler::new(interval, cycles).unwrap();
    let randoms = vec![0u8; cycles];
    for _ in 0..ticks_per_second {
        let outcome = scheduler.tick(&mut vm, &keypad, &mut display, &mut fuse, interval, &randoms);
        assert_eq!(outcome, TickOutcome::Continue);
    }
    assert_eq!(vm.delay_timer(), vm.sound_timer());
    255 - vm.delay_timer()
}

#[test]
fn new_refuses_an_empty_batch() {
    assert!(Scheduler::new(1000, 0).is_none());
    let scheduler = Scheduler::new(1000, 1).unwrap();
    assert_eq!(scheduler.cycles_per_tick(), 1);
    assert_eq!(scheduler.tick_nanos(), 1000);
}

#[test]
fn default_batch_is_fourteen() {
    assert_eq!(DEFAULT_CYCLES_PER_TICK, 14);
    assert_eq!(cycles_or_default(None), 14);
    assert_eq!(cycles_or_default(Some(10)), 10);
    assert_eq!(cycles_or_default(Some(0)), 0);
}

#[test]
fn tick_interval_is_cycles_over_frequency() {
    assert_eq!(DEFAULT_FREQUENCY_HZ, 1_760_000);
    assert_eq!(tick_interval_nanos(1_760_000, 14), Some(7954));
    assert_eq!(tick_interval_nanos(1_760_000, 1), Some(568));
    assert_eq!(tick_interval_nanos(60, 1), Some(16_666_666));
    assert_eq!(tick_interval_nanos(1, 1), Some(1_000_000_000));
    assert_eq!(tick_interval_nanos(500, 10), Some(20_000_000));
    assert_eq!(tick_interval_nanos(u64::MAX, 1), Some(0));
}

#[test]
fn tick_interval_needs_a_running_clock() {
    assert_eq!(tick_interval_nanos(0, 14), None);
    assert_eq!(tick_interval_nanos(0, 0), None);
}

#[test]
fn tick_interval_must_fit() {
    assert_eq!(tick_interval_nanos(1, usize::MAX), None);
    assert_eq!(tick_interval_nanos(1, 18_446_744_073), Some(18_446_744_073_000_000_000));
    assert_eq!(tick_interval_nanos(1, 18_446_744_074), None);
}

#[test]
fn tick_runs_the_whole_batch_in_order() {
    let program = [0x60, 0x01, 0x70, 0x01, 0x70, 0x01, 0x70, 0x01, 0x70, 0x01, 0x70, 0x01];
    let (mut vm, keypad, mut display, mut fuse) = machine(&program);
    let mut scheduler = Scheduler::new(1000, 3).unwrap();
    let outcome = scheduler.tick(&mut vm, &keypad, &mut display, &mut fuse, 1000, &[0; 3]);
    assert_eq!(outcome, TickOutcome::Continue);
    assert_eq!(vm.pc(), 0x206);
    assert_eq!(vm.registers()[0], 3);
    let outcome = scheduler.tick(&mut vm, &keypad, &mut display, &mut fuse, 1000, &[0; 3]);
    assert_eq!(outcome, TickOutcome::Continue);
    assert_eq!(vm.pc(), 0x20C);
    assert_eq!(vm.registers()[0], 6);
}

#[test]
fn tick_hands_each_step_its_own_random_byte() {
    let program = [0xC0, 0xFF, 0xC1, 0xFF, 0xC2, 0x0F];
    let (mut vm, keypad, mut display, mut fuse) = machine(&program);
    let mut scheduler = Scheduler::new(1000, 3).unwrap();
    let randoms = [0x11, 0x22, 0x33, 0x44];
    let outcome = scheduler.tick(&mut vm, &keypad, &mut display, &mut fuse, 1000, &randoms);
    assert_eq!(outcome, TickOutcome::Continue);
    let v = vm.registers();
    assert_eq!((v[0], v[1], v[2]), (0x11, 0x22, 0x03));
}

#[test]
fn tick_on_a_tripped_fuse_runs_nothing() {
    let (mut vm, keypad, mut display, mut fuse) = machine(&SET_TIMERS_THEN_SPIN);
    fuse.trip();
    let mut scheduler = Scheduler::new(1000, 5).unwrap();
    let outcome =
        scheduler.tick(&mut vm, &keypad, &mut display, &mut fuse, 1_000_000_000, &[0; 5]);
    assert_eq!(outcome, TickOutcome::Stopped);
    assert_eq!(vm.pc(), 0x200);
    assert_eq!(vm.registers(), [0u8; 16]);
    assert!(fuse.is_tripped());
}

#[test]
fn tick_trips_the_fuse_on_a_fault() {
    let program = [0x60, 0x01, 0xFF, 0xFF, 0x60, 0x02];
    let (mut vm, keypad, mut display, mut fuse) = machine(&program);
    let mut scheduler = Scheduler::new(1000, 5).unwrap();
    let outcome = scheduler.tick(&mut vm, &keypad, &mut display, &mut fuse, 1000, &[0; 5]);
    assert_eq!(outcome, TickOutcome::Faulted(Fault::InvalidOpcode { opcode: 0xFFFF }));
    assert!(fuse.is_tripped());
    assert_eq!(vm.registers()[0], 1);
    assert_eq!(vm.pc(), 0x204);
    let outcome = scheduler.tick(&mut vm, &keypad, &mut display, &mut fuse, 1000, &[0; 5]);
    assert_eq!(outcome, TickOutcome::Stopped);
    assert_eq!(vm.pc(), 0x204);
}

#[test]
fn tick_leaves_timers_alone_on_a_fault() {
    let program = [0x60, 0x09, 0xF0, 0x15, 0x00, 0xEE];
    let (mut vm, keypad, mut display, mut fuse) = machine(&program);
    let mut scheduler = Scheduler::new(1000, 3).unwrap();
    let outcome =
        scheduler.tick(&mut vm, &keypad, &mut display, &mut fuse, 1_000_000_000, &[0; 3]);
    assert_eq!(outcome, TickOutcome::Faulted(Fault::StackUnderflow));
    assert_eq!(vm.delay_timer(), 9);
}

#[test]
fn tick_stays_responsive_during_a_key_wait() {
    let program = [0xF0, 0x0A, 0x61, 0x07, 0x12, 0x04];
    let (mut vm, mut keypad, mut display, mut fuse) = machine(&program);
    let mut scheduler = Scheduler::new(1000, 4).unwrap();
    for _ in 0..3 {
        let outcome = scheduler.tick(&mut vm, &keypad, &mut display, &mut fuse, 1000, &[0; 4]);
        assert_eq!(outcome, TickOutcome::Continue);
        assert!(vm.is_waiting_for_key());
        assert_eq!(vm.pc(), 0x202);
    }
    keypad.set(5, true);
    let outcome = scheduler.tick(&mut vm, &keypad, &mut display, &mut fuse, 1000, &[0; 4]);
    assert_eq!(outcome, TickOutcome::Continue);
    assert!(!vm.is_waiting_for_key());
    assert_eq!(vm.registers()[0], 5);
    assert_eq!(vm.registers()[1], 7);
    fuse.trip();
    let outcome = scheduler.tick(&mut vm, &keypad, &mut display, &mut fuse, 1000, &[0; 4]);
    assert_eq!(outcome, TickOutcome::Stopped);
}

#[test]
fn timers_tick_while_waiting_for_a_key() {
    let program = [0x60, 0x0A, 0xF0, 0x15, 0xF1, 0x0A];
    let (mut vm, keypad, mut display, mut fuse) = machine(&program);
    let mut scheduler = Scheduler::new(1000, 3).unwrap();
    let second = 1_000_000_000u64;
    scheduler.tick(&mut vm, &keypad, &mut display, &mut fuse, 0, &[0; 3]);
    assert_eq!(vm.delay_timer(), 10);
    scheduler.tick(&mut vm, &keypad, &mut display, &mut fuse, second / 20, &[0; 3]);
    assert_eq!(vm.delay_timer(), 7);
}

#[test]
fn timer_cadence_does_not_depend_on_cycles_per_tick() {
    for cycles in [1usize, 2, 7, 14, 100, 1000] {
        assert_eq!(timer_ticks_in_one_second(cycles, 1000), 60, "{} cycles", cycles);
    }
}

#[test]
fn timer_cadence_does_not_depend_on_tick_length() {
    for ticks_per_second in [1u64, 10, 50, 100, 500, 2000, 10_000] {
        assert_eq!(timer_ticks_in_one_second(14, ticks_per_second), 60, "{}", ticks_per_second);
    }
}

#[test]
fn timers_keep_the_remainder_between_ticks() {
    let (mut vm, keypad, mut display, mut fuse) = machine(&SET_TIMERS_THEN_SPIN);
    let mut scheduler = Scheduler::new(0, 3).unwrap();
    scheduler.tick(&mut vm, &keypad, &mut display, &mut fuse, 0, &[0; 3]);
    assert_eq!(vm.delay_timer(), 255);
    scheduler.tick(&mut vm, &keypad, &mut display, &mut fuse, 16_666_666, &[0; 3]);
    assert_eq!(vm.delay_timer(), 255);
    scheduler.tick(&mut vm, &keypad, &mut display, &mut fuse, 1, &[0; 3]);
    assert_eq!(vm.delay_timer(), 254);
    scheduler.tick(&mut vm, &keypad, &mut display, &mut fuse, 33_333_333, &[0; 3]);
    assert_eq!(vm.delay_timer(), 252);
}

#[test]
fn a_long_tick_brings_the_timers_to_zero() {
    let (mut vm, keypad, mut display, mut fuse) = machine(&SET_TIMERS_THEN_SPIN);
    let mut scheduler = Scheduler::new(0, 3).unwrap();
    let outcome = scheduler.tick(&mut vm, &keypad, &mut display, &mut fuse, u64::MAX, &[0; 3]);
    assert_eq!(outcome, TickOutcome::Continue);
    assert_eq!(vm.delay_timer(), 0);
    assert_eq!(vm.sound_timer(), 0);
}
