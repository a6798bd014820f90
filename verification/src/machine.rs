//! The mathematical model of the machine: its state and what one step does
//! to it.

use crate::display::{blank_screen, blit_collides, blit_spec};
use crate::fault::{Fault, StepOutcome};
use crate::instruction::{decode_spec, Instruction};
use crate::keypad::first_pressed;
use vstd::prelude::*;

verus! {

/// Bytes of memory, addressed `0x000..=0xFFF`.
pub const MEMORY_SIZE: usize = 4096;

/// Where a program image is loaded and where execution starts.
pub const PROGRAM_START: u16 = 0x200;

/// The longest program image that fits.
pub const MAX_IMAGE_SIZE: usize = 3584;

/// Return addresses the stack can hold.
pub const STACK_DEPTH: usize = 16;

/// Bytes per font sprite.
pub const FONT_SPRITE_SIZE: u16 = 5;

/// The built-in sprites of the digits `0` to `F`, five bytes each, as they
/// lie at the bottom of memory.
pub open spec fn font() -> Seq<u8> {
    seq![
        0xF0u8, 0x90, 0x90, 0x90, 0xF0,
        0x20, 0x60, 0x20, 0x20, 0x70,
        0xF0, 0x10, 0xF0, 0x80, 0xF0,
        0xF0, 0x10, 0xF0, 0x10, 0xF0,
        0x90, 0x90, 0xF0, 0x10, 0x10,
        0xF0, 0x80, 0xF0, 0x10, 0xF0,
        0xF0, 0x80, 0xF0, 0x90, 0xF0,
        0xF0, 0x10, 0x20, 0x40, 0x40,
        0xF0, 0x90, 0xF0, 0x90, 0xF0,
        0xF0, 0x90, 0xF0, 0x10, 0xF0,
        0xF0, 0x90, 0xF0, 0x90, 0x90,
        0xE0, 0x90, 0xE0, 0x90, 0xE0,
        0xF0, 0x80, 0x80, 0x80, 0xF0,
        0xE0, 0x90, 0x90, 0x90, 0xE0,
        0xF0, 0x80, 0xF0, 0x80, 0xF0,
        0xF0, 0x80, 0xF0, 0x80, 0x80,
    ]
}

/// The state that the interpreter owns.
pub struct Machine {
    /// The 4096 bytes of memory.
    pub memory: Seq<u8>,
    /// The registers `V0` to `VF`.
    pub v: Seq<u8>,
    /// The index register `I`.
    pub i: u16,
    /// The program counter.
    pub pc: u16,
    /// The stacked return addresses, the innermost call last.
    pub stack: Seq<u16>,
    /// The delay timer.
    pub delay: u8,
    /// The sound timer.
    pub sound: u8,
    /// The register that a pending key wait will fill.
    pub waiting: Option<u8>,
}

/// What one step leaves behind.
pub struct Step {
    /// The machine after the step.
    pub machine: Machine,
    /// The screen after the step.
    pub screen: Seq<bool>,
    /// What the step reports.
    pub result: Result<StepOutcome, Fault>,
}

impl Machine {
    /// The sizes that every machine keeps: 4096 bytes, sixteen registers,
    /// at most sixteen return addresses, and a key wait on a real register.
    pub open spec fn wf(self) -> bool {
        &&& self.memory.len() == 4096
        &&& self.v.len() == 16
        &&& self.stack.len() <= 16
        &&& self.waiting matches Some(x) ==> x < 16
    }

    /// The machine with `Vx` set to `value`.
    pub open spec fn with_v(self, x: u8, value: u8) -> Machine {
        Machine { v: self.v.update(x as int, value), ..self }
    }

    /// The machine with `Vx` set to `value` and then `VF` to the flag.
    pub open spec fn with_flagged(self, x: u8, value: u8, flag: bool) -> Machine {
        Machine {
            v: self.v.update(x as int, value).update(
                0xF,
                if flag {
                    1u8
                } else {
                    0u8
                },
            ),
            ..self
        }
    }

    /// The machine with the program counter moved on by one instruction.
    pub open spec fn advanced(self) -> Machine {
        Machine { pc: next_pc(self.pc), ..self }
    }

    /// The machine with the next instruction skipped if `condition` holds.
    pub open spec fn skipping(self, condition: bool) -> Machine {
        if condition {
            self.advanced()
        } else {
            self
        }
    }

    /// The machine with both timers `count` ticks further down, neither
    /// below zero.
    pub open spec fn with_timers_down(self, count: int) -> Machine {
        Machine {
            delay: timer_down(self.delay, count),
            sound: timer_down(self.sound, count),
            ..self
        }
    }
}

/// The address of the instruction after the one at `pc`.
pub open spec fn next_pc(pc: u16) -> u16 {
    ((pc + 2) % 0x10000) as u16
}

/// A timer after `count` ticks: `count` lower, but never below zero.
pub open spec fn timer_down(timer: u8, count: int) -> u8 {
    if count >= timer {
        0
    } else if count <= 0 {
        timer
    } else {
        (timer - count) as u8
    }
}

/// The machine as it starts on a program image: the font at the bottom of
/// memory, the image from `0x200` on, everything else zero, and the program
/// counter on the first byte of the image.
pub open spec fn boot(image: Seq<u8>) -> Machine {
    Machine {
        memory: Seq::new(
            4096,
            |a: int|
                if a < 80 {
                    font()[a]
                } else if 0x200 <= a < 0x200 + image.len() {
                    image[a - 0x200]
                } else {
                    0u8
                },
        ),
        v: Seq::new(16, |k: int| 0u8),
        i: 0,
        pc: 0x200,
        stack: Seq::empty(),
        delay: 0,
        sound: 0,
        waiting: None,
    }
}

/// The opcode at the program counter, high byte first, if both its bytes
/// lie in memory.
pub open spec fn fetch(m: Machine) -> Option<u16> {
    if m.pc + 1 < 4096 {
        Some((m.memory[m.pc as int] * 0x100 + m.memory[m.pc + 1]) as u16)
    } else {
        None
    }
}

/// A step that ran to completion.
pub open spec fn executed(machine: Machine, screen: Seq<bool>) -> Step {
    Step { machine, screen, result: Ok(StepOutcome::Executed) }
}

/// A step that faulted before it changed anything else.
pub open spec fn faulted(machine: Machine, screen: Seq<bool>, fault: Fault) -> Step {
    Step { machine, screen, result: Err(fault) }
}

/// A step that left the screen alone.
pub open spec fn settled(end: (Machine, Result<StepOutcome, Fault>), screen: Seq<bool>) -> Step {
    Step { machine: end.0, screen, result: end.1 }
}

/// What a machine parked on a key wait does: with a key down, the awaited
/// register takes the number of the lowest such key and the wait is over;
/// with none, nothing changes.
#[verifier::opaque]
pub open spec fn poll_spec(m: Machine, keys: Seq<bool>) -> (Machine, Result<StepOutcome, Fault>) {
    match (m.waiting, first_pressed(keys)) {
        (Some(x), Some(key)) => (
            Machine { waiting: None, ..m.with_v(x, key) },
            Ok(StepOutcome::Executed),
        ),
        (Some(x), None) => (m, Ok(StepOutcome::WaitingForKey)),
        (None, _) => (m, Ok(StepOutcome::Executed)),
    }
}

/// A return: the program counter takes the innermost return address, which
/// leaves the stack. With nothing stacked it is a fault.
pub open spec fn return_spec(m: Machine) -> (Machine, Result<StepOutcome, Fault>) {
    if m.stack.len() == 0 {
        (m, Err(Fault::StackUnderflow))
    } else {
        (
            Machine { pc: m.stack.last(), stack: m.stack.drop_last(), ..m },
            Ok(StepOutcome::Executed),
        )
    }
}

/// A call: the address of the next instruction is stacked and execution
/// continues at `addr`. With sixteen addresses stacked it is a fault.
pub open spec fn call_spec(m: Machine, addr: u16) -> (Machine, Result<StepOutcome, Fault>) {
    if m.stack.len() >= 16 {
        (m, Err(Fault::StackOverflow))
    } else {
        (Machine { pc: addr, stack: m.stack.push(m.pc), ..m }, Ok(StepOutcome::Executed))
    }
}

/// A draw: the `rows` bytes at `I` are XORed onto the screen at
/// (`Vx`, `Vy`) and `VF` tells whether that turned a lit pixel off. A sprite
/// that reaches past the end of memory is a fault.
#[verifier::opaque]
pub open spec fn draw_spec(m: Machine, x: u8, y: u8, rows: u8, screen: Seq<bool>) -> Step {
    if m.i + rows > 4096 {
        faulted(m, screen, Fault::MemoryOutOfBounds)
    } else {
        let sprite = m.memory.subrange(m.i as int, m.i + rows);
        let (left, top) = (m.v[x as int] as int, m.v[y as int] as int);
        executed(
            Machine {
                v: m.v.update(
                    0xF,
                    if blit_collides(screen, sprite, left, top) {
                        1u8
                    } else {
                        0u8
                    },
                ),
                ..m
            },
            blit_spec(screen, sprite, left, top),
        )
    }
}

/// Storing the decimal digits of `Vx` at `I`, `I + 1` and `I + 2`.
#[verifier::opaque]
pub open spec fn store_bcd_spec(m: Machine, x: u8) -> (Machine, Result<StepOutcome, Fault>) {
    if m.i + 3 > 4096 {
        (m, Err(Fault::MemoryOutOfBounds))
    } else {
        (
            Machine { memory: write_bytes(m.memory, m.i as int, bcd(m.v[x as int])), ..m },
            Ok(StepOutcome::Executed),
        )
    }
}

/// Storing `V0..=Vx` from `I` on.
#[verifier::opaque]
pub open spec fn store_registers_spec(m: Machine, x: u8) -> (Machine, Result<StepOutcome, Fault>) {
    if m.i + x + 1 > 4096 {
        (m, Err(Fault::MemoryOutOfBounds))
    } else {
        (
            Machine { memory: write_bytes(m.memory, m.i as int, m.v.take(x + 1)), ..m },
            Ok(StepOutcome::Executed),
        )
    }
}

/// Loading `V0..=Vx` from `I` on.
#[verifier::opaque]
pub open spec fn load_registers_spec(m: Machine, x: u8) -> (Machine, Result<StepOutcome, Fault>) {
    if m.i + x + 1 > 4096 {
        (m, Err(Fault::MemoryOutOfBounds))
    } else {
        (
            Machine { v: write_bytes(m.v, 0, m.memory.subrange(m.i as int, m.i + x + 1)), ..m },
            Ok(StepOutcome::Executed),
        )
    }
}

/// The three decimal digits of a byte, hundreds first.
pub open spec fn bcd(value: u8) -> Seq<u8> {
    seq![(value / 100) as u8, ((value / 10) % 10) as u8, (value % 10) as u8]
}

/// Memory with `bytes` written from `start` on.
pub open spec fn write_bytes(memory: Seq<u8>, start: int, bytes: Seq<u8>) -> Seq<u8> {
    Seq::new(
        memory.len(),
        |a: int|
            if start <= a < start + bytes.len() {
                bytes[a - start]
            } else {
                memory[a]
            },
    )
}

/// The register that an arithmetic or logic instruction computes.
pub open spec fn target(ins: Instruction) -> u8 {
    match ins {
        Instruction::Load { x, .. }
        | Instruction::Add { x, .. }
        | Instruction::Move { x, .. }
        | Instruction::Or { x, .. }
        | Instruction::And { x, .. }
        | Instruction::Xor { x, .. }
        | Instruction::AddRegister { x, .. }
        | Instruction::Subtract { x, .. }
        | Instruction::SubtractReversed { x, .. }
        | Instruction::ShiftRight { x, .. }
        | Instruction::ShiftLeft { x, .. } => x,
        _ => 0,
    }
}

/// The second operand of an arithmetic or logic instruction: its immediate
/// byte, or what `Vy` holds.
pub open spec fn operand(v: Seq<u8>, ins: Instruction) -> u8 {
    match ins {
        Instruction::Load { byte, .. } | Instruction::Add { byte, .. } => byte,
        Instruction::Move { y, .. }
        | Instruction::Or { y, .. }
        | Instruction::And { y, .. }
        | Instruction::Xor { y, .. }
        | Instruction::AddRegister { y, .. }
        | Instruction::Subtract { y, .. }
        | Instruction::SubtractReversed { y, .. }
        | Instruction::ShiftRight { y, .. }
        | Instruction::ShiftLeft { y, .. } => v[y as int],
        _ => 0,
    }
}

/// What an arithmetic or logic instruction computes from `a`, the value of
/// `Vx`, and `b`, its second operand: the new value of `Vx` and, where the
/// instruction sets the flag, the flag. Addition flags a carry, the two
/// subtractions flag that nothing was borrowed, the shifts flag the bit
/// that was shifted out.
pub open spec fn alu_value(ins: Instruction, a: u8, b: u8) -> (u8, Option<bool>) {
    match ins {
        Instruction::Load { .. } | Instruction::Move { .. } => (b, None),
        Instruction::Add { .. } => (((a + b) % 256) as u8, None),
        Instruction::Or { .. } => (a | b, None),
        Instruction::And { .. } => (a & b, None),
        Instruction::Xor { .. } => (a ^ b, None),
        Instruction::AddRegister { .. } => (((a + b) % 256) as u8, Some(a + b > 255)),
        Instruction::Subtract { .. } => (((a - b) % 256) as u8, Some(a >= b)),
        Instruction::SubtractReversed { .. } => (((b - a) % 256) as u8, Some(b >= a)),
        Instruction::ShiftRight { .. } => ((a / 2) as u8, Some(a % 2 == 1)),
        Instruction::ShiftLeft { .. } => (((a * 2) % 256) as u8, Some(a >= 128)),
        _ => (a, None),
    }
}

/// What an arithmetic or logic instruction leaves in the registers: its
/// value in `Vx` and then, where it sets one, its flag in `VF`.
pub open spec fn alu_spec(m: Machine, ins: Instruction) -> Machine {
    let x = target(ins);
    let (value, flag) = alu_value(ins, m.v[x as int], operand(m.v, ins));
    match flag {
        Some(flag) => m.with_flagged(x, value, flag),
        None => m.with_v(x, value),
    }
}

/// What executing `ins` does to a machine whose program counter already
/// points past it.
#[verifier::opaque]
pub open spec fn execute_spec(
    m: Machine,
    ins: Instruction,
    keys: Seq<bool>,
    screen: Seq<bool>,
    random: u8,
) -> Step {
    match ins {
        Instruction::ClearScreen => executed(m, blank_screen()),
        Instruction::Return => settled(return_spec(m), screen),
        Instruction::Jump { addr } => executed(Machine { pc: addr, ..m }, screen),
        Instruction::Call { addr } => settled(call_spec(m, addr), screen),
        Instruction::SkipIfEqual { x, byte } => executed(
            m.skipping(m.v[x as int] == byte),
            screen,
        ),
        Instruction::SkipIfNotEqual { x, byte } => executed(
            m.skipping(m.v[x as int] != byte),
            screen,
        ),
        Instruction::SkipIfRegistersEqual { x, y } => executed(
            m.skipping(m.v[x as int] == m.v[y as int]),
            screen,
        ),
        Instruction::SkipIfRegistersNotEqual { x, y } => executed(
            m.skipping(m.v[x as int] != m.v[y as int]),
            screen,
        ),
        Instruction::Load { .. }
        | Instruction::Add { .. }
        | Instruction::Move { .. }
        | Instruction::Or { .. }
        | Instruction::And { .. }
        | Instruction::Xor { .. }
        | Instruction::AddRegister { .. }
        | Instruction::Subtract { .. }
        | Instruction::SubtractReversed { .. }
        | Instruction::ShiftRight { .. }
        | Instruction::ShiftLeft { .. } => executed(alu_spec(m, ins), screen),
        Instruction::LoadIndex { addr } => executed(Machine { i: addr, ..m }, screen),
        Instruction::JumpOffset { addr } => executed(
            Machine { pc: ((addr + m.v[0]) % 0x10000) as u16, ..m },
            screen,
        ),
        Instruction::Random { x, byte } => executed(m.with_v(x, random & byte), screen),
        Instruction::Draw { x, y, rows } => draw_spec(m, x, y, rows, screen),
        Instruction::SkipIfKeyPressed { x } => executed(
            m.skipping(keys[m.v[x as int] as int % 16]),
            screen,
        ),
        Instruction::SkipIfKeyNotPressed { x } => executed(
            m.skipping(!keys[m.v[x as int] as int % 16]),
            screen,
        ),
        Instruction::ReadDelay { x } => executed(m.with_v(x, m.delay), screen),
        Instruction::WaitKey { x } => settled(
            poll_spec(Machine { waiting: Some(x), ..m }, keys),
            screen,
        ),
        Instruction::SetDelay { x } => executed(Machine { delay: m.v[x as int], ..m }, screen),
        Instruction::SetSound { x } => executed(Machine { sound: m.v[x as int], ..m }, screen),
        Instruction::AddIndex { x } => executed(
            Machine { i: ((m.i + m.v[x as int]) % 0x10000) as u16, ..m },
            screen,
        ),
        Instruction::FontAddress { x } => executed(
            Machine { i: ((m.v[x as int] % 16) * 5) as u16, ..m },
            screen,
        ),
        Instruction::StoreBcd { x } => settled(store_bcd_spec(m, x), screen),
        Instruction::StoreRegisters { x } => settled(store_registers_spec(m, x), screen),
        Instruction::LoadRegisters { x } => settled(load_registers_spec(m, x), screen),
    }
}

/// One step of the machine. A machine parked on a key wait polls the
/// keypad. Any other fetches the opcode at the program counter, moves the
/// program counter past it, decodes it and executes it; a fetch past the
/// end of memory faults with everything unchanged, an opcode that stands
/// for nothing faults with only the program counter moved.
#[verifier::opaque]
pub open spec fn step_spec(m: Machine, keys: Seq<bool>, screen: Seq<bool>, random: u8) -> Step {
    if m.waiting is Some {
        settled(poll_spec(m, keys), screen)
    } else {
        match fetch(m) {
            None => faulted(m, screen, Fault::MemoryOutOfBounds),
            Some(opcode) => match decode_spec(opcode) {
                None => faulted(m.advanced(), screen, Fault::InvalidOpcode { opcode }),
                Some(ins) => execute_spec(m.advanced(), ins, keys, screen, random),
            },
        }
    }
}

} // verus!
