//! What holds of every step: the laws that the instruction semantics obey.

use crate::display::{
    blank_screen, blit_collides, blit_spec, lemma_blit_collision, lemma_blit_len,
};
use crate::fault::{Fault, StepOutcome};
use crate::instruction::{decode_spec, lemma_decode_encoding, lemma_decode_sound, Instruction};
use crate::keypad::lemma_first_pressed_from;
use crate::machine::{
    alu_spec, draw_spec, execute_spec, fetch, load_registers_spec, poll_spec, step_spec,
    store_bcd_spec, store_registers_spec, Machine, Step,
};
use vstd::prelude::*;

verus! {

/// Whether the machine is about to execute `ins`: it is not parked on a key
/// wait and the opcode at its program counter is the encoding of `ins`.
pub open spec fn about_to_execute(m: Machine, ins: Instruction) -> bool {
    &&& m.waiting is None
    &&& ins.wf()
    &&& fetch(m) == Some(ins.encoding() as u16)
}

/// A step of a machine that is about to execute `ins` moves the program
/// counter past the instruction and executes it.
pub proof fn lemma_step_executes(
    m: Machine,
    ins: Instruction,
    keys: Seq<bool>,
    screen: Seq<bool>,
    random: u8,
)
    requires
        about_to_execute(m, ins),
    ensures
        step_spec(m, keys, screen, random) == execute_spec(
            m.advanced(),
            ins,
            keys,
            screen,
            random,
        ),
        m.advanced().pc == m.pc + 2,
{
    reveal(step_spec);
    lemma_decode_encoding(ins);
}

/// A step keeps the machine and the screen at their sizes: 4096 bytes of
/// memory, sixteen registers, at most sixteen return addresses, 2048
/// pixels.
pub proof fn lemma_step_keeps_sizes(m: Machine, keys: Seq<bool>, screen: Seq<bool>, random: u8)
    requires
        m.wf(),
        keys.len() == 16,
        screen.len() == 2048,
    ensures
        step_spec(m, keys, screen, random).machine.wf(),
        step_spec(m, keys, screen, random).screen.len() == 2048,
{
    reveal(step_spec);
    reveal(execute_spec);
    reveal(poll_spec);
    reveal(draw_spec);
    reveal(store_bcd_spec);
    reveal(store_registers_spec);
    reveal(load_registers_spec);
    lemma_first_pressed_from(keys, 0);
    if m.waiting is None {
        if let Some(opcode) = fetch(m) {
            lemma_decode_sound(opcode);
            if let Some(ins) = decode_spec(opcode) {
                let next = m.advanced();
                if let Instruction::Draw { x, y, rows } = ins {
                    if next.i + rows <= 4096 {
                        lemma_blit_len(
                            screen,
                            next.memory.subrange(next.i as int, next.i + rows),
                            next.v[x as int] as int,
                            next.v[y as int] as int,
                        );
                    }
                }
            }
        }
    }
}

/// Only jumps, calls, returns and skips change where execution goes on:
/// what moves data leaves the program counter and the stack as they are.
pub proof fn lemma_moves_keep_flow(m: Machine, keys: Seq<bool>, screen: Seq<bool>)
    ensures
        poll_spec(m, keys).0.pc == m.pc && poll_spec(m, keys).0.stack == m.stack,
        forall|x: u8|
            (#[trigger] poll_spec(Machine { waiting: Some(x), ..m }, keys)).0.pc == m.pc
                && poll_spec(Machine { waiting: Some(x), ..m }, keys).0.stack == m.stack,
        forall|ins: Instruction|
            (#[trigger] alu_spec(m, ins)).pc == m.pc && alu_spec(m, ins).stack == m.stack,
        forall|x: u8, y: u8, rows: u8|
            (#[trigger] draw_spec(m, x, y, rows, screen)).machine.pc == m.pc && draw_spec(
                m,
                x,
                y,
                rows,
                screen,
            ).machine.stack == m.stack,
        forall|x: u8|
            (#[trigger] store_bcd_spec(m, x)).0.pc == m.pc && store_bcd_spec(m, x).0.stack
                == m.stack,
        forall|x: u8|
            (#[trigger] store_registers_spec(m, x)).0.pc == m.pc && store_registers_spec(
                m,
                x,
            ).0.stack == m.stack,
        forall|x: u8|
            (#[trigger] load_registers_spec(m, x)).0.pc == m.pc && load_registers_spec(
                m,
                x,
            ).0.stack == m.stack,
{
    reveal(poll_spec);
    reveal(draw_spec);
    reveal(store_bcd_spec);
    reveal(store_registers_spec);
    reveal(load_registers_spec);
}

/// Whether the program counter and every stacked return address are even.
pub open spec fn aligned(m: Machine) -> bool {
    &&& m.pc % 2 == 0
    &&& forall|k: int| 0 <= k < m.stack.len() ==> #[trigger] m.stack[k] % 2 == 0
}

/// Whether `ins`, executed by `m`, can only continue at an even address:
/// every instruction but a jump or call to an odd one.
pub open spec fn keeps_alignment(m: Machine, ins: Instruction) -> bool {
    match ins {
        Instruction::Jump { addr } | Instruction::Call { addr } => addr % 2 == 0,
        Instruction::JumpOffset { addr } => (addr + m.v[0]) % 2 == 0,
        _ => true,
    }
}

/// The program counter stays even, and so do the stacked return addresses,
/// for as long as the program does not jump to an odd address.
pub proof fn lemma_step_keeps_alignment(
    m: Machine,
    keys: Seq<bool>,
    screen: Seq<bool>,
    random: u8,
)
    requires
        m.wf(),
        aligned(m),
        m.waiting is None ==> match fetch(m) {
            Some(opcode) => match decode_spec(opcode) {
                Some(ins) => keeps_alignment(m, ins),
                None => true,
            },
            None => true,
        },
    ensures
        aligned(step_spec(m, keys, screen, random).machine),
{
    reveal(step_spec);
    reveal(execute_spec);
    lemma_moves_keep_flow(m, keys, screen);
    if m.waiting is None {
        if let Some(opcode) = fetch(m) {
            lemma_decode_sound(opcode);
            lemma_moves_keep_flow(m.advanced(), keys, screen);
        }
    }
}

/// A fetch whose two bytes do not both lie in memory is a fault that
/// changes nothing.
pub proof fn lemma_fetch_out_of_bounds(m: Machine, keys: Seq<bool>, screen: Seq<bool>, random: u8)
    requires
        m.waiting is None,
        m.pc + 1 >= 4096,
    ensures
        step_spec(m, keys, screen, random) == (Step {
            machine: m,
            screen,
            result: Err(Fault::MemoryOutOfBounds),
        }),
{
    reveal(step_spec);
}

/// An opcode that is the encoding of no well-formed instruction is a fault
/// that moves the program counter only.
pub proof fn lemma_invalid_opcode(m: Machine, keys: Seq<bool>, screen: Seq<bool>, random: u8)
    requires
        m.waiting is None,
        fetch(m) matches Some(opcode) && forall|ins: Instruction|
            ins.wf() ==> #[trigger] ins.encoding() != opcode,
    ensures
        step_spec(m, keys, screen, random) == (Step {
            machine: m.advanced(),
            screen,
            result: Err(Fault::InvalidOpcode { opcode: fetch(m)->0 }),
        }),
{
    reveal(step_spec);
    lemma_decode_sound(fetch(m)->0);
}

/// Clearing the screen leaves every pixel dark, whatever was lit.
pub proof fn lemma_clear_screen(m: Machine, keys: Seq<bool>, screen: Seq<bool>, random: u8)
    requires
        about_to_execute(m, Instruction::ClearScreen),
    ensures
        step_spec(m, keys, screen, random) == (Step {
            machine: m.advanced(),
            screen: blank_screen(),
            result: Ok(StepOutcome::Executed),
        }),
        forall|i: int| 0 <= i < 2048 ==> !step_spec(m, keys, screen, random).screen[i],
{
    reveal(execute_spec);
    lemma_step_executes(m, Instruction::ClearScreen, keys, screen, random);
}

/// Adding one register to another leaves the low byte of the sum in the
/// first and the carry in `VF`: 1 if the sum went beyond 255, else 0.
pub proof fn lemma_add_carries(
    m: Machine,
    x: u8,
    y: u8,
    keys: Seq<bool>,
    screen: Seq<bool>,
    random: u8,
)
    requires
        m.wf(),
        about_to_execute(m, Instruction::AddRegister { x, y }),
    ensures
        ({
            let s = step_spec(m, keys, screen, random);
            let sum = m.v[x as int] + m.v[y as int];
            &&& s.result == Ok::<StepOutcome, Fault>(StepOutcome::Executed)
            &&& s.screen == screen
            &&& s.machine.pc == m.pc + 2
            &&& s.machine.v[0xF] == if sum > 255 {
                1u8
            } else {
                0u8
            }
            &&& x != 0xF ==> s.machine.v[x as int] == sum % 256
            &&& forall|k: int| 0 <= k < 0xF && k != x ==> s.machine.v[k] == m.v[k]
        }),
{
    reveal(execute_spec);
    lemma_step_executes(m, Instruction::AddRegister { x, y }, keys, screen, random);
}

/// Subtracting one register from another leaves the difference modulo 256
/// in the first and "no borrow" in `VF`: 1 if nothing had to be borrowed,
/// else 0.
pub proof fn lemma_subtract_borrows(
    m: Machine,
    x: u8,
    y: u8,
    keys: Seq<bool>,
    screen: Seq<bool>,
    random: u8,
)
    requires
        m.wf(),
        about_to_execute(m, Instruction::Subtract { x, y }),
    ensures
        ({
            let s = step_spec(m, keys, screen, random);
            let (a, b) = (m.v[x as int], m.v[y as int]);
            &&& s.result == Ok::<StepOutcome, Fault>(StepOutcome::Executed)
            &&& s.machine.v[0xF] == if a >= b {
                1u8
            } else {
                0u8
            }
            &&& x != 0xF ==> s.machine.v[x as int] == if a >= b {
                a - b
            } else {
                256 + a - b
            }
        }),
{
    reveal(execute_spec);
    lemma_step_executes(m, Instruction::Subtract { x, y }, keys, screen, random);
}

/// A draw sets `VF` to 1 if it turned a lit pixel off and to 0 if it did
/// not; it faults only where the sprite reaches past the end of memory.
pub proof fn lemma_draw_flags_collision(
    m: Machine,
    x: u8,
    y: u8,
    rows: u8,
    keys: Seq<bool>,
    screen: Seq<bool>,
    random: u8,
)
    requires
        m.wf(),
        screen.len() == 2048,
        about_to_execute(m, Instruction::Draw { x, y, rows }),
    ensures
        ({
            let s = step_spec(m, keys, screen, random);
            let flipped_off = exists|i: int| 0 <= i < 2048 && screen[i] && !(#[trigger] s.screen[i]);
            if m.i + rows > 4096 {
                s == Step {
                    machine: m.advanced(),
                    screen,
                    result: Err(Fault::MemoryOutOfBounds),
                }
            } else {
                &&& s.result == Ok::<StepOutcome, Fault>(StepOutcome::Executed)
                &&& s.screen.len() == 2048
                &&& s.machine.v[0xF] == if flipped_off {
                    1u8
                } else {
                    0u8
                }
            }
        }),
{
    reveal(execute_spec);
    reveal(draw_spec);
    let ins = Instruction::Draw { x, y, rows };
    lemma_step_executes(m, ins, keys, screen, random);
    let next = m.advanced();
    let s = step_spec(m, keys, screen, random);
    assert(s == draw_spec(next, x, y, rows, screen));
    if next.i + rows <= 4096 {
        let sprite = next.memory.subrange(next.i as int, next.i + rows);
        let (left, top) = (next.v[x as int] as int, next.v[y as int] as int);
        let after = blit_spec(screen, sprite, left, top);
        lemma_blit_len(screen, sprite, left, top);
        lemma_blit_collision(screen, sprite, left, top);
        assert(s.screen == after);
        if blit_collides(screen, sprite, left, top) {
            let w = choose|i: int| 0 <= i < 2048 && screen[i] && !(#[trigger] after[i]);
            assert(screen[w] && !s.screen[w]);
        }
        if exists|i: int| 0 <= i < 2048 && screen[i] && !(#[trigger] s.screen[i]) {
            let w = choose|i: int| 0 <= i < 2048 && screen[i] && !(#[trigger] s.screen[i]);
            assert(screen[w] && !after[w]);
        }
    }
}


/// A call stacks the address of the instruction after it. With sixteen
/// addresses stacked already it is a stack overflow instead, and nothing
/// is stacked.
pub proof fn lemma_call(m: Machine, addr: u16, keys: Seq<bool>, screen: Seq<bool>, random: u8)
    requires
        about_to_execute(m, Instruction::Call { addr }),
    ensures
        ({
            let s = step_spec(m, keys, screen, random);
            if m.stack.len() >= 16 {
                s == Step { machine: m.advanced(), screen, result: Err(Fault::StackOverflow) }
            } else {
                &&& s.result == Ok::<StepOutcome, Fault>(StepOutcome::Executed)
                &&& s.screen == screen
                &&& s.machine == Machine {
                    pc: addr,
                    stack: m.stack.push((m.pc + 2) as u16),
                    ..m
                }
            }
        }),
{
    reveal(execute_spec);
    lemma_step_executes(m, Instruction::Call { addr }, keys, screen, random);
}

/// A return with nothing stacked is a stack underflow.
pub proof fn lemma_return_underflows(m: Machine, keys: Seq<bool>, screen: Seq<bool>, random: u8)
    requires
        about_to_execute(m, Instruction::Return),
        m.stack.len() == 0,
    ensures
        step_spec(m, keys, screen, random) == (Step {
            machine: m.advanced(),
            screen,
            result: Err(Fault::StackUnderflow),
        }),
{
    reveal(execute_spec);
    lemma_step_executes(m, Instruction::Return, keys, screen, random);
}

/// A call whose subroutine returns at once brings the machine back as it
/// was, with the program counter on the instruction after the call.
pub proof fn lemma_call_then_return(
    m: Machine,
    addr: u16,
    keys: Seq<bool>,
    screen: Seq<bool>,
    first_random: u8,
    second_random: u8,
)
    requires
        m.stack.len() < 16,
        about_to_execute(m, Instruction::Call { addr }),
        about_to_execute(step_spec(m, keys, screen, first_random).machine, Instruction::Return),
    ensures
        ({
            let called = step_spec(m, keys, screen, first_random);
            let returned = step_spec(called.machine, keys, called.screen, second_random);
            &&& returned.result == Ok::<StepOutcome, Fault>(StepOutcome::Executed)
            &&& returned.screen == screen
            &&& returned.machine == m.advanced()
            &&& returned.machine.pc == m.pc + 2
        }),
{
    reveal(execute_spec);
    lemma_call(m, addr, keys, screen, first_random);
    let called = step_spec(m, keys, screen, first_random);
    lemma_step_executes(called.machine, Instruction::Return, keys, called.screen, second_random);
    assert(called.machine.advanced().stack.drop_last() =~= m.stack);
}

/// A machine parked on a key wait stays as it is while no key is down, and
/// reports that it is waiting. With a key down the awaited register takes
/// the number of the lowest such key and the wait is over.
pub proof fn lemma_key_wait(m: Machine, keys: Seq<bool>, screen: Seq<bool>, random: u8)
    requires
        m.waiting is Some,
        keys.len() == 16,
    ensures
        ({
            let s = step_spec(m, keys, screen, random);
            let x = m.waiting->0;
            &&& s.screen == screen
            &&& (forall|k: int| 0 <= k < 16 ==> !keys[k]) ==> s.machine == m && s.result == Ok::<
                StepOutcome,
                Fault,
            >(StepOutcome::WaitingForKey)
            &&& forall|k: int|
                0 <= k < 16 && keys[k] && (forall|j: int| 0 <= j < k ==> !keys[j]) ==> s.result
                    == Ok::<StepOutcome, Fault>(StepOutcome::Executed) && s.machine == (Machine {
                    waiting: None,
                    ..m.with_v(x, k as u8)
                })
        }),
{
    reveal(step_spec);
    reveal(poll_spec);
    lemma_first_pressed_from(keys, 0);
}

} // verus!
