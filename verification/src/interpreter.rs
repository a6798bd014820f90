//! The interpreter: the machine state in executable form and the
//! fetch-decode-execute step.

use crate::display::Display;
use crate::fault::{Fault, LoadError, StepOutcome};
use crate::instruction::{decode, Instruction};
use crate::keypad::Keypad;
use crate::machine::{
    alu_spec, alu_value, bcd, boot, call_spec, draw_spec, execute_spec, font, load_registers_spec, poll_spec,
    return_spec, step_spec, store_bcd_spec, store_registers_spec, write_bytes, Machine,
    MAX_IMAGE_SIZE, MEMORY_SIZE,
};
use vstd::prelude::*;
use vstd::slice::slice_subrange;

verus! {

/// The CHIP-8 processor with its memory. Its view is the [`Machine`] it
/// stands for.
#[derive(Debug)]
pub struct Interpreter {
    memory: [u8; 4096],
    v: [u8; 16],
    i: u16,
    pc: u16,
    stack: [u16; 16],
    depth: usize,
    delay: u8,
    sound: u8,
    waiting: Option<u8>,
}

impl View for Interpreter {
    type V = Machine;

    closed spec fn view(&self) -> Machine {
        Machine {
            memory: self.memory@,
            v: self.v@,
            i: self.i,
            pc: self.pc,
            stack: self.stack@.take(self.depth as int),
            delay: self.delay,
            sound: self.sound,
            waiting: self.waiting,
        }
    }
}

/// The arithmetic and logic unit: the new value of `Vx` and, where the
/// instruction sets one, the flag.
fn compute(ins: Instruction, a: u8, b: u8) -> (r: (u8, Option<bool>))
    ensures
        r == alu_value(ins, a, b),
{
    match ins {
        Instruction::Load { .. } | Instruction::Move { .. } => (b, None),
        Instruction::Add { .. } => (((a as u16 + b as u16) % 256) as u8, None),
        Instruction::Or { .. } => (a | b, None),
        Instruction::And { .. } => (a & b, None),
        Instruction::Xor { .. } => (a ^ b, None),
        Instruction::AddRegister { .. } => {
            let sum: u16 = a as u16 + b as u16;
            ((sum % 256) as u8, Some(sum > 255))
        },
        Instruction::Subtract { .. } => (((256 + a as u16 - b as u16) % 256) as u8, Some(a >= b)),
        Instruction::SubtractReversed { .. } => (
            ((256 + b as u16 - a as u16) % 256) as u8,
            Some(b >= a),
        ),
        Instruction::ShiftRight { .. } => (a / 2, Some(a % 2 == 1)),
        Instruction::ShiftLeft { .. } => (((a as u16 * 2) % 256) as u8, Some(a >= 128)),
        _ => (a, None),
    }
}

impl Interpreter {
    #[verifier::type_invariant]
    spec fn inv(&self) -> bool {
        &&& self.depth <= 16
        &&& self.waiting matches Some(x) ==> x < 16
    }

    /// Builds an interpreter on a program image. An empty image and one of
    /// more than 3584 bytes are turned down; any other is loaded at `0x200`
    /// and the program counter set on its first byte.
    pub fn load(image: &[u8]) -> (r: Result<Interpreter, LoadError>)
        ensures
            match r {
                Ok(vm) => 1 <= image@.len() <= 3584 && vm@ == boot(image@) && vm@.wf() && vm@.pc
                    == 0x200,
                Err(LoadError::Empty) => image@.len() == 0,
                Err(LoadError::TooLarge) => image@.len() > 3584,
            },
    {
        let n = image.len();
        if n == 0 {
            return Err(LoadError::Empty);
        }
        if n > MAX_IMAGE_SIZE {
            return Err(LoadError::TooLarge);
        }
        let glyphs: [u8; 80] = [
            0xF0, 0x90, 0x90, 0x90, 0xF0,
            0x20, 0x60, 0x20, 0x20, 0x70,
            0xF0, 0x10, 0xF0, 0x80, 0xF0,
            0xF0, 0x10, 0xF0, 0x10, 0xF0,
            0x90, 0x90, 0xF0, 0x10, 0x10,
            0xF0, 0x80, 0xF0, 0x10, 0xF0,
            0xF0, 0x80, 0xF0, 0x90, 0xF0,
            0xF0, 0x10, 0x20, 0x40, 0x40,
            0xF0, 0x90, 0xF0, 0x90, 0xF0,
            0xF0, 0x90, 0xF0, 0x10, 0xF0,
            0xF0, 0x90, 0xF0, 0x90, 0x90,
            0xE0, 0x90, 0xE0, 0x90, 0xE0,
            0xF0, 0x80, 0x80, 0x80, 0xF0,
            0xE0, 0x90, 0x90, 0x90, 0xE0,
            0xF0, 0x80, 0xF0, 0x80, 0xF0,
            0xF0, 0x80, 0xF0, 0x80, 0x80,
        ];
        assert(glyphs@ =~= font());
        let mut memory: [u8; 4096] = [0u8;4096];
        let mut k: usize = 0;
        while k < 80
            invariant
                k <= 80,
                glyphs@ == font(),
                forall|a: int| 0 <= a < k ==> memory@[a] == font()[a],
                forall|a: int| k <= a < 4096 ==> memory@[a] == 0,
            decreases 80 - k,
        {
            memory[k] = glyphs[k];
            k = k + 1;
        }
        let mut k: usize = 0;
        while k < n
            invariant
                k <= n <= 3584,
                n == image@.len(),
                forall|a: int| 0 <= a < 80 ==> memory@[a] == font()[a],
                forall|a: int| 0x200 <= a < 0x200 + k ==> memory@[a] == image@[a - 0x200],
                forall|a: int| 80 <= a < 0x200 || 0x200 + k <= a < 4096 ==> memory@[a] == 0,
            decreases n - k,
        {
            memory[0x200 + k] = image[k];
            k = k + 1;
        }
        let vm = Interpreter {
            memory,
            v: [0u8;16],
            i: 0,
            pc: 0x200,
            stack: [0u16;16],
            depth: 0,
            delay: 0,
            sound: 0,
            waiting: None,
        };
        proof {
            assert(vm@.memory =~= boot(image@).memory);
            assert(vm@.v =~= boot(image@).v);
            assert(vm@.stack =~= boot(image@).stack);
        }
        Ok(vm)
    }

    /// The program counter.
    pub fn pc(&self) -> (pc: u16)
        ensures
            pc == self@.pc,
    {
        self.pc
    }

    /// The index register `I`.
    pub fn index(&self) -> (i: u16)
        ensures
            i == self@.i,
    {
        self.i
    }

    /// A copy of the registers `V0` to `VF`.
    pub fn registers(&self) -> (v: [u8; 16])
        ensures
            v@ == self@.v,
    {
        self.v
    }

    /// The delay timer.
    pub fn delay_timer(&self) -> (delay: u8)
        ensures
            delay == self@.delay,
    {
        self.delay
    }

    /// The sound timer. The machine sounds while it is not zero.
    pub fn sound_timer(&self) -> (sound: u8)
        ensures
            sound == self@.sound,
    {
        self.sound
    }

    /// How many return addresses are stacked.
    pub fn stack_depth(&self) -> (depth: usize)
        ensures
            depth == self@.stack.len(),
            depth <= 16,
    {
        proof {
            use_type_invariant(self);
        }
        self.depth
    }

    /// Whether the machine is parked on a key wait.
    pub fn is_waiting_for_key(&self) -> (waiting: bool)
        ensures
            waiting == self@.waiting is Some,
    {
        self.waiting.is_some()
    }

    /// Reads the byte at `address`; an address past the end of memory is a
    /// fault.
    pub fn read(&self, address: u16) -> (r: Result<u8, Fault>)
        ensures
            address < 4096 ==> r == Ok::<u8, Fault>(self@.memory[address as int]),
            address >= 4096 ==> r == Err::<u8, Fault>(Fault::MemoryOutOfBounds),
    {
        if (address as usize) < MEMORY_SIZE {
            Ok(self.memory[address as usize])
        } else {
            Err(Fault::MemoryOutOfBounds)
        }
    }

    /// Writes `value` at `address`; an address past the end of memory is a
    /// fault and changes nothing.
    pub fn write(&mut self, address: u16, value: u8) -> (r: Result<(), Fault>)
        ensures
            address < 4096 ==> r is Ok && final(self)@ == (Machine {
                memory: old(self)@.memory.update(address as int, value),
                ..old(self)@
            }),
            address >= 4096 ==> r == Err::<(), Fault>(Fault::MemoryOutOfBounds) && final(self)@
                == old(self)@,
            final(self)@.wf(),
    {
        proof {
            use_type_invariant(&*self);
        }
        if (address as usize) < MEMORY_SIZE {
            self.memory[address as usize] = value;
            Ok(())
        } else {
            Err(Fault::MemoryOutOfBounds)
        }
    }

    /// Lets `count` timer ticks pass: both timers go down by `count`, but
    /// not below zero.
    pub fn tick_timers(&mut self, count: u64)
        ensures
            final(self)@ == old(self)@.with_timers_down(count as int),
            final(self)@.wf(),
    {
        proof {
            use_type_invariant(&*self);
        }
        if count >= self.delay as u64 {
            self.delay = 0;
        } else {
            self.delay = self.delay - count as u8;
        }
        if count >= self.sound as u64 {
            self.sound = 0;
        } else {
            self.sound = self.sound - count as u8;
        }
    }

    fn set_v(&mut self, x: u8, value: u8)
        requires
            x < 16,
        ensures
            final(self)@ == old(self)@.with_v(x, value),
    {
        proof {
            use_type_invariant(&*self);
        }
        self.v[x as usize] = value;
    }

    fn set_flagged(&mut self, x: u8, value: u8, flag: bool)
        requires
            x < 16,
        ensures
            final(self)@ == old(self)@.with_flagged(x, value, flag),
    {
        proof {
            use_type_invariant(&*self);
        }
        self.v[x as usize] = value;
        self.v[0xF] = if flag {
            1
        } else {
            0
        };
    }

    fn set_pc(&mut self, pc: u16)
        ensures
            final(self)@ == (Machine { pc, ..old(self)@ }),
    {
        proof {
            use_type_invariant(&*self);
        }
        self.pc = pc;
    }

    fn set_index(&mut self, i: u16)
        ensures
            final(self)@ == (Machine { i, ..old(self)@ }),
    {
        proof {
            use_type_invariant(&*self);
        }
        self.i = i;
    }

    fn set_delay(&mut self, delay: u8)
        ensures
            final(self)@ == (Machine { delay, ..old(self)@ }),
    {
        proof {
            use_type_invariant(&*self);
        }
        self.delay = delay;
    }

    fn set_sound(&mut self, sound: u8)
        ensures
            final(self)@ == (Machine { sound, ..old(self)@ }),
    {
        proof {
            use_type_invariant(&*self);
        }
        self.sound = sound;
    }

    fn park(&mut self, x: u8)
        requires
            x < 16,
        ensures
            final(self)@ == (Machine { waiting: Some(x), ..old(self)@ }),
    {
        proof {
            use_type_invariant(&*self);
        }
        self.waiting = Some(x);
    }

    fn v(&self, x: u8) -> (value: u8)
        requires
            x < 16,
        ensures
            value == self@.v[x as int],
    {
        self.v[x as usize]
    }

    fn skip_if(&mut self, condition: bool)
        ensures
            final(self)@ == old(self)@.skipping(condition),
    {
        proof {
            use_type_invariant(&*self);
        }
        if condition {
            self.pc = self.pc.wrapping_add(2);
        }
    }

    fn alu(&mut self, ins: Instruction)
        requires
            ins.wf(),
            ins.is_arithmetic(),
        ensures
            final(self)@ == alu_spec(old(self)@, ins),
    {
        let (x, b) = match ins {
            Instruction::Load { x, byte } | Instruction::Add { x, byte } => (x, byte),
            Instruction::Move { x, y }
            | Instruction::Or { x, y }
            | Instruction::And { x, y }
            | Instruction::Xor { x, y }
            | Instruction::AddRegister { x, y }
            | Instruction::Subtract { x, y }
            | Instruction::SubtractReversed { x, y }
            | Instruction::ShiftRight { x, y }
            | Instruction::ShiftLeft { x, y } => (x, self.v(y)),
            _ => (0, 0),
        };
        let (value, flag) = compute(ins, self.v(x), b);
        match flag {
            Some(flag) => self.set_flagged(x, value, flag),
            None => self.set_v(x, value),
        }
    }

    fn poll(&mut self, keypad: &Keypad) -> (r: Result<StepOutcome, Fault>)
        ensures
            (final(self)@, r) == poll_spec(old(self)@, keypad@),
    {
        proof {
            use_type_invariant(&*self);
            reveal(poll_spec);
        }
        match self.waiting {
            Some(x) => match keypad.await_any_pressed() {
                Some(key) => {
                    self.v[x as usize] = key;
                    self.waiting = None;
                    Ok(StepOutcome::Executed)
                },
                None => Ok(StepOutcome::WaitingForKey),
            },
            None => Ok(StepOutcome::Executed),
        }
    }

    fn call(&mut self, addr: u16) -> (r: Result<StepOutcome, Fault>)
        ensures
            (final(self)@, r) == call_spec(old(self)@, addr),
    {
        proof {
            use_type_invariant(&*self);
        }
        if self.depth >= 16 {
            return Err(Fault::StackOverflow);
        }
        self.stack[self.depth] = self.pc;
        self.depth = self.depth + 1;
        self.pc = addr;
        assert(self@.stack =~= old(self)@.stack.push(old(self)@.pc));
        Ok(StepOutcome::Executed)
    }

    fn ret(&mut self) -> (r: Result<StepOutcome, Fault>)
        ensures
            (final(self)@, r) == return_spec(old(self)@),
    {
        proof {
            use_type_invariant(&*self);
        }
        if self.depth == 0 {
            return Err(Fault::StackUnderflow);
        }
        self.depth = self.depth - 1;
        self.pc = self.stack[self.depth];
        assert(self@.stack =~= old(self)@.stack.drop_last());
        Ok(StepOutcome::Executed)
    }

    fn draw(&mut self, x: u8, y: u8, rows: u8, display: &mut Display) -> (r: Result<
        StepOutcome,
        Fault,
    >)
        requires
            x < 16,
            y < 16,
        ensures
            ({
                let s = draw_spec(old(self)@, x, y, rows, old(display)@);
                final(self)@ == s.machine && final(display)@ == s.screen && r == s.result
            }),
    {
        proof {
            use_type_invariant(&*self);
            reveal(draw_spec);
        }
        let start = self.i as usize;
        let end = start + rows as usize;
        if end > MEMORY_SIZE {
            return Err(Fault::MemoryOutOfBounds);
        }
        let sprite = slice_subrange(self.memory.as_slice(), start, end);
        let hit = display.blit(sprite, self.v[x as usize] as usize, self.v[y as usize] as usize);
        self.v[0xF] = if hit {
            1
        } else {
            0
        };
        Ok(StepOutcome::Executed)
    }

    fn store_bcd(&mut self, x: u8) -> (r: Result<StepOutcome, Fault>)
        requires
            x < 16,
        ensures
            (final(self)@, r) == store_bcd_spec(old(self)@, x),
    {
        proof {
            use_type_invariant(&*self);
            reveal(store_bcd_spec);
        }
        let start = self.i as usize;
        if start + 3 > MEMORY_SIZE {
            return Err(Fault::MemoryOutOfBounds);
        }
        let value = self.v[x as usize];
        self.memory[start] = value / 100;
        self.memory[start + 1] = (value / 10) % 10;
        self.memory[start + 2] = value % 10;
        assert(self@.memory =~= write_bytes(old(self)@.memory, start as int, bcd(value)));
        Ok(StepOutcome::Executed)
    }

    fn store_registers(&mut self, x: u8) -> (r: Result<StepOutcome, Fault>)
        requires
            x < 16,
        ensures
            (final(self)@, r) == store_registers_spec(old(self)@, x),
    {
        proof {
            use_type_invariant(&*self);
            reveal(store_registers_spec);
        }
        let start = self.i as usize;
        let count = x as usize + 1;
        if start + count > MEMORY_SIZE {
            return Err(Fault::MemoryOutOfBounds);
        }
        let mut k: usize = 0;
        while k < count
            invariant
                k <= count <= 16,
                start + count <= 4096,
                self.depth <= 16,
                self.waiting matches Some(w) ==> w < 16,
                self@ == (Machine { memory: self@.memory, ..old(self)@ }),
                self@.memory == write_bytes(
                    old(self)@.memory,
                    start as int,
                    old(self)@.v.take(k as int),
                ),
            decreases count - k,
        {
            self.memory[start + k] = self.v[k];
            k = k + 1;
            assert(self@.memory =~= write_bytes(
                old(self)@.memory,
                start as int,
                old(self)@.v.take(k as int),
            ));
        }
        Ok(StepOutcome::Executed)
    }

    fn load_registers(&mut self, x: u8) -> (r: Result<StepOutcome, Fault>)
        requires
            x < 16,
        ensures
            (final(self)@, r) == load_registers_spec(old(self)@, x),
    {
        proof {
            use_type_invariant(&*self);
            reveal(load_registers_spec);
        }
        let start = self.i as usize;
        let count = x as usize + 1;
        if start + count > MEMORY_SIZE {
            return Err(Fault::MemoryOutOfBounds);
        }
        let mut k: usize = 0;
        while k < count
            invariant
                k <= count <= 16,
                start + count <= 4096,
                self.depth <= 16,
                self.waiting matches Some(w) ==> w < 16,
                self@ == (Machine { v: self@.v, ..old(self)@ }),
                self@.v == write_bytes(
                    old(self)@.v,
                    0,
                    old(self)@.memory.subrange(start as int, start + k),
                ),
            decreases count - k,
        {
            self.v[k] = self.memory[start + k];
            k = k + 1;
            assert(self@.v =~= write_bytes(
                old(self)@.v,
                0,
                old(self)@.memory.subrange(start as int, start + k),
            ));
        }
        Ok(StepOutcome::Executed)
    }

    fn execute_flow(
        &mut self,
        ins: Instruction,
        keypad: &Keypad,
        display: &mut Display,
        random: u8,
    ) -> (r: Result<StepOutcome, Fault>)
        requires
            ins.wf(),
            ins.is_flow(),
        ensures
            ({
                let s = execute_spec(old(self)@, ins, keypad@, old(display)@, random);
                final(self)@ == s.machine && final(display)@ == s.screen && r == s.result
            }),
    {
        proof {
            reveal(execute_spec);
        }
        match ins {
            Instruction::Return => {
                return self.ret();
            },
            Instruction::Jump { addr } => self.set_pc(addr),
            Instruction::Call { addr } => {
                return self.call(addr);
            },
            Instruction::SkipIfEqual { x, byte } => self.skip_if(self.v(x) == byte),
            Instruction::SkipIfNotEqual { x, byte } => self.skip_if(self.v(x) != byte),
            Instruction::SkipIfRegistersEqual { x, y } => self.skip_if(self.v(x) == self.v(y)),
            Instruction::SkipIfRegistersNotEqual { x, y } => self.skip_if(self.v(x) != self.v(y)),
            Instruction::JumpOffset { addr } => self.set_pc(addr.wrapping_add(self.v(0) as u16)),
            Instruction::SkipIfKeyPressed { x } => self.skip_if(keypad.is_pressed(self.v(x) % 16)),
            Instruction::SkipIfKeyNotPressed { x } => self.skip_if(
                !keypad.is_pressed(self.v(x) % 16),
            ),
            Instruction::WaitKey { x } => {
                self.park(x);
                return self.poll(keypad);
            },
            _ => {},
        }
        Ok(StepOutcome::Executed)
    }

    fn execute_transfer(
        &mut self,
        ins: Instruction,
        keypad: &Keypad,
        display: &mut Display,
        random: u8,
    ) -> (r: Result<StepOutcome, Fault>)
        requires
            ins.wf(),
            ins.is_transfer(),
        ensures
            ({
                let s = execute_spec(old(self)@, ins, keypad@, old(display)@, random);
                final(self)@ == s.machine && final(display)@ == s.screen && r == s.result
            }),
    {
        proof {
            reveal(execute_spec);
        }
        match ins {
            Instruction::ClearScreen => display.clear(),
            Instruction::LoadIndex { addr } => self.set_index(addr),
            Instruction::Random { x, byte } => self.set_v(x, random & byte),
            Instruction::Draw { x, y, rows } => {
                return self.draw(x, y, rows, display);
            },
            Instruction::ReadDelay { x } => self.set_v(x, self.delay_timer()),
            Instruction::SetDelay { x } => self.set_delay(self.v(x)),
            Instruction::SetSound { x } => self.set_sound(self.v(x)),
            Instruction::AddIndex { x } => self.set_index(
                self.index().wrapping_add(self.v(x) as u16),
            ),
            Instruction::FontAddress { x } => self.set_index((self.v(x) % 16) as u16 * 5),
            Instruction::StoreBcd { x } => {
                return self.store_bcd(x);
            },
            Instruction::StoreRegisters { x } => {
                return self.store_registers(x);
            },
            Instruction::LoadRegisters { x } => {
                return self.load_registers(x);
            },
            _ => {},
        }
        Ok(StepOutcome::Executed)
    }

    fn execute(
        &mut self,
        ins: Instruction,
        keypad: &Keypad,
        display: &mut Display,
        random: u8,
    ) -> (r: Result<StepOutcome, Fault>)
        requires
            ins.wf(),
        ensures
            ({
                let s = execute_spec(old(self)@, ins, keypad@, old(display)@, random);
                final(self)@ == s.machine && final(display)@ == s.screen && r == s.result
            }),
    {
        proof {
            reveal(execute_spec);
        }
        match ins {
            Instruction::Return
            | Instruction::Jump { .. }
            | Instruction::Call { .. }
            | Instruction::SkipIfEqual { .. }
            | Instruction::SkipIfNotEqual { .. }
            | Instruction::SkipIfRegistersEqual { .. }
            | Instruction::SkipIfRegistersNotEqual { .. }
            | Instruction::JumpOffset { .. }
            | Instruction::SkipIfKeyPressed { .. }
            | Instruction::SkipIfKeyNotPressed { .. }
            | Instruction::WaitKey { .. } => self.execute_flow(ins, keypad, display, random),
            Instruction::Load { .. }
            | Instruction::Add { .. }
            | Instruction::Move { .. }
            | Instruction::Or { .. }
            | Instruction::And { .. }
            | Instruction::Xor { .. }
            | Instruction::AddRegister { .. }
            | Instruction::Subtract { .. }
            | Instruction::SubtractReversed { .. }
            | Instruction::ShiftRight { .. }
            | Instruction::ShiftLeft { .. } => {
                self.alu(ins);
                Ok(StepOutcome::Executed)
            },
            _ => self.execute_transfer(ins, keypad, display, random),
        }
    }

    /// Executes one instruction, or polls the keypad if the machine is
    /// parked on a key wait. `random` is the byte that a random-number
    /// instruction would draw. The machine, the screen and the report are
    /// those of [`step_spec`].
    pub fn step(&mut self, keypad: &Keypad, display: &mut Display, random: u8) -> (r: Result<
        StepOutcome,
        Fault,
    >)
        ensures
            ({
                let s = step_spec(old(self)@, keypad@, old(display)@, random);
                final(self)@ == s.machine && final(display)@ == s.screen && r == s.result
            }),
            final(self)@.wf(),
            final(display)@.len() == 2048,
    {
        let r = self.advance(keypad, display, random);
        proof {
            use_type_invariant(&*self);
            display.lemma_len();
        }
        r
    }

    fn advance(&mut self, keypad: &Keypad, display: &mut Display, random: u8) -> (r: Result<
        StepOutcome,
        Fault,
    >)
        ensures
            ({
                let s = step_spec(old(self)@, keypad@, old(display)@, random);
                final(self)@ == s.machine && final(display)@ == s.screen && r == s.result
            }),
    {
        proof {
            use_type_invariant(&*self);
            reveal(step_spec);
        }
        if self.waiting.is_some() {
            return self.poll(keypad);
        }
        let high = match self.read(self.pc) {
            Ok(byte) => byte,
            Err(fault) => {
                return Err(fault);
            },
        };
        let low = match self.read(self.pc.wrapping_add(1)) {
            Ok(byte) => byte,
            Err(fault) => {
                return Err(fault);
            },
        };
        let opcode: u16 = high as u16 * 0x100 + low as u16;
        self.pc = self.pc + 2;
        match decode(opcode) {
            None => Err(Fault::InvalidOpcode { opcode }),
            Some(ins) => self.execute(ins, keypad, display, random),
        }
    }
}

} // verus!
