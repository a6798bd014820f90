//! The instruction set and its sixteen-bit encoding.

use vstd::prelude::*;

verus! {

/// One CHIP-8 instruction. `x` and `y` number registers, `addr` is a
/// twelve-bit address, `byte` an immediate operand.
#[derive(Clone, Copy, Debug, PartialEq, Eq, Structural)]
pub enum Instruction {
    /// `00E0`: turn every pixel off.
    ClearScreen,
    /// `00EE`: return from a subroutine.
    Return,
    /// `1nnn`: continue at `addr`.
    Jump { addr: u16 },
    /// `2nnn`: call the subroutine at `addr`.
    Call { addr: u16 },
    /// `3xkk`: skip the next instruction if `Vx == byte`.
    SkipIfEqual { x: u8, byte: u8 },
    /// `4xkk`: skip the next instruction if `Vx != byte`.
    SkipIfNotEqual { x: u8, byte: u8 },
    /// `5xy0`: skip the next instruction if `Vx == Vy`.
    SkipIfRegistersEqual { x: u8, y: u8 },
    /// `6xkk`: `Vx = byte`.
    Load { x: u8, byte: u8 },
    /// `7xkk`: `Vx = Vx + byte`, without touching the flag.
    Add { x: u8, byte: u8 },
    /// `8xy0`: `Vx = Vy`.
    Move { x: u8, y: u8 },
    /// `8xy1`: `Vx = Vx | Vy`.
    Or { x: u8, y: u8 },
    /// `8xy2`: `Vx = Vx & Vy`.
    And { x: u8, y: u8 },
    /// `8xy3`: `Vx = Vx ^ Vy`.
    Xor { x: u8, y: u8 },
    /// `8xy4`: `Vx = Vx + Vy`, `VF` = carry.
    AddRegister { x: u8, y: u8 },
    /// `8xy5`: `Vx = Vx - Vy`, `VF` = no borrow.
    Subtract { x: u8, y: u8 },
    /// `8xy6`: `Vx = Vx >> 1`, `VF` = the bit shifted out.
    ShiftRight { x: u8, y: u8 },
    /// `8xy7`: `Vx = Vy - Vx`, `VF` = no borrow.
    SubtractReversed { x: u8, y: u8 },
    /// `8xyE`: `Vx = Vx << 1`, `VF` = the bit shifted out.
    ShiftLeft { x: u8, y: u8 },
    /// `9xy0`: skip the next instruction if `Vx != Vy`.
    SkipIfRegistersNotEqual { x: u8, y: u8 },
    /// `Annn`: `I = addr`.
    LoadIndex { addr: u16 },
    /// `Bnnn`: continue at `addr + V0`.
    JumpOffset { addr: u16 },
    /// `Cxkk`: `Vx` = a random byte masked with `byte`.
    Random { x: u8, byte: u8 },
    /// `Dxyn`: draw the `rows`-line sprite at `I` at (`Vx`, `Vy`), `VF` =
    /// collision.
    Draw { x: u8, y: u8, rows: u8 },
    /// `Ex9E`: skip the next instruction if the key in `Vx` is down.
    SkipIfKeyPressed { x: u8 },
    /// `ExA1`: skip the next instruction if the key in `Vx` is up.
    SkipIfKeyNotPressed { x: u8 },
    /// `Fx07`: `Vx` = delay timer.
    ReadDelay { x: u8 },
    /// `Fx0A`: wait for a key, then `Vx` = its number.
    WaitKey { x: u8 },
    /// `Fx15`: delay timer = `Vx`.
    SetDelay { x: u8 },
    /// `Fx18`: sound timer = `Vx`.
    SetSound { x: u8 },
    /// `Fx1E`: `I = I + Vx`.
    AddIndex { x: u8 },
    /// `Fx29`: `I` = address of the font sprite of the digit in `Vx`.
    FontAddress { x: u8 },
    /// `Fx33`: store the three decimal digits of `Vx` at `I`, `I+1`, `I+2`.
    StoreBcd { x: u8 },
    /// `Fx55`: store `V0..=Vx` at `I` onwards.
    StoreRegisters { x: u8 },
    /// `Fx65`: load `V0..=Vx` from `I` onwards.
    LoadRegisters { x: u8 },
}

/// The opcode `xy..` fields laid over a base pattern.
pub open spec fn with_xy(base: int, x: u8, y: u8) -> int {
    base + x * 0x100 + y * 0x10
}

impl Instruction {
    /// Whether the operands fit their fields: register numbers and the row
    /// count in four bits, addresses in twelve.
    pub open spec fn wf(self) -> bool {
        match self {
            Instruction::ClearScreen | Instruction::Return => true,
            Instruction::Jump { addr }
            | Instruction::Call { addr }
            | Instruction::LoadIndex { addr }
            | Instruction::JumpOffset { addr } => addr < 0x1000,
            Instruction::SkipIfEqual { x, .. }
            | Instruction::SkipIfNotEqual { x, .. }
            | Instruction::Load { x, .. }
            | Instruction::Add { x, .. }
            | Instruction::Random { x, .. } => x < 16,
            Instruction::SkipIfRegistersEqual { x, y }
            | Instruction::Move { x, y }
            | Instruction::Or { x, y }
            | Instruction::And { x, y }
            | Instruction::Xor { x, y }
            | Instruction::AddRegister { x, y }
            | Instruction::Subtract { x, y }
            | Instruction::ShiftRight { x, y }
            | Instruction::SubtractReversed { x, y }
            | Instruction::ShiftLeft { x, y }
            | Instruction::SkipIfRegistersNotEqual { x, y } => x < 16 && y < 16,
            Instruction::Draw { x, y, rows } => x < 16 && y < 16 && rows < 16,
            Instruction::SkipIfKeyPressed { x }
            | Instruction::SkipIfKeyNotPressed { x }
            | Instruction::ReadDelay { x }
            | Instruction::WaitKey { x }
            | Instruction::SetDelay { x }
            | Instruction::SetSound { x }
            | Instruction::AddIndex { x }
            | Instruction::FontAddress { x }
            | Instruction::StoreBcd { x }
            | Instruction::StoreRegisters { x }
            | Instruction::LoadRegisters { x } => x < 16,
        }
    }

    /// Whether the instruction decides where execution goes on: jumps,
    /// calls, returns, skips and the key wait.
    pub open spec fn is_flow(self) -> bool {
        self is Return || self is Jump || self is Call || self is SkipIfEqual
            || self is SkipIfNotEqual || self is SkipIfRegistersEqual
            || self is SkipIfRegistersNotEqual || self is JumpOffset || self is SkipIfKeyPressed
            || self is SkipIfKeyNotPressed || self is WaitKey
    }

    /// Whether the instruction computes a register from registers and
    /// immediates.
    pub open spec fn is_arithmetic(self) -> bool {
        self is Load || self is Add || self is Move || self is Or || self is And || self is Xor
            || self is AddRegister || self is Subtract || self is SubtractReversed
            || self is ShiftRight || self is ShiftLeft
    }

    /// Whether the instruction moves data between registers, timers, memory
    /// and the screen.
    pub open spec fn is_transfer(self) -> bool {
        !self.is_flow() && !self.is_arithmetic()
    }

    /// The sixteen-bit opcode that stands for the instruction.
    pub open spec fn encoding(self) -> int {
        match self {
            Instruction::ClearScreen => 0x00E0,
            Instruction::Return => 0x00EE,
            Instruction::Jump { addr } => 0x1000 + addr,
            Instruction::Call { addr } => 0x2000 + addr,
            Instruction::SkipIfEqual { x, byte } => 0x3000 + x * 0x100 + byte,
            Instruction::SkipIfNotEqual { x, byte } => 0x4000 + x * 0x100 + byte,
            Instruction::SkipIfRegistersEqual { x, y } => with_xy(0x5000, x, y),
            Instruction::Load { x, byte } => 0x6000 + x * 0x100 + byte,
            Instruction::Add { x, byte } => 0x7000 + x * 0x100 + byte,
            Instruction::Move { x, y } => with_xy(0x8000, x, y),
            Instruction::Or { x, y } => with_xy(0x8001, x, y),
            Instruction::And { x, y } => with_xy(0x8002, x, y),
            Instruction::Xor { x, y } => with_xy(0x8003, x, y),
            Instruction::AddRegister { x, y } => with_xy(0x8004, x, y),
            Instruction::Subtract { x, y } => with_xy(0x8005, x, y),
            Instruction::ShiftRight { x, y } => with_xy(0x8006, x, y),
            Instruction::SubtractReversed { x, y } => with_xy(0x8007, x, y),
            Instruction::ShiftLeft { x, y } => with_xy(0x800E, x, y),
            Instruction::SkipIfRegistersNotEqual { x, y } => with_xy(0x9000, x, y),
            Instruction::LoadIndex { addr } => 0xA000 + addr,
            Instruction::JumpOffset { addr } => 0xB000 + addr,
            Instruction::Random { x, byte } => 0xC000 + x * 0x100 + byte,
            Instruction::Draw { x, y, rows } => with_xy(0xD000, x, y) + rows,
            Instruction::SkipIfKeyPressed { x } => 0xE09E + x * 0x100,
            Instruction::SkipIfKeyNotPressed { x } => 0xE0A1 + x * 0x100,
            Instruction::ReadDelay { x } => 0xF007 + x * 0x100,
            Instruction::WaitKey { x } => 0xF00A + x * 0x100,
            Instruction::SetDelay { x } => 0xF015 + x * 0x100,
            Instruction::SetSound { x } => 0xF018 + x * 0x100,
            Instruction::AddIndex { x } => 0xF01E + x * 0x100,
            Instruction::FontAddress { x } => 0xF029 + x * 0x100,
            Instruction::StoreBcd { x } => 0xF033 + x * 0x100,
            Instruction::StoreRegisters { x } => 0xF055 + x * 0x100,
            Instruction::LoadRegisters { x } => 0xF065 + x * 0x100,
        }
    }
}

/// The instruction that an opcode stands for, read off its four nibbles;
/// `None` for an opcode that stands for none.
#[verifier::opaque]
pub open spec fn decode_spec(opcode: u16) -> Option<Instruction> {
    let kind = opcode as int / 0x1000;
    let x = ((opcode as int / 0x100) % 0x10) as u8;
    let y = ((opcode as int / 0x10) % 0x10) as u8;
    let low = (opcode as int % 0x10) as u8;
    let byte = (opcode as int % 0x100) as u8;
    let addr = (opcode as int % 0x1000) as u16;
    if kind == 0x0 {
        if opcode == 0x00E0 {
            Some(Instruction::ClearScreen)
        } else if opcode == 0x00EE {
            Some(Instruction::Return)
        } else {
            None
        }
    } else if kind == 0x1 {
        Some(Instruction::Jump { addr })
    } else if kind == 0x2 {
        Some(Instruction::Call { addr })
    } else if kind == 0x3 {
        Some(Instruction::SkipIfEqual { x, byte })
    } else if kind == 0x4 {
        Some(Instruction::SkipIfNotEqual { x, byte })
    } else if kind == 0x5 {
        if low == 0 {
            Some(Instruction::SkipIfRegistersEqual { x, y })
        } else {
            None
        }
    } else if kind == 0x6 {
        Some(Instruction::Load { x, byte })
    } else if kind == 0x7 {
        Some(Instruction::Add { x, byte })
    } else if kind == 0x8 {
        if low == 0x0 {
            Some(Instruction::Move { x, y })
        } else if low == 0x1 {
            Some(Instruction::Or { x, y })
        } else if low == 0x2 {
            Some(Instruction::And { x, y })
        } else if low == 0x3 {
            Some(Instruction::Xor { x, y })
        } else if low == 0x4 {
            Some(Instruction::AddRegister { x, y })
        } else if low == 0x5 {
            Some(Instruction::Subtract { x, y })
        } else if low == 0x6 {
            Some(Instruction::ShiftRight { x, y })
        } else if low == 0x7 {
            Some(Instruction::SubtractReversed { x, y })
        } else if low == 0xE {
            Some(Instruction::ShiftLeft { x, y })
        } else {
            None
        }
    } else if kind == 0x9 {
        if low == 0 {
            Some(Instruction::SkipIfRegistersNotEqual { x, y })
        } else {
            None
        }
    } else if kind == 0xA {
        Some(Instruction::LoadIndex { addr })
    } else if kind == 0xB {
        Some(Instruction::JumpOffset { addr })
    } else if kind == 0xC {
        Some(Instruction::Random { x, byte })
    } else if kind == 0xD {
        Some(Instruction::Draw { x, y, rows: low })
    } else if kind == 0xE {
        if byte == 0x9E {
            Some(Instruction::SkipIfKeyPressed { x })
        } else if byte == 0xA1 {
            Some(Instruction::SkipIfKeyNotPressed { x })
        } else {
            None
        }
    } else {
        if byte == 0x07 {
            Some(Instruction::ReadDelay { x })
        } else if byte == 0x0A {
            Some(Instruction::WaitKey { x })
        } else if byte == 0x15 {
            Some(Instruction::SetDelay { x })
        } else if byte == 0x18 {
            Some(Instruction::SetSound { x })
        } else if byte == 0x1E {
            Some(Instruction::AddIndex { x })
        } else if byte == 0x29 {
            Some(Instruction::FontAddress { x })
        } else if byte == 0x33 {
            Some(Instruction::StoreBcd { x })
        } else if byte == 0x55 {
            Some(Instruction::StoreRegisters { x })
        } else if byte == 0x65 {
            Some(Instruction::LoadRegisters { x })
        } else {
            None
        }
    }
}

/// An opcode is the sum of its four nibbles, each weighted by its place.
pub proof fn lemma_nibbles(opcode: u16)
    by (bit_vector)
    ensures
        opcode == (opcode / 0x1000) * 0x1000 + ((opcode / 0x100) % 0x10) * 0x100 + ((opcode / 0x10)
            % 0x10) * 0x10 + opcode % 0x10,
        opcode % 0x100 == ((opcode / 0x10) % 0x10) * 0x10 + opcode % 0x10,
        opcode % 0x1000 == ((opcode / 0x100) % 0x10) * 0x100 + opcode % 0x100,
        opcode / 0x1000 < 0x10,
{
}

/// Four nibbles put in their places make an opcode whose nibbles they are.
pub proof fn lemma_place_values(kind: u16, x: u16, y: u16, low: u16)
    by (bit_vector)
    requires
        kind < 0x10,
        x < 0x10,
        y < 0x10,
        low < 0x10,
    ensures
        ({
            let opcode = (kind * 0x1000 + x * 0x100 + y * 0x10 + low) as u16;
            &&& opcode == kind * 0x1000 + x * 0x100 + y * 0x10 + low
            &&& opcode / 0x1000 == kind
            &&& (opcode / 0x100) % 0x10 == x
            &&& (opcode / 0x10) % 0x10 == y
            &&& opcode % 0x10 == low
            &&& opcode % 0x100 == y * 0x10 + low
            &&& opcode % 0x1000 == x * 0x100 + y * 0x10 + low
        }),
{
}

/// Decoding undoes encoding: the opcode of a well-formed instruction
/// decodes to that instruction.
pub proof fn lemma_decode_encoding(ins: Instruction)
    requires
        ins.wf(),
    ensures
        0 <= ins.encoding() < 0x10000,
        decode_spec(ins.encoding() as u16) == Some(ins),
{
    reveal(decode_spec);
    match ins {
        Instruction::ClearScreen | Instruction::Return => {},
        Instruction::Jump { addr }
        | Instruction::Call { addr }
        | Instruction::LoadIndex { addr }
        | Instruction::JumpOffset { addr } => {
            lemma_nibbles(addr);
            let (a2, a1, a0) = ((addr / 0x100) % 0x10, (addr / 0x10) % 0x10, addr % 0x10);
            lemma_place_values(0x1, a2 as u16, a1 as u16, a0 as u16);
            lemma_place_values(0x2, a2 as u16, a1 as u16, a0 as u16);
            lemma_place_values(0xA, a2 as u16, a1 as u16, a0 as u16);
            lemma_place_values(0xB, a2 as u16, a1 as u16, a0 as u16);
        },
        Instruction::SkipIfEqual { x, byte }
        | Instruction::SkipIfNotEqual { x, byte }
        | Instruction::Load { x, byte }
        | Instruction::Add { x, byte }
        | Instruction::Random { x, byte } => {
            lemma_nibbles(byte as u16);
            let (b1, b0) = (byte / 0x10, byte % 0x10);
            lemma_place_values(0x3, x as u16, b1 as u16, b0 as u16);
            lemma_place_values(0x4, x as u16, b1 as u16, b0 as u16);
            lemma_place_values(0x6, x as u16, b1 as u16, b0 as u16);
            lemma_place_values(0x7, x as u16, b1 as u16, b0 as u16);
            lemma_place_values(0xC, x as u16, b1 as u16, b0 as u16);
        },
        Instruction::SkipIfRegistersEqual { x, y }
        | Instruction::SkipIfRegistersNotEqual { x, y } => {
            lemma_place_values(0x5, x as u16, y as u16, 0);
            lemma_place_values(0x9, x as u16, y as u16, 0);
        },
        Instruction::Move { x, y }
        | Instruction::Or { x, y }
        | Instruction::And { x, y }
        | Instruction::Xor { x, y }
        | Instruction::AddRegister { x, y }
        | Instruction::Subtract { x, y }
        | Instruction::ShiftRight { x, y }
        | Instruction::SubtractReversed { x, y }
        | Instruction::ShiftLeft { x, y } => {
            let low = (ins.encoding() - with_xy(0x8000, x, y)) as u16;
            lemma_place_values(0x8, x as u16, y as u16, low);
        },
        Instruction::Draw { x, y, rows } => {
            lemma_place_values(0xD, x as u16, y as u16, rows as u16);
        },
        Instruction::SkipIfKeyPressed { x } | Instruction::SkipIfKeyNotPressed { x } => {
            lemma_place_values(0xE, x as u16, 0x9, 0xE);
            lemma_place_values(0xE, x as u16, 0xA, 0x1);
        },
        Instruction::ReadDelay { x }
        | Instruction::WaitKey { x }
        | Instruction::SetDelay { x }
        | Instruction::SetSound { x }
        | Instruction::AddIndex { x }
        | Instruction::FontAddress { x }
        | Instruction::StoreBcd { x }
        | Instruction::StoreRegisters { x }
        | Instruction::LoadRegisters { x } => {
            let low = (ins.encoding() - 0xF000 - x * 0x100) as u16;
            lemma_place_values(0xF, x as u16, low / 0x10, low % 0x10);
        },
    }
}

/// Whatever an opcode decodes to is well-formed and encodes to that opcode.
pub proof fn lemma_decode_sound(opcode: u16)
    ensures
        decode_spec(opcode) matches Some(ins) ==> ins.wf() && ins.encoding() == opcode,
{
    reveal(decode_spec);
    lemma_nibbles(opcode);
}

/// Two well-formed instructions with the same opcode are the same
/// instruction.
pub proof fn lemma_encoding_injective(a: Instruction, b: Instruction)
    requires
        a.wf(),
        b.wf(),
        a.encoding() == b.encoding(),
    ensures
        a == b,
{
    lemma_decode_encoding(a);
    lemma_decode_encoding(b);
}

/// Decodes an opcode. The result is the one well-formed instruction whose
/// encoding is `opcode`; there is `None` exactly when no instruction has
/// that encoding.
pub fn decode(opcode: u16) -> (r: Option<Instruction>)
    ensures
        r == decode_spec(opcode),
        r matches Some(ins) ==> ins.wf() && ins.encoding() == opcode,
        r is None <==> forall|ins: Instruction| ins.wf() ==> #[trigger] ins.encoding() != opcode,
{
    proof {
        reveal(decode_spec);
        lemma_decode_sound(opcode);
        assert forall|ins: Instruction| ins.wf() && #[trigger] ins.encoding() == opcode implies
            decode_spec(opcode) == Some(ins) by {
            lemma_decode_encoding(ins);
        }
    }
    let kind: u16 = opcode / 0x1000;
    let x: u8 = ((opcode / 0x100) % 0x10) as u8;
    let y: u8 = ((opcode / 0x10) % 0x10) as u8;
    let low: u8 = (opcode % 0x10) as u8;
    let byte: u8 = (opcode % 0x100) as u8;
    let addr: u16 = opcode % 0x1000;
    match kind {
        0x0 => match opcode {
            0x00E0 => Some(Instruction::ClearScreen),
            0x00EE => Some(Instruction::Return),
            _ => None,
        },
        0x1 => Some(Instruction::Jump { addr }),
        0x2 => Some(Instruction::Call { addr }),
        0x3 => Some(Instruction::SkipIfEqual { x, byte }),
        0x4 => Some(Instruction::SkipIfNotEqual { x, byte }),
        0x5 => match low {
            0x0 => Some(Instruction::SkipIfRegistersEqual { x, y }),
            _ => None,
        },
        0x6 => Some(Instruction::Load { x, byte }),
        0x7 => Some(Instruction::Add { x, byte }),
        0x8 => match low {
            0x0 => Some(Instruction::Move { x, y }),
            0x1 => Some(Instruction::Or { x, y }),
            0x2 => Some(Instruction::And { x, y }),
            0x3 => Some(Instruction::Xor { x, y }),
            0x4 => Some(Instruction::AddRegister { x, y }),
            0x5 => Some(Instruction::Subtract { x, y }),
            0x6 => Some(Instruction::ShiftRight { x, y }),
            0x7 => Some(Instruction::SubtractReversed { x, y }),
            0xE => Some(Instruction::ShiftLeft { x, y }),
            _ => None,
        },
        0x9 => match low {
            0x0 => Some(Instruction::SkipIfRegistersNotEqual { x, y }),
            _ => None,
        },
        0xA => Some(Instruction::LoadIndex { addr }),
        0xB => Some(Instruction::JumpOffset { addr }),
        0xC => Some(Instruction::Random { x, byte }),
        0xD => Some(Instruction::Draw { x, y, rows: low }),
        0xE => match byte {
            0x9E => Some(Instruction::SkipIfKeyPressed { x }),
            0xA1 => Some(Instruction::SkipIfKeyNotPressed { x }),
            _ => None,
        },
        _ => match byte {
            0x07 => Some(Instruction::ReadDelay { x }),
            0x0A => Some(Instruction::WaitKey { x }),
            0x15 => Some(Instruction::SetDelay { x }),
            0x18 => Some(Instruction::SetSound { x }),
            0x1E => Some(Instruction::AddIndex { x }),
            0x29 => Some(Instruction::FontAddress { x }),
            0x33 => Some(Instruction::StoreBcd { x }),
            0x55 => Some(Instruction::StoreRegisters { x }),
            0x65 => Some(Instruction::LoadRegisters { x }),
            _ => None,
        },
    }
}

} // verus!
