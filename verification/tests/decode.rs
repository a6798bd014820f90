use chip8::instruction::{decode, Instruction};

#[test]
fn decodes_every_instruction() {
    let cases = [
        (0x00E0u16, Instruction::ClearScreen),
        (0x00EE, Instruction::Return),
        (0x1ABC, Instruction::Jump { addr: 0xABC }),
        (0x2FFF, Instruction::Call { addr: 0xFFF }),
        (0x3A12, Instruction::SkipIfEqual { x: 0xA, byte: 0x12 }),
        (0x4B34, Instruction::SkipIfNotEqual { x: 0xB, byte: 0x34 }),
        (0x5120, Instruction::SkipIfRegistersEqual { x: 1, y: 2 }),
        (0x6CFF, Instruction::Load { x: 0xC, byte: 0xFF }),
        (0x7D01, Instruction::Add { x: 0xD, byte: 0x01 }),
        (0x8120, Instruction::Move { x: 1, y: 2 }),
        (0x8121, Instruction::Or { x: 1, y: 2 }),
        (0x8122, Instruction::And { x: 1, y: 2 }),
        (0x8123, Instruction::Xor { x: 1, y: 2 }),
        (0x8124, Instruction::AddRegister { x: 1, y: 2 }),
        (0x8125, Instruction::Subtract { x: 1, y: 2 }),
        (0x8126, Instruction::ShiftRight { x: 1, y: 2 }),
        (0x8127, Instruction::SubtractReversed { x: 1, y: 2 }),
        (0x812E, Instruction::ShiftLeft { x: 1, y: 2 }),
        (0x9EF0, Instruction::SkipIfRegistersNotEqual { x: 0xE, y: 0xF }),
        (0xA123, Instruction::LoadIndex { addr: 0x123 }),
        (0xB000, Instruction::JumpOffset { addr: 0 }),
        (0xC5F0, Instruction::Random { x: 5, byte: 0xF0 }),
        (0xD12F, Instruction::Draw { x: 1, y: 2, rows: 15 }),
        (0xE49E, Instruction::SkipIfKeyPressed { x: 4 }),
        (0xE4A1, Instruction::SkipIfKeyNotPressed { x: 4 }),
        (0xF607, Instruction::ReadDelay { x: 6 }),
        (0xF60A, Instruction::WaitKey { x: 6 }),
        (0xF615, Instruction::SetDelay { x: 6 }),
        (0xF618, Instruction::SetSound { x: 6 }),
        (0xF61E, Instruction::AddIndex { x: 6 }),
        (0xF629, Instruction::FontAddress { x: 6 }),
        (0xF633, Instruction::StoreBcd { x: 6 }),
        (0xF655, Instruction::StoreRegisters { x: 6 }),
        (0xF665, Instruction::LoadRegisters { x: 6 }),
    ];
    for (opcode, expected) in cases {
        assert_eq!(decode(opcode), Some(expected), "{:04X}", opcode);
    }
}

#[test]
fn rejects_opcodes_outside_the_instruction_set() {
    for opcode in [
        0x0000u16, 0x00E1, 0x00EF, 0x0FFF, 0x5001, 0x512F, 0x8008, 0x8009, 0x800A, 0x800D, 0x800F,
        0x9001, 0xE09F, 0xE0A0, 0xE000, 0xF000, 0xF008, 0xF054, 0xF066, 0xFFFF,
    ] {
        assert_eq!(decode(opcode), None, "{:04X}", opcode);
    }
}

#[test]
fn decodes_exactly_the_known_patterns() {
    let mut valid = 0u32;
    for opcode in 0..=0xFFFFu16 {
        if decode(opcode).is_some() {
            valid += 1;
        }
    }
    let whole_class = 10 * 4096;
    let xy_forms = 11 * 256;
    let x_forms = 11 * 16;
    assert_eq!(valid, 2 + whole_class + xy_forms + x_forms);
}
