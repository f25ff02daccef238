use chip8::{decode_opcode, parse_hex_program, Chip8Error, Instruction};

#[test]
fn decode_every_family() {
    let cases: Vec<(u16, Instruction)> = vec![
        (0x00E0, Instruction::CLS),
        (0x00EE, Instruction::RET),
        (0x0123, Instruction::SYS(0x123)),
        (0x1ABC, Instruction::JP(0xABC)),
        (0x2345, Instruction::CALL(0x345)),
        (0x3A42, Instruction::SEi(0xA, 0x42)),
        (0x4B17, Instruction::SNEi(0xB, 0x17)),
        (0x5120, Instruction::SE(1, 2)),
        (0x6CFF, Instruction::LDi(0xC, 0xFF)),
        (0x7D01, Instruction::ADDi(0xD, 0x01)),
        (0x8120, Instruction::LD(1, 2)),
        (0x8121, Instruction::OR(1, 2)),
        (0x8122, Instruction::AND(1, 2)),
        (0x8123, Instruction::XOR(1, 2)),
        (0x8124, Instruction::ADD(1, 2)),
        (0x8125, Instruction::SUB(1, 2)),
        (0x8126, Instruction::SHR(1)),
        (0x8127, Instruction::SUBN(1, 2)),
        (0x812E, Instruction::SHL(1)),
        (0x9340, Instruction::SNE(3, 4)),
        (0xA123, Instruction::LD_I(0x123)),
        (0xB456, Instruction::JP_V0(0x456)),
        (0xC5AA, Instruction::RNDi(5, 0xAA)),
        (0xD12F, Instruction::DRW(1, 2, 0xF)),
        (0xE39E, Instruction::SKP(3)),
        (0xE4A1, Instruction::SKNP(4)),
        (0xF507, Instruction::LD_DT(5)),
        (0xF60A, Instruction::LD_K(6)),
        (0xF715, Instruction::SET_DT(7)),
        (0xF818, Instruction::SET_ST(8)),
        (0xF91E, Instruction::ADD_I(9)),
        (0xFA29, Instruction::LD_F(0xA)),
        (0xFB33, Instruction::LD_B(0xB)),
        (0xFC55, Instruction::ST_UNTIL(0xC)),
        (0xFD65, Instruction::LD_UNTIL(0xD)),
    ];
    for (op, expected) in cases {
        assert_eq!(decode_opcode(op), Ok(expected), "opcode {:#06x}", op);
    }
}

#[test]
fn decode_rejects_undefined_patterns() {
    for op in [0x5121u16, 0x9001, 0x8128, 0x812F, 0xE100, 0xF100, 0xFFFF] {
        assert_eq!(decode_opcode(op), Err(Chip8Error::UnknownOpcode), "opcode {:#06x}", op);
    }
}

#[test]
fn hex_program_parsing() {
    assert_eq!(parse_hex_program(b""), Ok(vec![]));
    assert_eq!(parse_hex_program(b"00E0\n1300\n"), Ok(vec![0x00, 0xE0, 0x13, 0x00]));
    assert_eq!(parse_hex_program(b"1\r\nffff"), Ok(vec![0x00, 0x01, 0xFF, 0xFF]));
    assert_eq!(parse_hex_program(b"12345\n"), Err(Chip8Error::MalformedHex));
    assert_eq!(parse_hex_program(b"00E0\n\n1300\n"), Err(Chip8Error::MalformedHex));
    assert_eq!(parse_hex_program(b"00E0\r"), Err(Chip8Error::MalformedHex));
    assert_eq!(parse_hex_program(b"0x12\n"), Err(Chip8Error::MalformedHex));
}
