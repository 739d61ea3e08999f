use chip8::{decode, Opcode};

#[test]
fn decode_every_family() {
    assert_eq!(decode(0x0000), Some(Opcode::X0000));
    assert_eq!(decode(0x00E0), Some(Opcode::X00E0));
    assert_eq!(decode(0x00EE), Some(Opcode::X00EE));
    assert_eq!(decode(0x1ABC), Some(Opcode::X1nnn(0xABC)));
    assert_eq!(decode(0x2FFF), Some(Opcode::X2nnn(0xFFF)));
    assert_eq!(decode(0x3A12), Some(Opcode::X3xkk(0xA, 0x12)));
    assert_eq!(decode(0x4B34), Some(Opcode::X4xkk(0xB, 0x34)));
    assert_eq!(decode(0x5C10), Some(Opcode::X5xy0(0xC, 0x1)));
    assert_eq!(decode(0x6010), Some(Opcode::X6xkk(0x0, 0x10)));
    assert_eq!(decode(0x7311), Some(Opcode::X7xkk(0x3, 0x11)));
    assert_eq!(decode(0x8320), Some(Opcode::X8xy0(0x3, 0x2)));
    assert_eq!(decode(0x8321), Some(Opcode::X8xy1(0x3, 0x2)));
    assert_eq!(decode(0x8322), Some(Opcode::X8xy2(0x3, 0x2)));
    assert_eq!(decode(0x8323), Some(Opcode::X8xy3(0x3, 0x2)));
    assert_eq!(decode(0x8324), Some(Opcode::X8xy4(0x3, 0x2)));
    assert_eq!(decode(0x8325), Some(Opcode::X8xy5(0x3, 0x2)));
    assert_eq!(decode(0x8326), Some(Opcode::X8xy6(0x3, 0x2)));
    assert_eq!(decode(0x8327), Some(Opcode::X8xy7(0x3, 0x2)));
    assert_eq!(decode(0x832E), Some(Opcode::X8xyE(0x3, 0x2)));
    assert_eq!(decode(0x9EF0), Some(Opcode::X9xy0(0xE, 0xF)));
    assert_eq!(decode(0xA123), Some(Opcode::XAnnn(0x123)));
    assert_eq!(decode(0xB456), Some(Opcode::XBnnn(0x456)));
    assert_eq!(decode(0xC7F0), Some(Opcode::XCxkk(0x7, 0xF0)));
    assert_eq!(decode(0xD125), Some(Opcode::XDxyn(0x1, 0x2, 0x5)));
    assert_eq!(decode(0xD120), Some(Opcode::XDxyn(0x1, 0x2, 0x0)));
    assert_eq!(decode(0xE59E), Some(Opcode::XEx9E(0x5)));
    assert_eq!(decode(0xE5A1), Some(Opcode::XExA1(0x5)));
    assert_eq!(decode(0xF907), Some(Opcode::XFx07(0x9)));
    assert_eq!(decode(0xF90A), Some(Opcode::XFx0A(0x9)));
    assert_eq!(decode(0xF915), Some(Opcode::XFx15(0x9)));
    assert_eq!(decode(0xF918), Some(Opcode::XFx18(0x9)));
    assert_eq!(decode(0xF91E), Some(Opcode::XFx1E(0x9)));
    assert_eq!(decode(0xF929), Some(Opcode::XFx29(0x9)));
    assert_eq!(decode(0xF933), Some(Opcode::XFx33(0x9)));
    assert_eq!(decode(0xF955), Some(Opcode::XFx55(0x9)));
    assert_eq!(decode(0xF965), Some(Opcode::XFx65(0x9)));
}

#[test]
fn decode_rejects_unassigned_patterns() {
    let unassigned: [u16; 16] = [
        0x0001, 0x00E1, 0x00EF, 0x0100, 0x0FFF, 0x5121, 0x512F, 0x8128, 0x812D, 0x812F, 0x9121,
        0xE19F, 0xE1A0, 0xF100, 0xF166, 0xFFFF,
    ];
    for word in unassigned {
        assert_eq!(decode(word), None, "{:#06x}", word);
    }
}

#[test]
fn decode_counts_the_assigned_patterns() {
    let mut assigned: u32 = 0;
    for word in 0..=0xFFFFu16 {
        if let Some(op) = decode(word) {
            assert!(op.is_well_formed());
            assigned += 1;
        }
    }
    // 3 in family 0; 4096 each in 1, 2, 3, 4, 6, 7, A, B, C and D; 256 each
    // in 5 and 9; 9 * 256 in 8; 2 * 16 in E; 9 * 16 in F.
    assert_eq!(assigned, 3 + 10 * 4096 + 2 * 256 + 9 * 256 + 32 + 144);
}

#[test]
fn decode_extracts_every_operand() {
    for x in 0..16u16 {
        for y in 0..16u16 {
            let word: u16 = 0x8004 | (x << 8) | (y << 4);
            assert_eq!(decode(word), Some(Opcode::X8xy4(x as u8, y as u8)));
            for n in 0..16u16 {
                let word: u16 = 0xD000 | (x << 8) | (y << 4) | n;
                assert_eq!(decode(word), Some(Opcode::XDxyn(x as u8, y as u8, n as u8)));
            }
        }
        for kk in 0..=255u16 {
            let word: u16 = 0x6000 | (x << 8) | kk;
            assert_eq!(decode(word), Some(Opcode::X6xkk(x as u8, kk as u8)));
        }
    }
}

#[test]
fn read_opcode_decodes_without_moving() {
    let mut chip8 = chip8::Chip8::new();
    assert!(chip8.load(&[0xD1, 0x25]));
    assert_eq!(chip8.read_opcode(), Ok(Opcode::XDxyn(1, 2, 5)));
    assert_eq!(chip8.read_opcode(), Ok(Opcode::XDxyn(1, 2, 5)));
    assert_eq!(chip8.pc(), 0x200);
    chip8.write_memory(0x200, 0xFF);
    chip8.write_memory(0x201, 0xFF);
    assert_eq!(
        chip8.read_opcode(),
        Err(chip8::Chip8Error::Decode { addr: 0x200, instruction: 0xFFFF })
    );
}
