use mov_disasm::address::{
    direct_address, r_m_format_16_bit_displacement, r_m_format_8_bit_displacement,
    r_m_format_displacement_inner, r_m_format_no_displacement, register_or_memory, word_from_le,
};
use mov_disasm::cursor::ByteCursor;
use mov_disasm::fields::Size;
use mov_disasm::mov::{
    disassemble_immediate_to_register, disassemble_immediate_to_register_memory,
    disassemble_register_to_from_register,
};

fn register_to_from_register(bytes: &[u8]) -> Option<String> {
    disassemble_register_to_from_register(&mut ByteCursor::new(bytes))
}

#[test]
fn zero_byte_displacement_is_not_written() {
    for rm in 0..8u8 {
        assert_eq!(
            r_m_format_8_bit_displacement(rm, 0),
            r_m_format_displacement_inner(rm, 0)
        );
    }
    assert_eq!(register_to_from_register(&[0x8b, 0b0100_0111, 0]), Some("mov ax, [bx]".into()));
    assert_eq!(register_to_from_register(&[0x8b, 0b0100_0000, 0]), Some("mov ax, [bx + si]".into()));
}

#[test]
fn zero_word_displacement_is_not_written() {
    for rm in 0..8u8 {
        assert_eq!(
            r_m_format_16_bit_displacement(rm, 0, 0),
            r_m_format_displacement_inner(rm, 0)
        );
    }
    assert_eq!(register_to_from_register(&[0x8b, 0b1000_0111, 0, 0]), Some("mov ax, [bx]".into()));
    assert_eq!(register_to_from_register(&[0x8b, 0b1000_0110, 0, 0]), Some("mov ax, [bp]".into()));
}

#[test]
fn zero_displacement_still_consumes_its_bytes() {
    let mut cursor = ByteCursor::new(&[0x8b, 0b0100_0111, 0, 0x89]);
    assert_eq!(disassemble_register_to_from_register(&mut cursor), Some("mov ax, [bx]".into()));
    assert_eq!(cursor.position(), 3);

    let mut cursor = ByteCursor::new(&[0x8b, 0b1000_0111, 0, 0, 0x89]);
    assert_eq!(disassemble_register_to_from_register(&mut cursor), Some("mov ax, [bx]".into()));
    assert_eq!(cursor.position(), 4);
}

#[test]
fn every_base_is_written_bare_without_displacement() {
    let bases = ["[bx + si]", "[bx + di]", "[bp + si]", "[bp + di]", "[si]", "[di]", "[bp]", "[bx]"];
    for rm in 0..8u8 {
        assert_eq!(r_m_format_displacement_inner(rm, 0), bases[rm as usize]);
    }
}

#[test]
fn every_base_takes_a_positive_displacement() {
    let bases = [
        "[bx + si + 7]",
        "[bx + di + 7]",
        "[bp + si + 7]",
        "[bp + di + 7]",
        "[si + 7]",
        "[di + 7]",
        "[bp + 7]",
        "[bx + 7]",
    ];
    for rm in 0..8u8 {
        assert_eq!(r_m_format_displacement_inner(rm, 7), bases[rm as usize]);
    }
}

#[test]
fn every_base_takes_a_negative_displacement() {
    let bases = [
        "[bx + si - 7]",
        "[bx + di - 7]",
        "[bp + si - 7]",
        "[bp + di - 7]",
        "[si - 7]",
        "[di - 7]",
        "[bp - 7]",
        "[bx - 7]",
    ];
    for rm in 0..8u8 {
        assert_eq!(r_m_format_displacement_inner(rm, -7), bases[rm as usize]);
    }
}

#[test]
fn only_the_low_three_bits_select_the_base() {
    assert_eq!(r_m_format_displacement_inner(0b1111_1100, 1), "[si + 1]");
    assert_eq!(r_m_format_8_bit_displacement(0b0101_0111, 0xe0), "[bx - 32]");
    assert_eq!(r_m_format_16_bit_displacement(0b1000_1100, 0xd4, 0xfe), "[si - 300]");
}

#[test]
fn byte_displacement_is_sign_extended() {
    assert_eq!(r_m_format_8_bit_displacement(7, 0x01), "[bx + 1]");
    assert_eq!(r_m_format_8_bit_displacement(7, 0x7f), "[bx + 127]");
    assert_eq!(r_m_format_8_bit_displacement(7, 0x80), "[bx - 128]");
    assert_eq!(r_m_format_8_bit_displacement(7, 0xdb), "[bx - 37]");
    assert_eq!(r_m_format_8_bit_displacement(7, 0xff), "[bx - 1]");
}

#[test]
fn word_displacement_is_signed() {
    assert_eq!(r_m_format_16_bit_displacement(7, 0x01, 0x00), "[bx + 1]");
    assert_eq!(r_m_format_16_bit_displacement(7, 0x80, 0x00), "[bx + 128]");
    assert_eq!(r_m_format_16_bit_displacement(7, 0xff, 0x7f), "[bx + 32767]");
    assert_eq!(r_m_format_16_bit_displacement(7, 0x00, 0x80), "[bx - 32768]");
    assert_eq!(r_m_format_16_bit_displacement(7, 0x80, 0xff), "[bx - 128]");
    assert_eq!(r_m_format_16_bit_displacement(7, 0xff, 0xff), "[bx - 1]");
}

#[test]
fn most_negative_displacement_has_a_positive_magnitude() {
    assert_eq!(r_m_format_displacement_inner(7, i16::MIN), "[bx - 32768]");
    assert_eq!(r_m_format_displacement_inner(7, i16::MAX), "[bx + 32767]");
    assert_eq!(
        register_to_from_register(&[0x8b, 0b1000_0111, 0x00, 0x80]),
        Some("mov ax, [bx - 32768]".into())
    );
}

#[test]
fn words_are_little_endian() {
    assert_eq!(word_from_le(0, 0), 0);
    assert_eq!(word_from_le(0x01, 0x00), 1);
    assert_eq!(word_from_le(0x00, 0x01), 256);
    assert_eq!(word_from_le(0x82, 0x0d), 3458);
    assert_eq!(word_from_le(0xff, 0xff), 65535);
}

#[test]
fn direct_address_is_unsigned() {
    assert_eq!(direct_address(&mut ByteCursor::new(&[0xff, 0xff])), Some("[65535]".into()));
    assert_eq!(direct_address(&mut ByteCursor::new(&[0x00, 0x80])), Some("[32768]".into()));
    assert_eq!(direct_address(&mut ByteCursor::new(&[0x00, 0x00])), Some("[0]".into()));
    assert_eq!(direct_address(&mut ByteCursor::new(&[0x05])), None);
}

#[test]
fn selector_six_without_displacement_is_a_direct_address() {
    let mut cursor = ByteCursor::new(&[0x05, 0x00, 0x99]);
    assert_eq!(
        r_m_format_no_displacement(0b0010_1110, &mut cursor),
        Some("[5]".into())
    );
    assert_eq!(cursor.position(), 2);

    let mut cursor = ByteCursor::new(&[0x05, 0x00, 0x99]);
    assert_eq!(
        r_m_format_no_displacement(0b0010_1101, &mut cursor),
        Some("[di]".into())
    );
    assert_eq!(cursor.position(), 0);
}

#[test]
fn register_mode_names_a_register_of_the_operand_size() {
    let byte_names = ["al", "cl", "dl", "bl", "ah", "ch", "dh", "bh"];
    let word_names = ["ax", "cx", "dx", "bx", "sp", "bp", "si", "di"];
    for rm in 0..8u8 {
        let mut cursor = ByteCursor::new(&[0x11, 0x22]);
        assert_eq!(
            register_or_memory(Size::Byte, 0b1100_0000 | rm, &mut cursor),
            Some(byte_names[rm as usize].to_string())
        );
        assert_eq!(
            register_or_memory(Size::Word, 0b1111_1000 | rm, &mut cursor),
            Some(word_names[rm as usize].to_string())
        );
        assert_eq!(cursor.position(), 0);
    }
}

#[test]
fn resolver_consumes_what_the_mode_asks_for() {
    let tail = [0x04, 0x01, 0x99];
    let cases: [(u8, &str, usize); 5] = [
        (0b0000_0000, "[bx + si]", 0),
        (0b0000_0110, "[260]", 2),
        (0b0100_0000, "[bx + si + 4]", 1),
        (0b1000_0000, "[bx + si + 260]", 2),
        (0b1100_0000, "ax", 0),
    ];
    for (second_byte, text, consumed) in cases {
        let mut cursor = ByteCursor::new(&tail);
        assert_eq!(register_or_memory(Size::Word, second_byte, &mut cursor), Some(text.to_string()));
        assert_eq!(cursor.position(), consumed);
    }
}

#[test]
fn resolver_fails_when_the_displacement_is_cut_short() {
    let cases: [(u8, &[u8]); 5] = [
        (0b0000_0110, &[]),
        (0b0000_0110, &[0x04]),
        (0b0100_0000, &[]),
        (0b1000_0000, &[]),
        (0b1000_0000, &[0x04]),
    ];
    for (second_byte, tail) in cases {
        let mut cursor = ByteCursor::new(tail);
        assert_eq!(register_or_memory(Size::Word, second_byte, &mut cursor), None);
        assert_eq!(cursor.position(), tail.len());
    }
}

#[test]
fn direction_bit_swaps_the_operands() {
    assert_eq!(register_to_from_register(&[0x89, 0b0000_1001]), Some("mov [bx + di], cx".into()));
    assert_eq!(register_to_from_register(&[0x8b, 0b0000_1001]), Some("mov cx, [bx + di]".into()));
    assert_eq!(register_to_from_register(&[0x88, 0b1100_0110]), Some("mov dh, al".into()));
    assert_eq!(register_to_from_register(&[0x8a, 0b1100_0110]), Some("mov al, dh".into()));
}

#[test]
fn register_selector_is_ignored_with_an_immediate() {
    for register in 0..8u8 {
        let second_byte: u8 = 0b0000_0011 | (register << 3);
        assert_eq!(
            disassemble_immediate_to_register_memory(&mut ByteCursor::new(&[0xc6, second_byte, 7])),
            Some("mov [bp + di], byte 7".into())
        );
    }
}

#[test]
fn immediate_to_memory_always_names_its_size() {
    assert_eq!(
        disassemble_immediate_to_register_memory(&mut ByteCursor::new(&[0xc6, 0b0100_0110, 0, 0xff])),
        Some("mov [bp], byte 255".into())
    );
    assert_eq!(
        disassemble_immediate_to_register_memory(&mut ByteCursor::new(&[0xc7, 0b0000_0100, 0xff, 0xff])),
        Some("mov [si], word 65535".into())
    );
    assert_eq!(
        disassemble_immediate_to_register_memory(&mut ByteCursor::new(&[0xc6, 0b1100_0001, 0x09])),
        Some("mov cl, byte 9".into())
    );
}

#[test]
fn immediate_to_register_is_unsigned() {
    assert_eq!(
        disassemble_immediate_to_register(&mut ByteCursor::new(&[0xb0, 0x00])),
        Some("mov al, 0".into())
    );
    assert_eq!(
        disassemble_immediate_to_register(&mut ByteCursor::new(&[0xb7, 0xff])),
        Some("mov bh, 255".into())
    );
    assert_eq!(
        disassemble_immediate_to_register(&mut ByteCursor::new(&[0xbf, 0xff, 0xff])),
        Some("mov di, 65535".into())
    );
    assert_eq!(
        disassemble_immediate_to_register(&mut ByteCursor::new(&[0xb8, 0x00, 0x80])),
        Some("mov ax, 32768".into())
    );
}
