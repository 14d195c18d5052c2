//! The effective-address resolver: from an addressing byte and the bytes that
//! follow it to the text of the register-or-memory operand.

use crate::cursor::ByteCursor;
use crate::decimal::{append_decimal, decimal};
use crate::fields::{lookup_masked, mode_field, mode_of, rm_field, Mode, Size};
use crate::registers::{register_name, register_table};
use vstd::prelude::*;

verus! {

/// The base of the address that each register-or-memory selector stands for.
pub const BASE_REGISTERS: [&'static str; 8] = [
    "bx + si",
    "bx + di",
    "bp + si",
    "bp + di",
    "si",
    "di",
    "bp",
    "bx",
];

/// The unsigned 16-bit value of two bytes in little-endian order.
pub open spec fn unsigned_word(low: u8, high: u8) -> int {
    low + 256 * high
}

/// The value of a byte read as a two's complement number.
pub open spec fn signed_byte(byte: u8) -> int {
    if byte < 128 {
        byte as int
    } else {
        byte - 256
    }
}

/// The value of two bytes in little-endian order read as a two's complement
/// number.
pub open spec fn signed_word(low: u8, high: u8) -> int {
    if unsigned_word(low, high) < 32768 {
        unsigned_word(low, high)
    } else {
        unsigned_word(low, high) - 65536
    }
}

/// A memory operand at an absolute address.
pub open spec fn direct_address_text(address: int) -> Seq<char>
    recommends
        0 <= address,
{
    "["@ + decimal(address as nat) + "]"@
}

/// A memory operand relative to the base that `rm` selects. A displacement of
/// zero is not written; any other is written as a sign and its magnitude.
pub open spec fn effective_address_text(rm: int, displacement: int) -> Seq<char>
    recommends
        0 <= rm < 8,
{
    let base = BASE_REGISTERS[rm]@;
    if displacement == 0 {
        "["@ + base + "]"@
    } else if displacement > 0 {
        "["@ + base + " + "@ + decimal(displacement as nat) + "]"@
    } else {
        "["@ + base + " - "@ + decimal((-displacement) as nat) + "]"@
    }
}

/// The number of bytes that follow the addressing byte and belong to the
/// operand it describes.
pub open spec fn displacement_len(addressing: u8) -> nat {
    match mode_field(addressing) {
        Mode::MemoryNoDisplacement => if rm_field(addressing) == 6 {
            2
        } else {
            0
        },
        Mode::Memory8Bit => 1,
        Mode::Memory16Bit => 2,
        Mode::Register => 0,
    }
}

/// The text of the operand that `addressing` describes, where `tail` holds the
/// bytes after the addressing byte.
pub open spec fn operand_text(size: Size, addressing: u8, tail: Seq<u8>) -> Seq<char>
    recommends
        tail.len() >= displacement_len(addressing),
{
    let rm = rm_field(addressing);
    match mode_field(addressing) {
        Mode::MemoryNoDisplacement => if rm == 6 {
            direct_address_text(unsigned_word(tail[0], tail[1]))
        } else {
            effective_address_text(rm, 0)
        },
        Mode::Memory8Bit => effective_address_text(rm, signed_byte(tail[0])),
        Mode::Memory16Bit => effective_address_text(rm, signed_word(tail[0], tail[1])),
        Mode::Register => register_name(size, rm),
    }
}

/// Joins two bytes in little-endian order.
pub fn word_from_le(low: u8, high: u8) -> (word: u16)
    ensures
        word == unsigned_word(low, high),
{
    low as u16 + 256 * (high as u16)
}

/// Resolves the operand that `second_byte` describes, reading its
/// displacement or address bytes from `instruction_stream`.
///
/// Returns `None` if the stream ends before the operand does.
pub fn register_or_memory(
    size: Size,
    second_byte: u8,
    instruction_stream: &mut ByteCursor,
) -> (operand: Option<String>)
    ensures
        old(instruction_stream).remaining().len() >= displacement_len(second_byte) ==> {
            &&& operand matches Some(text)
            &&& text@ == operand_text(size, second_byte, old(instruction_stream).remaining())
            &&& final(instruction_stream).is_advanced_from(
                *old(instruction_stream),
                displacement_len(second_byte),
            )
        },
        old(instruction_stream).remaining().len() < displacement_len(second_byte) ==> {
            &&& operand is None
            &&& final(instruction_stream).is_exhausted_from(*old(instruction_stream))
        },
{
    let mode = mode_of(second_byte);
    let r_m = match mode {
        Mode::MemoryNoDisplacement => r_m_format_no_displacement(second_byte, instruction_stream)?,
        Mode::Memory8Bit => r_m_format_8_bit_displacement(second_byte, instruction_stream.next()?),
        Mode::Memory16Bit => {
            let third_byte = instruction_stream.next()?;
            let fourth_byte = instruction_stream.next()?;
            r_m_format_16_bit_displacement(second_byte, third_byte, fourth_byte)
        },
        Mode::Register => {
            let register_table = register_table(size);
            assert((second_byte & 0b0000_0111) >> 0 == second_byte % 8) by (bit_vector);
            String::from_str(lookup_masked(register_table, second_byte, 0b0000_0111, 0))
        },
    };
    Some(r_m)
}

/// The operand of no-displacement mode: the bare base, or for selector 6 the
/// absolute address held in the next two bytes.
pub fn r_m_format_no_displacement(
    second_byte: u8,
    instruction_stream: &mut ByteCursor,
) -> (operand: Option<String>)
    ensures
        rm_field(second_byte) != 6 ==> {
            &&& operand matches Some(text)
            &&& text@ == effective_address_text(rm_field(second_byte), 0)
            &&& final(instruction_stream).is_advanced_from(*old(instruction_stream), 0)
        },
        rm_field(second_byte) == 6 && old(instruction_stream).remaining().len() >= 2 ==> {
            &&& operand matches Some(text)
            &&& text@ == direct_address_text(
                unsigned_word(
                    old(instruction_stream).remaining()[0],
                    old(instruction_stream).remaining()[1],
                ),
            )
            &&& final(instruction_stream).is_advanced_from(*old(instruction_stream), 2)
        },
        rm_field(second_byte) == 6 && old(instruction_stream).remaining().len() < 2 ==> {
            &&& operand is None
            &&& final(instruction_stream).is_exhausted_from(*old(instruction_stream))
        },
{
    assert(second_byte & 0b111 == second_byte % 8) by (bit_vector);
    if second_byte & 0b111 == 6 {
        return direct_address(instruction_stream);
    }
    Some(r_m_format_displacement_inner(second_byte, 0))
}

/// Reads a little-endian 16-bit address and writes it as a memory operand.
pub fn direct_address(instruction_stream: &mut ByteCursor) -> (operand: Option<String>)
    ensures
        old(instruction_stream).remaining().len() >= 2 ==> {
            &&& operand matches Some(text)
            &&& text@ == direct_address_text(
                unsigned_word(
                    old(instruction_stream).remaining()[0],
                    old(instruction_stream).remaining()[1],
                ),
            )
            &&& final(instruction_stream).is_advanced_from(*old(instruction_stream), 2)
        },
        old(instruction_stream).remaining().len() < 2 ==> {
            &&& operand is None
            &&& final(instruction_stream).is_exhausted_from(*old(instruction_stream))
        },
{
    let memory_lo = instruction_stream.next()?;
    let memory_hi = instruction_stream.next()?;
    let address = word_from_le(memory_lo, memory_hi);
    let mut text = String::from_str("[");
    append_decimal(&mut text, address);
    text.append("]");
    Some(text)
}

/// The operand of 8-bit displacement mode: `third_byte` is sign-extended.
pub fn r_m_format_8_bit_displacement(second_byte: u8, third_byte: u8) -> (operand: String)
    ensures
        operand@ == effective_address_text(rm_field(second_byte), signed_byte(third_byte)),
{
    let displacement: i16 = if third_byte < 128 {
        third_byte as i16
    } else {
        third_byte as i16 - 256
    };
    r_m_format_displacement_inner(second_byte, displacement)
}

/// The operand of 16-bit displacement mode: the two bytes are a little-endian
/// two's complement number.
pub fn r_m_format_16_bit_displacement(
    second_byte: u8,
    third_byte: u8,
    fourth_byte: u8,
) -> (operand: String)
    ensures
        operand@ == effective_address_text(
            rm_field(second_byte),
            signed_word(third_byte, fourth_byte),
        ),
{
    let word = word_from_le(third_byte, fourth_byte);
    let displacement: i16 = if word < 32768 {
        word as i16
    } else {
        (word as i32 - 65536) as i16
    };
    r_m_format_displacement_inner(second_byte, displacement)
}

/// Writes the base that `second_byte` selects, followed by `displacement`
/// unless it is zero.
pub fn r_m_format_displacement_inner(second_byte: u8, displacement: i16) -> (operand: String)
    ensures
        operand@ == effective_address_text(rm_field(second_byte), displacement as int),
{
    assert((second_byte & 0b0000_0111) >> 0 == second_byte % 8) by (bit_vector);
    let base = lookup_masked(&BASE_REGISTERS, second_byte, 0b0000_0111, 0);
    let mut text = String::from_str("[");
    text.append(base);
    if displacement > 0 {
        text.append(" + ");
        append_decimal(&mut text, displacement as u16);
    } else if displacement < 0 {
        text.append(" - ");
        append_decimal(&mut text, (-(displacement as i32)) as u16);
    }
    text.append("]");
    text
}

/// A displacement of zero is never written: an operand whose displacement
/// byte is zero in 8-bit mode, or whose two displacement bytes are zero in
/// 16-bit mode, is the bare base in brackets.
pub proof fn lemma_zero_displacement_is_absent(size: Size, addressing: u8, tail: Seq<u8>)
    requires
        (mode_field(addressing) == Mode::Memory8Bit && tail.len() >= 1 && tail[0] == 0) || (
        mode_field(addressing) == Mode::Memory16Bit && tail.len() >= 2 && tail[0] == 0 && tail[1]
            == 0),
    ensures
        operand_text(size, addressing, tail) == "["@ + BASE_REGISTERS[rm_field(addressing)]@
            + "]"@,
{
}

/// A displacement that is not zero is written after the base as a sign and a
/// magnitude: `+` where the two's complement value of its bytes is positive,
/// `-` and the distance from zero where it is negative.
pub proof fn lemma_displacement_sign_and_magnitude(size: Size, addressing: u8, tail: Seq<u8>)
    requires
        (mode_field(addressing) == Mode::Memory8Bit && tail.len() >= 1) || (mode_field(addressing)
            == Mode::Memory16Bit && tail.len() >= 2),
    ensures
        ({
            let base = BASE_REGISTERS[rm_field(addressing)]@;
            let text = operand_text(size, addressing, tail);
            let raw: int = if mode_field(addressing) == Mode::Memory8Bit {
                tail[0] as int
            } else {
                unsigned_word(tail[0], tail[1])
            };
            let modulus: int = if mode_field(addressing) == Mode::Memory8Bit {
                256
            } else {
                65536
            };
            &&& 0 < raw < modulus / 2 ==> text == "["@ + base + " + "@ + decimal(raw as nat)
                + "]"@
            &&& raw >= modulus / 2 ==> text == "["@ + base + " - "@ + decimal(
                (modulus - raw) as nat,
            ) + "]"@
        }),
{
}

} // verus!
