//! The four encodings of MOV. Each decoder starts at the first byte of an
//! instruction, consumes exactly the bytes of its encoding and returns the
//! instruction as a line of assembly text, or returns `None` when the stream
//! ends inside the instruction.

use crate::address::{direct_address, direct_address_text, displacement_len, operand_text,
    register_or_memory, unsigned_word, word_from_le};
use crate::cursor::ByteCursor;
use crate::decimal::{append_decimal, decimal};
use crate::fields::{direction_field, direction_of, lookup_masked, register_field,
    register_size_field, register_size_of, rm_field, size_field, size_of, size_qualifier,
    Direction, Size};
use crate::registers::{register_name, register_table, WORD_REGISTERS};
use vstd::prelude::*;

verus! {

/// The number of bytes that hold an immediate of width `size`.
pub open spec fn immediate_len(size: Size) -> nat {
    match size {
        Size::Byte => 1,
        Size::Word => 2,
    }
}

/// The unsigned value of the immediate of width `size` at the start of `data`.
pub open spec fn immediate_value(size: Size, data: Seq<u8>) -> int
    recommends
        data.len() >= immediate_len(size),
{
    match size {
        Size::Byte => data[0] as int,
        Size::Word => unsigned_word(data[0], data[1]),
    }
}

/// Reads an immediate of width `size`, low byte first.
pub fn immediate(size: Size, instruction_stream: &mut ByteCursor) -> (data: Option<u16>)
    ensures
        old(instruction_stream).remaining().len() >= immediate_len(size) ==> {
            &&& data matches Some(value)
            &&& value == immediate_value(size, old(instruction_stream).remaining())
            &&& final(instruction_stream).is_advanced_from(
                *old(instruction_stream),
                immediate_len(size),
            )
        },
        old(instruction_stream).remaining().len() < immediate_len(size) ==> {
            &&& data is None
            &&& final(instruction_stream).is_exhausted_from(*old(instruction_stream))
        },
{
    let low = instruction_stream.next()?;
    let high = match size {
        Size::Byte => 0,
        Size::Word => instruction_stream.next()?,
    };
    Some(word_from_le(low, high))
}

/// The length of the register/memory to/from register encoding at the start
/// of `bytes`: the opcode byte, the addressing byte and the displacement.
/// Where `bytes` ends before the addressing byte, the length up to that byte.
pub open spec fn register_to_from_register_len(bytes: Seq<u8>) -> nat {
    if bytes.len() < 2 {
        2
    } else {
        2 + displacement_len(bytes[1])
    }
}

/// The line for the register/memory to/from register encoding at the start of
/// `bytes`. The direction bit decides which operand is written first.
pub open spec fn register_to_from_register_text(bytes: Seq<u8>) -> Seq<char>
    recommends
        bytes.len() >= register_to_from_register_len(bytes),
{
    let size = size_field(bytes[0]);
    let register = register_name(size, register_field(bytes[1]));
    let register_or_memory = operand_text(size, bytes[1], bytes.skip(2));
    match direction_field(bytes[0]) {
        Direction::FromRegister => "mov "@ + register_or_memory + ", "@ + register,
        Direction::ToRegister => "mov "@ + register + ", "@ + register_or_memory,
    }
}

/// Decodes a MOV between a register and a register or memory operand.
pub fn disassemble_register_to_from_register(
    instruction_stream: &mut ByteCursor,
) -> (line: Option<String>)
    ensures
        old(instruction_stream).remaining().len() >= register_to_from_register_len(
            old(instruction_stream).remaining(),
        ) ==> {
            &&& line matches Some(text)
            &&& text@ == register_to_from_register_text(old(instruction_stream).remaining())
            &&& final(instruction_stream).is_advanced_from(
                *old(instruction_stream),
                register_to_from_register_len(old(instruction_stream).remaining()),
            )
        },
        old(instruction_stream).remaining().len() < register_to_from_register_len(
            old(instruction_stream).remaining(),
        ) ==> {
            &&& line is None
            &&& final(instruction_stream).is_exhausted_from(*old(instruction_stream))
        },
{
    let first_byte = instruction_stream.next()?;
    let direction = direction_of(first_byte);
    let operation_size = size_of(first_byte);

    let second_byte = instruction_stream.next()?;
    let register_table = register_table(operation_size);
    assert((second_byte & 0b0011_1000) >> 3 == (second_byte / 8) % 8) by (bit_vector);
    let register = lookup_masked(register_table, second_byte, 0b0011_1000, 3);
    let register_or_memory = register_or_memory(operation_size, second_byte, instruction_stream)?;

    let mut line = String::from_str("mov ");
    match direction {
        Direction::FromRegister => {
            line.append(register_or_memory.as_str());
            line.append(", ");
            line.append(register);
        },
        Direction::ToRegister => {
            line.append(register);
            line.append(", ");
            line.append(register_or_memory.as_str());
        },
    }
    Some(line)
}

/// The length of the immediate to register/memory encoding at the start of
/// `bytes`: the opcode byte, the addressing byte, the displacement and the
/// immediate. Where `bytes` ends before the addressing byte, the length up to
/// that byte.
pub open spec fn immediate_to_register_memory_len(bytes: Seq<u8>) -> nat {
    if bytes.len() < 2 {
        2
    } else {
        2 + displacement_len(bytes[1]) + immediate_len(size_field(bytes[0]))
    }
}

/// The line for the immediate to register/memory encoding at the start of
/// `bytes`. The immediate follows the displacement and is written unsigned,
/// after the word that names its width. The register selector of the
/// addressing byte plays no part.
pub open spec fn immediate_to_register_memory_text(bytes: Seq<u8>) -> Seq<char>
    recommends
        bytes.len() >= immediate_to_register_memory_len(bytes),
{
    let size = size_field(bytes[0]);
    let register_or_memory = operand_text(size, bytes[1], bytes.skip(2));
    let data = immediate_value(size, bytes.skip(2 + displacement_len(bytes[1]) as int));
    "mov "@ + register_or_memory + ", "@ + size_qualifier(size) + " "@ + decimal(data as nat)
}

/// Decodes a MOV of an immediate to a register or memory operand.
pub fn disassemble_immediate_to_register_memory(
    instruction_stream: &mut ByteCursor,
) -> (line: Option<String>)
    ensures
        old(instruction_stream).remaining().len() >= immediate_to_register_memory_len(
            old(instruction_stream).remaining(),
        ) ==> {
            &&& line matches Some(text)
            &&& text@ == immediate_to_register_memory_text(old(instruction_stream).remaining())
            &&& final(instruction_stream).is_advanced_from(
                *old(instruction_stream),
                immediate_to_register_memory_len(old(instruction_stream).remaining()),
            )
        },
        old(instruction_stream).remaining().len() < immediate_to_register_memory_len(
            old(instruction_stream).remaining(),
        ) ==> {
            &&& line is None
            &&& final(instruction_stream).is_exhausted_from(*old(instruction_stream))
        },
{
    let first_byte = instruction_stream.next()?;
    let operation_size = size_of(first_byte);

    let second_byte = instruction_stream.next()?;
    let register_or_memory = register_or_memory(operation_size, second_byte, instruction_stream)?;

    let data = immediate(operation_size, instruction_stream)?;

    let mut line = String::from_str("mov ");
    line.append(register_or_memory.as_str());
    line.append(", ");
    line.append(operation_size.as_immediate_str());
    line.append(" ");
    append_decimal(&mut line, data);
    Some(line)
}

/// The length of the immediate to register encoding at the start of `bytes`:
/// the opcode byte and the immediate. Where `bytes` is empty, the length of
/// the opcode byte.
pub open spec fn immediate_to_register_len(bytes: Seq<u8>) -> nat {
    if bytes.len() < 1 {
        1
    } else {
        1 + immediate_len(register_size_field(bytes[0]))
    }
}

/// The line for the immediate to register encoding at the start of `bytes`.
/// The immediate is written unsigned.
pub open spec fn immediate_to_register_text(bytes: Seq<u8>) -> Seq<char>
    recommends
        bytes.len() >= immediate_to_register_len(bytes),
{
    let size = register_size_field(bytes[0]);
    let register = register_name(size, rm_field(bytes[0]));
    let data = immediate_value(size, bytes.skip(1));
    "mov "@ + register + ", "@ + decimal(data as nat)
}

/// Decodes a MOV of an immediate to a register.
pub fn disassemble_immediate_to_register(
    instruction_stream: &mut ByteCursor,
) -> (line: Option<String>)
    ensures
        old(instruction_stream).remaining().len() >= immediate_to_register_len(
            old(instruction_stream).remaining(),
        ) ==> {
            &&& line matches Some(text)
            &&& text@ == immediate_to_register_text(old(instruction_stream).remaining())
            &&& final(instruction_stream).is_advanced_from(
                *old(instruction_stream),
                immediate_to_register_len(old(instruction_stream).remaining()),
            )
        },
        old(instruction_stream).remaining().len() < immediate_to_register_len(
            old(instruction_stream).remaining(),
        ) ==> {
            &&& line is None
            &&& final(instruction_stream).is_exhausted_from(*old(instruction_stream))
        },
{
    let first_byte = instruction_stream.next()?;

    let size = register_size_of(first_byte);
    let data = immediate(size, instruction_stream)?;
    let registers = register_table(size);

    assert((first_byte & 0b0000_0111) >> 0 == first_byte % 8) by (bit_vector);
    let register = lookup_masked(registers, first_byte, 0b0000_0111, 0);

    let mut line = String::from_str("mov ");
    line.append(register);
    line.append(", ");
    append_decimal(&mut line, data);
    Some(line)
}

/// Bit 1 of a memory to/from accumulator opcode: set when the accumulator is
/// stored to memory, clear when it is loaded from memory.
pub open spec fn accumulator_is_source(opcode: u8) -> bool {
    (opcode / 2) % 2 == 1
}

/// The length of every memory to/from accumulator encoding: the opcode byte
/// and a 16-bit address.
pub open spec fn memory_to_from_accumulator_len() -> nat {
    3
}

/// The line for the memory to/from accumulator encoding at the start of
/// `bytes`. The register is always the word accumulator.
pub open spec fn memory_to_from_accumulator_text(bytes: Seq<u8>) -> Seq<char>
    recommends
        bytes.len() >= memory_to_from_accumulator_len(),
{
    let accumulator = register_name(Size::Word, 0);
    let memory = direct_address_text(unsigned_word(bytes[1], bytes[2]));
    if accumulator_is_source(bytes[0]) {
        "mov "@ + memory + ", "@ + accumulator
    } else {
        "mov "@ + accumulator + ", "@ + memory
    }
}

/// Decodes a MOV between the accumulator and memory at an absolute address.
pub fn disassemble_memory_to_from_accumulator(
    instruction_stream: &mut ByteCursor,
) -> (line: Option<String>)
    ensures
        old(instruction_stream).remaining().len() >= memory_to_from_accumulator_len() ==> {
            &&& line matches Some(text)
            &&& text@ == memory_to_from_accumulator_text(old(instruction_stream).remaining())
            &&& final(instruction_stream).is_advanced_from(
                *old(instruction_stream),
                memory_to_from_accumulator_len(),
            )
        },
        old(instruction_stream).remaining().len() < memory_to_from_accumulator_len() ==> {
            &&& line is None
            &&& final(instruction_stream).is_exhausted_from(*old(instruction_stream))
        },
{
    let first_byte = instruction_stream.next()?;
    let memory = direct_address(instruction_stream)?;
    let accumulator = WORD_REGISTERS[0];

    assert((first_byte & 0b0000_0010 != 0) == ((first_byte / 2) % 2 == 1)) by (bit_vector);
    let mut line = String::from_str("mov ");
    if first_byte & 0b0000_0010 != 0 {
        line.append(memory.as_str());
        line.append(", ");
        line.append(accumulator);
    } else {
        line.append(accumulator);
        line.append(", ");
        line.append(memory.as_str());
    }
    Some(line)
}

} // verus!
