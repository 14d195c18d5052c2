//! The opcode dispatcher: from the leading byte of an instruction to the
//! encoding it belongs to, and from there to the decoder of that encoding.

use crate::address::displacement_len;
use crate::cursor::ByteCursor;
use crate::fields::{register_size_field, size_field};
use crate::mov::{disassemble_immediate_to_register, disassemble_immediate_to_register_memory,
    disassemble_memory_to_from_accumulator, disassemble_register_to_from_register, immediate_len,
    immediate_to_register_len, immediate_to_register_memory_len,
    immediate_to_register_memory_text, immediate_to_register_text,
    memory_to_from_accumulator_len, memory_to_from_accumulator_text,
    register_to_from_register_len, register_to_from_register_text};
use vstd::prelude::*;

verus! {

/// The four encodings of MOV.
#[derive(Clone, Copy, Debug, PartialEq, Eq, Structural)]
pub enum OpcodeVariant {
    RegisterToFromRegisterOrMemory,
    ImmediateToRegister,
    ImmediateToRegisterOrMemory,
    MemoryToFromAccumulator,
}

/// Why a decode stopped.
#[derive(Clone, Copy, Debug, PartialEq, Eq, Structural)]
pub enum DecodeError {
    /// The stream ended inside the instruction that starts at `offset`.
    StreamExhausted { offset: usize },
    /// No encoding matches `byte`, the leading byte of the instruction at
    /// `offset`.
    UnsupportedOpcode { byte: u8, offset: usize },
}

impl DecodeError {
    /// The offset of the instruction that could not be decoded.
    pub open spec fn spec_offset(&self) -> usize {
        match *self {
            DecodeError::StreamExhausted { offset } => offset,
            DecodeError::UnsupportedOpcode { offset, .. } => offset,
        }
    }

    /// The offset of the instruction that could not be decoded.
    #[verifier::when_used_as_spec(spec_offset)]
    pub fn offset(&self) -> (offset: usize)
        ensures
            offset == self.spec_offset(),
    {
        match self {
            DecodeError::StreamExhausted { offset } => *offset,
            DecodeError::UnsupportedOpcode { offset, .. } => *offset,
        }
    }
}

/// Whether the leading bits of `opcode` are those of `variant`. The fixed
/// prefix is seven bits for an immediate to register/memory, six for
/// register/memory to/from register and for memory to/from accumulator, four
/// for an immediate to register.
pub open spec fn has_prefix_of(opcode: u8, variant: OpcodeVariant) -> bool {
    match variant {
        OpcodeVariant::ImmediateToRegisterOrMemory => opcode / 2 == 0b110_0011,
        OpcodeVariant::RegisterToFromRegisterOrMemory => opcode / 4 == 0b10_0010,
        OpcodeVariant::MemoryToFromAccumulator => opcode / 4 == 0b10_1000,
        OpcodeVariant::ImmediateToRegister => opcode / 16 == 0b1011,
    }
}

/// The encoding that `opcode` leads, if any. Longer prefixes are tried before
/// shorter ones.
pub open spec fn opcode_variant(opcode: u8) -> Option<OpcodeVariant> {
    if has_prefix_of(opcode, OpcodeVariant::ImmediateToRegisterOrMemory) {
        Some(OpcodeVariant::ImmediateToRegisterOrMemory)
    } else if has_prefix_of(opcode, OpcodeVariant::RegisterToFromRegisterOrMemory) {
        Some(OpcodeVariant::RegisterToFromRegisterOrMemory)
    } else if has_prefix_of(opcode, OpcodeVariant::MemoryToFromAccumulator) {
        Some(OpcodeVariant::MemoryToFromAccumulator)
    } else if has_prefix_of(opcode, OpcodeVariant::ImmediateToRegister) {
        Some(OpcodeVariant::ImmediateToRegister)
    } else {
        None
    }
}

/// Finds the encoding that `first_byte` leads. Where none matches, the error
/// carries the byte and `offset`, its place in the stream.
pub fn dispatch(first_byte: u8, offset: usize) -> (variant: Result<OpcodeVariant, DecodeError>)
    ensures
        variant == (match opcode_variant(first_byte) {
            Some(found) => Ok::<OpcodeVariant, DecodeError>(found),
            None => Err(DecodeError::UnsupportedOpcode { byte: first_byte, offset }),
        }),
{
    assert((first_byte & 0b1111_1110 == 0b1100_0110) == (first_byte / 2 == 0b110_0011))
        by (bit_vector);
    assert((first_byte & 0b1111_1100 == 0b1000_1000) == (first_byte / 4 == 0b10_0010))
        by (bit_vector);
    assert((first_byte & 0b1111_1100 == 0b1010_0000) == (first_byte / 4 == 0b10_1000))
        by (bit_vector);
    assert((first_byte & 0b1111_0000 == 0b1011_0000) == (first_byte / 16 == 0b1011))
        by (bit_vector);
    if first_byte & 0b1111_1110 == 0b1100_0110 {
        Ok(OpcodeVariant::ImmediateToRegisterOrMemory)
    } else if first_byte & 0b1111_1100 == 0b1000_1000 {
        Ok(OpcodeVariant::RegisterToFromRegisterOrMemory)
    } else if first_byte & 0b1111_1100 == 0b1010_0000 {
        Ok(OpcodeVariant::MemoryToFromAccumulator)
    } else if first_byte & 0b1111_0000 == 0b1011_0000 {
        Ok(OpcodeVariant::ImmediateToRegister)
    } else {
        Err(DecodeError::UnsupportedOpcode { byte: first_byte, offset })
    }
}

/// The length of the encoding `variant` at the start of `bytes`, as far as
/// `bytes` shows it.
pub open spec fn encoding_len(variant: OpcodeVariant, bytes: Seq<u8>) -> nat {
    match variant {
        OpcodeVariant::RegisterToFromRegisterOrMemory => register_to_from_register_len(bytes),
        OpcodeVariant::ImmediateToRegister => immediate_to_register_len(bytes),
        OpcodeVariant::ImmediateToRegisterOrMemory => immediate_to_register_memory_len(bytes),
        OpcodeVariant::MemoryToFromAccumulator => memory_to_from_accumulator_len(),
    }
}

/// The line for the encoding `variant` at the start of `bytes`.
pub open spec fn encoding_text(variant: OpcodeVariant, bytes: Seq<u8>) -> Seq<char>
    recommends
        bytes.len() >= encoding_len(variant, bytes),
{
    match variant {
        OpcodeVariant::RegisterToFromRegisterOrMemory => register_to_from_register_text(bytes),
        OpcodeVariant::ImmediateToRegister => immediate_to_register_text(bytes),
        OpcodeVariant::ImmediateToRegisterOrMemory => immediate_to_register_memory_text(bytes),
        OpcodeVariant::MemoryToFromAccumulator => memory_to_from_accumulator_text(bytes),
    }
}

/// Whether `bytes` starts with a whole instruction of a known encoding.
pub open spec fn is_decodable(bytes: Seq<u8>) -> bool {
    &&& bytes.len() > 0
    &&& opcode_variant(bytes[0]) matches Some(variant)
    &&& bytes.len() >= encoding_len(variant, bytes)
}

/// The length of the instruction at the start of `bytes`.
pub open spec fn instruction_len(bytes: Seq<u8>) -> nat
    recommends
        is_decodable(bytes),
{
    encoding_len(opcode_variant(bytes[0])->0, bytes)
}

/// The line for the instruction at the start of `bytes`.
pub open spec fn instruction_text(bytes: Seq<u8>) -> Seq<char>
    recommends
        is_decodable(bytes),
{
    encoding_text(opcode_variant(bytes[0])->0, bytes)
}

/// Why `bytes`, which start at `offset` in their stream, do not start with a
/// whole instruction of a known encoding.
pub open spec fn decode_error(bytes: Seq<u8>, offset: usize) -> DecodeError
    recommends
        !is_decodable(bytes),
{
    if bytes.len() > 0 && opcode_variant(bytes[0]) is None {
        DecodeError::UnsupportedOpcode { byte: bytes[0], offset }
    } else {
        DecodeError::StreamExhausted { offset }
    }
}

/// Decodes the instruction at the cursor.
///
/// An unknown leading byte is reported without being consumed. A stream that
/// ends inside the instruction, or is already at its end, is reported as
/// exhausted, and the cursor is left at the end.
pub fn disassemble_instruction(
    instruction_stream: &mut ByteCursor,
) -> (line: Result<String, DecodeError>)
    ensures
        is_decodable(old(instruction_stream).remaining()) ==> {
            &&& line matches Ok(text)
            &&& text@ == instruction_text(old(instruction_stream).remaining())
            &&& final(instruction_stream).is_advanced_from(
                *old(instruction_stream),
                instruction_len(old(instruction_stream).remaining()),
            )
        },
        !is_decodable(old(instruction_stream).remaining()) ==> {
            &&& line matches Err(error)
            &&& error == decode_error(
                old(instruction_stream).remaining(),
                old(instruction_stream).offset() as usize,
            )
            &&& error is UnsupportedOpcode ==> final(instruction_stream).is_advanced_from(
                *old(instruction_stream),
                0,
            )
            &&& error is StreamExhausted ==> final(instruction_stream).is_exhausted_from(
                *old(instruction_stream),
            )
        },
{
    let offset = instruction_stream.position();
    let first_byte = match instruction_stream.peek() {
        Some(byte) => byte,
        None => return Err(DecodeError::StreamExhausted { offset }),
    };
    let line = match dispatch(first_byte, offset)? {
        OpcodeVariant::RegisterToFromRegisterOrMemory => disassemble_register_to_from_register(
            instruction_stream,
        ),
        OpcodeVariant::ImmediateToRegister => disassemble_immediate_to_register(instruction_stream),
        OpcodeVariant::ImmediateToRegisterOrMemory => disassemble_immediate_to_register_memory(
            instruction_stream,
        ),
        OpcodeVariant::MemoryToFromAccumulator => disassemble_memory_to_from_accumulator(
            instruction_stream,
        ),
    };
    match line {
        Some(text) => Ok(text),
        None => Err(DecodeError::StreamExhausted { offset }),
    }
}

/// No byte has the prefix of two encodings, so the encoding found does not
/// depend on the order in which the prefixes are tried.
pub proof fn lemma_prefixes_are_disjoint(opcode: u8, variant: OpcodeVariant)
    ensures
        has_prefix_of(opcode, variant) <==> opcode_variant(opcode) == Some(variant),
{
}

/// The length of a whole instruction is decided by its encoding and by the
/// mode and size fields alone, and lies between two and six bytes.
pub proof fn lemma_instruction_len(bytes: Seq<u8>)
    requires
        is_decodable(bytes),
    ensures
        instruction_len(bytes) == (match opcode_variant(bytes[0])->0 {
            OpcodeVariant::RegisterToFromRegisterOrMemory => 2 + displacement_len(bytes[1]),
            OpcodeVariant::ImmediateToRegister => 1 + immediate_len(register_size_field(bytes[0])),
            OpcodeVariant::ImmediateToRegisterOrMemory => 2 + displacement_len(bytes[1])
                + immediate_len(size_field(bytes[0])),
            OpcodeVariant::MemoryToFromAccumulator => 3,
        }),
        2 <= instruction_len(bytes) <= 6,
        instruction_len(bytes) <= bytes.len(),
{
}

/// An instruction is made of its own bytes and no others: bytes that agree
/// with `bytes` over the length of its first instruction start with a whole
/// instruction too, of the same length and with the same line.
pub proof fn lemma_instruction_reads_its_own_bytes(bytes: Seq<u8>, other: Seq<u8>)
    requires
        is_decodable(bytes),
        other.len() >= instruction_len(bytes),
        other.take(instruction_len(bytes) as int) == bytes.take(instruction_len(bytes) as int),
    ensures
        is_decodable(other),
        instruction_len(other) == instruction_len(bytes),
        instruction_text(other) == instruction_text(bytes),
{
    let len = instruction_len(bytes) as int;
    assert forall|i: int| 0 <= i < len implies other[i] == bytes[i] by {
        assert(other.take(len)[i] == bytes.take(len)[i]);
    }
    assert(other[0] == bytes[0]);
    assert(other[1] == bytes[1]);
    assert forall|i: int| 0 <= i < len - 1 implies other.skip(1)[i] == bytes.skip(1)[i] by {
        assert(other[i + 1] == bytes[i + 1]);
    }
    assert forall|i: int| 0 <= i < len - 2 implies other.skip(2)[i] == bytes.skip(2)[i] by {
        assert(other[i + 2] == bytes[i + 2]);
    }
}

} // verus!
