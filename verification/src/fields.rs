//! The scalar fields of an instruction. Each is a pure function of fixed bit
//! positions of the opcode byte or of the addressing byte.

use vstd::prelude::*;

verus! {

/// Operand order: whether the register operand is written second or first.
#[derive(Clone, Copy, Debug, PartialEq, Eq, Structural)]
pub enum Direction {
    FromRegister,
    ToRegister,
}

/// Operand width.
#[derive(Clone, Copy, Debug, PartialEq, Eq, Structural)]
pub enum Size {
    Byte,
    Word,
}

/// Addressing mode of the register-or-memory operand.
#[derive(Clone, Copy, Debug, PartialEq, Eq, Structural)]
pub enum Mode {
    MemoryNoDisplacement,
    Memory8Bit,
    Memory16Bit,
    Register,
}

pub const DIRECTIONS: [Direction; 2] = [Direction::FromRegister, Direction::ToRegister];

pub const SIZES: [Size; 2] = [Size::Byte, Size::Word];

pub const MODES: [Mode; 4] = [
    Mode::MemoryNoDisplacement,
    Mode::Memory8Bit,
    Mode::Memory16Bit,
    Mode::Register,
];

/// The operand width that a size bit stands for.
pub open spec fn size_of_bit(bit: int) -> Size {
    if bit == 0 {
        Size::Byte
    } else {
        Size::Word
    }
}

/// Bit 1 of the opcode byte: the operand order.
pub open spec fn direction_field(opcode: u8) -> Direction {
    if (opcode / 2) % 2 == 0 {
        Direction::FromRegister
    } else {
        Direction::ToRegister
    }
}

/// Bit 0 of the opcode byte: the operand width of the encodings that carry an
/// addressing byte.
pub open spec fn size_field(opcode: u8) -> Size {
    size_of_bit((opcode % 2) as int)
}

/// Bit 3 of the opcode byte: the operand width of the immediate-to-register
/// encoding.
pub open spec fn register_size_field(opcode: u8) -> Size {
    size_of_bit(((opcode / 8) % 2) as int)
}

/// Bits 6 and 7 of the addressing byte.
pub open spec fn mode_field(addressing: u8) -> Mode {
    if addressing / 64 == 0 {
        Mode::MemoryNoDisplacement
    } else if addressing / 64 == 1 {
        Mode::Memory8Bit
    } else if addressing / 64 == 2 {
        Mode::Memory16Bit
    } else {
        Mode::Register
    }
}

/// Bits 3 to 5 of the addressing byte: the register selector.
pub open spec fn register_field(addressing: u8) -> int {
    ((addressing / 8) % 8) as int
}

/// Bits 0 to 2 of a byte: the register-or-memory selector of an addressing
/// byte, or the register selector of an immediate-to-register opcode.
pub open spec fn rm_field(byte: u8) -> int {
    (byte % 8) as int
}

/// The word that names an operand width before an immediate.
pub open spec fn size_qualifier(size: Size) -> Seq<char> {
    match size {
        Size::Byte => "byte"@,
        Size::Word => "word"@,
    }
}

impl Size {
    /// The word that names this width before an immediate.
    pub fn as_immediate_str(&self) -> (word: &'static str)
        ensures
            word@ == size_qualifier(*self),
    {
        match self {
            Size::Byte => "byte",
            Size::Word => "word",
        }
    }
}

/// The entry of `table` selected by the bits of `byte` under `mask`, moved down
/// by `shift` positions.
pub fn lookup_masked<T: Copy, const N: usize>(
    table: &[T; N],
    byte: u8,
    mask: u8,
    shift: u8,
) -> (entry: T)
    requires
        shift < 8,
        ((byte & mask) >> shift) < N,
    ensures
        entry == table[((byte & mask) >> shift) as int],
{
    table[((byte & mask) >> shift) as usize]
}

/// Reads the operand order from an opcode byte.
pub fn direction_of(opcode: u8) -> (direction: Direction)
    ensures
        direction == direction_field(opcode),
{
    assert((opcode & 0b0000_0010) >> 1 == (opcode / 2) % 2) by (bit_vector);
    lookup_masked(&DIRECTIONS, opcode, 0b0000_0010, 1)
}

/// Reads the operand width from bit 0 of an opcode byte.
pub fn size_of(opcode: u8) -> (size: Size)
    ensures
        size == size_field(opcode),
{
    assert((opcode & 0b0000_0001) >> 0 == opcode % 2) by (bit_vector);
    lookup_masked(&SIZES, opcode, 0b0000_0001, 0)
}

/// Reads the operand width from bit 3 of an immediate-to-register opcode.
pub fn register_size_of(opcode: u8) -> (size: Size)
    ensures
        size == register_size_field(opcode),
{
    assert((opcode & 0b0000_1000) >> 3 == (opcode / 8) % 2) by (bit_vector);
    lookup_masked(&SIZES, opcode, 0b0000_1000, 3)
}

/// Reads the addressing mode from an addressing byte.
pub fn mode_of(addressing: u8) -> (mode: Mode)
    ensures
        mode == mode_field(addressing),
{
    assert((addressing & 0b1100_0000) >> 6 == addressing / 64) by (bit_vector);
    lookup_masked(&MODES, addressing, 0b1100_0000, 6)
}

} // verus!
