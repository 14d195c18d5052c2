//! Disassembler for the MOV family of 8086 machine instructions.
//!
//! [`disassemble`] turns a stream of machine-code bytes into assembly text.
//! It covers four encodings of MOV: register/memory to/from register,
//! immediate to register, immediate to register/memory, and memory to/from
//! accumulator. Every other opcode is reported as unsupported.

pub mod address;
pub mod cursor;
pub mod decimal;
pub mod disassembly;
pub mod dispatch;
pub mod fields;
pub mod mov;
pub mod registers;

pub use crate::cursor::ByteCursor;
pub use crate::disassembly::{disassemble, Disassembly, HEADER};
pub use crate::dispatch::{disassemble_instruction, dispatch, DecodeError, OpcodeVariant};
