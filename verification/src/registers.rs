//! The two register tables: eight names each, indexed by a 3-bit selector.

use crate::fields::Size;
use vstd::prelude::*;

verus! {

pub const BYTE_REGISTERS: [&'static str; 8] = ["al", "cl", "dl", "bl", "ah", "ch", "dh", "bh"];

pub const WORD_REGISTERS: [&'static str; 8] = ["ax", "cx", "dx", "bx", "sp", "bp", "si", "di"];

/// The name of the register that `selector` picks among the registers of
/// width `size`.
pub open spec fn register_name(size: Size, selector: int) -> Seq<char>
    recommends
        0 <= selector < 8,
{
    match size {
        Size::Byte => BYTE_REGISTERS[selector]@,
        Size::Word => WORD_REGISTERS[selector]@,
    }
}

/// The table of the registers of width `operation_size`.
pub fn register_table(operation_size: Size) -> (table: &'static [&'static str; 8])
    ensures
        forall|selector: int|
            0 <= selector < 8 ==> (#[trigger] table[selector])@ == register_name(
                operation_size,
                selector,
            ),
{
    match operation_size {
        Size::Byte => &BYTE_REGISTERS,
        Size::Word => &WORD_REGISTERS,
    }
}

} // verus!
