//! Unsigned decimal numerals.

use vstd::prelude::*;

verus! {

pub const DIGITS: [&'static str; 10] = ["0", "1", "2", "3", "4", "5", "6", "7", "8", "9"];

/// The decimal numeral of `value`: no sign, and no leading zero but for zero
/// itself.
pub open spec fn decimal(value: nat) -> Seq<char>
    decreases value,
{
    if value < 10 {
        DIGITS[value as int]@
    } else {
        decimal(value / 10) + DIGITS[(value % 10) as int]@
    }
}

/// Appends the decimal numeral of `value` to `text`.
pub fn append_decimal(text: &mut String, value: u16)
    ensures
        final(text)@ == old(text)@ + decimal(value as nat),
    decreases value,
{
    if value >= 10 {
        append_decimal(text, value / 10);
    }
    text.append(DIGITS[(value % 10) as usize]);
}

/// The number that a numeral denotes: each character counts as its distance
/// from `'0'`, and each place is worth ten times the place to its right.
pub open spec fn denoted_value(numeral: Seq<char>) -> int
    decreases numeral.len(),
{
    if numeral.len() == 0 {
        0
    } else {
        10 * denoted_value(numeral.drop_last()) + (numeral.last() as int - '0' as int)
    }
}

/// Each entry of the digit table is the one character that stands for its
/// index.
pub proof fn lemma_digits(digit: int)
    requires
        0 <= digit < 10,
    ensures
        DIGITS[digit]@.len() == 1,
        DIGITS[digit]@[0] as int == '0' as int + digit,
{
    reveal_strlit("0");
    reveal_strlit("1");
    reveal_strlit("2");
    reveal_strlit("3");
    reveal_strlit("4");
    reveal_strlit("5");
    reveal_strlit("6");
    reveal_strlit("7");
    reveal_strlit("8");
    reveal_strlit("9");
}

/// The decimal numeral of a number is made of digits only, starts with a
/// zero only where the number is zero, and denotes that number.
pub proof fn lemma_decimal_denotes_value(value: nat)
    ensures
        decimal(value).len() >= 1,
        forall|i: int| 0 <= i < decimal(value).len() ==> '0' <= #[trigger] decimal(value)[i] <= '9',
        value > 0 ==> decimal(value)[0] != '0',
        denoted_value(decimal(value)) == value,
    decreases value,
{
    lemma_digits((value % 10) as int);
    let last = DIGITS[(value % 10) as int]@;
    if value < 10 {
        assert(decimal(value).drop_last() =~= Seq::<char>::empty());
        assert(denoted_value(decimal(value).drop_last()) == 0);
    } else {
        lemma_decimal_denotes_value(value / 10);
        assert(decimal(value).drop_last() =~= decimal(value / 10));
    }
}

} // verus!
