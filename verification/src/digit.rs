//! The digit encoder: one 4-bit value to one lowercase hex character.

use vstd::prelude::*;

verus! {

/// ASCII `0`, the character of the value zero.
pub const DIGIT_ZERO: u8 = 0x30;

/// ASCII `9`, the last decimal digit.
pub const DIGIT_NINE: u8 = 0x39;

/// ASCII `a`, the character of the value ten.
pub const LETTER_A: u8 = 0x61;

/// ASCII `f`, the character of the value fifteen.
pub const LETTER_F: u8 = 0x66;

/// The lowercase ASCII hex character that stands for the value `nibble`.
pub open spec fn hex_char(nibble: int) -> u8
    recommends
        0 <= nibble < 16,
{
    if nibble < 10 {
        (DIGIT_ZERO + nibble) as u8
    } else {
        (LETTER_A + (nibble - 10)) as u8
    }
}

/// Whether `c` is one of the sixteen characters `0`-`9`, `a`-`f`.
pub open spec fn is_hex_char(c: u8) -> bool {
    (DIGIT_ZERO <= c <= DIGIT_NINE) || (LETTER_A <= c <= LETTER_F)
}

/// The value that the hex character `c` stands for.
pub open spec fn hex_value(c: u8) -> int
    recommends
        is_hex_char(c),
{
    if c <= DIGIT_NINE {
        c - DIGIT_ZERO
    } else {
        c - LETTER_A + 10
    }
}

/// Encodes a 4-bit value as its lowercase hex character.
pub fn hex_digit(nibble: u8) -> (digit: u8)
    requires
        nibble < 16,
    ensures
        digit == hex_char(nibble as int),
{
    if nibble < 10 {
        DIGIT_ZERO + nibble
    } else {
        LETTER_A + (nibble - 10)
    }
}

/// Every 4-bit value has a hex character, and reading that character back
/// gives the value again.
pub proof fn lemma_hex_char_round_trip(nibble: int)
    requires
        0 <= nibble < 16,
    ensures
        is_hex_char(hex_char(nibble)),
        hex_value(hex_char(nibble)) == nibble,
{
}

} // verus!
