//! ASCII: the characters that a dump holds besides the hex digits, and the way
//! from ASCII bytes to text.

use vstd::prelude::*;
use vstd::utf8::{decode_utf8, encode_utf8, is_ascii_chars, valid_utf8};

verus! {

/// ASCII space, which separates what stands on a line.
pub const SPACE: u8 = 0x20;

/// ASCII line feed, which ends every line.
pub const NEWLINE: u8 = 0x0a;

/// ASCII full stop, which stands in the sidebar for a byte that does not print.
pub const DOT: u8 = 0x2e;

/// The first printable ASCII character, the space.
pub const FIRST_PRINTABLE: u8 = 0x20;

/// The last printable ASCII character, the tilde.
pub const LAST_PRINTABLE: u8 = 0x7e;

/// The last ASCII character.
pub const LAST_ASCII: u8 = 0x7f;

/// Whether `c` is printable ASCII, the space included.
pub open spec fn is_printable(c: u8) -> bool {
    FIRST_PRINTABLE <= c <= LAST_PRINTABLE
}

/// Whether every byte of `bytes` is ASCII.
pub open spec fn is_ascii_bytes(bytes: Seq<u8>) -> bool {
    forall|i: int| 0 <= i < bytes.len() ==> #[trigger] bytes[i] <= LAST_ASCII
}

/// The characters that ASCII `bytes` spell: one for each byte, with the
/// byte's value.
pub open spec fn ascii_chars(bytes: Seq<u8>) -> Seq<char>
    recommends
        is_ascii_bytes(bytes),
{
    Seq::new(bytes.len(), |i: int| bytes[i] as char)
}

/// `std::string::FromUtf8Error`, the error of `String::from_utf8`. Nothing is
/// said of what it holds.
#[verifier::external_type_specification]
#[verifier::external_body]
pub struct ExFromUtf8Error(std::string::FromUtf8Error);

/// `String::from_utf8` is taken on trust: that it succeeds on valid UTF-8 and
/// on nothing else, and that the string it then returns is encoded by the very
/// bytes it was given.
pub assume_specification[ String::from_utf8 ](vec: Vec<u8>) -> (result: Result<
    String,
    std::string::FromUtf8Error,
>)
    ensures
        result is Ok <==> valid_utf8(vec@),
        result matches Ok(text) ==> encode_utf8(text@) == vec@,
;

/// ASCII bytes are valid UTF-8, and decode to one character for each byte.
pub proof fn lemma_ascii_is_utf8(bytes: Seq<u8>)
    requires
        is_ascii_bytes(bytes),
    ensures
        is_ascii_chars(ascii_chars(bytes)),
        encode_utf8(ascii_chars(bytes)) == bytes,
        valid_utf8(bytes),
        decode_utf8(bytes) == ascii_chars(bytes),
{
    let chars = ascii_chars(bytes);
    assert forall|i: int| 0 <= i < chars.len() implies '\0' <= #[trigger] chars[i] <= '\u{7f}'
        && chars[i] as u8 == bytes[i] by {
        assert(bytes[i] <= LAST_ASCII);
    }
    vstd::utf8::is_ascii_chars_encode_utf8(chars);
    assert(encode_utf8(chars) =~= bytes);
    vstd::utf8::encode_utf8_valid_utf8(chars);
    vstd::utf8::encode_utf8_decode_utf8(chars);
}

/// Turns ASCII bytes into the text that they spell.
pub(crate) fn ascii_into_string(bytes: Vec<u8>) -> (text: String)
    requires
        is_ascii_bytes(bytes@),
    ensures
        text@ == ascii_chars(bytes@),
        is_ascii_chars(text@),
{
    proof {
        lemma_ascii_is_utf8(bytes@);
    }
    match String::from_utf8(bytes) {
        Ok(text) => {
            proof {
                // The text is what its own encoding decodes to.
                vstd::utf8::encode_utf8_decode_utf8(text@);
            }
            text
        },
        // ASCII is valid UTF-8, so the conversion cannot fail.
        Err(_) => vstd::pervasive::unreached(),
    }
}

} // verus!
