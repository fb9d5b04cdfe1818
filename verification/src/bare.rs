//! The bare dump: one pair of hex characters per byte, pairs separated by a
//! single space, nothing before the first pair and nothing after the last.

use vstd::prelude::*;
use vstd::utf8::is_ascii_chars;
use crate::ascii::{ascii_chars, ascii_into_string, is_ascii_bytes, LAST_ASCII, SPACE};
use crate::digit::{hex_char, hex_digit, hex_value, is_hex_char, lemma_hex_char_round_trip};

verus! {

/// The number of characters in the bare dump of `count` bytes.
pub open spec fn bare_len(count: nat) -> nat {
    if count == 0 {
        0
    } else {
        (3 * count - 1) as nat
    }
}

/// The character at position `i` of a dump of `data`: byte `k` owns the
/// positions `3k` (high digit), `3k + 1` (low digit) and `3k + 2` (separator).
pub open spec fn bare_char(data: Seq<u8>, i: int) -> u8
    recommends
        0 <= i < 3 * data.len(),
{
    if i % 3 == 0 {
        hex_char(data[i / 3] as int / 16)
    } else if i % 3 == 1 {
        hex_char(data[i / 3] as int % 16)
    } else {
        SPACE
    }
}

/// The bare dump of `data`: the characters of all its bytes but for the
/// separator of the last.
pub open spec fn bare_text(data: Seq<u8>) -> Seq<u8> {
    Seq::new(bare_len(data.len()), |i: int| bare_char(data, i))
}

/// The bytes that the bare dump `text` spells: pair `k` stands at the
/// positions `3k` and `3k + 1`, and is read as a number in base 16.
pub open spec fn bare_bytes(text: Seq<u8>) -> Seq<u8> {
    Seq::new(
        ((text.len() + 1) / 3) as nat,
        |k: int| (16 * hex_value(text[3 * k]) + hex_value(text[3 * k + 1])) as u8,
    )
}

/// Appends the bare dump of `data` to `target`. What `target` held before stays
/// as it was; empty `data` appends nothing.
pub fn write_bare_dump_to_vec(data: &[u8], target: &mut Vec<u8>)
    ensures
        final(target)@ == old(target)@ + bare_text(data@),
        final(target)@.len() == old(target)@.len() + bare_len(data@.len()),
        forall|i: int| 0 <= i < old(target)@.len() ==> final(target)@[i] == old(target)@[i],
{
    let ghost before = target@;
    for k in 0..data.len()
        invariant
            target@.len() == before.len() + 3 * k,
            forall|j: int| 0 <= j < before.len() ==> target@[j] == before[j],
            forall|j: int| 0 <= j < 3 * k ==> target@[before.len() + j] == bare_char(data@, j),
    {
        let byte = data[k];
        assert(byte >> 4 == byte / 16 && byte & 0x0f == byte % 16) by (bit_vector);
        target.push(hex_digit(byte >> 4));
        target.push(hex_digit(byte & 0x0f));
        target.push(SPACE);
    }
    // The last character is a separator written above, and only where a byte
    // was written: with no data there is nothing of ours to take back.
    if data.len() > 0 {
        target.pop();
    }
    assert(target@ =~= before + bare_text(data@));
}

/// The bare dump of `data` in a buffer of its own.
pub fn bare_dump(data: &[u8]) -> (dump: Vec<u8>)
    ensures
        dump@ == bare_text(data@),
        dump@.len() == bare_len(data@.len()),
{
    // Room for three characters a byte, where a vector can be that large.
    let mut target = if data.len() <= usize::MAX / 6 {
        Vec::with_capacity(3 * data.len())
    } else {
        Vec::new()
    };
    write_bare_dump_to_vec(data, &mut target);
    target
}

/// The bare dump of `data` as text.
pub fn bare_dump_string(data: &[u8]) -> (dump: String)
    ensures
        dump@ == ascii_chars(bare_text(data@)),
        is_ascii_chars(dump@),
{
    let bytes = bare_dump(data);
    proof {
        lemma_bare_text_chars(data@);
    }
    ascii_into_string(bytes)
}

/// The bare dump of no bytes is empty; that of some bytes has three characters
/// for each byte but the last, which has two.
pub proof fn lemma_bare_text_len(data: Seq<u8>)
    ensures
        data.len() == 0 ==> bare_text(data) == Seq::<u8>::empty(),
        data.len() > 0 ==> bare_text(data).len() == 3 * data.len() - 1,
{
    assert(data.len() == 0 ==> bare_text(data) =~= Seq::<u8>::empty());
}

/// Every character of a bare dump is a hex character or a space, and so is
/// ASCII.
pub proof fn lemma_bare_text_chars(data: Seq<u8>)
    ensures
        forall|i: int|
            0 <= i < bare_text(data).len() ==> is_hex_char(#[trigger] bare_text(data)[i])
                || bare_text(data)[i] == SPACE,
        is_ascii_bytes(bare_text(data)),
{
    assert forall|i: int| 0 <= i < bare_text(data).len() implies (is_hex_char(
        #[trigger] bare_text(data)[i],
    ) || bare_text(data)[i] == SPACE) && bare_text(data)[i] <= LAST_ASCII by {
        let byte = data[i / 3];
        assert(0 <= byte as int / 16 < 16 && 0 <= byte as int % 16 < 16);
    }
}

/// The dump of `data` with one more byte is the dump of `data`, a space
/// unless `data` is empty, and the two hex characters of that byte.
pub proof fn lemma_bare_text_push(data: Seq<u8>, byte: u8)
    ensures
        bare_text(data.push(byte)) == if data.len() == 0 {
            seq![hex_char(byte as int / 16), hex_char(byte as int % 16)]
        } else {
            bare_text(data) + seq![SPACE, hex_char(byte as int / 16), hex_char(byte as int % 16)]
        },
{
    let more = data.push(byte);
    let tail = seq![SPACE, hex_char(byte as int / 16), hex_char(byte as int % 16)];
    if data.len() == 0 {
        assert(bare_text(more) =~= seq![hex_char(byte as int / 16), hex_char(byte as int % 16)]);
    } else {
        assert forall|i: int| 0 <= i < bare_text(more).len() implies bare_text(more)[i] == (
        bare_text(data) + tail)[i] by {
            if i < bare_text(data).len() {
                assert(more[i / 3] == data[i / 3]);
            } else {
                assert(i / 3 == data.len() || i == 3 * data.len() - 1);
            }
        }
        assert(bare_text(more) =~= bare_text(data) + tail);
    }
}

/// A bare dump of at least one byte neither starts nor ends with a space; its
/// spaces stand at every third position and nowhere else, so that no two are
/// neighbours; and there is one space fewer than there are bytes.
pub proof fn lemma_bare_text_separators(data: Seq<u8>)
    requires
        data.len() > 0,
    ensures
        bare_text(data).first() != SPACE,
        bare_text(data).last() != SPACE,
        forall|i: int|
            0 <= i < bare_text(data).len() ==> (#[trigger] bare_text(data)[i] == SPACE <==> i % 3
                == 2),
        bare_text(data).to_multiset().count(SPACE) == data.len() - 1,
    decreases data.len(),
{
    broadcast use vstd::seq_lib::group_to_multiset_ensures;

    let text = bare_text(data);
    assert forall|i: int| 0 <= i < text.len() implies (#[trigger] text[i] == SPACE <==> i % 3
        == 2) by {
        let byte = data[i / 3];
        assert(0 <= byte as int / 16 < 16 && 0 <= byte as int % 16 < 16);
    }
    assert(text.first() == text[0]);
    assert(text.last() == text[3 * data.len() - 2]);
    // The spaces are counted byte by byte, from the last byte down.
    let front = data.drop_last();
    let byte = data.last();
    let high = hex_char(byte as int / 16);
    let low = hex_char(byte as int % 16);
    assert(0 <= byte as int / 16 < 16 && 0 <= byte as int % 16 < 16);
    assert(data =~= front.push(byte));
    lemma_bare_text_push(front, byte);
    if front.len() == 0 {
        assert(text =~= Seq::<u8>::empty().push(high).push(low));
        assert(Seq::<u8>::empty().to_multiset().count(SPACE) == 0);
    } else {
        lemma_bare_text_separators(front);
        assert(text =~= bare_text(front).push(SPACE).push(high).push(low));
    }
}

/// Reading the hex pairs of a bare dump back gives the bytes that were dumped.
pub proof fn lemma_bare_text_round_trip(data: Seq<u8>)
    ensures
        bare_bytes(bare_text(data)) == data,
{
    let text = bare_text(data);
    assert forall|k: int| 0 <= k < data.len() implies bare_bytes(text)[k] == data[k] by {
        let byte = data[k];
        assert((3 * k) % 3 == 0 && (3 * k) / 3 == k);
        assert((3 * k + 1) % 3 == 1 && (3 * k + 1) / 3 == k);
        lemma_hex_char_round_trip(byte as int / 16);
        lemma_hex_char_round_trip(byte as int % 16);
    }
    assert(bare_bytes(text) =~= data);
}

} // verus!
