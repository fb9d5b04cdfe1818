//! The formatted dump: one line per 16 bytes of input, each made of a 4-digit
//! offset, the bare dump of the line's bytes padded to full width, and an
//! ASCII sidebar.

use vstd::prelude::*;
use vstd::slice::slice_subrange;
use vstd::utf8::is_ascii_chars;
use crate::ascii::{
    ascii_chars,
    ascii_into_string,
    DOT,
    FIRST_PRINTABLE,
    LAST_PRINTABLE,
    NEWLINE,
    SPACE,
};
use crate::bare::{bare_text, write_bare_dump_to_vec};
use crate::digit::{hex_char, hex_digit};
use crate::layout::{formatted_len, lemma_formatted_text_chars, lemma_formatted_text_len};

verus! {

/// The number of input bytes on a full line.
pub const LINE_BYTES: usize = 16;

/// The number of characters of a full line, its line feed included.
pub const FULL_LINE_CHARS: usize = 70;

/// The four hex characters of the low 16 bits of `offset`, most significant
/// first. Higher bits do not show.
pub open spec fn offset_text(offset: u32) -> Seq<u8> {
    seq![
        hex_char((offset as int / 0x1000) % 16),
        hex_char((offset as int / 0x100) % 16),
        hex_char((offset as int / 0x10) % 16),
        hex_char(offset as int % 16),
    ]
}

/// What the sidebar shows for `byte`: the byte itself where it is printable
/// ASCII, a full stop where it is not.
pub open spec fn sidebar_char(byte: u8) -> u8 {
    if FIRST_PRINTABLE <= byte <= LAST_PRINTABLE {
        byte
    } else {
        DOT
    }
}

/// The sidebar of a line that shows `chunk`.
pub open spec fn sidebar_text(chunk: Seq<u8>) -> Seq<u8> {
    Seq::new(chunk.len(), |i: int| sidebar_char(chunk[i]))
}

/// The spaces that stand for the bytes a line of `count` bytes lacks: three
/// for each, the width of a hex pair and its separator.
pub open spec fn padding_text(count: nat) -> Seq<u8>
    recommends
        count <= LINE_BYTES,
{
    Seq::new((3 * (LINE_BYTES - count)) as nat, |i: int| SPACE)
}

/// One line of the formatted dump: `chunk` shown at `offset`.
pub open spec fn line_text(offset: u32, chunk: Seq<u8>) -> Seq<u8>
    recommends
        1 <= chunk.len() <= LINE_BYTES,
{
    offset_text(offset) + seq![SPACE] + bare_text(chunk) + padding_text(chunk.len())
        + seq![SPACE] + sidebar_text(chunk) + seq![NEWLINE]
}

/// The number of lines in the dump of `len` bytes.
pub open spec fn line_count(len: nat) -> nat {
    (len + LINE_BYTES - 1) as nat / (LINE_BYTES as nat)
}

/// The offset shown on line `line` of a dump that starts at `offset`: 16 more
/// for each line before it, counted modulo 2^32.
pub open spec fn line_offset(offset: u32, line: nat) -> u32 {
    ((offset + LINE_BYTES * line) % 0x1_0000_0000) as u32
}

/// The bytes that line `line` of a dump of `data` shows.
pub open spec fn line_chunk(data: Seq<u8>, line: nat) -> Seq<u8>
    recommends
        line < line_count(data.len()),
{
    let start = LINE_BYTES * line;
    if start + LINE_BYTES <= data.len() {
        data.subrange(start, start + LINE_BYTES)
    } else {
        data.subrange(start, data.len() as int)
    }
}

/// The first `count` lines of the dump of `data` that starts at `offset`.
pub open spec fn lines_text(offset: u32, data: Seq<u8>, count: nat) -> Seq<u8>
    recommends
        count <= line_count(data.len()),
    decreases count,
{
    if count == 0 {
        Seq::empty()
    } else {
        let line = (count - 1) as nat;
        lines_text(offset, data, line) + line_text(line_offset(offset, line), line_chunk(data, line))
    }
}

/// The formatted dump of `data` whose first byte has the address `offset`.
pub open spec fn formatted_text(offset: u32, data: Seq<u8>) -> Seq<u8> {
    lines_text(offset, data, line_count(data.len()))
}

/// Appends the four hex characters of the low 16 bits of `offset`.
fn write_offset(offset: u32, target: &mut Vec<u8>)
    ensures
        final(target)@ == old(target)@ + offset_text(offset),
{
    let ghost before = target@;
    assert(((offset >> 12) & 0x0f) == (offset / 0x1000) % 16 && ((offset >> 8) & 0x0f) == (offset
        / 0x100) % 16 && ((offset >> 4) & 0x0f) == (offset / 0x10) % 16 && (offset & 0x0f) == offset
        % 16) by (bit_vector);
    target.push(hex_digit(((offset >> 12) & 0x0f) as u8));
    target.push(hex_digit(((offset >> 8) & 0x0f) as u8));
    target.push(hex_digit(((offset >> 4) & 0x0f) as u8));
    target.push(hex_digit((offset & 0x0f) as u8));
    assert(target@ =~= before + offset_text(offset));
}

/// Appends the padding of a line that shows `count` bytes.
fn write_padding(count: usize, target: &mut Vec<u8>)
    requires
        count <= LINE_BYTES,
    ensures
        final(target)@ == old(target)@ + padding_text(count as nat),
{
    let ghost before = target@;
    for k in count..LINE_BYTES
        invariant
            count <= LINE_BYTES,
            target@.len() == before.len() + 3 * (k - count),
            forall|j: int| 0 <= j < before.len() ==> target@[j] == before[j],
            forall|j: int| before.len() <= j < target@.len() ==> target@[j] == SPACE,
    {
        target.push(SPACE);
        target.push(SPACE);
        target.push(SPACE);
    }
    assert(target@ =~= before + padding_text(count as nat));
}

/// Appends the sidebar of a line that shows `chunk`.
fn write_sidebar(chunk: &[u8], target: &mut Vec<u8>)
    ensures
        final(target)@ == old(target)@ + sidebar_text(chunk@),
{
    let ghost before = target@;
    for k in 0..chunk.len()
        invariant
            target@.len() == before.len() + k,
            forall|j: int| 0 <= j < before.len() ==> target@[j] == before[j],
            forall|j: int| 0 <= j < k ==> target@[before.len() + j] == sidebar_char(chunk@[j]),
    {
        let byte = chunk[k];
        if byte >= FIRST_PRINTABLE && byte <= LAST_PRINTABLE {
            target.push(byte);
        } else {
            target.push(DOT);
        }
    }
    assert(target@ =~= before + sidebar_text(chunk@));
}

/// Appends one line: `chunk` shown at `offset`.
fn write_line(offset: u32, chunk: &[u8], target: &mut Vec<u8>)
    requires
        1 <= chunk@.len() <= LINE_BYTES,
    ensures
        final(target)@ == old(target)@ + line_text(offset, chunk@),
{
    let ghost before = target@;
    write_offset(offset, target);
    target.push(SPACE);
    write_bare_dump_to_vec(chunk, target);
    write_padding(chunk.len(), target);
    target.push(SPACE);
    write_sidebar(chunk, target);
    target.push(NEWLINE);
    assert(target@ =~= before + line_text(offset, chunk@));
}

/// The offset of a line is the offset of the line before it plus 16, wrapped
/// to 32 bits.
proof fn lemma_line_offset_next(offset: u32, line: nat)
    ensures
        line_offset(offset, line + 1) == vstd::wrapping::u32_specs::wrapping_add(
            line_offset(offset, line),
            16,
        ),
{
    let total = offset + LINE_BYTES * line;
    assert((total + 16) % 0x1_0000_0000 == if total % 0x1_0000_0000 + 16 >= 0x1_0000_0000 {
        total % 0x1_0000_0000 + 16 - 0x1_0000_0000
    } else {
        total % 0x1_0000_0000 + 16
    });
}

/// Appends the formatted dump of `data` to `target`, the first line at
/// `offset`. What `target` held before stays as it was; empty `data` appends
/// nothing.
pub fn write_formatted_dump_to_vec(offset: u32, data: &[u8], target: &mut Vec<u8>)
    ensures
        final(target)@ == old(target)@ + formatted_text(offset, data@),
        final(target)@.len() == old(target)@.len() + formatted_len(data@.len()),
        forall|i: int| 0 <= i < old(target)@.len() ==> final(target)@[i] == old(target)@[i],
{
    proof {
        lemma_formatted_text_len(offset, data@);
    }
    let ghost before = target@;
    // The number of lines written so far.
    let ghost mut line: nat = 0;
    let mut shown: u32 = offset;
    let mut start: usize = 0;
    while start < data.len()
        invariant
            start <= data.len(),
            // `start` is the first byte of line `line`, or the end of the data
            // once the last line, which may be short, is written.
            start <= LINE_BYTES * line < start + LINE_BYTES,
            start < data.len() ==> start == LINE_BYTES * line,
            shown == line_offset(offset, line),
            target@ == before + lines_text(offset, data@, line),
        decreases data.len() - start,
    {
        let end: usize = if data.len() - start > LINE_BYTES {
            start + LINE_BYTES
        } else {
            data.len()
        };
        let chunk = slice_subrange(data, start, end);
        write_line(shown, chunk, target);
        proof {
            assert(chunk@ == line_chunk(data@, line));
            assert(lines_text(offset, data@, line + 1) == lines_text(offset, data@, line)
                + line_text(shown, chunk@));
            assert(target@ =~= before + lines_text(offset, data@, line + 1));
            lemma_line_offset_next(offset, line);
            line = line + 1;
        }
        // The offset advances by a full line, also after a short one.
        shown = shown.wrapping_add(16);
        start = end;
    }
    assert(line == line_count(data@.len()));
}

/// The formatted dump of `data` in a buffer of its own.
pub fn formatted_dump(offset: u32, data: &[u8]) -> (dump: Vec<u8>)
    ensures
        dump@ == formatted_text(offset, data@),
        dump@.len() == formatted_len(data@.len()),
{
    let lines: usize = data.len() / LINE_BYTES + if data.len() % LINE_BYTES == 0 {
        0
    } else {
        1
    };
    // Room for 70 characters a line, where a vector can be that large.
    let mut target = if lines <= usize::MAX / (2 * FULL_LINE_CHARS) {
        Vec::with_capacity(lines * FULL_LINE_CHARS)
    } else {
        Vec::new()
    };
    write_formatted_dump_to_vec(offset, data, &mut target);
    target
}

/// The formatted dump of `data` as text.
pub fn formatted_dump_string(offset: u32, data: &[u8]) -> (dump: String)
    ensures
        dump@ == ascii_chars(formatted_text(offset, data@)),
        is_ascii_chars(dump@),
{
    let bytes = formatted_dump(offset, data);
    proof {
        lemma_formatted_text_chars(offset, data@);
    }
    ascii_into_string(bytes)
}

} // verus!
