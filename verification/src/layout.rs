//! The layout of the formatted dump: how long it is, where each line stands
//! in it, and what stands in which column of a line.

use vstd::prelude::*;
use crate::ascii::{is_ascii_bytes, is_printable, NEWLINE, SPACE};
use crate::bare::{bare_len, bare_text, lemma_bare_text_chars};
use crate::digit::is_hex_char;
use crate::formatted::{
    formatted_text,
    line_chunk,
    line_count,
    line_offset,
    line_text,
    lines_text,
    offset_text,
    sidebar_text,
    FULL_LINE_CHARS,
    LINE_BYTES,
};

verus! {

/// The column at which the hex pairs of a line start: after the four
/// characters of the offset and one space.
pub const BODY_COLUMN: usize = 5;

/// The column at which the sidebar of a line starts, whatever the line shows.
pub const SIDEBAR_COLUMN: usize = 53;

/// The number of characters in the formatted dump of `len` bytes: 70 for each
/// full line, and for a last line of fewer bytes 54 and one for each byte.
pub open spec fn formatted_len(len: nat) -> nat {
    let full = len / (LINE_BYTES as nat);
    let rest = len % (LINE_BYTES as nat);
    if rest == 0 {
        (FULL_LINE_CHARS * full) as nat
    } else {
        (FULL_LINE_CHARS * full + SIDEBAR_COLUMN + rest + 1) as nat
    }
}

/// Only the low 16 bits of an offset show.
pub proof fn lemma_offset_text_low_bits(offset: u32)
    ensures
        offset_text(offset) == offset_text(offset % 0x1_0000),
{
    let low: u32 = offset % 0x1_0000;
    assert((offset / 0x1000) % 16 == (low / 0x1000) % 16 && (offset / 0x100) % 16 == (low / 0x100)
        % 16 && (offset / 0x10) % 16 == (low / 0x10) % 16 && offset % 16 == low % 16)
        by (bit_vector)
        requires
            low == offset % 0x1_0000,
    ;
    assert(offset_text(offset) =~= offset_text(low));
}

/// Every line shows 16 bytes, but for the last line of a dump whose length is
/// no multiple of 16, which shows the bytes that are left. Byte `i` of line
/// `line` is byte `16 * line + i` of the data.
pub proof fn lemma_line_chunk_len(data: Seq<u8>, line: nat)
    requires
        line < line_count(data.len()),
    ensures
        line_chunk(data, line).len() == if line + 1 < line_count(data.len()) || data.len()
            % (LINE_BYTES as nat) == 0 {
            LINE_BYTES as nat
        } else {
            data.len() % (LINE_BYTES as nat)
        },
        1 <= line_chunk(data, line).len() <= LINE_BYTES,
        forall|i: int|
            0 <= i < line_chunk(data, line).len() ==> #[trigger] line_chunk(data, line)[i]
                == data[LINE_BYTES * line + i],
{
}

/// The layout of one line. It has 54 characters and one for each byte shown.
/// The offset fills the first four columns and a space the fifth; the bare
/// dump of the bytes follows; spaces fill the line up to the sidebar, which
/// starts at column 53 whatever the number of bytes; the line feed is the
/// last character, and the only one in the line.
pub proof fn lemma_line_text_layout(offset: u32, chunk: Seq<u8>)
    requires
        1 <= chunk.len() <= LINE_BYTES,
    ensures
        line_text(offset, chunk).len() == SIDEBAR_COLUMN + chunk.len() + 1,
        line_text(offset, chunk).subrange(0, 4) == offset_text(offset),
        line_text(offset, chunk)[4] == SPACE,
        line_text(offset, chunk).subrange(
            BODY_COLUMN as int,
            BODY_COLUMN + bare_len(chunk.len()),
        ) == bare_text(chunk),
        forall|j: int|
            BODY_COLUMN + bare_len(chunk.len()) <= j < SIDEBAR_COLUMN ==> #[trigger] line_text(
                offset,
                chunk,
            )[j] == SPACE,
        line_text(offset, chunk).subrange(
            SIDEBAR_COLUMN as int,
            SIDEBAR_COLUMN + chunk.len(),
        ) == sidebar_text(chunk),
        line_text(offset, chunk).last() == NEWLINE,
        forall|j: int|
            0 <= j < SIDEBAR_COLUMN + chunk.len() ==> is_printable(
                #[trigger] line_text(offset, chunk)[j],
            ) && line_text(offset, chunk)[j] != NEWLINE,
{
    let line = line_text(offset, chunk);
    let body = bare_text(chunk);
    lemma_bare_text_chars(chunk);
    lemma_offset_text_chars(offset);
    assert(line.subrange(0, 4) =~= offset_text(offset));
    assert(line.subrange(BODY_COLUMN as int, BODY_COLUMN + bare_len(chunk.len())) =~= body);
    assert(line.subrange(SIDEBAR_COLUMN as int, SIDEBAR_COLUMN + chunk.len()) =~= sidebar_text(
        chunk,
    ));
    assert forall|j: int| 0 <= j < SIDEBAR_COLUMN + chunk.len() implies is_printable(
        #[trigger] line[j],
    ) && line[j] != NEWLINE by {
        if j < 4 {
            assert(line[j] == offset_text(offset)[j]);
        } else if BODY_COLUMN <= j < BODY_COLUMN + body.len() {
            assert(line[j] == body[j - BODY_COLUMN]);
        } else if j >= SIDEBAR_COLUMN {
            assert(line[j] == sidebar_text(chunk)[j - SIDEBAR_COLUMN]);
        }
    }
}

/// The dump of no bytes is empty. The dump of `len` bytes has 70 characters
/// for each full line, and for a last line of fewer bytes 54 and one for each
/// byte.
pub proof fn lemma_formatted_text_len(offset: u32, data: Seq<u8>)
    ensures
        formatted_text(offset, data).len() == formatted_len(data.len()),
        data.len() == 0 ==> formatted_text(offset, data) == Seq::<u8>::empty(),
{
    lemma_lines_text_len(offset, data, line_count(data.len()));
    assert(data.len() == 0 ==> formatted_text(offset, data) =~= Seq::<u8>::empty());
}

/// Line `line` of a dump starts at character `70 * line`, shows the bytes of
/// `data` from byte `16 * line` on, and carries the offset of the dump plus
/// `16 * line`. It has 70 characters, unless it is the last line of a dump
/// whose length is no multiple of 16.
pub proof fn lemma_formatted_text_line(offset: u32, data: Seq<u8>, line: nat)
    requires
        line < line_count(data.len()),
    ensures
        FULL_LINE_CHARS * line + line_text(
            line_offset(offset, line),
            line_chunk(data, line),
        ).len() <= formatted_text(offset, data).len(),
        formatted_text(offset, data).subrange(
            FULL_LINE_CHARS * line,
            FULL_LINE_CHARS * line + line_text(
                line_offset(offset, line),
                line_chunk(data, line),
            ).len(),
        ) == line_text(line_offset(offset, line), line_chunk(data, line)),
        line + 1 < line_count(data.len()) || data.len() % (LINE_BYTES as nat) == 0 ==> line_text(
            line_offset(offset, line),
            line_chunk(data, line),
        ).len() == FULL_LINE_CHARS,
{
    lemma_line_chunk_len(data, line);
    lemma_line_text_len(line_offset(offset, line), line_chunk(data, line));
    lemma_lines_text_line(offset, data, line_count(data.len()), line);
}

/// A dump holds as many line feeds as it has lines, and a dump that is not
/// empty ends with one.
pub proof fn lemma_formatted_text_newlines(offset: u32, data: Seq<u8>)
    ensures
        formatted_text(offset, data).to_multiset().count(NEWLINE) == line_count(data.len()),
        data.len() > 0 ==> formatted_text(offset, data).last() == NEWLINE,
{
    lemma_lines_text_newlines(offset, data, line_count(data.len()));
}

/// Every character of a dump is printable ASCII or a line feed.
pub proof fn lemma_formatted_text_chars(offset: u32, data: Seq<u8>)
    ensures
        forall|i: int|
            0 <= i < formatted_text(offset, data).len() ==> is_printable(
                #[trigger] formatted_text(offset, data)[i],
            ) || formatted_text(offset, data)[i] == NEWLINE,
        is_ascii_bytes(formatted_text(offset, data)),
{
    lemma_lines_text_chars(offset, data, line_count(data.len()));
}

/// The four characters of an offset are hex characters.
proof fn lemma_offset_text_chars(offset: u32)
    ensures
        offset_text(offset).len() == 4,
        forall|j: int| 0 <= j < 4 ==> is_hex_char(#[trigger] offset_text(offset)[j]),
{
}

/// A line has 54 characters and one for each byte that it shows.
proof fn lemma_line_text_len(offset: u32, chunk: Seq<u8>)
    requires
        1 <= chunk.len() <= LINE_BYTES,
    ensures
        line_text(offset, chunk).len() == SIDEBAR_COLUMN + chunk.len() + 1,
{
}

/// A part of `front + tail` that ends within `front` is that part of `front`,
/// and the part after `front` is `tail`.
proof fn lemma_subrange_of_add(front: Seq<u8>, tail: Seq<u8>, start: int, end: int)
    requires
        0 <= start <= end <= front.len() + tail.len(),
    ensures
        end <= front.len() ==> (front + tail).subrange(start, end) == front.subrange(start, end),
        start == front.len() && end == front.len() + tail.len() ==> (front + tail).subrange(
            start,
            end,
        ) == tail,
{
    if end <= front.len() {
        assert((front + tail).subrange(start, end) =~= front.subrange(start, end));
    }
    if start == front.len() && end == front.len() + tail.len() {
        assert((front + tail).subrange(start, end) =~= tail);
    }
}

/// The number of bytes that the first `count` lines of a dump of `len` bytes
/// show.
spec fn shown_len(len: nat, count: nat) -> nat {
    if LINE_BYTES * count <= len {
        (LINE_BYTES * count) as nat
    } else {
        len
    }
}

/// The first `count` lines of a dump are as long as the dump of the bytes
/// that they show.
proof fn lemma_lines_text_len(offset: u32, data: Seq<u8>, count: nat)
    requires
        count <= line_count(data.len()),
    ensures
        lines_text(offset, data, count).len() == formatted_len(shown_len(data.len(), count)),
    decreases count,
{
    if count > 0 {
        let last = (count - 1) as nat;
        lemma_lines_text_len(offset, data, last);
        lemma_line_chunk_len(data, last);
        lemma_line_text_len(line_offset(offset, last), line_chunk(data, last));
    }
}

/// Among the first `count` lines of a dump, line `line` stands at character
/// `70 * line`.
proof fn lemma_lines_text_line(offset: u32, data: Seq<u8>, count: nat, line: nat)
    requires
        line < count <= line_count(data.len()),
    ensures
        FULL_LINE_CHARS * line + SIDEBAR_COLUMN + line_chunk(data, line).len() + 1 <= lines_text(
            offset,
            data,
            count,
        ).len(),
        lines_text(offset, data, count).subrange(
            FULL_LINE_CHARS * line,
            FULL_LINE_CHARS * line + SIDEBAR_COLUMN + line_chunk(data, line).len() + 1,
        ) == line_text(line_offset(offset, line), line_chunk(data, line)),
    decreases count,
{
    let last = (count - 1) as nat;
    let front = lines_text(offset, data, last);
    let tail = line_text(line_offset(offset, last), line_chunk(data, last));
    let start = FULL_LINE_CHARS * line;
    let end = start + SIDEBAR_COLUMN + line_chunk(data, line).len() + 1;
    lemma_lines_text_len(offset, data, last);
    lemma_line_chunk_len(data, last);
    lemma_line_chunk_len(data, line);
    lemma_line_text_len(line_offset(offset, last), line_chunk(data, last));
    assert(lines_text(offset, data, count) == front + tail);
    assert(front.len() == FULL_LINE_CHARS * last);
    if line < last {
        lemma_lines_text_line(offset, data, last, line);
    }
    lemma_subrange_of_add(front, tail, start, end);
}

/// The first `count` lines of a dump hold `count` line feeds, and end with
/// one.
proof fn lemma_lines_text_newlines(offset: u32, data: Seq<u8>, count: nat)
    requires
        count <= line_count(data.len()),
    ensures
        lines_text(offset, data, count).to_multiset().count(NEWLINE) == count,
        count > 0 ==> lines_text(offset, data, count).last() == NEWLINE,
    decreases count,
{
    broadcast use vstd::seq_lib::group_to_multiset_ensures;

    let text = lines_text(offset, data, count);
    if count == 0 {
        assert(text.to_multiset().count(NEWLINE) == 0);
    } else {
        let last = (count - 1) as nat;
        let front = lines_text(offset, data, last);
        let tail = line_text(line_offset(offset, last), line_chunk(data, last));
        lemma_lines_text_newlines(offset, data, last);
        lemma_line_chunk_len(data, last);
        lemma_line_text_layout(line_offset(offset, last), line_chunk(data, last));
        // All of a line but its last character prints, so is no line feed.
        let shown = tail.drop_last();
        assert forall|j: int| 0 <= j < shown.len() implies shown[j] != NEWLINE by {
            assert(is_printable(tail[j]));
        }
        assert(!shown.contains(NEWLINE));
        assert(tail =~= shown.push(NEWLINE));
        assert(text == front + tail);
        vstd::seq_lib::lemma_multiset_commutative(front, tail);
    }
}

/// Every character of the first `count` lines of a dump is printable ASCII
/// or a line feed.
proof fn lemma_lines_text_chars(offset: u32, data: Seq<u8>, count: nat)
    requires
        count <= line_count(data.len()),
    ensures
        forall|i: int|
            0 <= i < lines_text(offset, data, count).len() ==> is_printable(
                #[trigger] lines_text(offset, data, count)[i],
            ) || lines_text(offset, data, count)[i] == NEWLINE,
    decreases count,
{
    if count > 0 {
        let last = (count - 1) as nat;
        let text = lines_text(offset, data, count);
        let front = lines_text(offset, data, last);
        let tail = line_text(line_offset(offset, last), line_chunk(data, last));
        lemma_lines_text_chars(offset, data, last);
        lemma_line_chunk_len(data, last);
        lemma_line_text_layout(line_offset(offset, last), line_chunk(data, last));
        assert(text == front + tail);
        assert forall|i: int| 0 <= i < text.len() implies is_printable(#[trigger] text[i])
            || text[i] == NEWLINE by {
            if i < front.len() {
                assert(text[i] == front[i]);
            } else {
                assert(text[i] == tail[i - front.len()]);
                assert(tail.last() == tail[tail.len() - 1]);
            }
        }
    }
}

} // verus!
