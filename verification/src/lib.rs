//! Human readable hex dumps of binary data.
//!
//! Two renderings are offered: a bare stream of space separated hex pairs, and
//! a formatted multi-line dump with an offset column and an ASCII sidebar.
//! Every function appends to, or returns, plain bytes; the `_string` variants
//! hand the same bytes back as text.
//!
//! Each function's contract says what it writes by a spec function of the
//! module it stands in (`bare_text`, `formatted_text`); the laws of those spec
//! functions are proof functions beside them and in `layout`.

pub mod ascii;
pub mod bare;
pub mod digit;
pub mod formatted;
pub mod layout;

pub use bare::{bare_dump, bare_dump_string, write_bare_dump_to_vec};
pub use digit::hex_digit;
pub use formatted::{formatted_dump, formatted_dump_string, write_formatted_dump_to_vec};
