//! Decoding of `utmp`/`wtmp` login-accounting records.
//!
//! A file of this family is a plain run of fixed-size records. The crate
//! lays the bytes of one record out as a raw record ([`raw`]), then
//! classifies the raw record into a [`UtmpEntry`]. Nothing here performs
//! I/O: bytes come in as slices, either all at once ([`parse_from_reader`],
//! [`UtmpParser`]) or piece by piece as a reader returns them
//! ([`EntryReader`]).
#![allow(non_camel_case_types)]

pub mod entry;
pub mod parse;
pub mod raw;
pub mod read;
pub mod text;
pub mod timestamp;
pub mod wire;

pub use entry::{UtmpEntry, UtmpError};
pub use parse::{parse_from_reader, ParseError, Utmp32Parser, Utmp64Parser, UtmpParser};
pub use read::{EntryReader, ReadStep};
pub use timestamp::Timestamp;
