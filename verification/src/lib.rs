//! Decoding of the MySQL wire protocol's length-encoded integers, strings
//! and byte sequences from an in-memory byte cursor.
//!
//! The first byte of a length-encoded integer announces its width: bytes
//! `0x00`-`0xFB` stand for themselves, while `0xFC`, `0xFD` and `0xFE` are
//! followed by 2, 3 and 8 little-endian bytes. Strings and byte sequences
//! are a length-encoded integer followed by that many payload bytes.

pub mod buf;
pub mod bytes_ext;
pub mod error;
pub mod lenenc;

pub use error::DecodeError;
