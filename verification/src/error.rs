use vstd::prelude::*;

verus! {

/// A failure while decoding a length-encoded value.
///
/// `NeedBytes` and `LengthOverflow` are protocol errors: the buffer cannot
/// supply the encoding being decoded, or a decoded length cannot be used as
/// a byte count. `InvalidUtf8` is an encoding error: the payload of a string
/// decode is not valid UTF-8.
#[derive(Debug, PartialEq)]
pub enum DecodeError {
    /// The encoding needs `needed` more bytes where only `have` remain.
    NeedBytes { needed: usize, have: usize },
    /// A decoded length does not fit in the platform's size type.
    LengthOverflow { length: u64 },
    /// The payload of a string decode is not valid UTF-8; `reason` is the
    /// cause as the string-construction primitive formatted it.
    InvalidUtf8 { reason: String },
}

/// Relies on alloc's `format!` to render the two byte counts into a message.
#[verifier::external_body]
fn format_need_bytes(needed: usize, have: usize) -> String {
    format!("lenenc value: need {needed} more bytes, have {have}")
}

/// Relies on alloc's `format!` to render the offending length into a message.
#[verifier::external_body]
fn format_length_overflow(length: u64) -> String {
    format!("length does not fit in usize: {length}")
}

impl DecodeError {
    /// The human-readable message: what was expected, what was available. An
    /// encoding error repeats the cause it carries.
    pub fn message(&self) -> (r: String)
        ensures
            *self matches DecodeError::InvalidUtf8 { reason } ==> r == reason,
    {
        match self {
            DecodeError::NeedBytes { needed, have } => format_need_bytes(*needed, *have),
            DecodeError::LengthOverflow { length } => format_length_overflow(*length),
            DecodeError::InvalidUtf8 { reason } => reason.clone(),
        }
    }
}

} // verus!
