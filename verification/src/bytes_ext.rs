//! Trusted declarations for the `bytes::Bytes` cursor the decoder runs over:
//! its contents as a byte sequence, and the reads the decoder makes.

use crate::lenenc::le_value;
use bytes::Buf;
use bytes::Bytes;
use vstd::prelude::*;
use vstd::utf8::{decode_utf8, valid_utf8};

verus! {

#[verifier::external_type_specification]
#[verifier::external_body]
pub struct ExBytes(Bytes);

/// The bytes a `Bytes` cursor still holds, in order, as a sequence.
pub uninterp spec fn bytes_view(b: Bytes) -> Seq<u8>;

/// Relies on `Buf::remaining` for `Bytes`: the number of bytes left, which
/// for `Bytes` is its whole length.
#[verifier::external_body]
pub(crate) fn bytes_remaining(b: &Bytes) -> (n: usize)
    ensures
        n == bytes_view(*b).len(),
{
    b.remaining()
}

/// Relies on `Buf::get_u8` for `Bytes`: reads the first byte and advances
/// past it; panics when none remains, so one is required.
#[verifier::external_body]
pub(crate) fn bytes_get_u8(b: &mut Bytes) -> (v: u8)
    requires
        bytes_view(*old(b)).len() >= 1,
    ensures
        v == bytes_view(*old(b))[0],
        bytes_view(*final(b)) == bytes_view(*old(b)).skip(1),
{
    b.get_u8()
}

/// Relies on `Buf::get_u16_le` for `Bytes`: reads 2 bytes little-endian and
/// advances past them; panics when fewer remain, so they are required.
#[verifier::external_body]
pub(crate) fn bytes_get_u16_le(b: &mut Bytes) -> (v: u16)
    requires
        bytes_view(*old(b)).len() >= 2,
    ensures
        v as nat == le_value(bytes_view(*old(b)).take(2)),
        bytes_view(*final(b)) == bytes_view(*old(b)).skip(2),
{
    b.get_u16_le()
}

/// Relies on `Buf::get_uint_le` for `Bytes`: reads `nbytes` bytes
/// little-endian and advances past them; panics when fewer remain or when
/// asked for more than 8, so both are required.
#[verifier::external_body]
pub(crate) fn bytes_get_uint_le(b: &mut Bytes, nbytes: usize) -> (v: u64)
    requires
        nbytes <= 8,
        bytes_view(*old(b)).len() >= nbytes,
    ensures
        v as nat == le_value(bytes_view(*old(b)).take(nbytes as int)),
        bytes_view(*final(b)) == bytes_view(*old(b)).skip(nbytes as int),
{
    b.get_uint_le(nbytes)
}

/// Relies on `Buf::get_u64_le` for `Bytes`: reads 8 bytes little-endian and
/// advances past them; panics when fewer remain, so they are required.
#[verifier::external_body]
pub(crate) fn bytes_get_u64_le(b: &mut Bytes) -> (v: u64)
    requires
        bytes_view(*old(b)).len() >= 8,
    ensures
        v as nat == le_value(bytes_view(*old(b)).take(8)),
        bytes_view(*final(b)) == bytes_view(*old(b)).skip(8),
{
    b.get_u64_le()
}

/// Relies on `Bytes::split_to`: the first `at` bytes leave as a new `Bytes`
/// sharing the same storage, the rest stay; panics past the length, so the
/// bound is required.
#[verifier::external_body]
pub(crate) fn bytes_split_to(b: &mut Bytes, at: usize) -> (r: Bytes)
    requires
        at <= bytes_view(*old(b)).len(),
    ensures
        bytes_view(r) == bytes_view(*old(b)).take(at as int),
        bytes_view(*final(b)) == bytes_view(*old(b)).skip(at as int),
{
    b.split_to(at)
}

/// Relies on `String::from_utf8`: returns `Ok` exactly when the bytes are
/// valid UTF-8, and then the string's characters are their decoding; on
/// `Err` the cause is rendered as text.
#[verifier::external_body]
pub(crate) fn bytes_into_string(b: Bytes) -> (r: Result<String, String>)
    ensures
        r is Ok <==> valid_utf8(bytes_view(b)),
        r is Ok ==> (r->Ok_0)@ == decode_utf8(bytes_view(b)),
{
    String::from_utf8(b.to_vec()).map_err(|e| e.to_string())
}

} // verus!
