//! The mathematical model of the length-encoded integer format, and the laws
//! it obeys.

use crate::error::DecodeError;
use vstd::arithmetic::div_mod::{lemma_fundamental_div_mod, lemma_multiply_divide_lt};
use vstd::prelude::*;

verus! {

/// The value of a little-endian byte sequence: the first byte is least
/// significant.
pub open spec fn le_value(s: Seq<u8>) -> nat
    decreases s.len(),
{
    if s.len() == 0 {
        0
    } else {
        (s[0] as nat) + 256 * le_value(s.drop_first())
    }
}

/// How many bytes follow the first byte of a length-encoded integer: the
/// markers 0xFC, 0xFD and 0xFE announce 2, 3 and 8 little-endian bytes; every
/// other first byte stands alone.
pub open spec fn uint_width(first: u8) -> nat {
    if first == 0xFC {
        2
    } else if first == 0xFD {
        3
    } else if first == 0xFE {
        8
    } else {
        0
    }
}

/// Whether `s` begins with a complete length-encoded integer.
pub open spec fn uint_decodable(s: Seq<u8>) -> bool {
    s.len() >= 1 && s.len() >= 1 + uint_width(s[0])
}

/// The total width, in bytes, of the length-encoded integer at the head of
/// `s`.
pub open spec fn uint_enc_len(s: Seq<u8>) -> nat
    recommends
        s.len() >= 1,
{
    1 + uint_width(s[0])
}

/// The value of the length-encoded integer at the head of `s`. A first byte
/// other than 0xFC, 0xFD or 0xFE is the value itself; in particular 0xFB and
/// 0xFF decode as the literal values 251 and 255, their protocol-level
/// meanings left to the caller.
pub open spec fn uint_value(s: Seq<u8>) -> nat
    recommends
        uint_decodable(s),
{
    if uint_width(s[0]) == 0 {
        s[0] as nat
    } else {
        le_value(s.subrange(1, 1 + uint_width(s[0]) as int))
    }
}

/// The error a failed integer decode reports: one byte is needed where none
/// remain, or a marker byte announced more bytes than remain.
pub open spec fn uint_decode_err(s: Seq<u8>) -> DecodeError
    recommends
        !uint_decodable(s),
{
    if s.len() == 0 {
        DecodeError::NeedBytes { needed: 1, have: 0 }
    } else {
        DecodeError::NeedBytes {
            needed: uint_width(s[0]) as usize,
            have: (s.len() - 1) as usize,
        }
    }
}

/// What a failed integer decode leaves in the cursor: everything when no
/// byte could be read, the tail after the marker byte otherwise.
pub open spec fn uint_fail_rest(s: Seq<u8>) -> Seq<u8>
    recommends
        !uint_decodable(s),
{
    if s.len() == 0 {
        s
    } else {
        s.skip(1)
    }
}

/// The little-endian encoding of `v`, `n` bytes wide.
pub open spec fn le_bytes(v: nat, n: nat) -> Seq<u8>
    decreases n,
{
    if n == 0 {
        Seq::empty()
    } else {
        seq![(v % 256) as u8] + le_bytes(v / 256, (n - 1) as nat)
    }
}

/// The minimal-width length encoding of `v`: one byte for values up to 0xFB,
/// else a marker byte and the smallest little-endian width that holds `v`.
pub open spec fn uint_lenenc(v: u64) -> Seq<u8> {
    if v <= 0xFB {
        seq![v as u8]
    } else if v <= 0xFFFF {
        seq![0xFCu8] + le_bytes(v as nat, 2)
    } else if v <= 0xFFFFFF {
        seq![0xFDu8] + le_bytes(v as nat, 3)
    } else {
        seq![0xFEu8] + le_bytes(v as nat, 8)
    }
}

/// 256 raised to `n`: the number of values `n` bytes can hold.
spec fn pow256(n: nat) -> nat
    decreases n,
{
    if n == 0 {
        1
    } else {
        256 * pow256((n - 1) as nat)
    }
}

proof fn lemma_le_bytes_len(v: nat, n: nat)
    ensures
        le_bytes(v, n).len() == n,
    decreases n,
{
    if n > 0 {
        lemma_le_bytes_len(v / 256, (n - 1) as nat);
    }
}

proof fn lemma_le_value_le_bytes(v: nat, n: nat)
    requires
        v < pow256(n),
    ensures
        le_value(le_bytes(v, n)) == v,
    decreases n,
{
    if n > 0 {
        lemma_multiply_divide_lt(v as int, 256, pow256((n - 1) as nat) as int);
        lemma_le_value_le_bytes(v / 256, (n - 1) as nat);
        let s = le_bytes(v, n);
        assert(s.drop_first() =~= le_bytes(v / 256, (n - 1) as nat));
        lemma_fundamental_div_mod(v as int, 256);
    }
}

/// Every single byte up to 0xFB decodes, alone, to its own value, consuming
/// exactly that byte.
pub proof fn lemma_single_byte_value(v: u8)
    requires
        v <= 0xFB,
    ensures
        uint_decodable(seq![v]),
        uint_value(seq![v]) == v,
        uint_enc_len(seq![v]) == 1,
{
}

/// Decoding inverts minimal-width encoding: for every `v`, the encoding of
/// `v` followed by any suffix decodes to `v` and consumes exactly the
/// encoding.
pub proof fn lemma_uint_lenenc_round_trip(v: u64, rest: Seq<u8>)
    ensures
        uint_decodable(uint_lenenc(v) + rest),
        uint_value(uint_lenenc(v) + rest) == v,
        uint_enc_len(uint_lenenc(v) + rest) == uint_lenenc(v).len(),
        (uint_lenenc(v) + rest).skip(uint_lenenc(v).len() as int) =~= rest,
{
    let s = uint_lenenc(v) + rest;
    if v <= 0xFB {
        assert(s[0] == v as u8);
    } else {
        let w = uint_width(s[0]);
        let payload = if v <= 0xFFFF {
            le_bytes(v as nat, 2)
        } else if v <= 0xFFFFFF {
            le_bytes(v as nat, 3)
        } else {
            le_bytes(v as nat, 8)
        };
        lemma_le_bytes_len(v as nat, w);
        reveal_with_fuel(pow256, 9);
        assert(pow256(2) == 0x10000);
        assert(pow256(3) == 0x1000000);
        assert(pow256(8) == 0x10000000000000000);
        lemma_le_value_le_bytes(v as nat, w);
        assert(s.subrange(1, 1 + w as int) =~= payload);
    }
}

} // verus!
