//! The decode operations: a capability any consuming byte cursor can carry,
//! implemented here for `bytes::Bytes`.

use crate::bytes_ext::{
    bytes_get_u16_le, bytes_get_u64_le, bytes_get_u8, bytes_get_uint_le, bytes_into_string,
    bytes_remaining, bytes_split_to, bytes_view,
};
use crate::error::DecodeError;
use crate::lenenc::{
    uint_decodable, uint_decode_err, uint_enc_len, uint_fail_rest, uint_value,
};
use bytes::Bytes;
use vstd::prelude::*;
use vstd::utf8::{decode_utf8, valid_utf8};

verus! {

/// Length-encoded decoding over a consuming byte cursor.
///
/// Every operation is a function of the cursor's current contents alone. On
/// success it advances the cursor past exactly what it decoded; on failure
/// the contracts still pin where the cursor stands, but callers should treat
/// the enclosing packet as unparseable rather than resume from it.
pub trait MySqlBufExt {
    /// The bytes the cursor still holds, in order.
    spec fn contents(&self) -> Seq<u8>;

    /// Decode one length-encoded integer and advance past its encoding.
    ///
    /// The first byte announces the width: 0xFC, 0xFD and 0xFE are followed
    /// by 2, 3 and 8 little-endian bytes; every other first byte, 0xFB and
    /// 0xFF included, is the value itself.
    fn get_uint_lenenc(&mut self) -> (r: Result<u64, DecodeError>)
        ensures
            uint_decodable(old(self).contents()) ==> {
                &&& r is Ok
                &&& r->Ok_0 == uint_value(old(self).contents())
                &&& final(self).contents() == old(self).contents().skip(
                    uint_enc_len(old(self).contents()) as int,
                )
            },
            !uint_decodable(old(self).contents()) ==> {
                &&& r is Err
                &&& r->Err_0 == uint_decode_err(old(self).contents())
                &&& final(self).contents() == uint_fail_rest(old(self).contents())
            },
    ;

    /// Decode a length-encoded integer as a byte count, then that many bytes
    /// as a UTF-8 string, advancing past both.
    fn get_str_lenenc(&mut self) -> (r: Result<String, DecodeError>)
        ensures
            !uint_decodable(old(self).contents()) ==> {
                &&& r is Err
                &&& r->Err_0 == uint_decode_err(old(self).contents())
                &&& final(self).contents() == uint_fail_rest(old(self).contents())
            },
            uint_decodable(old(self).contents()) ==> ({
                let n = uint_value(old(self).contents());
                let rest = old(self).contents().skip(uint_enc_len(old(self).contents()) as int);
                &&& n > usize::MAX ==> {
                    &&& r is Err
                    &&& r->Err_0 == (DecodeError::LengthOverflow { length: n as u64 })
                    &&& final(self).contents() == rest
                }
                &&& n <= usize::MAX && n > rest.len() ==> {
                    &&& r is Err
                    &&& r->Err_0 == (DecodeError::NeedBytes {
                        needed: n as usize,
                        have: rest.len() as usize,
                    })
                    &&& final(self).contents() == rest
                }
                &&& n <= usize::MAX && n <= rest.len() ==> {
                    &&& valid_utf8(rest.take(n as int)) ==> {
                        &&& r is Ok
                        &&& (r->Ok_0)@ == decode_utf8(rest.take(n as int))
                    }
                    &&& !valid_utf8(rest.take(n as int)) ==> {
                        &&& r is Err
                        &&& r->Err_0 is InvalidUtf8
                    }
                    &&& final(self).contents() == rest.skip(n as int)
                }
            }),
    ;

    /// Decode a length-encoded integer as a byte count, then split off that
    /// many bytes as an opaque byte sequence, advancing past both. No text
    /// validation is performed.
    fn get_bytes_lenenc(&mut self) -> (r: Result<Bytes, DecodeError>)
        ensures
            !uint_decodable(old(self).contents()) ==> {
                &&& r is Err
                &&& r->Err_0 == uint_decode_err(old(self).contents())
                &&& final(self).contents() == uint_fail_rest(old(self).contents())
            },
            uint_decodable(old(self).contents()) ==> ({
                let n = uint_value(old(self).contents());
                let rest = old(self).contents().skip(uint_enc_len(old(self).contents()) as int);
                &&& n > usize::MAX ==> {
                    &&& r is Err
                    &&& r->Err_0 == (DecodeError::LengthOverflow { length: n as u64 })
                    &&& final(self).contents() == rest
                }
                &&& n <= usize::MAX && n > rest.len() ==> {
                    &&& r is Err
                    &&& r->Err_0 == (DecodeError::NeedBytes {
                        needed: n as usize,
                        have: rest.len() as usize,
                    })
                    &&& final(self).contents() == rest
                }
                &&& n <= usize::MAX && n <= rest.len() ==> {
                    &&& r is Ok
                    &&& bytes_view(r->Ok_0) == rest.take(n as int)
                    &&& final(self).contents() == rest.skip(n as int)
                }
            }),
    ;
}

impl MySqlBufExt for Bytes {
    open spec fn contents(&self) -> Seq<u8> {
        bytes_view(*self)
    }

    fn get_uint_lenenc(&mut self) -> (r: Result<u64, DecodeError>) {
        let ghost s = bytes_view(*self);
        if bytes_remaining(self) < 1 {
            return Err(DecodeError::NeedBytes { needed: 1, have: 0 });
        }
        let first = bytes_get_u8(self);
        match first {
            0xFC => {
                let have = bytes_remaining(self);
                if have < 2 {
                    return Err(DecodeError::NeedBytes { needed: 2, have });
                }
                let v = bytes_get_u16_le(self);
                proof {
                    assert(s.skip(1).take(2) =~= s.subrange(1, 3));
                    assert(s.skip(1).skip(2) =~= s.skip(3));
                }
                Ok(v as u64)
            },
            0xFD => {
                let have = bytes_remaining(self);
                if have < 3 {
                    return Err(DecodeError::NeedBytes { needed: 3, have });
                }
                let v = bytes_get_uint_le(self, 3);
                proof {
                    assert(s.skip(1).take(3) =~= s.subrange(1, 4));
                    assert(s.skip(1).skip(3) =~= s.skip(4));
                }
                Ok(v)
            },
            0xFE => {
                let have = bytes_remaining(self);
                if have < 8 {
                    return Err(DecodeError::NeedBytes { needed: 8, have });
                }
                let v = bytes_get_u64_le(self);
                proof {
                    assert(s.skip(1).take(8) =~= s.subrange(1, 9));
                    assert(s.skip(1).skip(8) =~= s.skip(9));
                }
                Ok(v)
            },
            v => Ok(v as u64),
        }
    }

    fn get_str_lenenc(&mut self) -> (r: Result<String, DecodeError>) {
        let size = match self.get_uint_lenenc() {
            Ok(size) => size,
            Err(e) => {
                return Err(e);
            },
        };
        if size > usize::MAX as u64 {
            return Err(DecodeError::LengthOverflow { length: size });
        }
        let size = size as usize;
        let have = bytes_remaining(self);
        if size > have {
            return Err(DecodeError::NeedBytes { needed: size, have });
        }
        let payload = bytes_split_to(self, size);
        match bytes_into_string(payload) {
            Ok(text) => Ok(text),
            Err(reason) => Err(DecodeError::InvalidUtf8 { reason }),
        }
    }

    fn get_bytes_lenenc(&mut self) -> (r: Result<Bytes, DecodeError>) {
        let size = match self.get_uint_lenenc() {
            Ok(size) => size,
            Err(e) => {
                return Err(e);
            },
        };
        if size > usize::MAX as u64 {
            return Err(DecodeError::LengthOverflow { length: size });
        }
        let size = size as usize;
        let have = bytes_remaining(self);
        if size > have {
            return Err(DecodeError::NeedBytes { needed: size, have });
        }
        Ok(bytes_split_to(self, size))
    }
}

} // verus!
