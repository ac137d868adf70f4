//! Typed values: how a Rust value becomes a payload with its stored-type
//! flags, and how a payload with flags becomes a Rust value again.
use vstd::prelude::*;
use vstd::slice::slice_to_vec;
use vstd::utf8::{decode_utf8, encode_utf8, valid_utf8};

use crate::constants::{StoredType, MTYPE_STRING, MTYPE_U16, MTYPE_U32, MTYPE_U64, MTYPE_U8};
use crate::endian::{
    be_bytes_u16, be_bytes_u32, be_bytes_u64, be_u16, be_u32, be_u64, read_be_u16, read_be_u32,
    read_be_u64, u16_of_be, u32_of_be, u64_of_be,
};
use crate::errors::{BMemcachedError, Result};

verus! {

/// An encoding as the spec sees it: the payload bytes and their flags.
pub type Encoding = core::result::Result<(Seq<u8>, StoredType), BMemcachedError>;

pub open spec fn encoding_of(r: Result<(Vec<u8>, StoredType)>) -> Encoding {
    match r {
        Ok(p) => Ok((p.0@, p.1)),
        Err(e) => Err(e),
    }
}

/// A value that can be stored: it gives its payload and the flags that tell a
/// reader how to read the payload back.
pub trait ToMemcached {
    spec fn encoded(&self) -> Encoding;

    fn get_value(&self) -> (r: Result<(Vec<u8>, StoredType)>)
        ensures
            encoding_of(r) == self.encoded(),
    ;
}

/// A value that can be fetched: it is read from the stored flags and payload,
/// or refused when the flags do not announce this type.
pub trait FromMemcached: Sized {
    spec fn decodes_to(flags: StoredType, buf: Seq<u8>, r: Result<Self>) -> bool;

    fn get_value(flags: StoredType, buf: Vec<u8>) -> (r: Result<Self>)
        ensures
            Self::decodes_to(flags, buf@, r),
    ;
}

pub open spec fn flag(bits: u32) -> StoredType {
    StoredType { bits }
}

impl ToMemcached for u8 {
    open spec fn encoded(&self) -> Encoding {
        Ok((seq![*self], flag(MTYPE_U8)))
    }

    fn get_value(&self) -> (r: Result<(Vec<u8>, StoredType)>) {
        let mut buf: Vec<u8> = Vec::new();
        buf.push(*self);
        assert(buf@ =~= seq![*self]);
        Ok((buf, StoredType::from_bits(MTYPE_U8)))
    }
}

impl ToMemcached for u16 {
    open spec fn encoded(&self) -> Encoding {
        Ok((be_u16(*self), flag(MTYPE_U16)))
    }

    fn get_value(&self) -> (r: Result<(Vec<u8>, StoredType)>) {
        let buf = slice_to_vec(&be_bytes_u16(*self));
        Ok((buf, StoredType::from_bits(MTYPE_U16)))
    }
}

impl ToMemcached for u32 {
    open spec fn encoded(&self) -> Encoding {
        Ok((be_u32(*self), flag(MTYPE_U32)))
    }

    fn get_value(&self) -> (r: Result<(Vec<u8>, StoredType)>) {
        let buf = slice_to_vec(&be_bytes_u32(*self));
        Ok((buf, StoredType::from_bits(MTYPE_U32)))
    }
}

impl ToMemcached for u64 {
    open spec fn encoded(&self) -> Encoding {
        Ok((be_u64(*self), flag(MTYPE_U64)))
    }

    fn get_value(&self) -> (r: Result<(Vec<u8>, StoredType)>) {
        let buf = slice_to_vec(&be_bytes_u64(*self));
        Ok((buf, StoredType::from_bits(MTYPE_U64)))
    }
}

impl<'a> ToMemcached for &'a str {
    open spec fn encoded(&self) -> Encoding {
        Ok((encode_utf8((**self)@), flag(MTYPE_STRING)))
    }

    fn get_value(&self) -> (r: Result<(Vec<u8>, StoredType)>) {
        let buf = slice_to_vec(self.as_bytes());
        Ok((buf, StoredType::from_bits(MTYPE_STRING)))
    }
}

impl<'a> ToMemcached for &'a String {
    open spec fn encoded(&self) -> Encoding {
        Ok((encode_utf8((**self)@), flag(MTYPE_STRING)))
    }

    fn get_value(&self) -> (r: Result<(Vec<u8>, StoredType)>) {
        let buf = slice_to_vec(self.as_str().as_bytes());
        Ok((buf, StoredType::from_bits(MTYPE_STRING)))
    }
}

/// Raw bytes under flags of the caller's choosing, such as `MTYPE_VECTOR` or
/// one of the user-defined bits.
impl<'a> ToMemcached for (&'a [u8], StoredType) {
    open spec fn encoded(&self) -> Encoding {
        Ok((self.0@, self.1))
    }

    fn get_value(&self) -> (r: Result<(Vec<u8>, StoredType)>) {
        let buf = slice_to_vec(self.0);
        Ok((buf, self.1))
    }
}

/// How an unsigned integer of `width` bytes is read: the flags must meet
/// `bit`, and the payload must hold at least `width` bytes.
pub open spec fn scalar_outcome<T>(
    flags: StoredType,
    buf: Seq<u8>,
    bit: u32,
    width: int,
    value: T,
) -> core::result::Result<T, BMemcachedError> {
    if !flags.meets(bit) {
        Err(BMemcachedError::TypeMismatch(flags))
    } else if buf.len() < width {
        Err(BMemcachedError::ProtocolDesync)
    } else {
        Ok(value)
    }
}

impl FromMemcached for u8 {
    open spec fn decodes_to(flags: StoredType, buf: Seq<u8>, r: Result<u8>) -> bool {
        r == scalar_outcome(flags, buf, MTYPE_U8, 1, buf[0])
    }

    fn get_value(flags: StoredType, buf: Vec<u8>) -> (r: Result<u8>) {
        if !flags.intersects(MTYPE_U8) {
            return Err(BMemcachedError::TypeMismatch(flags));
        }
        if buf.len() < 1 {
            return Err(BMemcachedError::ProtocolDesync);
        }
        Ok(buf[0])
    }
}

impl FromMemcached for u16 {
    open spec fn decodes_to(flags: StoredType, buf: Seq<u8>, r: Result<u16>) -> bool {
        r == scalar_outcome(flags, buf, MTYPE_U16, 2, u16_of_be(buf))
    }

    fn get_value(flags: StoredType, buf: Vec<u8>) -> (r: Result<u16>) {
        if !flags.intersects(MTYPE_U16) {
            return Err(BMemcachedError::TypeMismatch(flags));
        }
        if buf.len() < 2 {
            return Err(BMemcachedError::ProtocolDesync);
        }
        Ok(read_be_u16(buf.as_slice()))
    }
}

impl FromMemcached for u32 {
    open spec fn decodes_to(flags: StoredType, buf: Seq<u8>, r: Result<u32>) -> bool {
        r == scalar_outcome(flags, buf, MTYPE_U32, 4, u32_of_be(buf))
    }

    fn get_value(flags: StoredType, buf: Vec<u8>) -> (r: Result<u32>) {
        if !flags.intersects(MTYPE_U32) {
            return Err(BMemcachedError::TypeMismatch(flags));
        }
        if buf.len() < 4 {
            return Err(BMemcachedError::ProtocolDesync);
        }
        Ok(read_be_u32(buf.as_slice()))
    }
}

/// A `u64` is read whatever the flags say: the counter commands answer with a
/// bare number and no flags.
impl FromMemcached for u64 {
    open spec fn decodes_to(flags: StoredType, buf: Seq<u8>, r: Result<u64>) -> bool {
        r == (if buf.len() < 8 {
            Err(BMemcachedError::ProtocolDesync)
        } else {
            Ok(u64_of_be(buf))
        })
    }

    fn get_value(flags: StoredType, buf: Vec<u8>) -> (r: Result<u64>) {
        if buf.len() < 8 {
            return Err(BMemcachedError::ProtocolDesync);
        }
        Ok(read_be_u64(buf.as_slice()))
    }
}

impl FromMemcached for String {
    open spec fn decodes_to(flags: StoredType, buf: Seq<u8>, r: Result<String>) -> bool {
        if !flags.meets(MTYPE_STRING) {
            r == Err::<String, BMemcachedError>(BMemcachedError::TypeMismatch(flags))
        } else if !valid_utf8(buf) {
            r == Err::<String, BMemcachedError>(BMemcachedError::Utf8)
        } else {
            r matches Ok(s) && s@ == decode_utf8(buf)
        }
    }

    fn get_value(flags: StoredType, buf: Vec<u8>) -> (r: Result<String>) {
        if !flags.intersects(MTYPE_STRING) {
            return Err(BMemcachedError::TypeMismatch(flags));
        }
        match string_from_utf8(buf) {
            Some(s) => Ok(s),
            None => Err(BMemcachedError::Utf8),
        }
    }
}

/// Raw bytes are handed back as they are, whatever the flags.
impl FromMemcached for Vec<u8> {
    open spec fn decodes_to(flags: StoredType, buf: Seq<u8>, r: Result<Vec<u8>>) -> bool {
        r matches Ok(v) && v@ == buf
    }

    fn get_value(flags: StoredType, buf: Vec<u8>) -> (r: Result<Vec<u8>>) {
        Ok(buf)
    }
}

/// Relies on std's `String::from_utf8`: it succeeds exactly when the bytes
/// are UTF-8, and the string then holds the characters those bytes encode.
#[verifier::external_body]
fn string_from_utf8(bytes: Vec<u8>) -> (s: Option<String>)
    ensures
        s is Some <==> valid_utf8(bytes@),
        s matches Some(t) ==> t@ == decode_utf8(bytes@),
{
    String::from_utf8(bytes).ok()
}

} // verus!
