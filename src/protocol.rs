//! The binary frame codec: request headers out, response headers in.
use vstd::prelude::*;
use vstd::slice::slice_subrange;

use crate::endian::{
    be_bytes_u16, be_bytes_u32, be_bytes_u64, be_u16, be_u32, be_u64, push_all, read_be_u16,
    read_be_u32, read_be_u64, u16_of_be, u32_of_be, u64_of_be,
};
use crate::errors::{BMemcachedError, Result};

verus! {

pub const KEY_MAXIMUM_SIZE: usize = 250;

pub const HEADER_LENGTH: usize = 24;

pub const REQUEST_MAGIC: u8 = 0x80;

pub const RESPONSE_MAGIC: u8 = 0x81;

/// The commands of the protocol that this client speaks.
#[derive(Clone, Copy, Debug, PartialEq, Eq, Structural)]
pub enum Command {
    Get,
    SetValue,
    Add,
    Replace,
    Delete,
    Increment,
    Decrement,
}

impl Command {
    pub open spec fn spec_opcode(self) -> u8 {
        match self {
            Command::Get => 0x00,
            Command::SetValue => 0x01,
            Command::Add => 0x02,
            Command::Replace => 0x03,
            Command::Delete => 0x04,
            Command::Increment => 0x05,
            Command::Decrement => 0x06,
        }
    }

    pub fn opcode(&self) -> (op: u8)
        ensures
            op == self.spec_opcode(),
    {
        match self {
            Command::Get => 0x00,
            Command::SetValue => 0x01,
            Command::Add => 0x02,
            Command::Replace => 0x03,
            Command::Delete => 0x04,
            Command::Increment => 0x05,
            Command::Decrement => 0x06,
        }
    }

    pub open spec fn is_store(self) -> bool {
        self is SetValue || self is Add || self is Replace
    }

    pub open spec fn is_counter(self) -> bool {
        self is Increment || self is Decrement
    }
}

/// The status codes a response can carry. Any other code is a broken frame.
#[derive(Clone, Copy, Debug, PartialEq, Eq, Structural)]
pub enum Status {
    Success,
    KeyNotFound,
    KeyExists,
    AuthError,
    UnknownCommand,
}

pub open spec fn status_of(code: u16) -> Option<Status> {
    if code == 0x00 {
        Some(Status::Success)
    } else if code == 0x01 {
        Some(Status::KeyNotFound)
    } else if code == 0x02 {
        Some(Status::KeyExists)
    } else if code == 0x08 {
        Some(Status::AuthError)
    } else if code == 0x81 {
        Some(Status::UnknownCommand)
    } else {
        None
    }
}

impl Status {
    pub fn from_u16(code: u16) -> (s: Option<Status>)
        ensures
            s == status_of(code),
    {
        if code == 0x00 {
            Some(Status::Success)
        } else if code == 0x01 {
            Some(Status::KeyNotFound)
        } else if code == 0x02 {
            Some(Status::KeyExists)
        } else if code == 0x08 {
            Some(Status::AuthError)
        } else if code == 0x81 {
            Some(Status::UnknownCommand)
        } else {
            None
        }
    }

    pub fn code(&self) -> (code: u16)
        ensures
            status_of(code) == Some(*self),
    {
        match self {
            Status::Success => 0x00,
            Status::KeyNotFound => 0x01,
            Status::KeyExists => 0x02,
            Status::AuthError => 0x08,
            Status::UnknownCommand => 0x81,
        }
    }
}

/// The fixed 24-byte header of a request frame.
#[derive(Clone, Copy, Debug, PartialEq, Eq, Structural)]
pub struct Request {
    pub magic: u8,
    pub opcode: u8,
    pub key_length: u16,
    pub extras_length: u8,
    pub data_type: u8,
    pub reserved: u16,
    pub body_length: u32,
    pub opaque: u32,
    pub cas: u64,
}

/// The fixed 24-byte header of a response frame.
#[derive(Clone, Copy, Debug, PartialEq, Eq, Structural)]
pub struct Response {
    pub magic: u8,
    pub opcode: u8,
    pub key_length: u16,
    pub extras_length: u8,
    pub data_type: u8,
    pub status: u16,
    pub body_length: u32,
    pub opaque: u32,
    pub cas: u64,
}

impl Request {
    /// The header's wire form, every multi-byte field big-endian.
    pub open spec fn spec_bytes(self) -> Seq<u8> {
        seq![self.magic, self.opcode] + be_u16(self.key_length) + seq![
            self.extras_length,
            self.data_type,
        ] + be_u16(self.reserved) + be_u32(self.body_length) + be_u32(self.opaque) + be_u64(
            self.cas,
        )
    }

    pub fn to_bytes(&self) -> (b: Vec<u8>)
        ensures
            b@ == self.spec_bytes(),
            b@.len() == HEADER_LENGTH,
    {
        let mut b: Vec<u8> = Vec::new();
        b.push(self.magic);
        b.push(self.opcode);
        push_all(&mut b, &be_bytes_u16(self.key_length));
        b.push(self.extras_length);
        b.push(self.data_type);
        push_all(&mut b, &be_bytes_u16(self.reserved));
        push_all(&mut b, &be_bytes_u32(self.body_length));
        push_all(&mut b, &be_bytes_u32(self.opaque));
        push_all(&mut b, &be_bytes_u64(self.cas));
        assert(b@ =~= self.spec_bytes());
        b
    }
}

/// A key the protocol accepts: 1 to 250 bytes.
pub open spec fn valid_key_length(len: int) -> bool {
    0 < len <= KEY_MAXIMUM_SIZE
}

/// The header that `build_request` makes once its checks pass.
pub open spec fn spec_request(
    command: Command,
    key_length: int,
    value_length: int,
    data_type: u8,
    extras_length: int,
    cas: u64,
) -> Request {
    Request {
        magic: REQUEST_MAGIC,
        opcode: command.spec_opcode(),
        key_length: key_length as u16,
        extras_length: extras_length as u8,
        data_type,
        reserved: 0,
        body_length: (key_length + value_length + extras_length) as u32,
        opaque: 0,
        cas,
    }
}

/// What `build_request` gives for a header with these lengths.
pub open spec fn request_outcome(
    command: Command,
    key_length: int,
    value_length: int,
    data_type: u8,
    extras_length: int,
    cas: u64,
) -> core::result::Result<Request, BMemcachedError> {
    if !valid_key_length(key_length) {
        Err(BMemcachedError::KeyLengthTooLong(key_length as usize))
    } else if key_length + value_length + extras_length > u32::MAX {
        Err(BMemcachedError::ValueTooLarge(value_length as usize))
    } else {
        Ok(spec_request(command, key_length, value_length, data_type, extras_length, cas))
    }
}

/// Builds a request header. The key's length is checked first, so a bad key
/// is refused before anything is sent; then the body must fit the 32-bit
/// length field.
pub fn build_request(
    command: Command,
    key_length: usize,
    value_length: usize,
    data_type: u8,
    extras_length: usize,
    cas: u64,
) -> (r: Result<Request>)
    requires
        extras_length <= 0xff,
    ensures
        r == request_outcome(
            command,
            key_length as int,
            value_length as int,
            data_type,
            extras_length as int,
            cas,
        ),
{
    if key_length == 0 || key_length > KEY_MAXIMUM_SIZE {
        return Err(BMemcachedError::KeyLengthTooLong(key_length));
    }
    if value_length > 0xffff_ffff - key_length - extras_length {
        return Err(BMemcachedError::ValueTooLarge(value_length));
    }
    Ok(
        Request {
            magic: REQUEST_MAGIC,
            opcode: command.opcode(),
            key_length: key_length as u16,
            extras_length: extras_length as u8,
            data_type,
            reserved: 0,
            body_length: (key_length + value_length + extras_length) as u32,
            opaque: 0,
            cas,
        },
    )
}

/// The header that a 24-byte response header holds, field by field.
pub open spec fn spec_response(h: Seq<u8>) -> Response {
    Response {
        magic: h[0],
        opcode: h[1],
        key_length: u16_of_be(h.subrange(2, 4)),
        extras_length: h[4],
        data_type: h[5],
        status: u16_of_be(h.subrange(6, 8)),
        body_length: u32_of_be(h.subrange(8, 12)),
        opaque: u32_of_be(h.subrange(12, 16)),
        cas: u64_of_be(h.subrange(16, 24)),
    }
}

/// What `decode_response` gives for the bytes `h`.
pub open spec fn response_outcome(h: Seq<u8>) -> core::result::Result<Response, BMemcachedError> {
    if h.len() != HEADER_LENGTH || h[0] != RESPONSE_MAGIC {
        Err(BMemcachedError::ProtocolDesync)
    } else {
        Ok(spec_response(h))
    }
}

/// Reads a response header. A wrong magic byte means that the stream is out
/// of step with the protocol; no field is interpreted here.
pub fn decode_response(header: &[u8]) -> (r: Result<Response>)
    ensures
        r == response_outcome(header@),
{
    if header.len() != HEADER_LENGTH || header[0] != RESPONSE_MAGIC {
        return Err(BMemcachedError::ProtocolDesync);
    }
    Ok(
        Response {
            magic: header[0],
            opcode: header[1],
            key_length: read_be_u16(slice_subrange(header, 2, 4)),
            extras_length: header[4],
            data_type: header[5],
            status: read_be_u16(slice_subrange(header, 6, 8)),
            body_length: read_be_u32(slice_subrange(header, 8, 12)),
            opaque: read_be_u32(slice_subrange(header, 12, 16)),
            cas: read_be_u64(slice_subrange(header, 16, 24)),
        },
    )
}

} // verus!
