//! One exchange per command: the request frame to send, and what the
//! response header and body that come back mean. The caller moves the bytes;
//! every decision about them is made here.
use vstd::prelude::*;
use vstd::slice::{slice_subrange, slice_to_vec};

use crate::constants::StoredType;
use crate::endian::{
    be_bytes_u32, be_bytes_u64, be_u32, be_u64, push_all, read_be_u32, read_be_u64, u32_of_be,
    u64_of_be,
};
use crate::errors::{BMemcachedError, Result};
use crate::protocol::{
    build_request, spec_request, status_of, valid_key_length, Command, Response, Status,
    KEY_MAXIMUM_SIZE,
};
use crate::value::{Encoding, FromMemcached, ToMemcached};

verus! {

pub const STORE_EXTRAS_LENGTH: usize = 8;

pub const COUNTER_EXTRAS_LENGTH: usize = 20;

pub const FLAGS_LENGTH: usize = 4;

pub const COUNTER_LENGTH: usize = 8;

pub type Frame = core::result::Result<Seq<u8>, BMemcachedError>;

pub open spec fn frame_of(r: Result<Vec<u8>>) -> Frame {
    match r {
        Ok(b) => Ok(b@),
        Err(e) => Err(e),
    }
}

/// A set, add or replace frame: the header, then flags and expiration as
/// extras, then the key, then the payload.
pub open spec fn store_frame(
    command: Command,
    key: Seq<u8>,
    payload: Seq<u8>,
    flags: StoredType,
    time: u32,
) -> Seq<u8> {
    spec_request(command, key.len() as int, payload.len() as int, 0, 8, 0).spec_bytes() + be_u32(
        flags.bits,
    ) + be_u32(time) + key + payload
}

pub open spec fn store_outcome(command: Command, key: Seq<u8>, enc: Encoding, time: u32) -> Frame {
    if !valid_key_length(key.len() as int) {
        Err(BMemcachedError::KeyLengthTooLong(key.len() as usize))
    } else {
        match enc {
            Err(e) => Err(e),
            Ok((payload, flags)) => if key.len() + payload.len() + 8 > u32::MAX {
                Err(BMemcachedError::ValueTooLarge(payload.len() as usize))
            } else {
                Ok(store_frame(command, key, payload, flags, time))
            },
        }
    }
}

/// The frame of a set, add or replace. A bad key is refused before the value
/// is encoded; an encoding that fails is passed on as it is.
pub fn store_request<V: ToMemcached>(command: Command, key: &[u8], value: V, time: u32) -> (r:
    Result<Vec<u8>>)
    requires
        command.is_store(),
    ensures
        frame_of(r) == store_outcome(command, key@, value.encoded(), time),
{
    if key.len() == 0 || key.len() > KEY_MAXIMUM_SIZE {
        return Err(BMemcachedError::KeyLengthTooLong(key.len()));
    }
    let (payload, flags) = match value.get_value() {
        Ok(p) => p,
        Err(e) => return Err(e),
    };
    let request = match build_request(command, key.len(), payload.len(), 0, STORE_EXTRAS_LENGTH, 0) {
        Ok(request) => request,
        Err(e) => return Err(e),
    };
    let mut frame = request.to_bytes();
    push_all(&mut frame, &be_bytes_u32(flags.bits()));
    push_all(&mut frame, &be_bytes_u32(time));
    push_all(&mut frame, key);
    push_all(&mut frame, payload.as_slice());
    assert(frame@ =~= store_frame(command, key@, payload@, flags, time));
    Ok(frame)
}

/// A get or delete frame: the header, then the key; no extras, no value.
pub open spec fn key_frame(command: Command, key: Seq<u8>) -> Seq<u8> {
    spec_request(command, key.len() as int, 0, 0, 0, 0).spec_bytes() + key
}

pub open spec fn key_outcome(command: Command, key: Seq<u8>) -> Frame {
    if !valid_key_length(key.len() as int) {
        Err(BMemcachedError::KeyLengthTooLong(key.len() as usize))
    } else {
        Ok(key_frame(command, key))
    }
}

/// The frame of a get or a delete.
pub fn key_request(command: Command, key: &[u8]) -> (r: Result<Vec<u8>>)
    requires
        command is Get || command is Delete,
    ensures
        frame_of(r) == key_outcome(command, key@),
{
    let request = match build_request(command, key.len(), 0, 0, 0, 0) {
        Ok(request) => request,
        Err(e) => return Err(e),
    };
    let mut frame = request.to_bytes();
    push_all(&mut frame, key);
    Ok(frame)
}

/// An increment or decrement frame: the header, then amount, initial value
/// and expiration as extras, then the key.
pub open spec fn counter_frame(
    command: Command,
    key: Seq<u8>,
    amount: u64,
    initial: u64,
    time: u32,
) -> Seq<u8> {
    spec_request(command, key.len() as int, 0, 0, 20, 0).spec_bytes() + be_u64(amount) + be_u64(
        initial,
    ) + be_u32(time) + key
}

pub open spec fn counter_outcome(
    command: Command,
    key: Seq<u8>,
    amount: u64,
    initial: u64,
    time: u32,
) -> Frame {
    if !valid_key_length(key.len() as int) {
        Err(BMemcachedError::KeyLengthTooLong(key.len() as usize))
    } else {
        Ok(counter_frame(command, key, amount, initial, time))
    }
}

/// The frame of an increment or a decrement.
pub fn counter_request(command: Command, key: &[u8], amount: u64, initial: u64, time: u32) -> (r:
    Result<Vec<u8>>)
    requires
        command.is_counter(),
    ensures
        frame_of(r) == counter_outcome(command, key@, amount, initial, time),
{
    let request = match build_request(command, key.len(), 0, 0, COUNTER_EXTRAS_LENGTH, 0) {
        Ok(request) => request,
        Err(e) => return Err(e),
    };
    let mut frame = request.to_bytes();
    push_all(&mut frame, &be_bytes_u64(amount));
    push_all(&mut frame, &be_bytes_u64(initial));
    push_all(&mut frame, &be_bytes_u32(time));
    push_all(&mut frame, key);
    assert(frame@ =~= counter_frame(command, key@, amount, initial, time));
    Ok(frame)
}

/// The error for a response that did not succeed: its status when the code is
/// known, a broken frame otherwise.
pub open spec fn failure(response: Response) -> BMemcachedError {
    match status_of(response.status) {
        Some(s) => BMemcachedError::Status(s),
        None => BMemcachedError::ProtocolDesync,
    }
}

pub open spec fn succeeded(response: Response) -> bool {
    status_of(response.status) == Some(Status::Success)
}

fn failure_of(response: &Response) -> (e: BMemcachedError)
    ensures
        e == failure(*response),
{
    match Status::from_u16(response.status) {
        Some(s) => BMemcachedError::Status(s),
        None => BMemcachedError::ProtocolDesync,
    }
}

fn is_success(response: &Response) -> (b: bool)
    ensures
        b == succeeded(*response),
{
    match Status::from_u16(response.status) {
        Some(Status::Success) => true,
        _ => false,
    }
}

pub open spec fn store_result(response: Response) -> core::result::Result<(), BMemcachedError> {
    if succeeded(response) {
        Ok(())
    } else {
        Err(failure(response))
    }
}

/// What a set, add or replace returns for the response header it got. An add
/// of a key that exists fails with `KeyExists`; a replace of one that does
/// not, with `KeyNotFound`.
pub fn finish_store(response: &Response) -> (r: Result<()>)
    ensures
        r == store_result(*response),
{
    if is_success(response) {
        Ok(())
    } else {
        Err(failure_of(response))
    }
}

/// A successful get carries four bytes of flags as extras and the value after
/// them.
pub open spec fn value_body_fits(response: Response, body: Seq<u8>) -> bool {
    &&& response.extras_length == 4
    &&& body.len() == response.body_length
    &&& body.len() >= 4
}

/// The flags that a get response's body starts with.
pub open spec fn body_flags(body: Seq<u8>) -> StoredType {
    StoredType { bits: u32_of_be(body) }
}

/// The value that follows the flags in a get response's body.
pub open spec fn body_value(body: Seq<u8>) -> Seq<u8> {
    body.subrange(4, body.len() as int)
}

/// What a get may return for the response header and the body read after
/// it: the failure when the status is not `Success`; a broken frame when the
/// body is not flags then value; otherwise whatever `V` reads from them.
pub open spec fn get_outcome<V: FromMemcached>(response: Response, body: Seq<u8>, r: Result<V>) -> bool {
    if !succeeded(response) {
        r == Err::<V, BMemcachedError>(failure(response))
    } else if !value_body_fits(response, body) {
        r == Err::<V, BMemcachedError>(BMemcachedError::ProtocolDesync)
    } else {
        V::decodes_to(body_flags(body), body_value(body), r)
    }
}

/// What a get returns for the response header and the body read after it.
pub fn finish_get<V: FromMemcached>(response: &Response, body: Vec<u8>) -> (r: Result<V>)
    ensures
        get_outcome(*response, body@, r),
{
    if !is_success(response) {
        return Err(failure_of(response));
    }
    if response.extras_length as usize != FLAGS_LENGTH || body.len() != response.body_length as usize
        || body.len() < FLAGS_LENGTH {
        return Err(BMemcachedError::ProtocolDesync);
    }
    let flags = StoredType::from_bits(read_be_u32(body.as_slice()));
    let value = slice_to_vec(slice_subrange(body.as_slice(), FLAGS_LENGTH, body.len()));
    V::get_value(flags, value)
}

pub open spec fn delete_result(response: Response) -> core::result::Result<(), BMemcachedError> {
    match status_of(response.status) {
        Some(Status::Success) => if response.body_length == 0 {
            Ok(())
        } else {
            Err(BMemcachedError::ProtocolDesync)
        },
        Some(Status::KeyNotFound) => Ok(()),
        _ => Err(failure(response)),
    }
}

/// What a delete returns for the response header it got. A key that is not
/// there counts as deleted; a success that carries a body is a broken frame.
pub fn finish_delete(response: &Response) -> (r: Result<()>)
    ensures
        r == delete_result(*response),
{
    match Status::from_u16(response.status) {
        Some(Status::Success) => if response.body_length == 0 {
            Ok(())
        } else {
            Err(BMemcachedError::ProtocolDesync)
        },
        Some(Status::KeyNotFound) => Ok(()),
        _ => Err(failure_of(response)),
    }
}

/// A successful increment or decrement carries exactly the eight bytes of the
/// new counter value and no extras.
pub open spec fn counter_body_fits(response: Response, body: Seq<u8>) -> bool {
    &&& response.extras_length == 0
    &&& response.body_length == 8
    &&& body.len() == 8
}

pub open spec fn counter_result(response: Response, body: Seq<u8>) -> core::result::Result<
    u64,
    BMemcachedError,
> {
    if !succeeded(response) {
        Err(failure(response))
    } else if !counter_body_fits(response, body) {
        Err(BMemcachedError::ProtocolDesync)
    } else {
        Ok(u64_of_be(body))
    }
}

/// What an increment or decrement returns for the response header and the
/// body read after it: the counter's new value, as the server computed it.
pub fn finish_counter(response: &Response, body: &[u8]) -> (r: Result<u64>)
    ensures
        r == counter_result(*response, body@),
{
    if !is_success(response) {
        return Err(failure_of(response));
    }
    if response.extras_length != 0 || response.body_length as usize != COUNTER_LENGTH || body.len()
        != COUNTER_LENGTH {
        return Err(BMemcachedError::ProtocolDesync);
    }
    Ok(read_be_u64(body))
}

} // verus!
