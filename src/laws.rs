//! Laws that tie the library's functions together, proved over the same spec
//! functions that the functions' own contracts use.
use vstd::prelude::*;
use vstd::utf8::{encode_utf8_decode_utf8, encode_utf8_valid_utf8};

use crate::commands::{
    body_flags, body_value, counter_outcome, counter_result, delete_result, get_outcome,
    key_outcome, store_outcome, store_result, succeeded,
};
use crate::constants::{StoredType, MTYPE_STRING, MTYPE_U16, MTYPE_U32, MTYPE_U8};
use crate::endian::{
    be_u32, be_u64, lemma_u16_round_trip, lemma_u32_round_trip, lemma_u64_round_trip,
    u32_of_be,
};
use crate::errors::{BMemcachedError, Result};
use crate::protocol::{status_of, valid_key_length, Command, Response, Status};
use crate::ring::{peer_views, pool_ring, Router};
use crate::value::{Encoding, FromMemcached, ToMemcached};

verus! {

/// The flags that a store frame carries in its extras.
pub open spec fn stored_flags(frame: Seq<u8>) -> Seq<u8> {
    frame.subrange(24, 28)
}

/// The value that a store frame for a key of `key_length` bytes carries after
/// its extras and key.
pub open spec fn stored_value(frame: Seq<u8>, key_length: nat) -> Seq<u8> {
    frame.subrange(32 + key_length as int, frame.len() as int)
}

/// A get after a store yields what the stored value reads back as: when the
/// server answers the get with the flags and the value bytes that the store
/// frame carried, byte for byte, the result is exactly what reading the
/// value's own encoding gives.
pub proof fn lemma_store_then_get<E: ToMemcached, D: FromMemcached>(
    command: Command,
    key: Seq<u8>,
    value: E,
    time: u32,
    response: Response,
    body: Seq<u8>,
    r: Result<D>,
)
    requires
        command.is_store(),
        store_outcome(command, key, value.encoded(), time) is Ok,
        succeeded(response),
        response.extras_length == 4,
        body == stored_flags(store_outcome(command, key, value.encoded(), time)->Ok_0)
            + stored_value(store_outcome(command, key, value.encoded(), time)->Ok_0, key.len()),
        response.body_length == body.len(),
        get_outcome(response, body, r),
    ensures
        value.encoded() matches Ok((payload, flags)) && D::decodes_to(flags, payload, r),
{
    let (payload, flags) = value.encoded()->Ok_0;
    let frame = store_outcome(command, key, value.encoded(), time)->Ok_0;
    assert(stored_flags(frame) =~= be_u32(flags.bits));
    assert(stored_value(frame, key.len()) =~= payload);
    assert(body.subrange(0, 4) =~= be_u32(flags.bits));
    lemma_u32_round_trip(flags.bits);
    assert(u32_of_be(body) == u32_of_be(be_u32(flags.bits)));
    assert(body_flags(body) == flags);
    assert(body_value(body) =~= payload);
}

/// Whether every result that reading `v`'s own encoding can give is `v`.
pub open spec fn reads_back<V: ToMemcached + FromMemcached>(v: V) -> bool {
    v.encoded() matches Ok((payload, flags)) && forall|r: Result<V>| #[trigger]
        V::decodes_to(flags, payload, r) ==> r == Ok::<V, BMemcachedError>(v)
}

/// Round trip: a get after a set, add or replace of a value that reads back
/// as itself (each built-in integer type does) yields that value, when the
/// server answers the get with the flags and value bytes the store carried.
pub proof fn lemma_round_trip<V: ToMemcached + FromMemcached>(
    command: Command,
    key: Seq<u8>,
    value: V,
    time: u32,
    response: Response,
    body: Seq<u8>,
    r: Result<V>,
)
    requires
        reads_back(value),
        command.is_store(),
        store_outcome(command, key, value.encoded(), time) is Ok,
        succeeded(response),
        response.extras_length == 4,
        body == stored_flags(store_outcome(command, key, value.encoded(), time)->Ok_0)
            + stored_value(store_outcome(command, key, value.encoded(), time)->Ok_0, key.len()),
        response.body_length == body.len(),
        get_outcome(response, body, r),
    ensures
        r == Ok::<V, BMemcachedError>(value),
{
    lemma_store_then_get(command, key, value, time, response, body, r);
}

/// Each built-in integer type reads back as the number that was stored.
pub proof fn lemma_integers_read_back(a: u8, b: u16, c: u32, d: u64)
    ensures
        reads_back(a),
        reads_back(b),
        reads_back(c),
        reads_back(d),
{
    lemma_u16_round_trip(b);
    lemma_u32_round_trip(c);
    lemma_u64_round_trip(d);
    assert(MTYPE_U8 & MTYPE_U8 != 0) by (bit_vector);
    assert(MTYPE_U16 & MTYPE_U16 != 0) by (bit_vector);
    assert(MTYPE_U32 & MTYPE_U32 != 0) by (bit_vector);
}

/// A string stored from a `&str` reads back as a `String` with the same
/// characters.
pub proof fn lemma_string_reads_back(s: &str, r: Result<String>)
    requires
        s.encoded() matches Ok((payload, flags)) && <String as FromMemcached>::decodes_to(
            flags,
            payload,
            r,
        ),
    ensures
        r matches Ok(t) && t@ == s@,
{
    encode_utf8_valid_utf8(s@);
    encode_utf8_decode_utf8(s@);
    assert(MTYPE_STRING & MTYPE_STRING != 0) by (bit_vector);
}

/// Deleting twice succeeds twice: whether the first delete finds the key
/// (`Success`, with no body) or not (`KeyNotFound`), and when the second finds
/// it gone, both return `Ok`.
pub proof fn lemma_delete_twice(first: Response, second: Response)
    requires
        (succeeded(first) && first.body_length == 0) || status_of(first.status) == Some(
            Status::KeyNotFound,
        ),
        status_of(second.status) == Some(Status::KeyNotFound),
    ensures
        delete_result(first) == Ok::<(), BMemcachedError>(()),
        delete_result(second) == Ok::<(), BMemcachedError>(()),
{
}

/// An add of a key that exists fails with `KeyExists`: once a first add has
/// succeeded, a second one that the server answers with that status fails
/// with exactly that status, and nothing else.
pub proof fn lemma_add_twice(first: Response, second: Response)
    requires
        succeeded(first),
        status_of(second.status) == Some(Status::KeyExists),
    ensures
        store_result(first) == Ok::<(), BMemcachedError>(()),
        store_result(second) == Err::<(), BMemcachedError>(
            BMemcachedError::Status(Status::KeyExists),
        ),
{
}

/// A replace of an absent key fails with `KeyNotFound`, and one that the
/// server accepts succeeds.
pub proof fn lemma_replace(absent: Response, present: Response)
    requires
        status_of(absent.status) == Some(Status::KeyNotFound),
        succeeded(present),
    ensures
        store_result(absent) == Err::<(), BMemcachedError>(
            BMemcachedError::Status(Status::KeyNotFound),
        ),
        store_result(present) == Ok::<(), BMemcachedError>(()),
{
}

/// The counter a server returns is handed on unchanged: a successful
/// increment or decrement whose body holds `n` yields `n`.
pub proof fn lemma_counter_forwarded(response: Response, n: u64)
    requires
        succeeded(response),
        response.extras_length == 0,
        response.body_length == 8,
    ensures
        counter_result(response, be_u64(n)) == Ok::<u64, BMemcachedError>(n),
{
    lemma_u64_round_trip(n);
}

/// Every command refuses an empty key, or one longer than 250 bytes, with
/// `KeyLengthTooLong` and its length, before a frame exists to be sent.
pub proof fn lemma_key_length_gate(
    command: Command,
    key: Seq<u8>,
    enc: Encoding,
    amount: u64,
    initial: u64,
    time: u32,
)
    requires
        !valid_key_length(key.len() as int),
    ensures
        store_outcome(command, key, enc, time) == Err::<Seq<u8>, BMemcachedError>(
            BMemcachedError::KeyLengthTooLong(key.len() as usize),
        ),
        key_outcome(command, key) == Err::<Seq<u8>, BMemcachedError>(
            BMemcachedError::KeyLengthTooLong(key.len() as usize),
        ),
        counter_outcome(command, key, amount, initial, time) == Err::<Seq<u8>, BMemcachedError>(
            BMemcachedError::KeyLengthTooLong(key.len() as usize),
        ),
{
}

/// Reading a value as a type whose bit its flags do not carry fails with
/// `TypeMismatch` and the flags that were found, whatever the payload.
pub proof fn lemma_type_gate(
    flags: StoredType,
    buf: Seq<u8>,
    a: Result<u8>,
    b: Result<u16>,
    c: Result<u32>,
    s: Result<String>,
)
    requires
        !flags.meets(MTYPE_U8) ==> <u8 as FromMemcached>::decodes_to(flags, buf, a),
        !flags.meets(MTYPE_U16) ==> <u16 as FromMemcached>::decodes_to(flags, buf, b),
        !flags.meets(MTYPE_U32) ==> <u32 as FromMemcached>::decodes_to(flags, buf, c),
        !flags.meets(MTYPE_STRING) ==> <String as FromMemcached>::decodes_to(flags, buf, s),
    ensures
        !flags.meets(MTYPE_U8) ==> a == Err::<u8, BMemcachedError>(
            BMemcachedError::TypeMismatch(flags),
        ),
        !flags.meets(MTYPE_U16) ==> b == Err::<u16, BMemcachedError>(
            BMemcachedError::TypeMismatch(flags),
        ),
        !flags.meets(MTYPE_U32) ==> c == Err::<u32, BMemcachedError>(
            BMemcachedError::TypeMismatch(flags),
        ),
        !flags.meets(MTYPE_STRING) ==> s == Err::<String, BMemcachedError>(
            BMemcachedError::TypeMismatch(flags),
        ),
{
}

/// Routing is stable: two routers built from the same peers, in the same
/// order, send every key to the same connection, and so does one router on
/// every call.
pub proof fn lemma_same_pool_same_route(
    a: &Router,
    b: &Router,
    peers: Seq<String>,
    key: Seq<u8>,
)
    requires
        a.positions() == pool_ring(peer_views(peers), peers.len()).0,
        b.positions() == pool_ring(peer_views(peers), peers.len()).0,
    ensures
        a.spec_route(key) == b.spec_route(key),
{
}

} // verus!
