use bmemcached::commands::{
    counter_request, finish_counter, finish_delete, finish_get, finish_store, key_request,
    store_request,
};
use bmemcached::constants::{
    MTYPE_STRING, MTYPE_U16, MTYPE_U32, MTYPE_U64, MTYPE_U8, MTYPE_USER_DEFINED_1, MTYPE_VECTOR,
};
use bmemcached::protocol::{build_request, decode_response, KEY_MAXIMUM_SIZE};
use bmemcached::ring::decimal_string;
use bmemcached::{
    BMemcachedError, Command, FromMemcached, Request, Response, Router, Status, StoredType,
    ToMemcached,
};

fn response(status: u16, extras_length: u8, body_length: u32) -> Response {
    Response {
        magic: 0x81,
        opcode: 0,
        key_length: 0,
        extras_length,
        data_type: 0,
        status,
        body_length,
        opaque: 0,
        cas: 0,
    }
}

#[test]
fn request_header_is_big_endian() {
    let request = Request {
        magic: 0x80,
        opcode: 0x01,
        key_length: 0x0102,
        extras_length: 8,
        data_type: 0,
        reserved: 0x0304,
        body_length: 0x0506_0708,
        opaque: 0x090a_0b0c,
        cas: 0x0d0e_0f10_1112_1314,
    };
    assert_eq!(
        request.to_bytes(),
        vec![
            0x80, 0x01, 0x01, 0x02, 8, 0, 0x03, 0x04, 0x05, 0x06, 0x07, 0x08, 0x09, 0x0a, 0x0b,
            0x0c, 0x0d, 0x0e, 0x0f, 0x10, 0x11, 0x12, 0x13, 0x14
        ]
    );
}

#[test]
fn build_request_fills_the_header() {
    let request = build_request(Command::SetValue, 5, 7, 0, 8, 0).unwrap();
    assert_eq!(request.magic, 0x80);
    assert_eq!(request.opcode, 0x01);
    assert_eq!(request.key_length, 5);
    assert_eq!(request.extras_length, 8);
    assert_eq!(request.reserved, 0);
    assert_eq!(request.body_length, 20);
    assert_eq!(request.opaque, 0);
    assert_eq!(request.cas, 0);
}

#[test]
fn build_request_key_bounds() {
    assert!(build_request(Command::Get, KEY_MAXIMUM_SIZE, 0, 0, 0, 0).is_ok());
    assert_eq!(
        build_request(Command::Get, 251, 0, 0, 0, 0),
        Err(BMemcachedError::KeyLengthTooLong(251))
    );
    assert_eq!(
        build_request(Command::Get, 0, 0, 0, 0, 0),
        Err(BMemcachedError::KeyLengthTooLong(0))
    );
}

#[test]
fn build_request_body_must_fit_32_bits() {
    assert_eq!(
        build_request(Command::SetValue, 10, 0xffff_ffff, 0, 8, 0),
        Err(BMemcachedError::ValueTooLarge(0xffff_ffff))
    );
    let request = build_request(Command::SetValue, 10, 0xffff_ffff - 18, 0, 8, 0).unwrap();
    assert_eq!(request.body_length, 0xffff_ffff);
}

#[test]
fn opcodes() {
    let all = [
        (Command::Get, 0),
        (Command::SetValue, 1),
        (Command::Add, 2),
        (Command::Replace, 3),
        (Command::Delete, 4),
        (Command::Increment, 5),
        (Command::Decrement, 6),
    ];
    for (command, opcode) in all.iter() {
        assert_eq!(command.opcode(), *opcode);
    }
}

#[test]
fn status_codes() {
    assert_eq!(Status::from_u16(0x00), Some(Status::Success));
    assert_eq!(Status::from_u16(0x01), Some(Status::KeyNotFound));
    assert_eq!(Status::from_u16(0x02), Some(Status::KeyExists));
    assert_eq!(Status::from_u16(0x08), Some(Status::AuthError));
    assert_eq!(Status::from_u16(0x81), Some(Status::UnknownCommand));
    assert_eq!(Status::from_u16(0x03), None);
    assert_eq!(Status::from_u16(0x80), None);
    assert_eq!(Status::KeyExists.code(), 0x02);
    assert_eq!(Status::UnknownCommand.code(), 0x81);
}

#[test]
fn decode_response_reads_every_field() {
    let header = vec![
        0x81, 0x00, 0x00, 0x03, 4, 0, 0x00, 0x02, 0x00, 0x00, 0x01, 0x02, 0xaa, 0xbb, 0xcc, 0xdd,
        1, 2, 3, 4, 5, 6, 7, 8,
    ];
    let r = decode_response(&header).unwrap();
    assert_eq!(r.magic, 0x81);
    assert_eq!(r.opcode, 0);
    assert_eq!(r.key_length, 3);
    assert_eq!(r.extras_length, 4);
    assert_eq!(r.data_type, 0);
    assert_eq!(r.status, 2);
    assert_eq!(r.body_length, 0x0102);
    assert_eq!(r.opaque, 0xaabb_ccdd);
    assert_eq!(r.cas, 0x0102_0304_0506_0708);
}

#[test]
fn decode_response_bad_magic_or_length() {
    let mut header = vec![0u8; 24];
    header[0] = 0x80;
    assert_eq!(decode_response(&header), Err(BMemcachedError::ProtocolDesync));
    assert_eq!(decode_response(&[0x81u8; 23]), Err(BMemcachedError::ProtocolDesync));
}

#[test]
fn store_frame_layout() {
    let frame = store_request(Command::Add, b"ab", 0x0102u16, 1000).unwrap();
    assert_eq!(frame.len(), 24 + 8 + 2 + 2);
    assert_eq!(&frame[0..2], &[0x80, 0x02]);
    assert_eq!(&frame[2..4], &[0, 2]);
    assert_eq!(frame[4], 8);
    assert_eq!(&frame[8..12], &[0, 0, 0, 12]);
    assert_eq!(&frame[24..28], &[0, 0, 0, MTYPE_U16 as u8]);
    assert_eq!(&frame[28..32], &[0, 0, 0x03, 0xe8]);
    assert_eq!(&frame[32..34], b"ab");
    assert_eq!(&frame[34..36], &[0x01, 0x02]);
}

#[test]
fn empty_string_is_stored_with_extras() {
    let frame = store_request(Command::SetValue, b"k", "", 0).unwrap();
    assert_eq!(frame.len(), 24 + 8 + 1);
    assert_eq!(&frame[8..12], &[0, 0, 0, 9]);
}

#[test]
fn key_frame_layout() {
    let frame = key_request(Command::Delete, b"xyz").unwrap();
    assert_eq!(frame.len(), 27);
    assert_eq!(frame[1], 0x04);
    assert_eq!(frame[4], 0);
    assert_eq!(&frame[8..12], &[0, 0, 0, 3]);
    assert_eq!(&frame[24..], b"xyz");
}

#[test]
fn counter_frame_layout() {
    let frame = counter_request(Command::Increment, b"c", 2, 7, 1000).unwrap();
    assert_eq!(frame.len(), 24 + 20 + 1);
    assert_eq!(frame[1], 0x05);
    assert_eq!(frame[4], 20);
    assert_eq!(&frame[8..12], &[0, 0, 0, 21]);
    assert_eq!(&frame[24..32], &[0, 0, 0, 0, 0, 0, 0, 2]);
    assert_eq!(&frame[32..40], &[0, 0, 0, 0, 0, 0, 0, 7]);
    assert_eq!(&frame[40..44], &[0, 0, 0x03, 0xe8]);
    assert_eq!(frame[44], b'c');
}

#[test]
fn every_request_refuses_long_keys() {
    let key = vec![b'0'; 251];
    let e = Err(BMemcachedError::KeyLengthTooLong(251));
    assert_eq!(store_request(Command::SetValue, &key, 1u8, 0), e);
    assert_eq!(store_request(Command::Replace, &key, "v", 0), e);
    assert_eq!(key_request(Command::Get, &key), e);
    assert_eq!(key_request(Command::Delete, &key), e);
    assert_eq!(counter_request(Command::Decrement, &key, 1, 0, 0), e);
    assert_eq!(key_request(Command::Get, b""), Err(BMemcachedError::KeyLengthTooLong(0)));
}

#[test]
fn encodings_of_builtin_values() {
    assert_eq!(7u8.get_value().unwrap(), (vec![7], StoredType::from_bits(MTYPE_U8)));
    assert_eq!(0x0102u16.get_value().unwrap(), (vec![1, 2], StoredType::from_bits(MTYPE_U16)));
    assert_eq!(
        0x0102_0304u32.get_value().unwrap(),
        (vec![1, 2, 3, 4], StoredType::from_bits(MTYPE_U32))
    );
    assert_eq!(
        0x0102_0304_0506_0708u64.get_value().unwrap(),
        (vec![1, 2, 3, 4, 5, 6, 7, 8], StoredType::from_bits(MTYPE_U64))
    );
    assert_eq!(
        "hé".get_value().unwrap(),
        (vec![b'h', 0xc3, 0xa9], StoredType::from_bits(MTYPE_STRING))
    );
    let owned = String::from("abc");
    assert_eq!((&owned).get_value().unwrap(), (b"abc".to_vec(), StoredType::from_bits(MTYPE_STRING)));
    let raw: (&[u8], StoredType) = (&[9, 8], StoredType::from_bits(MTYPE_VECTOR));
    assert_eq!(raw.get_value().unwrap(), (vec![9, 8], StoredType::from_bits(MTYPE_VECTOR)));
}

#[test]
fn decoding_builtin_values() {
    let t = |bits| StoredType::from_bits(bits);
    assert_eq!(<u8 as FromMemcached>::get_value(t(MTYPE_U8), vec![9]), Ok(9));
    assert_eq!(<u16 as FromMemcached>::get_value(t(MTYPE_U16), vec![1, 2]), Ok(0x0102));
    assert_eq!(<u32 as FromMemcached>::get_value(t(MTYPE_U32), vec![0, 0, 1, 0]), Ok(256));
    assert_eq!(
        <u64 as FromMemcached>::get_value(t(0), vec![0, 0, 0, 0, 0, 0, 1, 1]),
        Ok(257)
    );
    assert_eq!(
        <String as FromMemcached>::get_value(t(MTYPE_STRING), "World".as_bytes().to_vec()),
        Ok("World".to_string())
    );
    assert_eq!(
        <Vec<u8> as FromMemcached>::get_value(t(MTYPE_USER_DEFINED_1), vec![1, 2, 3]),
        Ok(vec![1, 2, 3])
    );
}

#[test]
fn decoding_checks_flags() {
    let flags = StoredType::from_bits(MTYPE_U32);
    assert_eq!(
        <u16 as FromMemcached>::get_value(flags, vec![0, 0, 0, 1]),
        Err(BMemcachedError::TypeMismatch(flags))
    );
    assert_eq!(
        <u8 as FromMemcached>::get_value(flags, vec![1]),
        Err(BMemcachedError::TypeMismatch(flags))
    );
    assert_eq!(
        <String as FromMemcached>::get_value(flags, b"x".to_vec()),
        Err(BMemcachedError::TypeMismatch(flags))
    );
    let both = StoredType::from_bits(MTYPE_U32 | 64);
    assert_eq!(<u32 as FromMemcached>::get_value(both, vec![0, 0, 0, 5]), Ok(5));
}

#[test]
fn decoding_bad_payloads() {
    let s = StoredType::from_bits(MTYPE_STRING);
    assert_eq!(
        <String as FromMemcached>::get_value(s, vec![0xff, 0xfe]),
        Err(BMemcachedError::Utf8)
    );
    assert_eq!(
        <u32 as FromMemcached>::get_value(StoredType::from_bits(MTYPE_U32), vec![1, 2]),
        Err(BMemcachedError::ProtocolDesync)
    );
    assert_eq!(
        <u64 as FromMemcached>::get_value(StoredType::empty(), vec![1]),
        Err(BMemcachedError::ProtocolDesync)
    );
}

#[test]
fn stored_type_bits() {
    let t = StoredType::from_bits(MTYPE_U32 | MTYPE_STRING);
    assert_eq!(t.bits(), 9);
    assert!(t.intersects(MTYPE_STRING));
    assert!(!t.intersects(MTYPE_U8));
    assert_eq!(StoredType::empty().bits(), 0);
    assert_eq!(StoredType::from_bits(1 << 12).bits(), 4096);
}

#[test]
fn finish_store_statuses() {
    assert_eq!(finish_store(&response(0, 0, 0)), Ok(()));
    assert_eq!(
        finish_store(&response(2, 0, 20)),
        Err(BMemcachedError::Status(Status::KeyExists))
    );
    assert_eq!(
        finish_store(&response(1, 0, 9)),
        Err(BMemcachedError::Status(Status::KeyNotFound))
    );
    assert_eq!(
        finish_store(&response(0x08, 0, 0)),
        Err(BMemcachedError::Status(Status::AuthError))
    );
    assert_eq!(finish_store(&response(0x55, 0, 0)), Err(BMemcachedError::ProtocolDesync));
}

#[test]
fn finish_get_reads_flags_then_value() {
    let body = vec![0, 0, 0, MTYPE_STRING as u8, b'h', b'i'];
    let r: Result<String, _> = finish_get(&response(0, 4, 6), body);
    assert_eq!(r, Ok("hi".to_string()));
    let r: Result<String, _> = finish_get(&response(1, 0, 9), b"Not found".to_vec());
    assert_eq!(r, Err(BMemcachedError::Status(Status::KeyNotFound)));
    let r: Result<Vec<u8>, _> = finish_get(&response(0, 0, 6), vec![0; 6]);
    assert_eq!(r, Err(BMemcachedError::ProtocolDesync));
    let r: Result<Vec<u8>, _> = finish_get(&response(0, 4, 3), vec![0; 3]);
    assert_eq!(r, Err(BMemcachedError::ProtocolDesync));
    let r: Result<Vec<u8>, _> = finish_get(&response(0x99, 4, 4), vec![0; 4]);
    assert_eq!(r, Err(BMemcachedError::ProtocolDesync));
}

#[test]
fn finish_delete_statuses() {
    assert_eq!(finish_delete(&response(0, 0, 0)), Ok(()));
    assert_eq!(finish_delete(&response(1, 0, 9)), Ok(()));
    assert_eq!(finish_delete(&response(0, 0, 3)), Err(BMemcachedError::ProtocolDesync));
    assert_eq!(
        finish_delete(&response(0x81, 0, 0)),
        Err(BMemcachedError::Status(Status::UnknownCommand))
    );
    assert_eq!(finish_delete(&response(7, 0, 0)), Err(BMemcachedError::ProtocolDesync));
}

#[test]
fn finish_counter_checks_the_body() {
    let eight = [0, 0, 0, 0, 0, 0, 1, 0];
    assert_eq!(finish_counter(&response(0, 0, 8), &eight), Ok(256));
    assert_eq!(finish_counter(&response(0, 4, 8), &eight), Err(BMemcachedError::ProtocolDesync));
    assert_eq!(finish_counter(&response(0, 0, 9), &eight), Err(BMemcachedError::ProtocolDesync));
    assert_eq!(
        finish_counter(&response(2, 0, 0), &[]),
        Err(BMemcachedError::Status(Status::KeyExists))
    );
}

#[test]
fn decimal_strings() {
    assert_eq!(decimal_string(0), "0");
    assert_eq!(decimal_string(7), "7");
    assert_eq!(decimal_string(10), "10");
    assert_eq!(decimal_string(4052), "4052");
}

fn peers(addresses: &[&str], per_address: usize) -> Vec<String> {
    let mut v = Vec::new();
    for a in addresses {
        for _ in 0..per_address {
            v.push(a.to_string());
        }
    }
    v
}

#[test]
fn routing_is_stable() {
    let p = peers(&["127.0.0.1:11211", "127.0.0.1:11212"], 3);
    let a = Router::new(&p);
    let b = Router::new(&p);
    assert_eq!(a.len(), 6);
    for i in 0..50 {
        let key = format!("key{}", i);
        let ra = a.route(key.as_bytes());
        assert!(ra.unwrap() < 6);
        assert_eq!(ra, a.route(key.as_bytes()));
        assert_eq!(ra, b.route(key.as_bytes()));
    }
}

#[test]
fn connections_to_one_address_share_the_keys() {
    let router = Router::new(&peers(&["127.0.0.1:11211"], 5));
    let mut seen = [false; 5];
    for i in 0..200 {
        let key = format!("data_n{}", i);
        seen[router.route(key.as_bytes()).unwrap()] = true;
    }
    assert!(seen.iter().filter(|s| **s).count() >= 2);
}

#[test]
fn empty_pool_routes_nowhere() {
    let router = Router::new(&Vec::new());
    assert_eq!(router.route(b"k"), None);
}

#[test]
fn one_server_listed_twice_keeps_both_connections() {
    let router = Router::new(&peers(&["127.0.0.1:11211", "127.0.0.1:11211"], 1));
    let mut seen = [false; 2];
    for i in 0..200 {
        let key = format!("key{}", i);
        seen[router.route(key.as_bytes()).unwrap()] = true;
    }
    assert!(seen[0] && seen[1]);
}
