use wallet_core::codec::{put_u32, put_u64, put_u8, put_bytes, put_bytes_with_length, read_u32,
    read_u64, read_u8, read_bytes};
use wallet_core::elgamal::{deserialize_cipher, serialize_cipher, Cipher};
use wallet_core::group::GroupElement;

#[test]
fn u64_round_trip() {
    let mut out: Vec<u8> = Vec::new();
    put_u64(&mut out, 0x0102030405060708);
    assert_eq!(out, vec![1, 2, 3, 4, 5, 6, 7, 8]);
    let (v, pos) = read_u64(&out, 0).unwrap();
    assert_eq!(v, 0x0102030405060708);
    assert_eq!(pos, 8);
}

#[test]
fn u64_round_trip_extremes() {
    for x in [0u64, 1, u64::MAX, u64::MAX - 1, 0x8000000000000000] {
        let mut out: Vec<u8> = Vec::new();
        put_u64(&mut out, x);
        let (v, _) = read_u64(&out, 0).unwrap();
        assert_eq!(v, x);
    }
}

#[test]
fn u32_round_trip() {
    let mut out: Vec<u8> = Vec::new();
    put_u32(&mut out, 0xdeadbeef);
    assert_eq!(out, vec![0xde, 0xad, 0xbe, 0xef]);
    let (v, pos) = read_u32(&out, 0).unwrap();
    assert_eq!(v, 0xdeadbeef);
    assert_eq!(pos, 4);
}

#[test]
fn read_past_end_fails() {
    let buf: Vec<u8> = vec![1, 2, 3];
    assert!(read_u32(&buf, 0).is_none());
    assert!(read_u64(&buf, 0).is_none());
    assert!(read_u8(&buf, 3).is_none());
    assert_eq!(read_u8(&buf, 2).unwrap(), (3, 3));
}

#[test]
fn length_prefixed_bytes() {
    let mut out: Vec<u8> = Vec::new();
    put_u8(&mut out, 7);
    let payload: Vec<u8> = vec![9, 8, 7];
    put_bytes_with_length(&mut out, &payload);
    assert_eq!(out, vec![7, 0, 0, 0, 3, 9, 8, 7]);
    let (len, pos) = read_u32(&out, 1).unwrap();
    let (body, end) = read_bytes(&out, pos, len as usize).unwrap();
    assert_eq!(body, vec![9, 8, 7]);
    assert_eq!(end, out.len());
}

#[test]
fn raw_bytes_append() {
    let mut out: Vec<u8> = vec![1];
    let tail: Vec<u8> = vec![2, 3];
    put_bytes(&mut out, &tail);
    assert_eq!(out, vec![1, 2, 3]);
}

#[test]
fn cipher_round_trip() {
    let c = Cipher {
        c0: GroupElement { v: 0x1122334455667788 },
        c1: GroupElement { v: 0x99aabbccddeeff00 },
    };
    let ser = serialize_cipher(&c);
    assert_eq!(ser.len(), 16);
    let back = deserialize_cipher(&ser).unwrap();
    assert_eq!(back, c);
}

#[test]
fn cipher_wrong_length_rejected() {
    let buf: Vec<u8> = vec![0; 15];
    assert!(deserialize_cipher(&buf).is_none());
    let buf2: Vec<u8> = vec![0; 17];
    assert!(deserialize_cipher(&buf2).is_none());
}
