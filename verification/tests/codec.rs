//! The codec primitives: varints, zig-zag, compact strings and arrays.

use kafka_core::error::Error;
use kafka_core::fetch::dec_fetch_topic_array;
use kafka_core::pb::{
    dec_compact_string, dec_u16, dec_u32, dec_u32_array, dec_u64, dec_u8, SignedVarInt, VarInt,
};
use kafka_core::pb::ToCompactString;

#[test]
fn test_encode() {
    let num: u64 = 0b1011_0010_1110_1101_0001;
    let num1: u64 = 0b1011_0010_1110_1101_0001;

    let first_bits = num;
    let first_bits2 = num >> 7;
    let first_bits3 = num >> 14;
    let last_7_bits = first_bits & 0b111_1111;
    let last_7_bits2 = first_bits2 & 0b111_1111;
    let last_7_bits3 = first_bits3 & 0b111_1111;

    println!("{:07b}", last_7_bits);
    println!("{:07b}", last_7_bits2);
    println!("{:07b}", last_7_bits3);
    let _ = num1;
}

#[test]
fn test_extract_array_into() {
    let data: String = vec![
        "02 00 00 00  00 00 00 00  00 00 00 00  00 00 00 53",
        "21 02 00 00  00 00 ff ff  ff ff 00 00  00 00 00 00",
        "00 00 ff ff  ff ff ff ff  ff ff ff ff  ff ff 00 10",
        "00 00 00 00  01 01 00",
    ]
    .join("")
    .replace(" ", "");
    let bytes = hex::decode(data).expect("");
    let topics = dec_fetch_topic_array(&bytes).map(|(ts, _)| ts);

    println!("bytes {:?}", bytes);
    println!("topics {:?}", topics);
    let topics = topics.expect("one fetch topic");
    assert_eq!(topics.len(), 1);
    assert_eq!(topics[0].partitions.len(), 1);
}

#[test]
fn varint_round_trips() {
    for n in [0u64, 1, 127, 128, 300, 16383, 16384, 0x1234_5678, u64::MAX - 1, u64::MAX] {
        let enc = VarInt::encode(n);
        let (v, rest) = VarInt::decode(&enc).expect("decodes");
        assert_eq!(v.value(), n);
        assert_eq!(v.n_bytes, enc.len());
        assert!(rest.is_empty());
    }
    assert_eq!(VarInt::encode(0), vec![0x00]);
    assert_eq!(VarInt::encode(1), vec![0x01]);
    assert_eq!(VarInt::encode(128), vec![0x80, 0x01]);
    assert_eq!(VarInt::encode(300), vec![0xac, 0x02]);
}

#[test]
fn varint_errors() {
    assert_eq!(VarInt::decode(&[]).unwrap_err(), Error::Incomplete);
    assert_eq!(VarInt::decode(&[0x80]).unwrap_err(), Error::Incomplete);
    assert_eq!(
        VarInt::decode(&[0xff, 0xff, 0xff, 0xff, 0xff, 0xff, 0xff, 0xff, 0xff, 0xff, 0x01])
            .unwrap_err(),
        Error::Overflow
    );
    assert_eq!(
        VarInt::decode(&[0x80, 0x80, 0x80, 0x80, 0x80, 0x80, 0x80, 0x80, 0x80, 0x7f])
            .unwrap_err(),
        Error::Overflow
    );
}

#[test]
fn svarint_round_trips() {
    for n in [0i64, 1, -1, 2, -2, 63, -64, 64, -65, 12345, -12345, i64::MAX, i64::MIN] {
        let enc = SignedVarInt::encode(n);
        let (v, rest) = SignedVarInt::decode(&enc).expect("decodes");
        assert_eq!(v.value(), n);
        assert!(rest.is_empty());
    }
    assert_eq!(SignedVarInt::encode(0), vec![0x00]);
    assert_eq!(SignedVarInt::encode(-1), vec![0x01]);
    assert_eq!(SignedVarInt::encode(1), vec![0x02]);
    assert_eq!(SignedVarInt::encode(24), vec![0x30]);
}

#[test]
fn compact_string_round_trips() {
    for s in ["", "a", "baz", "kafka-cli", "caf\u{e9} \u{1f600}"] {
        let owned = String::from(s);
        let enc = owned.to_compact_string();
        let (back, rest) = dec_compact_string(&enc).expect("decodes");
        assert_eq!(back, owned);
        assert!(rest.is_empty());
    }
    assert_eq!(String::from("").to_compact_string(), vec![0x01]);
    assert_eq!(String::from("az").to_compact_string(), vec![0x03, 0x61, 0x7a]);
}

#[test]
fn compact_string_errors() {
    // a length prefix pointing past the end
    assert_eq!(dec_compact_string(&[0x05, 0x61]).unwrap_err(), Error::BadLength);
    // bytes that are not UTF-8
    assert_eq!(dec_compact_string(&[0x03, 0xff, 0xfe]).unwrap_err(), Error::InvalidUtf8);
    // an absent string decodes as empty
    let (s, _) = dec_compact_string(&[0x00]).expect("absent decodes");
    assert_eq!(s, "");
}

#[test]
fn fixed_ints_decode_big_endian() {
    assert_eq!(dec_u8(&[0xab, 0x01]).unwrap().0, 0xab);
    assert_eq!(dec_u16(&[0x12, 0x34]).unwrap().0, 0x1234);
    assert_eq!(dec_u32(&[0x12, 0x34, 0x56, 0x78]).unwrap().0, 0x1234_5678);
    assert_eq!(
        dec_u64(&[0x01, 0x23, 0x45, 0x67, 0x89, 0xab, 0xcd, 0xef]).unwrap().0,
        0x0123_4567_89ab_cdef
    );
    assert_eq!(dec_u32(&[0x12, 0x34]).unwrap_err(), Error::Incomplete);
}

#[test]
fn u32_array_round_trips() {
    // compact array of three node ids: length 4, then packed big-endian
    let bytes = [0x04, 0, 0, 0, 1, 0, 0, 0, 2, 0, 0, 0, 3];
    let (xs, rest) = dec_u32_array(&bytes).expect("decodes");
    assert_eq!(xs, vec![1, 2, 3]);
    assert!(rest.is_empty());
    // absent array decodes as empty
    let (xs, _) = dec_u32_array(&[0x00]).expect("absent decodes");
    assert!(xs.is_empty());
}
