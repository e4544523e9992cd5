use mcproxy::buffer::Reader;
use mcproxy::error::ProtocolError;
use mcproxy::varint::{
    put_uvarint, put_varint, read_varint, varint_length, varint_length_usize, write_21bit_varint,
    write_varint,
};

fn encode(v: u32) -> Vec<u8> {
    let mut out = Vec::new();
    put_uvarint(&mut out, v);
    out
}

#[test]
fn varint_round_trip_samples() {
    let samples: [u32; 12] = [
        0, 1, 127, 128, 255, 300, 16383, 16384, 2097151, 2097152, 268435455, 2147483647,
    ];
    for v in samples {
        let bytes = encode(v);
        assert_eq!(bytes.len(), varint_length_usize(v));
        assert_eq!(read_varint(&bytes, 0, 5), Some((v, bytes.len())));
    }
}

#[test]
fn varint_round_trip_with_trailing_bytes() {
    let mut bytes = encode(25565);
    bytes.extend_from_slice(&[0xff, 0x01]);
    assert_eq!(read_varint(&bytes, 0, 5), Some((25565, 3)));
}

#[test]
fn varint_exact_encodings() {
    assert_eq!(encode(0), vec![0x00]);
    assert_eq!(encode(1), vec![0x01]);
    assert_eq!(encode(127), vec![0x7f]);
    assert_eq!(encode(128), vec![0x80, 0x01]);
    assert_eq!(encode(255), vec![0xff, 0x01]);
    assert_eq!(encode(25565), vec![0xdd, 0xc7, 0x01]);
    assert_eq!(encode(2097151), vec![0xff, 0xff, 0x7f]);
    assert_eq!(encode(2147483647), vec![0xff, 0xff, 0xff, 0xff, 0x07]);
    assert_eq!(encode(u32::MAX), vec![0xff, 0xff, 0xff, 0xff, 0x0f]);
}

#[test]
fn varint_negative_is_five_bytes() {
    let mut out = Vec::new();
    put_varint(&mut out, -1);
    assert_eq!(out, vec![0xff, 0xff, 0xff, 0xff, 0x0f]);
    let mut reader = Reader::new(out);
    assert_eq!(reader.get_varint(), Ok(-1));
}

#[test]
fn varint_six_continuation_bytes_fail() {
    let mut reader = Reader::new(vec![0x80, 0x80, 0x80, 0x80, 0x80, 0x80]);
    assert_eq!(reader.get_varint(), Err(ProtocolError::VarintTooLong));
    assert_eq!(read_varint(&[0x80, 0x80, 0x80, 0x80, 0x80, 0x80], 0, 5), None);
}

#[test]
fn varint_truncated_is_unexpected_end() {
    let mut reader = Reader::new(vec![0x80, 0x80]);
    assert_eq!(reader.get_varint(), Err(ProtocolError::UnexpectedEnd));
}

#[test]
fn varint_lengths() {
    assert_eq!(varint_length_usize(0), 1);
    assert_eq!(varint_length_usize(127), 1);
    assert_eq!(varint_length_usize(128), 2);
    assert_eq!(varint_length_usize(16383), 2);
    assert_eq!(varint_length_usize(16384), 3);
    assert_eq!(varint_length_usize(2097151), 3);
    assert_eq!(varint_length_usize(2097152), 4);
    assert_eq!(varint_length_usize(268435455), 4);
    assert_eq!(varint_length_usize(268435456), 5);
    assert_eq!(varint_length_usize(u32::MAX), 5);
    assert_eq!(varint_length(127), 1);
    assert_eq!(varint_length(16383), 2);
    assert_eq!(varint_length(2097151), 3);
    assert_eq!(varint_length(u32::MAX), 3);
}

#[test]
fn frame_length_writers() {
    let mut out = Vec::new();
    write_varint(&mut out, 300);
    assert_eq!(out, vec![0xac, 0x02]);
    let mut fixed = Vec::new();
    write_21bit_varint(&mut fixed, 300);
    assert_eq!(fixed, vec![0xac, 0x82, 0x00]);
    assert_eq!(read_varint(&fixed, 0, 3), Some((300, 3)));
}
