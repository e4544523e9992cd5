use mcproxy::codec::{compression_level, MinecraftDecoder, MinecraftEncoder};
use mcproxy::error::ProtocolError;
use mcproxy::varint::MAX_PACKET_SIZE;

fn payload(len: usize) -> Vec<u8> {
    (0..len).map(|i| (i * 7 % 251) as u8).collect()
}

fn decode_all(decoder: &mut MinecraftDecoder, bytes: &[u8], chunk: usize) -> Vec<Vec<u8>> {
    let mut frames = Vec::new();
    for part in bytes.chunks(chunk.max(1)) {
        decoder.feed(part).unwrap();
        while let Some(frame) = decoder.decode().unwrap() {
            frames.push(frame);
        }
    }
    frames
}

#[test]
fn frame_without_transforms() {
    let encoder = MinecraftEncoder::new();
    let p = vec![0x00, 0x01, 0x02];
    assert_eq!(encoder.frame(&p).unwrap(), vec![0x03, 0x00, 0x01, 0x02]);
}

#[test]
fn framer_round_trip_any_chunking() {
    for len in [0usize, 1, 127, 128, 300, 20000] {
        let p = payload(len);
        let mut encoder = MinecraftEncoder::new();
        let wire = encoder.encode(&p).unwrap();
        for chunk in [1usize, 2, 3, 7, 1000, wire.len()] {
            let mut decoder = MinecraftDecoder::new();
            let frames = decode_all(&mut decoder, &wire, chunk);
            assert_eq!(frames, vec![p.clone()]);
            assert_eq!(decoder.finish(), Ok(()));
        }
    }
}

#[test]
fn framer_round_trip_largest_frame() {
    let p = payload(MAX_PACKET_SIZE);
    let mut encoder = MinecraftEncoder::new();
    let wire = encoder.encode(&p).unwrap();
    assert_eq!(&wire[..3], &[0xff, 0xff, 0x7f]);
    let mut decoder = MinecraftDecoder::new();
    assert_eq!(decode_all(&mut decoder, &wire, 65536), vec![p]);
}

#[test]
fn frame_too_big_is_refused() {
    let encoder = MinecraftEncoder::new();
    let p = payload(MAX_PACKET_SIZE + 1);
    assert_eq!(encoder.frame(&p), Err(ProtocolError::FrameTooBig));
}

#[test]
fn several_frames_in_one_chunk() {
    let mut encoder = MinecraftEncoder::new();
    let mut wire = encoder.encode(&[1, 2]).unwrap();
    wire.extend(encoder.encode(&[3]).unwrap());
    wire.extend(encoder.encode(&[4, 5, 6]).unwrap());
    let mut decoder = MinecraftDecoder::new();
    assert_eq!(
        decode_all(&mut decoder, &wire, wire.len()),
        vec![vec![1, 2], vec![3], vec![4, 5, 6]]
    );
}

#[test]
fn malformed_length_prefix() {
    let mut decoder = MinecraftDecoder::new();
    decoder.feed(&[0x80, 0x80, 0x80, 0x01]).unwrap();
    assert_eq!(decoder.decode(), Err(ProtocolError::VarintTooLong));
}

#[test]
fn incomplete_frame_waits_then_closes_mid_frame() {
    let mut decoder = MinecraftDecoder::new();
    decoder.feed(&[0x05, 0x01, 0x02]).unwrap();
    assert_eq!(decoder.decode(), Ok(None));
    assert_eq!(decoder.finish(), Err(ProtocolError::ConnectionClosedMidFrame));
}

#[test]
fn compression_below_threshold_is_marked_uncompressed() {
    let mut encoder = MinecraftEncoder::new();
    encoder.enable_compression(256, 6);
    let p = payload(100);
    let wire = encoder.encode(&p).unwrap();
    let mut expected = vec![101u8, 0x00];
    expected.extend_from_slice(&p);
    assert_eq!(wire, expected);
    let mut decoder = MinecraftDecoder::new();
    decoder.enable_compression();
    assert_eq!(decode_all(&mut decoder, &wire, 1), vec![p]);
}

#[test]
fn compression_above_threshold_inflates_back() {
    let mut encoder = MinecraftEncoder::new();
    encoder.enable_compression(256, 6);
    let p = vec![b'a'; 1000];
    let wire = encoder.encode(&p).unwrap();
    assert!(wire.len() < 100);
    // three-byte outer length, then the data length 1000
    assert_eq!(wire[0] & 0x80, 0x80);
    assert_eq!(wire[1] & 0x80, 0x80);
    assert_eq!(&wire[3..5], &[0xe8, 0x07]);
    for chunk in [1usize, 5, wire.len()] {
        let mut decoder = MinecraftDecoder::new();
        decoder.enable_compression();
        assert_eq!(decode_all(&mut decoder, &wire, chunk), vec![p.clone()]);
    }
}

#[test]
fn compression_at_threshold_compresses() {
    let mut encoder = MinecraftEncoder::new();
    encoder.enable_compression(256, 6);
    let p = vec![7u8; 256];
    let wire = encoder.encode(&p).unwrap();
    assert_eq!(&wire[3..5], &[0x80, 0x02]);
    let mut decoder = MinecraftDecoder::new();
    decoder.enable_compression();
    assert_eq!(decode_all(&mut decoder, &wire, 3), vec![p]);
}

#[test]
fn compressed_body_shorter_than_declared() {
    let mut encoder = MinecraftEncoder::new();
    encoder.enable_compression(0, 6);
    let wire = encoder.encode(&[9u8; 10]).unwrap();
    // claim 11 bytes where the stream inflates to 10
    let mut body = wire[3..].to_vec();
    body[0] = 11;
    let mut forged = vec![body.len() as u8];
    forged.extend_from_slice(&body);
    let mut decoder = MinecraftDecoder::new();
    decoder.enable_compression();
    decoder.feed(&forged).unwrap();
    assert_eq!(decoder.decode(), Err(ProtocolError::CompressedBodyShorterThanDeclared));
}

#[test]
fn compressed_body_not_zlib() {
    let mut decoder = MinecraftDecoder::new();
    decoder.enable_compression();
    decoder.feed(&[0x04, 0x05, 0x01, 0x02, 0x03]).unwrap();
    assert_eq!(decoder.decode(), Err(ProtocolError::DecompressFailed));
}

#[test]
fn negative_data_length() {
    let mut decoder = MinecraftDecoder::new();
    decoder.enable_compression();
    decoder.feed(&[0x05, 0xff, 0xff, 0xff, 0xff, 0x0f]).unwrap();
    assert_eq!(decoder.decode(), Err(ProtocolError::InvalidLength));
}

#[test]
fn compression_and_encryption_round_trip() {
    let key = [0x42u8; 16];
    let mut encoder = MinecraftEncoder::new();
    encoder.enable_compression(64, 6);
    encoder.enable_encryption(&key).unwrap();
    let payloads = vec![payload(10), payload(64), vec![b'z'; 5000], payload(1)];
    let mut wire = Vec::new();
    for p in &payloads {
        wire.extend(encoder.encode(p).unwrap());
    }
    let mut plain = MinecraftEncoder::new();
    plain.enable_compression(64, 6);
    assert_ne!(wire[..4].to_vec(), plain.encode(&payloads[0]).unwrap()[..4].to_vec());
    for chunk in [1usize, 3, 17, wire.len()] {
        let mut decoder = MinecraftDecoder::new();
        decoder.enable_compression();
        decoder.enable_encryption(&key).unwrap();
        assert_eq!(decode_all(&mut decoder, &wire, chunk), payloads);
    }
}

#[test]
fn encryption_alone_round_trip() {
    let key: Vec<u8> = (0u8..16).collect();
    let mut encoder = MinecraftEncoder::new();
    encoder.enable_encryption(&key).unwrap();
    let p = payload(500);
    let wire = encoder.encode(&p).unwrap();
    assert_eq!(wire.len(), p.len() + 2);
    let mut decoder = MinecraftDecoder::new();
    decoder.enable_encryption(&key).unwrap();
    assert_eq!(decode_all(&mut decoder, &wire, 1), vec![p]);
}

#[test]
fn compression_levels() {
    assert_eq!(compression_level(-1), 6);
    assert_eq!(compression_level(0), 6);
    assert_eq!(compression_level(1), 1);
    assert_eq!(compression_level(12), 12);
    assert_eq!(compression_level(13), 6);
    let mut encoder = MinecraftEncoder::new();
    encoder.enable_compression(0, -1);
    let p = payload(3000);
    let wire = encoder.encode(&p).unwrap();
    let mut decoder = MinecraftDecoder::new();
    decoder.enable_compression();
    assert_eq!(decode_all(&mut decoder, &wire, 100), vec![p]);
}

#[test]
fn incompressible_payload_still_frames() {
    let mut encoder = MinecraftEncoder::new();
    encoder.enable_compression(16, 12);
    let p: Vec<u8> = (0..4000u32).map(|i| (i.wrapping_mul(2654435761) >> 13) as u8).collect();
    let wire = encoder.encode(&p).unwrap();
    let mut decoder = MinecraftDecoder::new();
    decoder.enable_compression();
    assert_eq!(decode_all(&mut decoder, &wire, 7), vec![p]);
}
