use ipc_zk::codec::{decode_frame, encode_frame, CodecError};

#[test]
fn frame_empty_payload_round_trip() {
    let payload: Vec<u8> = Vec::new();
    let frame = encode_frame(&payload);
    assert_eq!(frame, vec![0u8, 0, 0, 0]);
    let (decoded, rest) = decode_frame(&frame).unwrap();
    assert_eq!(decoded, payload);
    assert!(rest.is_empty());
}

#[test]
fn frame_small_payload_exact_bytes() {
    let payload = vec![0xABu8];
    let frame = encode_frame(&payload);
    assert_eq!(frame, vec![0u8, 0, 0, 1, 0xAB]);
    let (decoded, rest) = decode_frame(&frame).unwrap();
    assert_eq!(decoded, payload);
    assert!(rest.is_empty());
}

#[test]
fn frame_multi_megabyte_round_trip() {
    let mut payload = Vec::with_capacity(3 * 1024 * 1024);
    for i in 0..3 * 1024 * 1024 {
        payload.push((i % 251) as u8);
    }
    let frame = encode_frame(&payload);
    assert_eq!(frame.len(), 4 + payload.len());
    // 3 MiB = 0x0030_0000, big-endian
    assert_eq!(&frame[..4], &[0x00u8, 0x30, 0x00, 0x00]);
    let (decoded, rest) = decode_frame(&frame).unwrap();
    assert_eq!(decoded, payload);
    assert!(rest.is_empty());
}

#[test]
fn length_prefix_consumes_exactly_one_frame() {
    let first = vec![1u8, 2, 3];
    let second = vec![9u8, 8];
    let mut stream = encode_frame(&first);
    stream.extend(encode_frame(&second));
    let (p1, rest1) = decode_frame(&stream).unwrap();
    assert_eq!(p1, first);
    assert_eq!(rest1, encode_frame(&second));
    let (p2, rest2) = decode_frame(&rest1).unwrap();
    assert_eq!(p2, second);
    assert!(rest2.is_empty());
}

#[test]
fn truncated_frame_never_decodes() {
    let payload = vec![5u8, 6, 7, 8, 9];
    let frame = encode_frame(&payload);
    for cut in 0..frame.len() {
        let short: Vec<u8> = frame[..cut].to_vec();
        assert_eq!(decode_frame(&short), Err(CodecError::Truncated));
    }
}

#[test]
fn declared_length_larger_than_stream_is_truncated() {
    // prefix declares 16 bytes, only 2 follow
    let stream = vec![0u8, 0, 0, 16, 1, 2];
    assert_eq!(decode_frame(&stream), Err(CodecError::Truncated));
}

#[test]
fn big_endian_prefix_is_read_as_declared() {
    // prefix 0x00000102 = 258 payload bytes
    let mut stream = vec![0u8, 0, 1, 2];
    stream.extend(std::iter::repeat(0x5Au8).take(258));
    stream.push(0xEE);
    let (payload, rest) = decode_frame(&stream).unwrap();
    assert_eq!(payload.len(), 258);
    assert!(payload.iter().all(|&b| b == 0x5A));
    assert_eq!(rest, vec![0xEEu8]);
}
