use absm_client::wire::{decode_headers, encode_header, frame_length, pixels_from_bits, stream_frame, u16_at, u16_bytes, u32_at, u32_bytes};

#[test]
fn scalars_are_big_endian() {
    assert_eq!(u32_bytes(0x0102_0304), [1, 2, 3, 4]);
    assert_eq!(u16_bytes(0xabcd), [0xab, 0xcd]);
    assert_eq!(u32_at(&[9, 1, 2, 3, 4], 1), 0x0102_0304);
    assert_eq!(u16_at(&[0, 0, 0xab, 0xcd], 2), 0xabcd);
}

#[test]
fn header_layout() {
    let mut buf = vec![0xff];
    encode_header(&mut buf, b"ab", b"xyz");
    assert_eq!(buf, vec![0xff, 0, 0, 0, 2, b'a', b'b', 0, 0, 0, 3, b'x', b'y', b'z']);
}

#[test]
fn header_round_trip() {
    let value = [0x44, 0xf0, 0, 0, 0x44, 0x87, 0, 0];
    let mut buf = Vec::new();
    encode_header(&mut buf, b"screen_res", &value);
    let decoded = decode_headers(&buf).unwrap();
    assert_eq!(decoded.len(), 1);
    assert_eq!(decoded[0].0, b"screen_res".to_vec());
    assert_eq!(decoded[0].1, value.to_vec());
}

#[test]
fn headers_round_trip_in_order() {
    let mut buf = Vec::new();
    encode_header(&mut buf, b"one", b"");
    encode_header(&mut buf, b"", b"2");
    encode_header(&mut buf, b"three", b"333");
    let decoded = decode_headers(&buf).unwrap();
    let pairs: Vec<(Vec<u8>, Vec<u8>)> = vec![
        (b"one".to_vec(), vec![]),
        (vec![], b"2".to_vec()),
        (b"three".to_vec(), b"333".to_vec()),
    ];
    assert_eq!(decoded, pairs);
}

#[test]
fn empty_header_block() {
    assert_eq!(decode_headers(&[]).unwrap().len(), 0);
}

#[test]
fn truncated_headers_are_refused() {
    let mut buf = Vec::new();
    encode_header(&mut buf, b"screen_res", &[1, 2, 3, 4, 5, 6, 7, 8]);
    for cut in 1..buf.len() {
        assert!(decode_headers(&buf[..cut]).is_none(), "cut at {}", cut);
    }
    buf.push(0);
    assert!(decode_headers(&buf).is_none());
}

#[test]
fn stream_frames() {
    assert_eq!(stream_frame(b"ping"), vec![0, 0, 0, 4, b'p', b'i', b'n', b'g']);
    assert_eq!(frame_length([0, 0, 1, 2]), 258);
}

#[test]
fn pixel_counts_from_float_bits() {
    assert_eq!(pixels_from_bits(1920.0f32.to_bits()), Some(1920));
    assert_eq!(pixels_from_bits(1080.0f32.to_bits()), Some(1080));
    assert_eq!(pixels_from_bits(0.0f32.to_bits()), Some(0));
    assert_eq!(pixels_from_bits(0.75f32.to_bits()), Some(0));
    assert_eq!(pixels_from_bits(2.9f32.to_bits()), Some(2));
    assert_eq!(pixels_from_bits(16777216.0f32.to_bits()), Some(16777216));
    assert_eq!(pixels_from_bits(2147483520.0f32.to_bits()), Some(2147483520));
    assert_eq!(pixels_from_bits(2147483648.0f32.to_bits()), None);
    assert_eq!(pixels_from_bits((-3.0f32).to_bits()), None);
    assert_eq!(pixels_from_bits(f32::INFINITY.to_bits()), None);
    assert_eq!(pixels_from_bits(f32::NAN.to_bits()), None);
}
