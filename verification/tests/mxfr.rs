use wgpu_animator::mxfr::{
    decode_frame, parse_header, read_u32_le, read_u64_le, FrameError, FrameGate, FrameHeader,
    HEADER_LEN,
};

/// The bytes a producer writes for one frame (`struct.pack('<4sIId', ...)`
/// followed by the little-endian f32 values).
fn frame_bytes(width: u32, height: u32, timestamp: f64, data: &[f32]) -> Vec<u8> {
    let mut b = Vec::new();
    b.extend_from_slice(b"MXFR");
    b.extend_from_slice(&width.to_le_bytes());
    b.extend_from_slice(&height.to_le_bytes());
    b.extend_from_slice(&timestamp.to_le_bytes());
    for v in data {
        b.extend_from_slice(&v.to_le_bytes());
    }
    b
}

#[test]
fn header_reads_back() {
    let bytes = frame_bytes(3, 2, 1.5, &[0.0; 6]);
    assert_eq!(HEADER_LEN, 20);
    let h = parse_header(&bytes).unwrap();
    assert_eq!(h, FrameHeader { width: 3, height: 2, timestamp_bits: 1.5f64.to_bits() });
    assert_eq!(h.payload_len(), 24);
    assert_eq!(bytes.len(), HEADER_LEN + h.payload_len());
}

#[test]
fn header_round_trip_with_trailing_bytes() {
    let mut bytes = frame_bytes(640, 480, -12.25, &[]);
    bytes.extend_from_slice(&[9, 9, 9]);
    let h = parse_header(&bytes).unwrap();
    assert_eq!(h.width, 640);
    assert_eq!(h.height, 480);
    assert_eq!(f64::from_bits(h.timestamp_bits), -12.25);
}

#[test]
fn header_errors() {
    let bytes = frame_bytes(3, 2, 0.0, &[]);
    assert_eq!(parse_header(&bytes[..19]), Err(FrameError::Truncated));
    assert_eq!(parse_header(&[]), Err(FrameError::Truncated));

    let mut bad = bytes.clone();
    bad[0] = b'X';
    assert_eq!(parse_header(&bad), Err(FrameError::BadMagic(b'X', b'X', b'F', b'R')));

    assert_eq!(parse_header(&frame_bytes(0, 2, 0.0, &[])), Err(FrameError::EmptyDimensions));
    assert_eq!(parse_header(&frame_bytes(2, 0, 0.0, &[])), Err(FrameError::EmptyDimensions));

    // The magic is checked as soon as its four bytes are there.
    assert_eq!(parse_header(b"MXFX"), Err(FrameError::BadMagic(b'M', b'X', b'F', b'X')));
    assert_eq!(parse_header(b"MXF"), Err(FrameError::Truncated));
    assert_eq!(parse_header(&bytes[..10]), Err(FrameError::Truncated));

    let huge = frame_bytes(u32::MAX, u32::MAX, 0.0, &[]);
    assert_eq!(parse_header(&huge), Err(FrameError::TooLarge));
}

#[test]
fn read_words() {
    let b = [0x78, 0x56, 0x34, 0x12, 0xef, 0xcd, 0xab, 0x89, 0x01];
    assert_eq!(read_u32_le(&b, 0), Some(0x1234_5678));
    assert_eq!(read_u32_le(&b, 4), Some(0x89ab_cdef));
    assert_eq!(read_u32_le(&b, 5), Some(0x0189_abcd));
    assert_eq!(read_u32_le(&b, 6), None);
    assert_eq!(read_u32_le(&b, 100), None);
    assert_eq!(read_u64_le(&b, 0), Some(0x89ab_cdef_1234_5678));
    assert_eq!(read_u64_le(&b, 1), Some(0x0189_abcd_ef12_3456));
    assert_eq!(read_u64_le(&b, 2), None);
}

#[test]
fn pixels_round_trip() {
    let values = [1.0f32, -2.5, f32::NAN, f32::INFINITY, 0.0, -0.0];
    let bytes = frame_bytes(3, 2, 7.0, &values);
    let h = parse_header(&bytes).unwrap();
    let f = decode_frame(&h, &bytes[HEADER_LEN..]).unwrap();
    assert_eq!(f.width, 3);
    assert_eq!(f.height, 2);
    assert_eq!(f64::from_bits(f.timestamp_bits), 7.0);
    let expected: Vec<u32> = values.iter().map(|v| v.to_bits()).collect();
    assert_eq!(f.data, expected);
}

#[test]
fn payload_of_wrong_length() {
    let bytes = frame_bytes(2, 2, 0.0, &[1.0, 2.0, 3.0, 4.0]);
    let h = parse_header(&bytes).unwrap();
    assert_eq!(decode_frame(&h, &bytes[HEADER_LEN..bytes.len() - 1]).unwrap_err(), FrameError::PayloadLength);
    let mut longer = bytes[HEADER_LEN..].to_vec();
    longer.push(0);
    assert_eq!(decode_frame(&h, &longer).unwrap_err(), FrameError::PayloadLength);
    let big = FrameHeader { width: u32::MAX, height: u32::MAX, timestamp_bits: 0 };
    assert_eq!(decode_frame(&big, &[]).unwrap_err(), FrameError::TooLarge);
}

#[test]
fn gate_drops_mismatched_dimensions() {
    let mut gate = FrameGate::new();
    assert!(gate.accepts(4, 3));
    assert!(gate.accepts(4, 3));
    assert!(!gate.accepts(3, 4));
    assert!(!gate.accepts(8, 6));
    assert!(gate.accepts(4, 3));
}
