use thermo_transform::codec::{
    container_header, decode_container, decode_payload, encode_container, encode_payload, file_kind, FileKind,
    header_matches, pack_sample, unpack_sample, CodecError, Payload,
};

#[test]
fn packing_keeps_sign_exponent_and_high_mantissa() {
    assert_eq!(pack_sample(1.0f32.to_bits()), 0x1F_C000);
    assert_eq!(unpack_sample(0x1F_C000), 1.0f32.to_bits());
    assert_eq!(pack_sample(2.0f32.to_bits()), 0x2000);
    assert_eq!(unpack_sample(0x2000), 2.0f32.to_bits());
    for x in [0.0f32, -3.75, 300.125, 1.0e-3, -2.5e7] {
        let b = x.to_bits();
        assert_eq!(unpack_sample(pack_sample(b)), b & 0xFFFF_FC00);
        assert!(pack_sample(b) < 0x40_0000);
    }
    let y = f32::from_bits(unpack_sample(pack_sample(36.6f32.to_bits())));
    // thirteen mantissa bits are kept: the error is below one unit of the 13th bit
    assert!((y - 36.6).abs() < 32.0 * 2f32.powi(-13));
    assert!(y <= 36.6);
}

fn sample_payload() -> Payload {
    Payload {
        frames: 3,
        width: 2,
        height: 2,
        dims: [2, 2, 3],
        samples: (0..12u32).map(|i| pack_sample((i as f32 * 0.5).to_bits())).collect(),
    }
}

#[test]
fn payload_bytes_are_little_endian_words() {
    let p = Payload { frames: 1, width: 0x0102_0304, height: 0, dims: [1, 1, 1], samples: vec![0xAABB_CCDD] };
    let b = encode_payload(&p);
    assert_eq!(b.len(), 28);
    assert_eq!(&b[0..4], &[1, 0, 0, 0]);
    assert_eq!(&b[4..8], &[4, 3, 2, 1]);
    assert_eq!(&b[24..28], &[0xDD, 0xCC, 0xBB, 0xAA]);
}

#[test]
fn payload_round_trip() {
    let p = sample_payload();
    let b = encode_payload(&p);
    assert_eq!(decode_payload(&b), Ok(p));
}

#[test]
fn short_payload_is_truncated() {
    let p = sample_payload();
    let b = encode_payload(&p);
    assert_eq!(decode_payload(&b[..b.len() - 1]), Err(CodecError::Truncated));
    assert_eq!(decode_payload(&b[..10]), Err(CodecError::Truncated));
    // extents whose product overflows are truncated too
    let mut big = b.clone();
    big[12..24].copy_from_slice(&[0xFF; 12]);
    assert_eq!(decode_payload(&big), Err(CodecError::Truncated));
}

#[test]
fn header_is_recognised() {
    let h = container_header();
    assert_eq!(h.len(), 20);
    assert_eq!(&h[..7], b"TTCF v1");
    assert!(header_matches(&h));
    assert!(header_matches(b"  TTCF v1 \0\0\0\0\0\0\0\0\0\0\0"));
    assert!(!header_matches(b"TTCF v2\0\0\0\0\0\0\0\0\0\0\0\0\0"));
    assert!(!header_matches(b"TTCF v1\0 \0\0\0\0\0\0\0\0\0\0\0"));
}

#[test]
fn container_round_trip_compresses() {
    let p = Payload { samples: vec![0; 3000], dims: [10, 10, 30], frames: 30, width: 10, height: 10 };
    let c = encode_container(&p);
    assert!(header_matches(&c[..20]));
    // the frame after the header is compressed, not the plain payload
    assert!(c.len() - 20 < encode_payload(&p).len() / 10);
    assert_eq!(decode_container(&c), Ok(p));
}

#[test]
fn container_errors() {
    assert_eq!(decode_container(b"TTCF"), Err(CodecError::Truncated));
    let mut c = encode_container(&sample_payload());
    let good = c.clone();
    c[0] = b'X';
    assert_eq!(decode_container(&c), Err(CodecError::BadHeader));
    let mut garbled = container_header();
    garbled.extend_from_slice(&[1, 2, 3, 4, 5, 6, 7, 8]);
    assert_eq!(decode_container(&garbled), Err(CodecError::Corrupt));
    assert_eq!(decode_container(&good), Ok(sample_payload()));
}

#[test]
fn file_kinds_by_extension() {
    assert_eq!(file_kind(b"ttcf"), FileKind::Container);
    assert_eq!(file_kind(b"txt"), FileKind::Text);
    assert_eq!(file_kind(b"tcts"), FileKind::Text);
    assert_eq!(file_kind(b"TXT"), FileKind::Unknown);
    assert_eq!(file_kind(b""), FileKind::Unknown);
}
