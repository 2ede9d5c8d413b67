use idb::wire::{
    decode_frame, encode_frame, negotiate_handshake, negotiate_protocol, ProtocolRange,
    ProtocolVersion, SessionHello, WireError, WireFrame, WireFrameHeader, HEADER_BYTES,
};

#[test]
fn negotiation_picks_highest_common_version() {
    let client = ProtocolRange {
        min: ProtocolVersion::new(1, 0),
        max: ProtocolVersion::new(2, 3),
    };
    let server = ProtocolRange {
        min: ProtocolVersion::new(2, 0),
        max: ProtocolVersion::new(3, 0),
    };

    let negotiated = negotiate_protocol(client, server).expect("negotiate");
    assert_eq!(negotiated, ProtocolVersion::new(2, 3));
}

#[test]
fn negotiation_rejects_non_overlapping_ranges() {
    let client = ProtocolRange {
        min: ProtocolVersion::new(1, 0),
        max: ProtocolVersion::new(1, 9),
    };
    let server = ProtocolRange {
        min: ProtocolVersion::new(2, 0),
        max: ProtocolVersion::new(2, 4),
    };

    let err = negotiate_protocol(client, server).expect_err("must fail");
    assert!(matches!(err, WireError::IncompatibleVersion { .. }));
}

#[test]
fn negotiation_rejects_invalid_ranges() {
    let client = ProtocolRange {
        min: ProtocolVersion::new(2, 2),
        max: ProtocolVersion::new(1, 5),
    };
    let server = ProtocolRange {
        min: ProtocolVersion::new(1, 0),
        max: ProtocolVersion::new(3, 0),
    };

    let err = negotiate_protocol(client, server).expect_err("must fail");
    assert!(matches!(err, WireError::InvalidRange { .. }));
}

#[test]
fn handshake_returns_welcome_with_negotiated_version() {
    let hello = SessionHello {
        client_name: "sdk-rust".to_string(),
        min_version: ProtocolVersion::new(1, 0),
        max_version: ProtocolVersion::new(1, 7),
    };
    let server_supported = ProtocolRange {
        min: ProtocolVersion::new(1, 5),
        max: ProtocolVersion::new(2, 0),
    };

    let welcome = negotiate_handshake(&hello, server_supported).expect("handshake");
    assert_eq!(welcome.negotiated_version, ProtocolVersion::new(1, 7));
}

#[test]
fn frame_encode_decode_roundtrip() {
    let frame = WireFrame {
        header: WireFrameHeader {
            version: ProtocolVersion::new(1, 1),
            opcode: 0x04,
            request_id: 42,
            payload_len: 3,
        },
        payload: vec![10, 20, 30],
    };

    let encoded = encode_frame(&frame);
    assert_eq!(encoded.len(), HEADER_BYTES + 3);

    let decoded = decode_frame(&encoded).expect("decode");
    assert_eq!(decoded, frame);
}

#[test]
fn frame_decode_rejects_invalid_magic() {
    let mut bytes = vec![0x00, 0x00];
    bytes.extend_from_slice(&1u16.to_be_bytes());
    bytes.extend_from_slice(&0u16.to_be_bytes());
    bytes.extend_from_slice(&1u16.to_be_bytes());
    bytes.extend_from_slice(&1u64.to_be_bytes());
    bytes.extend_from_slice(&0u32.to_be_bytes());

    let err = decode_frame(&bytes).expect_err("decode must fail");
    assert!(matches!(err, WireError::InvalidMagic { .. }));
}

#[test]
fn frame_decode_rejects_truncated_payload() {
    let frame = WireFrame::new(ProtocolVersion::new(1, 0), 7, 99, vec![1, 2, 3, 4]);
    let mut encoded = encode_frame(&frame);
    encoded.pop();

    let err = decode_frame(&encoded).expect_err("decode must fail");
    assert!(matches!(err, WireError::TruncatedFrame { .. }));
}

#[test]
fn frame_decode_rejects_extra_bytes() {
    let frame = WireFrame::new(ProtocolVersion::new(1, 0), 7, 99, vec![1, 2, 3, 4]);
    let mut encoded = encode_frame(&frame);
    encoded.extend_from_slice(&[55, 66]);

    let err = decode_frame(&encoded).expect_err("decode must fail");
    assert!(matches!(err, WireError::PayloadLengthMismatch { .. }));
}

#[test]
fn encoded_header_is_big_endian_with_magic() {
    let frame = WireFrame::new(ProtocolVersion::new(1, 2), 0x0304, 0x0102030405060708, vec![9]);
    let encoded = encode_frame(&frame);
    assert_eq!(
        encoded,
        vec![0x49, 0x44, 0, 1, 0, 2, 3, 4, 1, 2, 3, 4, 5, 6, 7, 8, 0, 0, 0, 1, 9]
    );
}

#[test]
fn decode_reports_short_header() {
    let err = decode_frame(&[0x49, 0x44, 0]).expect_err("too short");
    assert_eq!(
        err,
        WireError::TruncatedFrame {
            expected: HEADER_BYTES,
            actual: 3
        }
    );
}

#[test]
fn negotiation_picks_lower_ceiling_when_server_is_older() {
    let client = ProtocolRange {
        min: ProtocolVersion::new(1, 0),
        max: ProtocolVersion::new(3, 1),
    };
    let server = ProtocolRange {
        min: ProtocolVersion::new(1, 2),
        max: ProtocolVersion::new(2, 9),
    };
    assert_eq!(
        negotiate_protocol(client, server).expect("overlap"),
        ProtocolVersion::new(2, 9)
    );
}

#[test]
fn wire_errors_render_as_text() {
    let v = ProtocolVersion::new;
    assert_eq!(
        WireError::IncompatibleVersion {
            client_min: v(2, 0),
            client_max: v(2, 1),
            server_min: v(1, 0),
            server_max: v(1, 3),
        }
        .message(),
        "incompatible protocol versions: client ProtocolVersion { major: 2, minor: 0 }-ProtocolVersion { major: 2, minor: 1 }, server ProtocolVersion { major: 1, minor: 0 }-ProtocolVersion { major: 1, minor: 3 }"
    );
    assert_eq!(
        WireError::InvalidRange { min: v(3, 0), max: v(1, 12) }.message(),
        "invalid protocol range: min ProtocolVersion { major: 3, minor: 0 } is greater than max ProtocolVersion { major: 1, minor: 12 }"
    );
    assert_eq!(
        WireError::InvalidMagic { expected: 0x4944, actual: 0x00af }.message(),
        "invalid wire magic: expected 0x4944, got 0x00AF"
    );
    assert_eq!(
        WireError::TruncatedFrame { expected: 20, actual: 3 }.message(),
        "truncated frame: expected at least 20 bytes, got 3"
    );
    assert_eq!(
        WireError::PayloadLengthMismatch { expected: 10, actual: 7 }.message(),
        "frame payload length mismatch: header 10, actual 7"
    );
}
