use ptp_trace::codec::{PtpError, PtpMessage, PtpMessageType};

fn header_bytes(type_nibble: u8, version: u8, domain: u8, total_len: usize) -> Vec<u8> {
    let mut buf = vec![0u8; total_len];
    buf[0] = type_nibble;
    buf[1] = version;
    buf[2] = (total_len >> 8) as u8;
    buf[3] = total_len as u8;
    buf[4] = domain;
    buf[6] = 0x02; // flags
    buf[7] = 0x08;
    // correction field: 0x0000000000010000 (one nanosecond in 2^-16 units)
    buf[13] = 0x01;
    // source port identity
    for (i, b) in [0xaa, 0xbb, 0xcc, 0xdd, 0xee, 0xff, 0x01, 0x02].iter().enumerate() {
        buf[20 + i] = *b;
    }
    buf[28] = 0x00;
    buf[29] = 0x01; // port 1
    buf[30] = 0x12; // sequence id 0x1234
    buf[31] = 0x34;
    buf[32] = 0x05; // control field
    buf[33] = 0xff; // log message interval -1
    buf
}

#[test]
fn test_short_buffer_rejected() {
    // Every buffer shorter than the 34-byte header fails, whatever it holds.
    for len in 0..34 {
        let buf = vec![0xffu8; len];
        assert_eq!(PtpMessage::parse(&buf), Err(PtpError::TooShort));
    }
}

#[test]
fn test_wrong_version_rejected() {
    // A version nibble other than 2 fails regardless of the other bytes.
    for version in [0u8, 1, 3, 4, 15, 0x11, 0x23] {
        if version % 16 == 2 {
            continue;
        }
        let buf = header_bytes(0x0, version, 0, 44);
        assert_eq!(PtpMessage::parse(&buf), Err(PtpError::UnsupportedVersion));
    }
    // The high nibble (minor version) does not matter.
    let buf = header_bytes(0x0, 0x12, 0, 44);
    assert!(PtpMessage::parse(&buf).is_ok());
}

#[test]
fn test_unknown_message_type_rejected() {
    for nibble in [0x4u8, 0x5, 0x6, 0x7, 0xE, 0xF] {
        let buf = header_bytes(nibble, 2, 0, 64);
        assert_eq!(PtpMessage::parse(&buf), Err(PtpError::UnknownMessageType));
    }
}

#[test]
fn test_body_too_short_rejected() {
    // Announce needs 64 bytes in total.
    let buf = header_bytes(0xB, 2, 0, 63);
    assert_eq!(PtpMessage::parse(&buf), Err(PtpError::BodyTooShort));
    // Sync needs 44.
    let buf = header_bytes(0x0, 2, 0, 43);
    assert_eq!(PtpMessage::parse(&buf), Err(PtpError::BodyTooShort));
    // DelayResp needs 54.
    let buf = header_bytes(0x9, 2, 0, 53);
    assert_eq!(PtpMessage::parse(&buf), Err(PtpError::BodyTooShort));
}

#[test]
fn test_parse_header_fields() {
    let buf = header_bytes(0x0, 0x12, 129, 44);
    let msg = PtpMessage::parse(&buf).unwrap();
    let header = *msg.header();
    assert_eq!(header.message_type, PtpMessageType::Sync);
    assert_eq!(header.version.major, 2);
    assert_eq!(header.version.minor, 1);
    assert_eq!(header.message_length, 44);
    assert_eq!(header.domain_number, 129);
    assert_eq!(header.flags, 0x0208);
    assert_eq!(header.correction_field.value, 0x10000);
    assert_eq!(
        header.source_port_identity.clock_identity.clock_id,
        [0xaa, 0xbb, 0xcc, 0xdd, 0xee, 0xff, 0x01, 0x02]
    );
    assert_eq!(header.source_port_identity.port_number, 1);
    assert_eq!(header.sequence_id, 0x1234);
    assert_eq!(header.control_field, 5);
    assert_eq!(header.log_message_interval, -1);
}

#[test]
fn test_parse_negative_correction_field() {
    let mut buf = header_bytes(0x0, 2, 0, 44);
    for i in 8..16 {
        buf[i] = 0xff; // -1 in two's complement
    }
    let msg = PtpMessage::parse(&buf).unwrap();
    assert_eq!(msg.header().correction_field.value, -1);
}

#[test]
fn test_parse_announce() {
    let mut buf = header_bytes(0xB, 2, 44, 64);
    // origin timestamp: 6-byte seconds, 4-byte nanoseconds
    buf[38] = 0x01;
    buf[39] = 0x02; // seconds 0x0102
    buf[43] = 0x2a; // nanoseconds 42
    buf[44] = 0x00;
    buf[45] = 0x25; // UTC offset 37
    buf[47] = 64; // priority1
    buf[48] = 6; // clock class
    buf[49] = 0x20; // clock accuracy
    buf[50] = 0x4e;
    buf[51] = 0x5d; // offset scaled log variance
    buf[52] = 200; // priority2
    for (i, b) in [9, 8, 7, 6, 5, 4, 3, 2].iter().enumerate() {
        buf[53 + i] = *b; // announced grandmaster identity
    }
    buf[61] = 0x00;
    buf[62] = 0x03; // steps removed
    buf[63] = 0xa0; // time source

    match PtpMessage::parse(&buf).unwrap() {
        PtpMessage::Announce(a) => {
            assert_eq!(a.origin_timestamp.seconds, 0x0102);
            assert_eq!(a.origin_timestamp.nanoseconds, 42);
            assert_eq!(a.current_utc_offset.offset, 37);
            assert_eq!(a.priority1, 64);
            assert_eq!(a.clock_class.class(), 6);
            assert_eq!(a.clock_accuracy.accuracy, 0x20);
            assert_eq!(a.offset_scaled_log_variance, 0x4e5d);
            assert_eq!(a.priority2, 200);
            assert_eq!(a.ptt_identity.clock_id, [9, 8, 7, 6, 5, 4, 3, 2]);
            assert_eq!(a.steps_removed, 3);
            assert_eq!(a.time_source, 0xa0);
            assert_eq!(a.header.domain_number, 44);
        }
        other => panic!("expected Announce, got {:?}", other),
    }
}

#[test]
fn test_parse_delay_resp() {
    let mut buf = header_bytes(0x9, 2, 0, 54);
    buf[39] = 0x07; // receive timestamp seconds 7
    for (i, b) in [1, 1, 2, 2, 3, 3, 4, 4].iter().enumerate() {
        buf[44 + i] = *b; // requesting clock identity
    }
    buf[52] = 0x00;
    buf[53] = 0x09; // requesting port number 9

    match PtpMessage::parse(&buf).unwrap() {
        PtpMessage::DelayResp(m) => {
            assert_eq!(m.receive_timestamp.seconds, 7);
            assert_eq!(m.requesting_port_identity.clock_identity.clock_id, [1, 1, 2, 2, 3, 3, 4, 4]);
            assert_eq!(m.requesting_port_identity.port_number, 9);
        }
        other => panic!("expected DelayResp, got {:?}", other),
    }
}

#[test]
fn test_parse_each_defined_type() {
    let cases: [(u8, usize); 10] = [
        (0x0, 44),
        (0x1, 44),
        (0x2, 54),
        (0x3, 54),
        (0x8, 44),
        (0x9, 54),
        (0xA, 54),
        (0xB, 64),
        (0xC, 34),
        (0xD, 34),
    ];
    for (nibble, min_len) in cases {
        let buf = header_bytes(nibble, 2, 0, min_len);
        let msg = PtpMessage::parse(&buf).unwrap();
        let expected = match nibble {
            0x0 => PtpMessageType::Sync,
            0x1 => PtpMessageType::DelayReq,
            0x2 => PtpMessageType::PDelayReq,
            0x3 => PtpMessageType::PDelayResp,
            0x8 => PtpMessageType::FollowUp,
            0x9 => PtpMessageType::DelayResp,
            0xA => PtpMessageType::PDelayRespFollowUp,
            0xB => PtpMessageType::Announce,
            0xC => PtpMessageType::Signaling,
            _ => PtpMessageType::Management,
        };
        assert_eq!(msg.header().message_type, expected);
    }
}
