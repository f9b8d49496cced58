use rustymind::AsicEeg;
use rustymind::PacketType;
use rustymind::Parser;

/// Wraps a payload into a full frame: sync bytes, length, payload, checksum.
fn frame(payload: &[u8]) -> Vec<u8> {
    let mut bytes = vec![0xAAu8, 0xAA, payload.len() as u8];
    bytes.extend_from_slice(payload);
    let mut sum = 0u8;
    for b in payload {
        sum = sum.wrapping_add(*b);
    }
    bytes.push(!sum);
    bytes
}

/// Feeds every byte and returns what each byte yielded.
fn feed_all(parser: &mut Parser, bytes: &[u8]) -> Vec<Option<Vec<PacketType>>> {
    let mut outs = Vec::new();
    for b in bytes {
        outs.push(parser.parse(*b));
    }
    outs
}

/// Feeds every byte and returns the records of the one frame it must close.
fn decode_one_frame(parser: &mut Parser, bytes: &[u8]) -> Vec<PacketType> {
    let outs = feed_all(parser, bytes);
    let mut result = None;
    for (i, out) in outs.into_iter().enumerate() {
        if out.is_some() {
            assert_eq!(i, bytes.len() - 1, "records before the final byte");
            assert!(result.is_none());
            result = out;
        }
    }
    result.expect("no frame was decoded")
}

#[test]
fn test_parser() {
    let test_vec: Vec<u8> = vec![
        0xAA, // [SYNC]
        0xAA, // [SYNC]
        0x20, // [PLENGTH] (payload length) of 32 bytes
        0x02, // [POOR_SIGNAL] Quality
        0x00, // No poor signal detected (0/200)
        0x83, // [ASIC_EEG_POWER_INT]
        0x18, // [VLENGTH] 24 bytes
        0x00, // (1/3) Begin Delta bytes
        0x00, // (2/3)
        0x94, // (3/3)
        0x00, // (1/3)
        0x00, // (2/3)
        0x42, // (3/3)
        0x00, // (1/3)
        0x00, // (2/3)
        0x0B, // (3/3)
        0x00, // (1/3)
        0x00, // (2/3)
        0x64, // (3/3)
        0x00, // (1/3)
        0x00, // (2/3)
        0x4D, // (3/3)
        0x00, // (1/3)
        0x00, // (2/3)
        0x3D, // (3/3)
        0x00, // (1/3)
        0x00, // (2/3)
        0x07, // (3/3)
        0x00, // (1/3)
        0x00, // (2/3)
        0x05, // (3/3)
        0x04, // [ATTENTION] eSense
        0x0D, // eSense Attention level of 13
        0x05, // [MEDITATION] eSense
        0x3D, // eSense Meditation level of 61
        0x34, // [CHKSUM] (1's comp inverse of 8-bit Payload sum of 0xCB)
    ];
    let mut result: Vec<PacketType> = Vec::new();
    let mut parser = Parser::new();
    for data in test_vec {
        if let Some(x) = parser.parse(data) {
            result = x;
        }
    }

    let test_asic = AsicEeg {
        delta: 0x94,
        theta: 0x42,
        low_alpha: 0x0b,
        high_alpha: 0x64,
        low_beta: 0x4d,
        high_beta: 0x3d,
        low_gamma: 0x07,
        mid_gamma: 0x05,
    };

    assert_eq!(
        result,
        vec![
            PacketType::PoorSignal(0x00),
            PacketType::AsicEeg(test_asic),
            PacketType::Attention(0x0d),
            PacketType::Meditation(0x3d)
        ]
    );
}

#[test]
fn round_trip_yields_one_some_on_final_byte() {
    let payload = [0x02, 0x14, 0x16, 0x05];
    let bytes = frame(&payload);
    let mut parser = Parser::new();
    let records = decode_one_frame(&mut parser, &bytes);
    assert_eq!(
        records,
        vec![PacketType::PoorSignal(0x14), PacketType::Blink(0x05)]
    );
}

#[test]
fn empty_payload_yields_empty_record_list() {
    let bytes = frame(&[]);
    assert_eq!(bytes, vec![0xAA, 0xAA, 0x00, 0xFF]);
    let mut parser = Parser::new();
    let records = decode_one_frame(&mut parser, &bytes);
    assert_eq!(records, Vec::new());
}

#[test]
fn checksum_bit_flip_rejects_frame() {
    let payload = [0x04, 0x0D];
    let good = frame(&payload);
    for bit in 0..8u8 {
        let mut bad = good.clone();
        let last = bad.len() - 1;
        bad[last] ^= 1 << bit;
        let mut parser = Parser::new();
        for out in feed_all(&mut parser, &bad) {
            assert_eq!(out, None, "corrupted frame must yield no records");
        }
        // The parser recovers: the very next good frame decodes.
        let records = decode_one_frame(&mut parser, &good);
        assert_eq!(records, vec![PacketType::Attention(0x0D)]);
    }
}

#[test]
fn noise_before_sync_does_not_affect_decode() {
    let payload = [0x05, 0x3D];
    let bytes = frame(&payload);
    let mut fresh = Parser::new();
    let expected = decode_one_frame(&mut fresh, &bytes);

    // Stray bytes, including a lone sync byte, before the frame.
    let noise = [0x13, 0x00, 0xFE, 0xAA, 0x07];
    let mut parser = Parser::new();
    for out in feed_all(&mut parser, &noise) {
        assert_eq!(out, None);
    }
    let records = decode_one_frame(&mut parser, &bytes);
    assert_eq!(records, expected);
}

#[test]
fn parser_is_fresh_after_success() {
    let first = frame(&[0x04, 0x01]);
    let second = frame(&[0x05, 0x02]);
    let mut parser = Parser::new();
    decode_one_frame(&mut parser, &first);
    let records = decode_one_frame(&mut parser, &second);
    let mut fresh = Parser::new();
    assert_eq!(records, decode_one_frame(&mut fresh, &second));
}

#[test]
fn length_violation_resyncs() {
    let mut parser = Parser::new();
    // Declared length 255 exceeds the 170-byte limit: back to hunting for
    // sync, without ever entering payload accumulation.
    for out in feed_all(&mut parser, &[0xAA, 0xAA, 0xFF]) {
        assert_eq!(out, None);
    }
    let bytes = frame(&[0x04, 0x22]);
    let records = decode_one_frame(&mut parser, &bytes);
    assert_eq!(records, vec![PacketType::Attention(0x22)]);
}

#[test]
fn length_byte_equal_to_sync_keeps_waiting() {
    // A third 0xAA is not taken as a length; the 0x02 that follows is.
    let mut bytes = vec![0xAA, 0xAA, 0xAA];
    bytes.extend_from_slice(&frame(&[0x04, 0x0D])[2..]);
    let mut parser = Parser::new();
    let records = decode_one_frame(&mut parser, &bytes);
    assert_eq!(records, vec![PacketType::Attention(0x0D)]);
}

#[test]
fn raw_value_decodes_most_negative_sample() {
    let bytes = frame(&[0x80, 0x02, 0x80, 0x00]);
    let mut parser = Parser::new();
    let records = decode_one_frame(&mut parser, &bytes);
    assert_eq!(records, vec![PacketType::RawValue(-32768)]);
}

#[test]
fn raw_value_decodes_positive_sample() {
    let bytes = frame(&[0x80, 0x02, 0x12, 0x34]);
    let mut parser = Parser::new();
    let records = decode_one_frame(&mut parser, &bytes);
    assert_eq!(records, vec![PacketType::RawValue(0x1234)]);
}

#[test]
fn eeg_decodes_delta_field_alone() {
    let mut payload = vec![0x83u8, 0x18, 0x00, 0x00, 0x94];
    payload.extend_from_slice(&[0x00; 21]);
    let bytes = frame(&payload);
    let mut parser = Parser::new();
    let records = decode_one_frame(&mut parser, &bytes);
    assert_eq!(
        records,
        vec![PacketType::AsicEeg(AsicEeg {
            delta: 0x94,
            theta: 0,
            low_alpha: 0,
            high_alpha: 0,
            low_beta: 0,
            high_beta: 0,
            low_gamma: 0,
            mid_gamma: 0,
        })]
    );
}

#[test]
fn eeg_widens_full_24_bit_values() {
    let mut payload = vec![0x83u8, 0x18, 0xFF, 0xFF, 0xFF];
    payload.extend_from_slice(&[0x00; 18]);
    payload.extend_from_slice(&[0x01, 0x02, 0x03]);
    let bytes = frame(&payload);
    let mut parser = Parser::new();
    let records = decode_one_frame(&mut parser, &bytes);
    assert_eq!(
        records,
        vec![PacketType::AsicEeg(AsicEeg {
            delta: 0x00FF_FFFF,
            theta: 0,
            low_alpha: 0,
            high_alpha: 0,
            low_beta: 0,
            high_beta: 0,
            low_gamma: 0,
            mid_gamma: 0x0001_0203,
        })]
    );
}

#[test]
fn headset_lifecycle_records() {
    let mut parser = Parser::new();
    let records = decode_one_frame(&mut parser, &frame(&[0xD0, 0x02, 0x12, 0x34]));
    assert_eq!(records, vec![PacketType::HeadsetConnected(0x1234)]);
    let records = decode_one_frame(&mut parser, &frame(&[0xD1, 0x02, 0xAB, 0xCD]));
    assert_eq!(records, vec![PacketType::HeadsetNotFound(0xABCD)]);
    let records = decode_one_frame(&mut parser, &frame(&[0xD1, 0x00]));
    assert_eq!(records, vec![PacketType::NoHeadsetFound]);
    let records = decode_one_frame(&mut parser, &frame(&[0xD2, 0x02, 0x00, 0x01]));
    assert_eq!(records, vec![PacketType::HeadsetDisconnected(0x0001)]);
}

#[test]
fn command_acknowledgement_records() {
    let mut parser = Parser::new();
    let records = decode_one_frame(&mut parser, &frame(&[0xD3, 0x00]));
    assert_eq!(records, vec![PacketType::RequestDenied]);
    let records = decode_one_frame(&mut parser, &frame(&[0xD3, 0x07]));
    assert_eq!(records, vec![PacketType::HeadsetDisconnectedUndefined]);
    let records = decode_one_frame(&mut parser, &frame(&[0xD4, 0x01, 0x00]));
    assert_eq!(records, vec![PacketType::Standby]);
    let records = decode_one_frame(&mut parser, &frame(&[0xD4, 0x01, 0x01]));
    assert_eq!(records, vec![PacketType::FindHeadset]);
    let records = decode_one_frame(&mut parser, &frame(&[0xD4, 0x01, 0x02]));
    assert_eq!(records, vec![PacketType::StandbyPacketUndefined]);
    let records = decode_one_frame(&mut parser, &frame(&[0xD4, 0x00, 0x00]));
    assert_eq!(records, vec![PacketType::StandbyLengthUndefined]);
}

#[test]
fn undefined_sub_codes_still_advance() {
    let mut parser = Parser::new();
    // 0xD0 with an unrecognized sub-code consumes four bytes.
    let records = decode_one_frame(&mut parser, &frame(&[0xD0, 0x05, 0x01, 0x02]));
    assert_eq!(records, vec![PacketType::HeadsetConnectedUndefined]);
    // 0xD1 with an unrecognized sub-code consumes the tag and the sub-code,
    // so scanning continues at the byte after them.
    let records = decode_one_frame(&mut parser, &frame(&[0xD1, 0x05, 0x04, 0x07]));
    assert_eq!(
        records,
        vec![PacketType::NotFoundUndefined, PacketType::Attention(0x07)]
    );
}

#[test]
fn poor_signal_carries_no_contact_value() {
    let mut parser = Parser::new();
    let records = decode_one_frame(&mut parser, &frame(&[0x02, 200]));
    assert_eq!(records, vec![PacketType::PoorSignal(200)]);
}

#[test]
fn unrecognized_tag_is_carried_and_skipped() {
    let mut parser = Parser::new();
    let records = decode_one_frame(&mut parser, &frame(&[0x42, 0x04, 0x09]));
    assert_eq!(
        records,
        vec![PacketType::PacketUndefined(0x42), PacketType::Attention(0x09)]
    );
}

#[test]
fn truncated_record_ends_decode() {
    let mut parser = Parser::new();
    // A raw-value tag with its sample bytes missing.
    let records = decode_one_frame(&mut parser, &frame(&[0x80, 0x02]));
    assert_eq!(records, vec![PacketType::PacketTruncated(0x80)]);
    // Records before the truncation are kept.
    let records = decode_one_frame(&mut parser, &frame(&[0x04, 0x0D, 0x83, 0x01]));
    assert_eq!(
        records,
        vec![PacketType::Attention(0x0D), PacketType::PacketTruncated(0x83)]
    );
    // A lone lifecycle tag with nothing after it.
    let records = decode_one_frame(&mut parser, &frame(&[0xD0]));
    assert_eq!(records, vec![PacketType::PacketTruncated(0xD0)]);
}
