use mcping::protocol::{decode_varint_at, encode_varint, VarIntDecoder, VarIntStep};

#[test]
fn encodes_small_values_in_one_byte() {
    assert_eq!(encode_varint(0), vec![0]);
    assert_eq!(encode_varint(1), vec![1]);
    assert_eq!(encode_varint(127), vec![127]);
}

#[test]
fn encodes_multi_byte_values() {
    assert_eq!(encode_varint(128), vec![0x80, 0x01]);
    assert_eq!(encode_varint(300), vec![0xAC, 0x02]);
    assert_eq!(encode_varint(25565), vec![0xDD, 0xC7, 0x01]);
}

#[test]
fn round_trips_values_across_the_supported_range() {
    let cases: Vec<u64> = vec![
        0,
        1,
        127,
        128,
        255,
        300,
        16383,
        16384,
        2097151,
        2097152,
        268435455,
        268435456,
        34359738367,
    ];
    for v in cases {
        let encoded = encode_varint(v);
        let decoded = decode_varint_at(&encoded, 0).expect("round trip must decode");
        assert_eq!(decoded.0, v);
        assert_eq!(decoded.1, encoded.len());
    }
}

#[test]
fn six_continuation_bytes_fail_as_too_large() {
    let stream = vec![0x80u8, 0x80, 0x80, 0x80, 0x80, 0x80];
    assert_eq!(
        decode_varint_at(&stream, 0),
        Err(mcping::protocol::SlpError::VarIntTooLarge)
    );
}

#[test]
fn streaming_decoder_rejects_six_continuation_bytes() {
    let mut decoder = VarIntDecoder::new();
    assert_eq!(decoder.step(0x80), VarIntStep::More);
    assert_eq!(decoder.step(0x80), VarIntStep::More);
    assert_eq!(decoder.step(0x80), VarIntStep::More);
    assert_eq!(decoder.step(0x80), VarIntStep::More);
    assert_eq!(decoder.step(0x80), VarIntStep::TooLarge);
}

#[test]
fn streaming_decoder_reads_a_value_byte_by_byte() {
    let mut decoder = VarIntDecoder::new();
    assert_eq!(decoder.step(0xAC), VarIntStep::More);
    assert_eq!(decoder.step(0x02), VarIntStep::Done(300));
}

#[test]
fn decoding_reports_missing_bytes() {
    let truncated = vec![0x80u8, 0x80];
    assert_eq!(
        decode_varint_at(&truncated, 0),
        Err(mcping::protocol::SlpError::UnexpectedEof)
    );
}

#[test]
fn non_minimal_encodings_still_decode() {
    let padded = vec![0x80u8, 0x00];
    assert_eq!(decode_varint_at(&padded, 0), Ok((0, 2)));
}
