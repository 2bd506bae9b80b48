use mcp_client::protocol::{
    connect_frame_decode, connect_frame_encode, decode_varint, extract_strings, frame_packed,
    gzip_compress, ProtobufEncoder,
};

fn encode_one(value: u64) -> Vec<u8> {
    let mut e = ProtobufEncoder::new();
    e.write_varint(1, value);
    e.to_vec()[1..].to_vec()
}

#[test]
fn varint_encodings_are_exact() {
    assert_eq!(encode_one(0), vec![0x00]);
    assert_eq!(encode_one(1), vec![0x01]);
    assert_eq!(encode_one(127), vec![0x7f]);
    assert_eq!(encode_one(128), vec![0x80, 0x01]);
    assert_eq!(encode_one(300), vec![0xac, 0x02]);
    assert_eq!(encode_one(16384), vec![0x80, 0x80, 0x01]);
    assert_eq!(
        encode_one(u64::MAX),
        vec![0xff, 0xff, 0xff, 0xff, 0xff, 0xff, 0xff, 0xff, 0xff, 0x01]
    );
}

#[test]
fn varint_encodings_have_the_shape_of_a_varint() {
    for v in [0u64, 1, 127, 128, 300, 16383, 16384, 1 << 35, (1 << 63) - 1, u64::MAX] {
        let bytes = encode_one(v);
        assert!(!bytes.is_empty() && bytes.len() <= 10);
        let (last, front) = bytes.split_last().unwrap();
        assert!(front.iter().all(|b| b & 0x80 != 0));
        assert_eq!(last & 0x80, 0);
        assert_eq!(*last == 0, v == 0);
    }
}

#[test]
fn varint_round_trip_on_samples() {
    let samples: Vec<u64> = vec![
        0,
        1,
        127,
        128,
        255,
        300,
        16383,
        16384,
        1 << 21,
        (1 << 28) - 1,
        1 << 35,
        1 << 56,
        (1 << 63) - 1,
        1 << 63,
        u64::MAX,
    ];
    for v in samples {
        let bytes = encode_one(v);
        let (decoded, end) = decode_varint(&bytes, 0);
        assert_eq!(decoded, v);
        assert_eq!(end, bytes.len());
        let bits = 64 - v.leading_zeros() as usize;
        let expected_len = if v == 0 { 1 } else { (bits + 6) / 7 };
        assert_eq!(bytes.len(), expected_len);
    }
}

#[test]
fn decode_varint_at_and_past_the_end_reads_nothing() {
    let data = [0x05u8, 0x06];
    assert_eq!(decode_varint(&data, 2), (0, 2));
    assert_eq!(decode_varint(&data, 7), (0, 7));
    assert_eq!(decode_varint(&[], 0), (0, 0));
}

#[test]
fn decode_varint_stops_at_the_end_of_an_unfinished_varint() {
    let data = [0x80u8, 0x80];
    assert_eq!(decode_varint(&data, 0), (0, 2));
    let data = [0xffu8];
    assert_eq!(decode_varint(&data, 0), (127, 1));
}

#[test]
fn decode_varint_drops_bits_beyond_sixty_four() {
    let mut data = vec![0x80u8; 10];
    data.push(0x7f);
    assert_eq!(decode_varint(&data, 0), (0, 11));
    let data = [0xffu8, 0xff, 0xff, 0xff, 0xff, 0xff, 0xff, 0xff, 0xff, 0x7f];
    assert_eq!(decode_varint(&data, 0), (u64::MAX, 10));
}

#[test]
fn decode_varint_from_an_inner_offset() {
    let data = [0xffu8, 0xac, 0x02, 0x09];
    assert_eq!(decode_varint(&data, 1), (300, 3));
    assert_eq!(decode_varint(&data, 3), (9, 4));
}

#[test]
fn fields_are_written_in_call_order() {
    let mut e = ProtobufEncoder::new();
    e.write_varint(2, 5).write_string(3, "hi").write_bytes(30, &[0x00, 0x01]);
    assert_eq!(
        e.to_vec(),
        vec![0x10, 0x05, 0x1a, 0x02, b'h', b'i', 0xf2, 0x01, 0x02, 0x00, 0x01]
    );
    assert_eq!(e.as_bytes(), &e.to_vec()[..]);
}

#[test]
fn repeated_fields_are_all_kept() {
    let mut sub = ProtobufEncoder::new();
    sub.write_varint(1, 1);
    let mut e = ProtobufEncoder::new();
    e.write_message(2, &sub);
    e.write_message(2, &sub);
    assert_eq!(e.to_vec(), vec![0x12, 0x02, 0x08, 0x01, 0x12, 0x02, 0x08, 0x01]);
}

#[test]
fn new_encoder_is_empty() {
    let e = ProtobufEncoder::new();
    assert!(e.to_vec().is_empty());
    assert!(e.as_bytes().is_empty());
}

#[test]
fn a_long_string_gets_a_two_byte_length() {
    let text = "x".repeat(200);
    let mut e = ProtobufEncoder::new();
    e.write_string(1, &text);
    let bytes = e.to_vec();
    assert_eq!(&bytes[..3], &[0x0a, 0xc8, 0x01]);
    assert_eq!(bytes.len(), 203);
}

#[test]
fn extract_strings_collects_long_utf8_segments() {
    let mut e = ProtobufEncoder::new();
    e.write_varint(1, 77);
    e.write_string(2, "short");
    e.write_string(3, "long enough");
    e.write_bytes(4, &[0xff, 0xfe, 0xfd, 0xfc, 0xfb, 0xfa, 0xf9]);
    e.write_string(5, "another text");
    assert_eq!(
        extract_strings(e.as_bytes()),
        vec!["long enough".to_string(), "another text".to_string()]
    );
}

#[test]
fn extract_strings_passes_over_fixed_width_fields() {
    let mut data = vec![0x09u8];
    data.extend_from_slice(&[0; 8]);
    data.push(0x15);
    data.extend_from_slice(&[0; 4]);
    data.extend_from_slice(&[0x0a, 0x06]);
    data.extend_from_slice(b"abcdef");
    assert_eq!(extract_strings(&data), vec!["abcdef".to_string()]);
}

#[test]
fn extract_strings_stops_at_an_unknown_wire_type() {
    let mut data = vec![0x0au8, 0x06];
    data.extend_from_slice(b"abcdef");
    data.push(0x0b);
    data.extend_from_slice(&[0x0a, 0x06]);
    data.extend_from_slice(b"ghijkl");
    assert_eq!(extract_strings(&data), vec!["abcdef".to_string()]);
}

#[test]
fn extract_strings_stops_at_a_segment_past_the_end() {
    let mut data = vec![0x0au8, 0x06];
    data.extend_from_slice(b"abcdef");
    data.extend_from_slice(&[0x0a, 0x64]);
    data.extend_from_slice(b"too short");
    assert_eq!(extract_strings(&data), vec!["abcdef".to_string()]);
    let huge = [0x0au8, 0xff, 0xff, 0xff, 0xff, 0xff, 0xff, 0xff, 0xff, 0xff, 0x01, b'a'];
    assert!(extract_strings(&huge).is_empty());
}

#[test]
fn extract_strings_on_empty_and_truncated_input() {
    assert!(extract_strings(&[]).is_empty());
    assert!(extract_strings(&[0x09, 0x00]).is_empty());
    assert!(extract_strings(&[0x0a]).is_empty());
}

#[test]
fn extract_strings_finds_text_inside_the_outer_message_only() {
    let mut inner = ProtobufEncoder::new();
    inner.write_string(1, "inner text");
    let mut outer = ProtobufEncoder::new();
    outer.write_message(1, &inner);
    let found = extract_strings(outer.as_bytes());
    assert_eq!(found.len(), 1);
    assert_eq!(found[0].as_bytes(), inner.as_bytes());
}

#[test]
fn frame_round_trip() {
    for payload in [&b""[..], &b"hello"[..], &[0u8; 1000][..]] {
        let frame = connect_frame_encode(payload);
        assert_eq!(frame[0], 1);
        let declared = u32::from_be_bytes([frame[1], frame[2], frame[3], frame[4]]) as usize;
        assert_eq!(declared, frame.len() - 5);
        assert_eq!(connect_frame_decode(&frame), vec![payload.to_vec()]);
    }
}

#[test]
fn frame_encode_wraps_the_gzip_stream() {
    let payload = b"some payload";
    let frame = connect_frame_encode(payload);
    let packed = gzip_compress(payload);
    assert_eq!(&frame[5..], &packed[..]);
    assert_eq!(&packed[..2], &[0x1f, 0x8b]);
    assert_ne!(&packed[..], &payload[..]);
    assert_eq!(frame, frame_packed(&packed));
}

#[test]
fn frame_packed_writes_flag_and_big_endian_length() {
    let body = vec![7u8; 0x0102];
    let frame = frame_packed(&body);
    assert_eq!(&frame[..5], &[1, 0, 0, 1, 2]);
    assert_eq!(&frame[5..], &body[..]);
}

#[test]
fn decode_reads_frames_in_order() {
    let mut stream = connect_frame_encode(b"first");
    stream.extend_from_slice(&[0, 0, 0, 0, 3, b'r', b'a', b'w']);
    stream.extend_from_slice(&connect_frame_encode(b"third"));
    assert_eq!(
        connect_frame_decode(&stream),
        vec![b"first".to_vec(), b"raw".to_vec(), b"third".to_vec()]
    );
}

#[test]
fn a_stream_cut_inside_a_frame_gives_the_earlier_frames() {
    let first = connect_frame_encode(b"first");
    let second = connect_frame_encode(b"second frame");
    let mut stream = first.clone();
    stream.extend_from_slice(&second);
    for cut in 0..second.len() {
        let part = &stream[..first.len() + cut];
        assert_eq!(connect_frame_decode(part), vec![b"first".to_vec()]);
    }
    assert_eq!(connect_frame_decode(&stream).len(), 2);
}

#[test]
fn a_declared_length_past_the_end_is_no_error() {
    assert!(connect_frame_decode(&[1, 0xff, 0xff, 0xff, 0xff, 1, 2, 3]).is_empty());
    assert!(connect_frame_decode(&[]).is_empty());
    assert!(connect_frame_decode(&[0, 0, 0, 0]).is_empty());
}

#[test]
fn a_payload_that_does_not_expand_is_given_raw() {
    let data = [1u8, 0, 0, 0, 4, b'n', b'o', b'p', b'e'];
    assert_eq!(connect_frame_decode(&data), vec![b"nope".to_vec()]);
}

#[test]
fn the_gzip_flag_is_bit_zero() {
    let packed = gzip_compress(b"data");
    for flags in [1u8, 3, 5] {
        let mut frame = frame_packed(&packed);
        frame[0] = flags;
        assert_eq!(connect_frame_decode(&frame), vec![b"data".to_vec()]);
    }
    for flags in [0u8, 2, 4] {
        let mut frame = frame_packed(&packed);
        frame[0] = flags;
        assert_eq!(connect_frame_decode(&frame), vec![packed.clone()]);
    }
}

#[test]
fn an_empty_frame_decodes_to_an_empty_content() {
    assert_eq!(connect_frame_decode(&[0, 0, 0, 0, 0]), vec![Vec::<u8>::new()]);
}
