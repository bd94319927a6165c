use aqueduct::error::AqueductError;
use aqueduct::protocol::{
    AudioFrame, FrameFlags, MetadataFrame, Packet, PixelFormat, VideoFrame,
};
use aqueduct::wire::{encode_packet, StreamEnd, StreamReader};

#[test]
fn pixel_format_codes_round_trip() {
    for n in 0u8..=6 {
        let format = PixelFormat::from_u8(n).expect("codes 0..=6 must decode");
        assert_eq!(format.code(), n);
    }
    for n in 7u8..=255 {
        assert!(PixelFormat::from_u8(n).is_none(), "code {} must be rejected", n);
    }
}

#[test]
fn pixel_format_exact_variants() {
    assert_eq!(PixelFormat::from_u8(0), Some(PixelFormat::UYVY));
    assert_eq!(PixelFormat::from_u8(1), Some(PixelFormat::UYVA));
    assert_eq!(PixelFormat::from_u8(2), Some(PixelFormat::BGRA));
    assert_eq!(PixelFormat::from_u8(3), Some(PixelFormat::NV12));
    assert_eq!(PixelFormat::from_u8(4), Some(PixelFormat::YV12));
    assert_eq!(PixelFormat::from_u8(5), Some(PixelFormat::P216));
    assert_eq!(PixelFormat::from_u8(6), Some(PixelFormat::PA16));
}

#[test]
fn audio_record_layout_is_exact() {
    let frame = AudioFrame {
        sample_rate: 48000,
        channels: 2,
        timestamp_micros: 0x0102030405060708,
        data: vec![0xDE, 0xAD],
    };
    let record = encode_packet(&Packet::Audio(frame)).unwrap();
    let mut expected = vec![2u8]; // audio type code
    expected.extend_from_slice(&18u32.to_be_bytes()); // 4 + 4 + 8 + 2
    expected.extend_from_slice(&48000u32.to_be_bytes());
    expected.extend_from_slice(&2u32.to_be_bytes());
    expected.extend_from_slice(&0x0102030405060708u64.to_be_bytes());
    expected.extend_from_slice(&[0xDE, 0xAD]);
    assert_eq!(record, expected);
}

#[test]
fn metadata_record_layout_is_exact() {
    let frame = MetadataFrame { timestamp_micros: 7, content: String::from("ab") };
    let record = encode_packet(&Packet::Metadata(frame)).unwrap();
    let mut expected = vec![3u8]; // metadata type code
    expected.extend_from_slice(&10u32.to_be_bytes()); // 8 + 2
    expected.extend_from_slice(&7u64.to_be_bytes());
    expected.extend_from_slice(b"ab");
    assert_eq!(record, expected);
}

#[test]
fn audio_wire_round_trip() {
    let frame = AudioFrame {
        sample_rate: 44100,
        channels: 2,
        timestamp_micros: 123456,
        data: vec![1, 2, 3, 4, 5, 6, 7, 8],
    };
    let record = encode_packet(&Packet::Audio(frame)).unwrap();
    let mut reader = StreamReader::new();
    reader.feed(&record);
    match reader.poll().unwrap().unwrap() {
        Packet::Audio(got) => {
            assert_eq!(got.sample_rate, 44100);
            assert_eq!(got.channels, 2);
            assert_eq!(got.timestamp_micros, 123456);
            assert_eq!(got.data, vec![1, 2, 3, 4, 5, 6, 7, 8]);
        }
        other => panic!("expected audio, got {:?}", other),
    }
}

#[test]
fn partial_record_waits_then_truncation_is_reported() {
    // header declaring a 10-byte payload, but only 3 payload bytes arrive
    let frame = MetadataFrame { timestamp_micros: 1, content: String::from("xy") };
    let record = encode_packet(&Packet::Metadata(frame)).unwrap();
    let mut reader = StreamReader::new();
    reader.feed(&record[..8]);
    // fewer than the declared bytes buffered: the reader waits
    assert!(reader.poll().unwrap().is_none());
    assert!(reader.poll().unwrap().is_none());
    // the peer closing now is a truncated stream, not a clean end
    assert_eq!(reader.stream_end_kind(), StreamEnd::Truncated);
}

#[test]
fn partial_header_waits_and_is_truncation() {
    let mut reader = StreamReader::new();
    reader.feed(&[1u8, 0, 0]);
    assert!(reader.poll().unwrap().is_none());
    assert_eq!(reader.stream_end_kind(), StreamEnd::Truncated);
}

#[test]
fn empty_buffer_is_clean_end() {
    let reader = StreamReader::new();
    assert_eq!(reader.stream_end_kind(), StreamEnd::Clean);
}

#[test]
fn consumed_record_leaves_clean_end() {
    let frame = MetadataFrame { timestamp_micros: 1, content: String::from("z") };
    let record = encode_packet(&Packet::Metadata(frame)).unwrap();
    let mut reader = StreamReader::new();
    reader.feed(&record);
    assert!(reader.poll().unwrap().is_some());
    assert_eq!(reader.stream_end_kind(), StreamEnd::Clean);
}

#[test]
fn two_records_in_one_feed_keep_boundaries() {
    let first = encode_packet(&Packet::Metadata(MetadataFrame {
        timestamp_micros: 1,
        content: String::from("one"),
    }))
    .unwrap();
    let second = encode_packet(&Packet::Audio(AudioFrame {
        sample_rate: 8000,
        channels: 1,
        timestamp_micros: 2,
        data: vec![9, 9, 9, 9],
    }))
    .unwrap();
    let mut stream = first.clone();
    stream.extend_from_slice(&second);
    let mut reader = StreamReader::new();
    reader.feed(&stream);
    match reader.poll().unwrap().unwrap() {
        Packet::Metadata(m) => assert_eq!(m.content, "one"),
        other => panic!("expected metadata, got {:?}", other),
    }
    match reader.poll().unwrap().unwrap() {
        Packet::Audio(a) => assert_eq!(a.data, vec![9, 9, 9, 9]),
        other => panic!("expected audio, got {:?}", other),
    }
    assert!(reader.poll().unwrap().is_none());
}

#[test]
fn unknown_type_code_is_protocol_error() {
    let mut record = vec![9u8]; // no such type
    record.extend_from_slice(&0u32.to_be_bytes());
    let mut reader = StreamReader::new();
    reader.feed(&record);
    match reader.poll() {
        Err(AqueductError::Protocol(_)) => {}
        other => panic!("expected protocol error, got {:?}", other),
    }
}

#[test]
fn oversized_declared_length_is_protocol_error() {
    let mut record = vec![2u8];
    record.extend_from_slice(&100_000_001u32.to_be_bytes());
    let mut reader = StreamReader::new();
    reader.feed(&record);
    match reader.poll() {
        Err(AqueductError::Protocol(_)) => {}
        other => panic!("expected protocol error, got {:?}", other),
    }
}

#[test]
fn short_video_payload_is_protocol_error() {
    let mut record = vec![1u8];
    record.extend_from_slice(&10u32.to_be_bytes());
    record.extend_from_slice(&[0u8; 10]);
    let mut reader = StreamReader::new();
    reader.feed(&record);
    match reader.poll() {
        Err(AqueductError::Protocol(_)) => {}
        other => panic!("expected protocol error, got {:?}", other),
    }
}

#[test]
fn short_audio_payload_is_protocol_error() {
    let mut record = vec![2u8];
    record.extend_from_slice(&4u32.to_be_bytes());
    record.extend_from_slice(&[0u8; 4]);
    let mut reader = StreamReader::new();
    reader.feed(&record);
    match reader.poll() {
        Err(AqueductError::Protocol(_)) => {}
        other => panic!("expected protocol error, got {:?}", other),
    }
}

#[test]
fn unknown_pixel_format_code_is_protocol_error() {
    let frame = VideoFrame {
        width: 2,
        height: 2,
        format: PixelFormat::UYVY,
        flags: FrameFlags::default(),
        timestamp_micros: 0,
        data: vec![0u8; 8],
    };
    let mut codec = aqueduct::codec::Lz4Codec::new();
    let mut compressed_frame = frame;
    compressed_frame.data = codec.encode(&compressed_frame).unwrap();
    let mut record = encode_packet(&Packet::Video(compressed_frame)).unwrap();
    record[5 + 8] = 77; // overwrite the format byte inside the payload
    let mut reader = StreamReader::new();
    reader.feed(&record);
    match reader.poll() {
        Err(AqueductError::Protocol(_)) => {}
        other => panic!("expected protocol error, got {:?}", other),
    }
}

#[test]
fn invalid_utf8_metadata_decodes_leniently() {
    let mut payload = 5u64.to_be_bytes().to_vec();
    payload.extend_from_slice(&[b'h', b'i', 0xFF]); // 0xFF is never valid UTF-8
    let mut record = vec![3u8];
    record.extend_from_slice(&(payload.len() as u32).to_be_bytes());
    record.extend_from_slice(&payload);
    let mut reader = StreamReader::new();
    reader.feed(&record);
    match reader.poll().unwrap().unwrap() {
        Packet::Metadata(m) => {
            assert_eq!(m.timestamp_micros, 5);
            assert_eq!(m.content, "hi\u{FFFD}");
        }
        other => panic!("expected metadata, got {:?}", other),
    }
}

#[test]
fn error_message_carries_description() {
    let mut reader = StreamReader::new();
    reader.feed(&[9u8, 0, 0, 0, 0]);
    match reader.poll() {
        Err(e) => assert_eq!(e.message(), "unknown record type code"),
        other => panic!("expected an error, got {:?}", other),
    }
}

#[test]
fn packet_duplicate_is_equal_and_independent() {
    let p = Packet::Metadata(MetadataFrame { timestamp_micros: 3, content: String::from("m") });
    let q = p.duplicate();
    match (p, q) {
        (Packet::Metadata(a), Packet::Metadata(b)) => {
            assert_eq!(a.timestamp_micros, b.timestamp_micros);
            assert_eq!(a.content, b.content);
        }
        _ => panic!("expected metadata twins"),
    }
}
