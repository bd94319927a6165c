use aqueduct::codec::Lz4Codec;
use aqueduct::error::AqueductError;
use aqueduct::protocol::{FrameFlags, PixelFormat, VideoFrame};

fn video_frame_with(data: Vec<u8>) -> VideoFrame {
    VideoFrame {
        width: 16,
        height: 16,
        format: PixelFormat::BGRA,
        flags: FrameFlags::default(),
        timestamp_micros: 0,
        data,
    }
}

#[test]
fn codec_round_trip_empty() {
    let mut codec = Lz4Codec::new();
    let frame = video_frame_with(Vec::new());
    let encoded = codec.encode(&frame).unwrap();
    let decoded = codec.decode(&encoded).unwrap();
    assert_eq!(decoded, Vec::<u8>::new());
}

#[test]
fn codec_round_trip_lengths() {
    let mut codec = Lz4Codec::new();
    for n in 0..300usize {
        let data: Vec<u8> = (0..n).map(|i| (i % 7) as u8).collect();
        let frame = video_frame_with(data.clone());
        let encoded = codec.encode(&frame).unwrap();
        let decoded = codec.decode(&encoded).unwrap();
        assert_eq!(decoded, data, "round trip failed at length {}", n);
    }
}

#[test]
fn codec_compresses_zero_runs() {
    // a run of zeros must come out smaller than raw plus the prefix;
    // this fails if compression handed its input back unchanged
    let mut codec = Lz4Codec::new();
    let data = vec![0u8; 4096];
    let frame = video_frame_with(data.clone());
    let encoded = codec.encode(&frame).unwrap();
    assert!(encoded.len() < data.len());
    // little-endian uncompressed-size prefix
    assert_eq!(&encoded[0..4], &4096u32.to_le_bytes());
    let decoded = codec.decode(&encoded).unwrap();
    assert_eq!(decoded, data);
}

#[test]
fn codec_decode_short_block_is_protocol_error() {
    let mut codec = Lz4Codec::new();
    for short in [&[][..], &[1u8][..], &[1u8, 2, 3][..]] {
        match codec.decode(short) {
            Err(AqueductError::Protocol(_)) => {}
            other => panic!("expected protocol error, got {:?}", other),
        }
    }
}

#[test]
fn codec_decode_corrupt_block_is_protocol_error() {
    let mut codec = Lz4Codec::new();
    // declares 100 bytes, but the block data is garbage
    let mut corrupt = 100u32.to_le_bytes().to_vec();
    corrupt.extend_from_slice(&[0xFF, 0xFE, 0xFD, 0xFC, 0xFB]);
    match codec.decode(&corrupt) {
        Err(AqueductError::Protocol(_)) => {}
        other => panic!("expected protocol error, got {:?}", other),
    }
}

#[test]
fn codec_encode_into_preserves_prefix() {
    let mut codec = Lz4Codec::new();
    let frame = video_frame_with(vec![7u8; 128]);
    let fresh = codec.encode(&frame).unwrap();
    let mut reused = vec![0xAAu8, 0xBB];
    codec.encode_into(&frame, &mut reused).unwrap();
    assert_eq!(&reused[0..2], &[0xAA, 0xBB]);
    assert_eq!(&reused[2..], &fresh[..]);
}

#[test]
fn codec_decode_into_preserves_prefix() {
    let mut codec = Lz4Codec::new();
    let frame = video_frame_with(vec![9u8; 64]);
    let encoded = codec.encode(&frame).unwrap();
    let mut reused = vec![0x11u8];
    codec.decode_into(&encoded, &mut reused).unwrap();
    assert_eq!(reused[0], 0x11);
    assert_eq!(&reused[1..], &frame.data[..]);
}
