use aqueduct::codec::Lz4Codec;
use aqueduct::fanout::{Distributor, RecvOutcome};
use aqueduct::protocol::{AudioFrame, FrameFlags, MetadataFrame, Packet, PixelFormat, VideoFrame};

fn audio_packet(tag: u8) -> Packet {
    Packet::Audio(AudioFrame {
        sample_rate: 48000,
        channels: 1,
        timestamp_micros: tag as u64,
        data: vec![tag; 4],
    })
}

fn tag_of(p: &Packet) -> u8 {
    match p {
        Packet::Audio(f) => f.data[0],
        _ => panic!("expected audio"),
    }
}

#[test]
fn no_subscribers_is_not_an_error() {
    let mut d = Distributor::new(16);
    assert!(d.send(audio_packet(1)).is_ok());
}

#[test]
fn fast_subscribers_receive_everything_in_order() {
    let mut d = Distributor::new(16);
    let mut subs = vec![d.subscribe(), d.subscribe(), d.subscribe()];
    for tag in 0u8..10 {
        d.send(audio_packet(tag)).unwrap();
    }
    for sub in subs.iter_mut() {
        for tag in 0u8..10 {
            match d.recv(sub) {
                RecvOutcome::Delivered(p) => assert_eq!(tag_of(&p), tag),
                other => panic!("expected delivery of {}, got {:?}", tag, other),
            }
        }
        assert!(matches!(d.recv(sub), RecvOutcome::Empty));
    }
}

#[test]
fn subscription_starts_at_current_end() {
    let mut d = Distributor::new(16);
    d.send(audio_packet(1)).unwrap();
    d.send(audio_packet(2)).unwrap();
    let mut sub = d.subscribe();
    d.send(audio_packet(3)).unwrap();
    match d.recv(&mut sub) {
        RecvOutcome::Delivered(p) => assert_eq!(tag_of(&p), 3),
        other => panic!("expected the packet published after subscribing, got {:?}", other),
    }
    assert!(matches!(d.recv(&mut sub), RecvOutcome::Empty));
}

#[test]
fn slow_subscriber_lags_and_resumes_without_duplicates() {
    let mut d = Distributor::new(4);
    let mut sub = d.subscribe();
    for tag in 0u8..10 {
        d.send(audio_packet(tag)).unwrap();
    }
    // only packets 6..10 are still available: 6 were skipped
    match d.recv(&mut sub) {
        RecvOutcome::Lagged(n) => assert_eq!(n, 6),
        other => panic!("expected a lag indication, got {:?}", other),
    }
    let mut seen = Vec::new();
    loop {
        match d.recv(&mut sub) {
            RecvOutcome::Delivered(p) => seen.push(tag_of(&p)),
            RecvOutcome::Empty => break,
            RecvOutcome::Lagged(_) => panic!("must not lag twice while consuming"),
        }
    }
    // later, not previously delivered, never a duplicate
    assert_eq!(seen, vec![6, 7, 8, 9]);
}

#[test]
fn slow_subscriber_does_not_block_fast_one() {
    let mut d = Distributor::new(2);
    let mut slow = d.subscribe();
    let mut fast = d.subscribe();
    for tag in 0u8..6 {
        d.send(audio_packet(tag)).unwrap();
        match d.recv(&mut fast) {
            RecvOutcome::Delivered(p) => assert_eq!(tag_of(&p), tag),
            other => panic!("fast subscriber must keep up, got {:?}", other),
        }
    }
    // the slow one only lags; the publisher and the fast one were never held up
    assert!(matches!(d.recv(&mut slow), RecvOutcome::Lagged(4)));
}

#[test]
fn metadata_passes_through_unchanged() {
    let mut d = Distributor::new(16);
    let mut sub = d.subscribe();
    d.send(Packet::Metadata(MetadataFrame {
        timestamp_micros: 11,
        content: String::from("<tally/>"),
    }))
    .unwrap();
    match d.recv(&mut sub) {
        RecvOutcome::Delivered(Packet::Metadata(m)) => {
            assert_eq!(m.timestamp_micros, 11);
            assert_eq!(m.content, "<tally/>");
        }
        other => panic!("expected metadata, got {:?}", other),
    }
}

#[test]
fn video_is_compressed_before_publication() {
    let raw = vec![0u8; 4096];
    let mut d = Distributor::new(16);
    let mut sub = d.subscribe();
    d.send(Packet::Video(VideoFrame {
        width: 64,
        height: 16,
        format: PixelFormat::UYVY,
        flags: FrameFlags::default(),
        timestamp_micros: 1,
        data: raw.clone(),
    }))
    .unwrap();
    match d.recv(&mut sub) {
        RecvOutcome::Delivered(Packet::Video(f)) => {
            // the payload on the channel is the codec's self-describing
            // block: little-endian raw size, then a smaller compressed body
            assert_eq!(&f.data[0..4], &4096u32.to_le_bytes());
            assert!(f.data.len() < raw.len());
            let mut codec = Lz4Codec::new();
            assert_eq!(codec.decode(&f.data).unwrap(), raw);
        }
        other => panic!("expected a video packet, got {:?}", other),
    }
}
