//! Wire framing: a stream of records, each `[type: 1 byte]`
//! `[length: 4 bytes, big-endian]` `[payload: length bytes]`.
//!
//! Type codes: 1 = video, 2 = audio, 3 = metadata. All framing-level
//! multi-byte integers are big-endian; the codec's size prefix inside a
//! video payload is little-endian by the codec's own contract.

use vstd::prelude::*;
use vstd::bytes::spec_u32_from_le_bytes;
use vstd::utf8::{decode_utf8, encode_utf8, valid_utf8};
use crate::byteseq::{
    append_bytes, push_u32_be, push_u64_be, read_u32_be, read_u64_be, spec_u32_from_be_bytes,
    spec_u32_to_be_bytes, spec_u64_from_be_bytes, spec_u64_to_be_bytes, lemma_u32_be_round_trip,
    lemma_u64_be_round_trip,
};
use crate::codec::{codec_block, Lz4Codec};
use crate::error::AqueductError;
use crate::protocol::{
    AudioFrame, AudioFrameView, FrameFlags, MetadataFrame, MetadataFrameView, Packet, PacketView,
    PixelFormat, VideoFrame, VideoFrameView, spec_format_code, spec_format_from_code,
    lemma_pixel_format_code_round_trip,
};

verus! {

/// Wire type code of a video record.
pub const TYPE_VIDEO: u8 = 1;

/// Wire type code of an audio record.
pub const TYPE_AUDIO: u8 = 2;

/// Wire type code of a metadata record.
pub const TYPE_METADATA: u8 = 3;

/// Safety ceiling on the declared payload length of an incoming record,
/// guarding against corrupt or malicious headers. A guard value preserved
/// as a constant, not a derived limit.
pub const MAX_PAYLOAD_LEN: u32 = 100_000_000;

/// What `String::from_utf8_lossy` returns for the given bytes: the text
/// decoded leniently, invalid sequences replaced by replacement
/// characters, a function of the bytes alone.
pub uninterp spec fn lossy_decoded(bytes: Seq<u8>) -> Seq<char>;

/// Relies on `String::from_utf8_lossy`: decodes leniently and never
/// fails, and on valid UTF-8 it returns exactly the decoded text.
#[verifier::external_body]
fn utf8_lossy_to_string(bytes: &[u8]) -> (r: String)
    ensures
        r@ == lossy_decoded(bytes@),
        valid_utf8(bytes@) ==> r@ == decode_utf8(bytes@),
{
    String::from_utf8_lossy(bytes).into_owned()
}

/// The wire type code of a packet.
pub open spec fn spec_type_code(p: PacketView) -> u8 {
    match p {
        PacketView::Video(_) => TYPE_VIDEO,
        PacketView::Audio(_) => TYPE_AUDIO,
        PacketView::Metadata(_) => TYPE_METADATA,
    }
}

/// The payload bytes of a packet's record. A video frame's `data` goes
/// onto the wire as it stands in the packet; compression happens on the
/// send path before framing.
pub open spec fn spec_payload(p: PacketView) -> Seq<u8> {
    match p {
        PacketView::Video(f) => spec_u32_to_be_bytes(f.width) + spec_u32_to_be_bytes(f.height)
            + seq![spec_format_code(f.format)] + spec_u64_to_be_bytes(f.timestamp_micros) + f.data,
        PacketView::Audio(f) => spec_u32_to_be_bytes(f.sample_rate) + spec_u32_to_be_bytes(
            f.channels,
        ) + spec_u64_to_be_bytes(f.timestamp_micros) + f.data,
        PacketView::Metadata(f) => spec_u64_to_be_bytes(f.timestamp_micros) + encode_utf8(
            f.content,
        ),
    }
}

/// The full record of a packet: type code, big-endian payload length,
/// payload.
pub open spec fn spec_record(p: PacketView) -> Seq<u8>
    recommends
        spec_payload(p).len() <= u32::MAX,
{
    seq![spec_type_code(p)] + spec_u32_to_be_bytes(spec_payload(p).len() as u32) + spec_payload(p)
}

/// Serialize a packet into one wire record. Fails exactly when the
/// payload is too long for the four-byte length field.
pub fn encode_packet(packet: &Packet) -> (r: Result<Vec<u8>, AqueductError>)
    ensures
        r is Ok <==> spec_payload(packet@).len() <= u32::MAX,
        r is Ok ==> r->Ok_0@ == spec_record(packet@),
        r is Err ==> r->Err_0 matches AqueductError::Serialization(_),
{
    let mut payload: Vec<u8> = Vec::new();
    let type_code: u8;
    match packet {
        Packet::Video(f) => {
            type_code = TYPE_VIDEO;
            push_u32_be(&mut payload, f.width);
            push_u32_be(&mut payload, f.height);
            payload.push(f.format.code());
            push_u64_be(&mut payload, f.timestamp_micros);
            append_bytes(&mut payload, f.data.as_slice());
        },
        Packet::Audio(f) => {
            type_code = TYPE_AUDIO;
            push_u32_be(&mut payload, f.sample_rate);
            push_u32_be(&mut payload, f.channels);
            push_u64_be(&mut payload, f.timestamp_micros);
            append_bytes(&mut payload, f.data.as_slice());
        },
        Packet::Metadata(f) => {
            type_code = TYPE_METADATA;
            push_u64_be(&mut payload, f.timestamp_micros);
            append_bytes(&mut payload, f.content.as_str().as_bytes());
        },
    }
    proof {
        assert(payload@ =~= spec_payload(packet@));
    }
    if payload.len() > u32::MAX as usize {
        return Err(AqueductError::Serialization("payload too long for length field".to_owned()));
    }
    let mut record: Vec<u8> = Vec::new();
    record.push(type_code);
    push_u32_be(&mut record, payload.len() as u32);
    append_bytes(&mut record, payload.as_slice());
    proof {
        assert(record@ =~= spec_record(packet@));
    }
    Ok(record)
}

/// A record's header and payload are malformed beyond repair: an unknown
/// type code, or a payload shorter than the type's fixed fields (for
/// video, shorter than its fixed fields plus the codec's four-byte size
/// prefix), or an unknown pixel-format code.
pub open spec fn record_rejected(type_id: u8, pl: Seq<u8>) -> bool {
    ||| type_id != TYPE_VIDEO && type_id != TYPE_AUDIO && type_id != TYPE_METADATA
    ||| type_id == TYPE_VIDEO && (pl.len() < 21 || spec_format_from_code(pl[8]) is None)
    ||| type_id == TYPE_AUDIO && pl.len() < 16
    ||| type_id == TYPE_METADATA && pl.len() < 8
}

/// The packet `p` is a correct parse of a record with the given type code
/// and payload bytes. For a video packet, the payload's tail is the
/// codec's self-describing block and `p.data` is its decompressed form.
pub open spec fn record_parses_to(type_id: u8, pl: Seq<u8>, p: PacketView) -> bool {
    match p {
        PacketView::Video(f) => {
            &&& type_id == TYPE_VIDEO
            &&& pl.len() >= 21
            &&& f.width == spec_u32_from_be_bytes(pl.subrange(0, 4))
            &&& f.height == spec_u32_from_be_bytes(pl.subrange(4, 8))
            &&& spec_format_from_code(pl[8]) == Some(f.format)
            &&& f.flags == (FrameFlags { alpha: false, premultiplied: false, high_bit_depth: false })
            &&& f.timestamp_micros == spec_u64_from_be_bytes(pl.subrange(9, 17))
            &&& f.data.len() == spec_u32_from_le_bytes(pl.subrange(17, 21))
            &&& forall|s: Seq<u8>|
                s.len() <= u32::MAX && pl.skip(17) == #[trigger] codec_block(s) ==> f.data == s
        },
        PacketView::Audio(f) => {
            &&& type_id == TYPE_AUDIO
            &&& pl.len() >= 16
            &&& f.sample_rate == spec_u32_from_be_bytes(pl.subrange(0, 4))
            &&& f.channels == spec_u32_from_be_bytes(pl.subrange(4, 8))
            &&& f.timestamp_micros == spec_u64_from_be_bytes(pl.subrange(8, 16))
            &&& f.data == pl.skip(16)
        },
        PacketView::Metadata(f) => {
            &&& type_id == TYPE_METADATA
            &&& pl.len() >= 8
            &&& f.timestamp_micros == spec_u64_from_be_bytes(pl.subrange(0, 8))
            &&& f.content == lossy_decoded(pl.skip(8))
            &&& (valid_utf8(pl.skip(8)) ==> f.content == decode_utf8(pl.skip(8)))
        },
    }
}

/// A video payload whose tail is the codec's block for the raw bytes `s`:
/// parsing such a payload is owed to succeed and deliver `s`.
pub open spec fn video_payload_decodable(pl: Seq<u8>, s: Seq<u8>) -> bool {
    &&& pl.len() >= 21
    &&& spec_format_from_code(pl[8]) is Some
    &&& s.len() <= u32::MAX
    &&& pl.skip(17) == codec_block(s)
}

/// The sequential per-connection reader: a state machine that accumulates
/// bytes fed from a connection and yields parsed packets.
///
/// The abstract state (the view) is the sequence of bytes buffered and
/// not yet consumed. No byte is ever discarded across record boundaries:
/// whatever follows a consumed record stays buffered for the next one.
pub struct StreamReader {
    buffer: Vec<u8>,
    codec: Lz4Codec,
    scratch: Vec<u8>,
}

/// How a connection's end is classified when the peer stops sending.
#[derive(Debug, Clone, Copy, PartialEq, Eq, Structural)]
pub enum StreamEnd {
    /// The stream ended exactly on a record boundary.
    Clean,
    /// The stream ended with a partial header or body buffered.
    Truncated,
}

impl View for StreamReader {
    type V = Seq<u8>;

    closed spec fn view(&self) -> Seq<u8> {
        self.buffer@
    }
}

/// The buffered bytes hold a full five-byte record header.
pub open spec fn header_complete(b: Seq<u8>) -> bool {
    b.len() >= 5
}

/// The payload length a buffered header declares.
pub open spec fn declared_len(b: Seq<u8>) -> int
    recommends
        header_complete(b),
{
    spec_u32_from_be_bytes(b.subrange(1, 5)) as int
}

/// The buffered bytes hold a full record: header plus declared payload.
pub open spec fn record_complete(b: Seq<u8>) -> bool {
    header_complete(b) && b.len() >= 5 + declared_len(b)
}

/// The payload bytes of the first buffered record.
pub open spec fn buffered_payload(b: Seq<u8>) -> Seq<u8>
    recommends
        record_complete(b),
{
    b.subrange(5, 5 + declared_len(b))
}

impl StreamReader {
    /// A reader with nothing buffered.
    pub fn new() -> (r: Self)
        ensures
            r@ == Seq::<u8>::empty(),
    {
        StreamReader { buffer: Vec::new(), codec: Lz4Codec::new(), scratch: Vec::new() }
    }

    /// Buffer bytes received from the connection.
    pub fn feed(&mut self, chunk: &[u8])
        ensures
            final(self)@ == old(self)@ + chunk@,
    {
        append_bytes(&mut self.buffer, chunk);
    }

    /// Classify the end of the stream: clean exactly when nothing is
    /// buffered, a truncated-stream condition when a partial header or
    /// body is.
    pub fn stream_end_kind(&self) -> (r: StreamEnd)
        ensures
            r == (if self@.len() == 0 {
                StreamEnd::Clean
            } else {
                StreamEnd::Truncated
            }),
    {
        if self.buffer.len() == 0 {
            StreamEnd::Clean
        } else {
            StreamEnd::Truncated
        }
    }

    /// Parse one record's payload by type code (the dispatch step).
    ///
    /// Exactly characterized: a malformed record is a protocol error; an
    /// audio or metadata record with its fixed fields present always
    /// parses; a video record whose payload tail is the codec's block for
    /// some raw bytes always parses to those bytes; a video record whose
    /// compressed tail is corrupt is a protocol error.
    pub fn parse_record(&mut self, type_id: u8, payload: &[u8]) -> (r: Result<
        Packet,
        AqueductError,
    >)
        ensures
            final(self)@ == old(self)@,
            r is Ok ==> record_parses_to(type_id, payload@, r->Ok_0@),
            r is Err ==> r->Err_0 matches AqueductError::Protocol(_),
            record_rejected(type_id, payload@) ==> r is Err,
            type_id == TYPE_AUDIO && payload@.len() >= 16 ==> r is Ok,
            type_id == TYPE_METADATA && payload@.len() >= 8 ==> r is Ok,
            forall|s: Seq<u8>|
                #[trigger] video_payload_decodable(payload@, s) && type_id == TYPE_VIDEO ==> r
                    is Ok,
    {
        let payload_len = payload.len();
        if type_id == TYPE_VIDEO {
            if payload_len < 21 {
                return Err(AqueductError::Protocol("video payload too short".to_owned()));
            }
            let width = read_u32_be(payload, 0);
            let height = read_u32_be(payload, 4);
            let format_byte = *vstd::slice::slice_index_get(payload, 8);
            let format = match PixelFormat::from_u8(format_byte) {
                Some(f) => f,
                None => {
                    return Err(AqueductError::Protocol("unknown pixel format code".to_owned()));
                },
            };
            let timestamp_micros = read_u64_be(payload, 9);
            let compressed = vstd::slice::slice_subrange(payload, 17, payload_len);
            proof {
                assert(compressed@ =~= payload@.skip(17));
                assert(compressed@.subrange(0, 4) =~= payload@.subrange(17, 21));
            }
            self.scratch.clear();
            match self.codec.decode_into(compressed, &mut self.scratch) {
                Ok(()) => {
                    let mut data: Vec<u8> = Vec::new();
                    core::mem::swap(&mut data, &mut self.scratch);
                    proof {
                        assert(data@ =~= Seq::<u8>::empty() + data@);
                        assert forall|s: Seq<u8>|
                            s.len() <= u32::MAX && payload@.skip(17) == #[trigger] codec_block(
                                s,
                            ) implies data@ == s by {
                            assert(Seq::<u8>::empty() + s =~= s);
                        }
                    }
                    Ok(
                        Packet::Video(
                            VideoFrame {
                                width,
                                height,
                                format,
                                flags: FrameFlags {
                                    alpha: false,
                                    premultiplied: false,
                                    high_bit_depth: false,
                                },
                                timestamp_micros,
                                data,
                            },
                        ),
                    )
                },
                Err(e) => Err(e),
            }
        } else if type_id == TYPE_AUDIO {
            if payload_len < 16 {
                return Err(AqueductError::Protocol("audio payload too short".to_owned()));
            }
            let sample_rate = read_u32_be(payload, 0);
            let channels = read_u32_be(payload, 4);
            let timestamp_micros = read_u64_be(payload, 8);
            let data = vstd::slice::slice_to_vec(
                vstd::slice::slice_subrange(payload, 16, payload_len),
            );
            proof {
                assert(data@ =~= payload@.skip(16));
            }
            Ok(Packet::Audio(AudioFrame { sample_rate, channels, timestamp_micros, data }))
        } else if type_id == TYPE_METADATA {
            if payload_len < 8 {
                return Err(AqueductError::Protocol("metadata payload too short".to_owned()));
            }
            let timestamp_micros = read_u64_be(payload, 0);
            let tail = vstd::slice::slice_subrange(payload, 8, payload_len);
            proof {
                assert(tail@ =~= payload@.skip(8));
            }
            let content = utf8_lossy_to_string(tail);
            Ok(Packet::Metadata(MetadataFrame { timestamp_micros, content }))
        } else {
            Err(AqueductError::Protocol("unknown record type code".to_owned()))
        }
    }

    /// Try to consume one record from the buffered bytes.
    ///
    /// With less than a full header or less than the declared payload
    /// buffered, returns `Ok(None)` and waits, leaving the buffer
    /// unchanged. A declared length over [`MAX_PAYLOAD_LEN`] is a
    /// protocol error. With a full record buffered, the record is
    /// consumed — the remainder stays buffered for the next one — and its
    /// parse per [`StreamReader::parse_record`] is the outcome.
    pub fn poll(&mut self) -> (r: Result<Option<Packet>, AqueductError>)
        ensures
            !header_complete(old(self)@) ==> r is Ok && r->Ok_0 is None && final(self)@ == old(
                self,
            )@,
            header_complete(old(self)@) && declared_len(old(self)@) > MAX_PAYLOAD_LEN ==> r is Err
                && (r->Err_0 matches AqueductError::Protocol(_)) && final(self)@ == old(self)@,
            header_complete(old(self)@) && declared_len(old(self)@) <= MAX_PAYLOAD_LEN
                && !record_complete(old(self)@) ==> r is Ok && r->Ok_0 is None && final(self)@
                == old(self)@,
            header_complete(old(self)@) && declared_len(old(self)@) <= MAX_PAYLOAD_LEN
                && record_complete(old(self)@) ==> {
                &&& final(self)@ == old(self)@.skip(5 + declared_len(old(self)@))
                &&& (r is Ok ==> r->Ok_0 is Some && record_parses_to(
                    old(self)@[0],
                    buffered_payload(old(self)@),
                    r->Ok_0->Some_0@,
                ))
                &&& (r is Err ==> r->Err_0 matches AqueductError::Protocol(_))
                &&& (record_rejected(old(self)@[0], buffered_payload(old(self)@)) ==> r is Err)
                &&& (old(self)@[0] == TYPE_AUDIO && declared_len(old(self)@) >= 16 ==> r is Ok)
                &&& (old(self)@[0] == TYPE_METADATA && declared_len(old(self)@) >= 8 ==> r is Ok)
                &&& (forall|s: Seq<u8>|
                    #[trigger] video_payload_decodable(buffered_payload(old(self)@), s) && old(
                        self,
                    )@[0] == TYPE_VIDEO ==> r is Ok)
            },
    {
        if self.buffer.len() < 5 {
            return Ok(None);
        }
        let declared = read_u32_be(self.buffer.as_slice(), 1);
        if declared > MAX_PAYLOAD_LEN {
            return Err(AqueductError::Protocol("declared payload length over ceiling".to_owned()));
        }
        let len = declared as usize;
        let total = 5 + len;
        if self.buffer.len() < total {
            return Ok(None);
        }
        let type_id = *vstd::slice::slice_index_get(self.buffer.as_slice(), 0);
        let payload = vstd::slice::slice_to_vec(
            vstd::slice::slice_subrange(self.buffer.as_slice(), 5, total),
        );
        let parsed = self.parse_record(type_id, payload.as_slice());
        let tail = self.buffer.split_off(total);
        self.buffer = tail;
        proof {
            assert(self.buffer@ =~= old(self)@.skip(5 + declared_len(old(self)@)));
            assert(payload@ =~= buffered_payload(old(self)@));
        }
        match parsed {
            Ok(p) => Ok(Some(p)),
            Err(e) => Err(e),
        }
    }
}

/// Framing law: in a byte stream that starts with the record of a packet
/// whose payload fits the length field, the reader's header view finds
/// exactly that record — the type code, the declared length, the payload,
/// and the remainder after it.
pub proof fn lemma_record_framing(p: PacketView, rest: Seq<u8>)
    requires
        spec_payload(p).len() <= u32::MAX,
    ensures
        header_complete(spec_record(p) + rest),
        (spec_record(p) + rest)[0] == spec_type_code(p),
        declared_len(spec_record(p) + rest) == spec_payload(p).len(),
        (spec_record(p) + rest).len() >= 5 + spec_payload(p).len(),
        buffered_payload(spec_record(p) + rest) == spec_payload(p),
        (spec_record(p) + rest).skip(5 + spec_payload(p).len() as int) == rest,
{
    lemma_u32_be_round_trip();
    let b = spec_record(p) + rest;
    let pl = spec_payload(p);
    assert(b.subrange(1, 5) =~= spec_u32_to_be_bytes(pl.len() as u32));
    assert(buffered_payload(b) =~= pl);
    assert(b.skip(5 + pl.len() as int) =~= rest);
}

/// Round-trip law for audio and metadata: any parse of the record
/// encoded from an audio or metadata packet is that packet itself.
pub proof fn lemma_parse_inverts_encode(p: PacketView, q: PacketView)
    requires
        p is Audio || p is Metadata,
        spec_payload(p).len() <= u32::MAX,
        record_parses_to(spec_type_code(p), spec_payload(p), q),
    ensures
        q == p,
{
    broadcast use vstd::utf8::encode_utf8_valid_utf8;
    broadcast use vstd::utf8::encode_utf8_decode_utf8;

    lemma_u32_be_round_trip();
    lemma_u64_be_round_trip();
    let pl = spec_payload(p);
    match p {
        PacketView::Audio(f) => {
            assert(pl.subrange(0, 4) =~= spec_u32_to_be_bytes(f.sample_rate));
            assert(pl.subrange(4, 8) =~= spec_u32_to_be_bytes(f.channels));
            assert(pl.subrange(8, 16) =~= spec_u64_to_be_bytes(f.timestamp_micros));
            assert(pl.skip(16) =~= f.data);
            match q {
                PacketView::Audio(g) => {
                    assert(g =~= f);
                },
                _ => {
                    assert(false);
                },
            }
        },
        PacketView::Metadata(f) => {
            assert(pl.subrange(0, 8) =~= spec_u64_to_be_bytes(f.timestamp_micros));
            assert(pl.skip(8) =~= encode_utf8(f.content));
            match q {
                PacketView::Metadata(g) => {
                    assert(g.content == f.content);
                    assert(g =~= f);
                },
                _ => {
                    assert(false);
                },
            }
        },
        PacketView::Video(_) => {
            assert(false);
        },
    }
}

/// Round-trip law for video: any parse of the record encoded from a
/// video packet whose `data` is the codec's block for raw bytes `s` is
/// the same frame with `data` decompressed back to `s` and the flags
/// defaulted — the wire does not carry flags.
pub proof fn lemma_parse_inverts_encode_video(f: VideoFrameView, s: Seq<u8>, q: PacketView)
    requires
        f.data == codec_block(s),
        s.len() <= u32::MAX,
        spec_payload(PacketView::Video(f)).len() <= u32::MAX,
        record_parses_to(TYPE_VIDEO, spec_payload(PacketView::Video(f)), q),
    ensures
        q == PacketView::Video(
            VideoFrameView {
                flags: FrameFlags { alpha: false, premultiplied: false, high_bit_depth: false },
                data: s,
                ..f
            },
        ),
{
    lemma_u32_be_round_trip();
    lemma_u64_be_round_trip();
    lemma_pixel_format_code_round_trip();
    let pl = spec_payload(PacketView::Video(f));
    assert(pl.len() >= 21) by {
        vstd::bytes::lemma_auto_spec_u32_to_from_le_bytes();
        assert(codec_block(s).len() >= 4);
    }
    assert(pl.subrange(0, 4) =~= spec_u32_to_be_bytes(f.width));
    assert(pl.subrange(4, 8) =~= spec_u32_to_be_bytes(f.height));
    assert(pl[8] == spec_format_code(f.format));
    assert(pl.subrange(9, 17) =~= spec_u64_to_be_bytes(f.timestamp_micros));
    assert(pl.skip(17) =~= codec_block(s));
    match q {
        PacketView::Video(g) => {
            assert(g.data == s);
            assert(g =~= VideoFrameView {
                flags: FrameFlags { alpha: false, premultiplied: false, high_bit_depth: false },
                data: s,
                ..f
            });
        },
        _ => {
            assert(false);
        },
    }
}

} // verus!
