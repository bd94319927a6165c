//! Per-frame block compression of video payloads.
//!
//! The codec's wire format is self-describing: a four-byte little-endian
//! field holding the uncompressed size, followed by one LZ4 block. The
//! little-endian prefix is internal to the codec and distinct from the
//! big-endian framing fields of the wire protocol.

use vstd::prelude::*;
use vstd::bytes::*;
use crate::byteseq::append_bytes;
use crate::error::AqueductError;
use crate::protocol::VideoFrame;

verus! {

/// What `lz4_flex::block::compress` returns for the given input bytes: one
/// LZ4 block without any size prefix, a function of the input alone.
pub uninterp spec fn lz4_block(s: Seq<u8>) -> Seq<u8>;

#[verifier::external_type_specification]
#[verifier::external_body]
pub struct ExDecompressError(lz4_flex::block::DecompressError);

/// Relies on `lz4_flex::block::compress`: compresses all input bytes into
/// one LZ4 block, deterministically in the input.
#[verifier::external_body]
fn lz4_compress(input: &[u8]) -> (r: Vec<u8>)
    ensures
        r@ == lz4_block(input@),
{
    lz4_flex::block::compress(input)
}

/// Relies on `lz4_flex::block::decompress` (built with its safe-decode
/// feature, so it returns errors instead of panicking): the output never
/// exceeds the given bound, and decompressing the exact output of
/// `lz4_flex::block::compress` recovers the compressed bytes whenever they
/// fit the bound.
#[verifier::external_body]
fn lz4_decompress(input: &[u8], min_uncompressed_size: usize) -> (r: Result<
    Vec<u8>,
    lz4_flex::block::DecompressError,
>)
    ensures
        r is Ok ==> r->Ok_0@.len() <= min_uncompressed_size,
        forall|s: Seq<u8>|
            input@ == #[trigger] lz4_block(s) && s.len() <= min_uncompressed_size ==> r is Ok
                && r->Ok_0@ == s,
{
    lz4_flex::block::decompress(input, min_uncompressed_size)
}

/// The codec's self-describing block for a raw payload: the payload's
/// length as a four-byte little-endian field, then its LZ4 block.
pub open spec fn codec_block(s: Seq<u8>) -> Seq<u8>
    recommends
        s.len() <= u32::MAX,
{
    spec_u32_to_le_bytes(s.len() as u32) + lz4_block(s)
}

/// A compress capability: produces a self-describing compressed block for
/// a video frame's payload, either freshly allocated or appended to a
/// caller-owned growable buffer whose pre-existing content is left
/// untouched.
pub trait VideoEncoder {
    /// The self-describing block this encoder produces for a raw payload.
    spec fn encoded_block(data: Seq<u8>) -> Seq<u8>;

    fn encode(&mut self, frame: &VideoFrame) -> (r: Result<Vec<u8>, AqueductError>)
        ensures
            r is Ok ==> r->Ok_0@ == Self::encoded_block(frame.data@),
    ;

    fn encode_into(&mut self, frame: &VideoFrame, dst: &mut Vec<u8>) -> (r: Result<
        (),
        AqueductError,
    >)
        ensures
            r is Ok ==> final(dst)@ == old(dst)@ + Self::encoded_block(frame.data@),
            r is Err ==> final(dst)@ == old(dst)@,
    ;
}

/// A decompress capability: inverts the matching encoder's block, either
/// into a fresh buffer or appended to a caller-owned growable buffer whose
/// pre-existing content is left untouched.
pub trait VideoDecoder {
    /// The raw payloads this decoder can represent.
    spec fn decodable(data: Seq<u8>) -> bool;

    /// The self-describing block this decoder inverts for a representable
    /// raw payload.
    spec fn decodable_block(data: Seq<u8>) -> Seq<u8>;

    fn decode(&mut self, data: &[u8]) -> (r: Result<Vec<u8>, AqueductError>)
        ensures
            forall|s: Seq<u8>|
                Self::decodable(s) && data@ == #[trigger] Self::decodable_block(s) ==> r is Ok
                    && r->Ok_0@ == s,
    ;

    fn decode_into(&mut self, data: &[u8], dst: &mut Vec<u8>) -> (r: Result<(), AqueductError>)
        ensures
            forall|s: Seq<u8>|
                Self::decodable(s) && data@ == #[trigger] Self::decodable_block(s) ==> r is Ok
                    && final(dst)@ == old(dst)@ + s,
            r is Err ==> final(dst)@ == old(dst)@,
    ;
}

/// The provided codec: LZ4 block compression behind the self-describing
/// [`codec_block`] format.
pub struct Lz4Codec;

impl Lz4Codec {
    pub fn new() -> (r: Self) {
        Lz4Codec
    }

    /// Compress a frame's payload into a fresh buffer holding its
    /// self-describing block. Fails only for a payload whose length does
    /// not fit the codec's four-byte size field.
    pub fn encode(&mut self, frame: &VideoFrame) -> (r: Result<Vec<u8>, AqueductError>)
        ensures
            frame.data@.len() <= u32::MAX ==> r is Ok,
            r is Ok ==> frame.data@.len() <= u32::MAX && r->Ok_0@ == codec_block(frame.data@),
            r is Err ==> r->Err_0 matches AqueductError::Serialization(_),
    {
        let mut dst: Vec<u8> = Vec::new();
        match self.encode_into(frame, &mut dst) {
            Ok(()) => {
                proof {
                    assert(Seq::<u8>::empty() + codec_block(frame.data@) =~= codec_block(
                        frame.data@,
                    ));
                }
                Ok(dst)
            },
            Err(e) => Err(e),
        }
    }

    /// Compress a frame's payload, appending its self-describing block to
    /// `dst`; the buffer's pre-existing content is left untouched. Fails
    /// only for a payload whose length does not fit the codec's four-byte
    /// size field, and then leaves `dst` unchanged.
    pub fn encode_into(&mut self, frame: &VideoFrame, dst: &mut Vec<u8>) -> (r: Result<
        (),
        AqueductError,
    >)
        ensures
            frame.data@.len() <= u32::MAX ==> r is Ok,
            r is Ok ==> frame.data@.len() <= u32::MAX && final(dst)@ == old(dst)@ + codec_block(
                frame.data@,
            ),
            r is Err ==> final(dst)@ == old(dst)@ && r->Err_0 matches AqueductError::Serialization(
                _,
            ),
    {
        if frame.data.len() > u32::MAX as usize {
            return Err(AqueductError::Serialization("payload too large for size field".to_owned()));
        }
        let size_field = u32_to_le_bytes(frame.data.len() as u32);
        append_bytes(dst, size_field.as_slice());
        let compressed = lz4_compress(frame.data.as_slice());
        append_bytes(dst, compressed.as_slice());
        proof {
            assert(dst@ =~= old(dst)@ + codec_block(frame.data@));
        }
        Ok(())
    }

    /// Decompress a self-describing block into a fresh buffer. Exactly
    /// inverts [`Lz4Codec::encode`]: on the block of any payload it
    /// returns that payload. Fails with a protocol error when fewer than
    /// four bytes are present, when the compressed data is corrupt, or
    /// when the declared and actually-produced sizes differ.
    pub fn decode(&mut self, data: &[u8]) -> (r: Result<Vec<u8>, AqueductError>)
        ensures
            forall|s: Seq<u8>|
                s.len() <= u32::MAX && data@ == #[trigger] codec_block(s) ==> r is Ok
                    && r->Ok_0@ == s,
            r is Ok ==> data@.len() >= 4 && r->Ok_0@.len() == spec_u32_from_le_bytes(
                data@.subrange(0, 4),
            ),
            r is Err ==> r->Err_0 matches AqueductError::Protocol(_),
            data@.len() < 4 ==> r is Err,
    {
        let mut dst: Vec<u8> = Vec::new();
        match self.decode_into(data, &mut dst) {
            Ok(()) => {
                proof {
                    assert forall|s: Seq<u8>|
                        s.len() <= u32::MAX && data@ == #[trigger] codec_block(s) implies dst@
                        == s by {
                        assert(Seq::<u8>::empty() + s =~= s);
                    }
                }
                Ok(dst)
            },
            Err(e) => Err(e),
        }
    }

    /// Decompress a self-describing block, appending the raw payload to
    /// `dst`; the buffer's pre-existing content is left untouched. On the
    /// block of any payload it appends exactly that payload. Fails with a
    /// protocol error when fewer than four bytes are present, when the
    /// compressed data is corrupt, or when the declared and
    /// actually-produced sizes differ, and then leaves `dst` unchanged.
    pub fn decode_into(&mut self, data: &[u8], dst: &mut Vec<u8>) -> (r: Result<(), AqueductError>)
        ensures
            forall|s: Seq<u8>|
                s.len() <= u32::MAX && data@ == #[trigger] codec_block(s) ==> r is Ok
                    && final(dst)@ == old(dst)@ + s,
            r is Ok ==> data@.len() >= 4 && final(dst)@.len() == old(dst)@.len()
                + spec_u32_from_le_bytes(data@.subrange(0, 4)) && final(dst)@.subrange(
                0,
                old(dst)@.len() as int,
            ) == old(dst)@,
            r is Err ==> final(dst)@ == old(dst)@ && r->Err_0 matches AqueductError::Protocol(_),
            data@.len() < 4 ==> r is Err,
    {
        proof {
            lemma_auto_spec_u32_to_from_le_bytes();
        }
        let data_len = data.len();
        if data_len < 4 {
            return Err(AqueductError::Protocol("block too short for size header".to_owned()));
        }
        let declared = u32_from_le_bytes(vstd::slice::slice_subrange(data, 0, 4)) as usize;
        let rest = vstd::slice::slice_subrange(data, 4, data_len);
        proof {
            assert forall|s: Seq<u8>|
                s.len() <= u32::MAX && data@ == #[trigger] codec_block(s) implies rest@
                == lz4_block(s) && declared == s.len() by {
                assert(data@.subrange(0, 4) =~= spec_u32_to_le_bytes(s.len() as u32));
                assert(rest@ =~= lz4_block(s));
            }
        }
        match lz4_decompress(rest, declared) {
            Ok(produced) => {
                if produced.len() != declared {
                    return Err(
                        AqueductError::Protocol(
                            "declared and produced sizes differ".to_owned(),
                        ),
                    );
                }
                append_bytes(dst, produced.as_slice());
                Ok(())
            },
            Err(_) => Err(AqueductError::Protocol("corrupt compressed block".to_owned())),
        }
    }
}

impl VideoEncoder for Lz4Codec {
    open spec fn encoded_block(data: Seq<u8>) -> Seq<u8> {
        codec_block(data)
    }

    fn encode(&mut self, frame: &VideoFrame) -> (r: Result<Vec<u8>, AqueductError>) {
        Lz4Codec::encode(self, frame)
    }

    fn encode_into(&mut self, frame: &VideoFrame, dst: &mut Vec<u8>) -> (r: Result<
        (),
        AqueductError,
    >) {
        Lz4Codec::encode_into(self, frame, dst)
    }
}

impl VideoDecoder for Lz4Codec {
    open spec fn decodable(data: Seq<u8>) -> bool {
        data.len() <= u32::MAX
    }

    open spec fn decodable_block(data: Seq<u8>) -> Seq<u8> {
        codec_block(data)
    }

    fn decode(&mut self, data: &[u8]) -> (r: Result<Vec<u8>, AqueductError>) {
        Lz4Codec::decode(self, data)
    }

    fn decode_into(&mut self, data: &[u8], dst: &mut Vec<u8>) -> (r: Result<(), AqueductError>) {
        Lz4Codec::decode_into(self, data, dst)
    }
}

} // verus!
