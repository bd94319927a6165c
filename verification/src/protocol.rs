use vstd::prelude::*;

verus! {

/// One of the seven fixed pixel layouts of the wire protocol.
///
/// The numeric codes 0 through 6 given by [`PixelFormat::code`] and
/// [`PixelFormat::from_u8`] are part of the protocol, not an internal
/// detail: they must be exact and stable across the wire.
#[derive(Debug, Clone, Copy, PartialEq, Eq, Structural)]
pub enum PixelFormat {
    /// 4:2:2 8-bit interleaved (code 0).
    UYVY,
    /// 4:2:2:4 8-bit interleaved with alpha (code 1).
    UYVA,
    /// 4:4:4 8-bit full color (code 2).
    BGRA,
    /// 4:2:0 8-bit planar (code 3).
    NV12,
    /// 4:2:0 8-bit planar (code 4).
    YV12,
    /// 4:2:2 16-bit planar (code 5).
    P216,
    /// 4:2:2:4 16-bit planar with alpha (code 6).
    PA16,
}

/// The wire code of a pixel format.
pub open spec fn spec_format_code(f: PixelFormat) -> u8 {
    match f {
        PixelFormat::UYVY => 0,
        PixelFormat::UYVA => 1,
        PixelFormat::BGRA => 2,
        PixelFormat::NV12 => 3,
        PixelFormat::YV12 => 4,
        PixelFormat::P216 => 5,
        PixelFormat::PA16 => 6,
    }
}

/// The pixel format a wire code stands for, if any: codes 0 through 6 name
/// the seven formats, every other code is rejected.
pub open spec fn spec_format_from_code(n: u8) -> Option<PixelFormat> {
    match n {
        0u8 => Some(PixelFormat::UYVY),
        1u8 => Some(PixelFormat::UYVA),
        2u8 => Some(PixelFormat::BGRA),
        3u8 => Some(PixelFormat::NV12),
        4u8 => Some(PixelFormat::YV12),
        5u8 => Some(PixelFormat::P216),
        6u8 => Some(PixelFormat::PA16),
        _ => None,
    }
}

impl PixelFormat {
    /// Decode a numeric wire code: `Some` exactly for codes 0 through 6.
    pub fn from_u8(n: u8) -> (r: Option<Self>)
        ensures
            r == spec_format_from_code(n),
            r is Some <==> n <= 6,
    {
        match n {
            0 => Some(Self::UYVY),
            1 => Some(Self::UYVA),
            2 => Some(Self::BGRA),
            3 => Some(Self::NV12),
            4 => Some(Self::YV12),
            5 => Some(Self::P216),
            6 => Some(Self::PA16),
            _ => None,
        }
    }

    /// The numeric wire code of this format.
    pub fn code(self) -> (r: u8)
        ensures
            r == spec_format_code(self),
    {
        match self {
            Self::UYVY => 0,
            Self::UYVA => 1,
            Self::BGRA => 2,
            Self::NV12 => 3,
            Self::YV12 => 4,
            Self::P216 => 5,
            Self::PA16 => 6,
        }
    }
}

/// Round trip of the pixel-format wire codes: every code 0 through 6
/// decodes to a format that encodes back to the same code, every format's
/// code decodes back to the same format, and every code above 6 is
/// rejected.
pub proof fn lemma_pixel_format_code_round_trip()
    ensures
        forall|n: u8|
            n <= 6 ==> (#[trigger] spec_format_from_code(n)) is Some
                && spec_format_code(spec_format_from_code(n)->Some_0) == n,
        forall|f: PixelFormat| spec_format_from_code(#[trigger] spec_format_code(f)) == Some(f),
        forall|n: u8| n > 6 ==> (#[trigger] spec_format_from_code(n)) is None,
{
}

/// Independent boolean flags carried with every video frame. They are
/// transported but not interpreted by the transport core.
#[derive(Debug, Clone, Copy, PartialEq, Eq, Structural)]
pub struct FrameFlags {
    pub alpha: bool,
    pub premultiplied: bool,
    pub high_bit_depth: bool,
}

impl Default for FrameFlags {
    /// All flags cleared.
    fn default() -> (r: Self)
        ensures
            r == (FrameFlags { alpha: false, premultiplied: false, high_bit_depth: false }),
    {
        FrameFlags { alpha: false, premultiplied: false, high_bit_depth: false }
    }
}

/// One timestamped unit of video content.
///
/// `data` holds raw pixels before sender-side compression, the codec's
/// self-describing compressed block between compression and receive-side
/// decompression, and raw pixels again after it.
#[derive(Debug)]
pub struct VideoFrame {
    /// Width in pixels. Expected positive, not validated at this layer.
    pub width: u32,
    /// Height in pixels. Expected positive, not validated at this layer.
    pub height: u32,
    pub format: PixelFormat,
    pub flags: FrameFlags,
    /// Elapsed microseconds since a sender-local reference instant.
    pub timestamp_micros: u64,
    pub data: Vec<u8>,
}

/// One timestamped unit of audio content: interleaved 32-bit samples,
/// never compressed.
#[derive(Debug)]
pub struct AudioFrame {
    /// Sample rate in Hz.
    pub sample_rate: u32,
    /// Number of interleaved channels.
    pub channels: u32,
    /// Elapsed microseconds since a sender-local reference instant.
    pub timestamp_micros: u64,
    pub data: Vec<u8>,
}

/// One timestamped unit of metadata content: UTF-8 text, conventionally
/// XML, unconstrained otherwise.
#[derive(Debug)]
pub struct MetadataFrame {
    /// Elapsed microseconds since a sender-local reference instant.
    pub timestamp_micros: u64,
    pub content: String,
}

/// The discriminated union the wire carries: exactly one variant is active
/// at a time.
#[derive(Debug)]
pub enum Packet {
    Video(VideoFrame),
    Audio(AudioFrame),
    Metadata(MetadataFrame),
}

/// The mathematical value of a [`VideoFrame`].
pub struct VideoFrameView {
    pub width: u32,
    pub height: u32,
    pub format: PixelFormat,
    pub flags: FrameFlags,
    pub timestamp_micros: u64,
    pub data: Seq<u8>,
}

/// The mathematical value of an [`AudioFrame`].
pub struct AudioFrameView {
    pub sample_rate: u32,
    pub channels: u32,
    pub timestamp_micros: u64,
    pub data: Seq<u8>,
}

/// The mathematical value of a [`MetadataFrame`].
pub struct MetadataFrameView {
    pub timestamp_micros: u64,
    pub content: Seq<char>,
}

/// The mathematical value of a [`Packet`].
pub enum PacketView {
    Video(VideoFrameView),
    Audio(AudioFrameView),
    Metadata(MetadataFrameView),
}

impl View for VideoFrame {
    type V = VideoFrameView;

    open spec fn view(&self) -> VideoFrameView {
        VideoFrameView {
            width: self.width,
            height: self.height,
            format: self.format,
            flags: self.flags,
            timestamp_micros: self.timestamp_micros,
            data: self.data@,
        }
    }
}

impl View for AudioFrame {
    type V = AudioFrameView;

    open spec fn view(&self) -> AudioFrameView {
        AudioFrameView {
            sample_rate: self.sample_rate,
            channels: self.channels,
            timestamp_micros: self.timestamp_micros,
            data: self.data@,
        }
    }
}

impl View for MetadataFrame {
    type V = MetadataFrameView;

    open spec fn view(&self) -> MetadataFrameView {
        MetadataFrameView { timestamp_micros: self.timestamp_micros, content: self.content@ }
    }
}

impl View for Packet {
    type V = PacketView;

    open spec fn view(&self) -> PacketView {
        match self {
            Packet::Video(f) => PacketView::Video(f@),
            Packet::Audio(f) => PacketView::Audio(f@),
            Packet::Metadata(f) => PacketView::Metadata(f@),
        }
    }
}

/// The data-model invariant of an audio frame: the interleaved buffer
/// holds a whole number of sample groups, four bytes per channel. The core
/// carries frames that violate it unchanged; the invariant is a documented
/// expectation on producers, not an enforced runtime check.
pub open spec fn audio_frame_aligned(f: AudioFrameView) -> bool {
    f.channels > 0 ==> f.data.len() % (f.channels as nat * 4) == 0
}

impl Packet {
    /// An independent packet with the same value, so one published packet
    /// can be handed to every subscriber.
    pub fn duplicate(&self) -> (r: Packet)
        ensures
            r@ == self@,
    {
        match self {
            Packet::Video(f) => Packet::Video(
                VideoFrame {
                    width: f.width,
                    height: f.height,
                    format: f.format,
                    flags: f.flags,
                    timestamp_micros: f.timestamp_micros,
                    data: vstd::slice::slice_to_vec(f.data.as_slice()),
                },
            ),
            Packet::Audio(f) => Packet::Audio(
                AudioFrame {
                    sample_rate: f.sample_rate,
                    channels: f.channels,
                    timestamp_micros: f.timestamp_micros,
                    data: vstd::slice::slice_to_vec(f.data.as_slice()),
                },
            ),
            Packet::Metadata(f) => Packet::Metadata(
                MetadataFrame { timestamp_micros: f.timestamp_micros, content: f.content.clone() },
            ),
        }
    }
}

} // verus!
