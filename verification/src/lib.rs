//! A low-latency transport for live video, audio, and metadata frames from
//! one producer to many consumers over a byte stream.
//!
//! The crate covers the transport engine itself: the length-prefixed wire
//! framing of packets, the fan-out distribution of published packets to many
//! subscribers with loss-based backpressure, and the per-frame block
//! compression pipeline. Network sockets, service discovery, and task
//! plumbing live outside this crate; they exchange plain packet values with
//! the functions here.

pub mod byteseq;
pub mod codec;
pub mod error;
pub mod fanout;
pub mod protocol;
pub mod wire;

pub use codec::{Lz4Codec, VideoDecoder, VideoEncoder};
pub use error::AqueductError;
pub use fanout::{Distributor, RecvOutcome, Subscriber};
pub use protocol::{AudioFrame, FrameFlags, MetadataFrame, Packet, PixelFormat, VideoFrame};
pub use wire::{StreamEnd, StreamReader};
