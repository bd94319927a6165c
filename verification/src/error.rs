use vstd::prelude::*;

verus! {

/// The error kinds of the transport.
///
/// I/O and protocol errors are fatal to the single connection in which they
/// occur; they never cross connections. Compression failures on the send
/// path trigger a fallback allocation path rather than aborting publication.
#[derive(Debug)]
pub enum AqueductError {
    /// A read or write on a connection failed, or the stream ended.
    Io(String),
    /// A value could not be serialized onto the wire.
    Serialization(String),
    /// The byte stream violated the wire protocol: a bad header, an
    /// oversized declared length, an unknown type or format code, truncated
    /// fixed fields, or a corrupt compressed block.
    Protocol(String),
    /// Service advertisement or browsing could not be set up.
    Discovery(String),
    /// The caller supplied an unusable configuration.
    Config(String),
}

impl AqueductError {
    /// A human-readable description of the error.
    pub fn message(&self) -> String {
        match self {
            AqueductError::Io(m) => m.clone(),
            AqueductError::Serialization(m) => m.clone(),
            AqueductError::Protocol(m) => m.clone(),
            AqueductError::Discovery(m) => m.clone(),
            AqueductError::Config(m) => m.clone(),
        }
    }
}

} // verus!
