use vstd::prelude::*;

verus! {

/// Malformed tagged-value data: a typed failure of the codec. Decoding never
/// panics on malformed remote input; it returns one of these.
#[derive(Clone, Copy, Debug, PartialEq, Eq, Structural)]
pub enum FormatError {
    /// The buffer is shorter than a length or tag demands.
    UnexpectedEof,
    /// A field name was seen twice in one document.
    DuplicateField,
    /// A required field was absent at the end of a document.
    MissingRequiredField,
    /// A type tag outside the known set.
    UnknownTypeTag,
    /// A network-address document whose payload shape does not match its
    /// discriminant, or whose discriminant is unknown.
    InvalidNetworkAddress,
}

/// A failure at the framing layer: a frame that must not be processed further.
#[derive(Clone, Copy, Debug, PartialEq, Eq, Structural)]
pub enum FramingError {
    /// The 8-byte magic does not match the protocol constant.
    InvalidSignature,
    /// The declared payload length is zero.
    InvalidFrameLength,
    /// Fewer payload bytes than the header declared.
    UnexpectedEof,
}

/// A session-level failure: the caller should close the transport.
#[derive(Clone, Copy, Debug, PartialEq, Eq, Structural)]
pub enum ProtocolError {
    /// The response's network id differs from the request's.
    NetworkMismatch,
    /// A command id outside the known set.
    UnsupportedCommand,
    /// The handshake request could not be encoded.
    EncodeError,
    /// The handshake response could not be decoded.
    DecodeError,
}

} // verus!
