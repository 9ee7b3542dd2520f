use vstd::prelude::*;

verus! {

/// A frame that cannot be taken from the stream or put on it. The stream cannot
/// be brought back in step after one: the connection is to be closed.
#[derive(Debug, Clone, Copy, PartialEq, Eq, Structural)]
pub enum ProtocolError {
    /// The length that a frame declares is above the configured maximum.
    Oversized,
    /// The lengths inside a frame contradict each other.
    Malformed,
    /// A header too long for its 24-bit length field.
    HeaderTooLong,
    /// A frame too long for its 32-bit length field.
    FrameTooLong,
}

/// A header segment that is no header. Fatal for the frame that holds it.
#[derive(Debug, Clone, Copy, PartialEq, Eq, Structural)]
pub enum HeaderDecodeError {
    /// The segment is not strict JSON.
    Syntax,
    /// The JSON is no object, lacks a required field, or holds a value of the wrong kind.
    Field,
}

/// A body that is not what the request asked for.
#[derive(Debug, Clone, Copy, PartialEq, Eq, Structural)]
pub enum BodyDecodeError {
    /// The bytes are not UTF-8 text.
    Encoding,
    /// The text, repaired where that applies, is not strict JSON.
    Syntax,
    /// The JSON lacks a required field or holds a value of the wrong kind.
    Field,
}

/// What can go wrong between the bytes of a stream and a command.
#[derive(Debug, Clone, Copy, PartialEq, Eq, Structural)]
pub enum DecodeError {
    Protocol(ProtocolError),
    Header(HeaderDecodeError),
    Body(BodyDecodeError),
}

} // verus!
