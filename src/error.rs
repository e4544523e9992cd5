//! Errors of the protocol engine.
use vstd::prelude::*;

verus! {

/// A varint ran past the number of bytes it may take.
#[derive(Debug, Clone, Copy, PartialEq, Eq)]
pub struct VarintTooBig;

/// A frame was asked for whose length does not fit the length prefix.
#[derive(Debug, Clone, Copy, PartialEq, Eq)]
pub struct FrameToobig;

/// The peer closed the stream.
#[derive(Debug, Clone, Copy, PartialEq, Eq)]
pub struct ConnectionClosed;

/// Why a frame or a packet could not be read or written. Every one of them
/// is fatal for the connection it occurs on.
#[derive(Debug, Clone, Copy, PartialEq, Eq)]
pub enum ProtocolError {
    /// A varint did not end within the bytes it may take.
    VarintTooLong,
    /// The bytes ended in the middle of a value.
    UnexpectedEnd,
    /// A string's length prefix is negative.
    NegativeLength,
    /// A string is longer than its field allows.
    StringTooLong,
    /// A string's bytes are not UTF-8.
    InvalidUtf8,
    /// A boolean byte is neither 0 nor 1.
    InvalidBool,
    /// A byte array's length prefix is negative, too large, or not the fixed length.
    InvalidLength,
    /// A tag of a tagged union, or an enumerated byte, is unknown.
    InvalidTag,
    /// A decoded packet left bytes of its body unread.
    TrailingBytes,
    /// A frame carries another packet id than the one expected.
    UnexpectedId,
    /// A packet kind is not defined for the connection's direction, state and version.
    UnknownPacket,
    /// A payload is too long for a frame.
    FrameTooBig,
    /// A compressed body inflated to fewer bytes than it declared.
    CompressedBodyShorterThanDeclared,
    /// A compressed body is not a zlib stream of the declared size.
    DecompressFailed,
    /// The compressor failed.
    CompressFailed,
    /// The stream cipher failed.
    CipherFailed,
    /// The stream ended in the middle of a frame.
    ConnectionClosedMidFrame,
}

} // verus!
