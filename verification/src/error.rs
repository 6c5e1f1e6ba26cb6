//! Error kinds of the reception pipeline.

use vstd::prelude::*;

verus! {

/// Everything that can go wrong between the first received byte and the
/// acknowledgment. None of these is fatal: a frame that fails is discarded
/// and the receiver waits for the next one.
#[derive(Clone, Copy, Debug, PartialEq, Eq, Structural)]
pub enum LinkError {
    /// The frame is shorter than the smallest possible frame, or does not
    /// open with the reception tag.
    FrameTooShort,
    /// Fewer than two commas follow the reception tag.
    MissingDelimiters,
    /// The length field is not an unsigned decimal number that fits the
    /// machine word.
    LengthFieldUnparseable,
    /// The declared payload length reaches past the end of the frame.
    PayloadLengthExceedsBuffer,
    /// The payload has no room for one data byte and the two checksum bytes.
    PayloadTooShortForChecksum,
    /// The checksum carried by the payload differs from the one computed
    /// over its data bytes.
    ChecksumMismatch,
    /// The data bytes are not an encoded telemetry packet.
    PacketDecodeFailure,
    /// The text after the payload does not give signal strength and
    /// signal-to-noise ratio.
    TrailerUnparseable,
    /// The acknowledgment packet did not fit its output buffer.
    AckEncodeFailure,
    /// A byte arrived while the receive buffer was full and was dropped.
    BufferOverflowDrop,
}

/// Failure of the binary packet codec.
#[derive(Clone, Copy, Debug, PartialEq, Eq, Structural)]
pub enum DecodeError {
    /// The bytes do not have the encoded form of the packet.
    MalformedPacket,
}

} // verus!
