use vstd::prelude::*;

verus! {

/// Everything that can go wrong while validating a payload or decoding
/// its sub-packets.
#[derive(Clone, Copy, Debug, PartialEq, Eq, Structural)]
pub enum SteamAudioError {
    /// The trailing CRC-32 of the payload does not match the CRC-32
    /// computed over the bytes before it.
    CrcMismatch { expected: u32, actual: u32 },
    /// The payload or one of its frames is shorter than its framing claims.
    InsufficientData,
    /// Decoding reached or passed the end of the output buffer.
    InsufficientOutputBuffer,
    /// A sub-packet carries a tag that is neither silence, Opus data,
    /// nor a sample-rate announcement.
    UnknownPacketType { ty: u8 },
    /// The Opus decoder reported a failure; the payload is the raw
    /// libopus error code handed back by the caller's decoder.
    Opus(i32),
    /// Opus data arrived before any sample-rate announcement.
    NoSampleRate,
}

} // verus!
