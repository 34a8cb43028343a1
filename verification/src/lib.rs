//! Decoder for Steam's voice-chat payload container.
//!
//! A payload is a little-endian 64-bit sender id, a stream of tagged
//! sub-packets (silence runs, sample-rate announcements, Opus data with
//! per-frame sequence numbers), and a trailing CRC-32 over everything
//! before it.  [`SteamVoiceData`] validates and splits a payload,
//! [`SteamVoiceDecoder`] turns its sub-packets into mono `i16` samples.

mod crc;
mod decoder;
mod error;
mod parse;

pub use crc::{crc32b, lemma_crc32_fold_snoc, spec_crc32};
pub use decoder::{
    deliver_post, frame_exit_post, frame_walk_post, packet_walk_post, packets_opus_free,
    packets_rate_stable, silence_sum, spec_frame_step, spec_next_seq, spec_packet_walk,
    stream_opus_free, DecodeSession, DriverCall, DriverReply, FrameStep, PacketOutcome, Phase,
    SteamVoiceDecoder,
};
pub use error::SteamAudioError;
pub use parse::{
    lemma_container_round_trip, lemma_packets_round_trip, lemma_payload_round_trip,
    lemma_read_serialized_packet, read_bytes, read_u16, spec_packet_valid, spec_parse_packets,
    spec_parse_payload, spec_read_packet, spec_serialize_packet, spec_serialize_packets, Packet,
    SpecPacket, SteamOpusData, SteamPacketIterator, SteamVoiceData,
};
