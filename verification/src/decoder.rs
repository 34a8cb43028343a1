use vstd::prelude::*;
use vstd::bytes::{spec_u16_from_le_bytes, u16_from_le_bytes};
use vstd::slice::{slice_subrange, slice_to_vec};
use crate::error::SteamAudioError;
use crate::parse::{
    Packet, SpecPacket, SteamPacketIterator, SteamVoiceData, spec_parse_packets,
    spec_read_packet,
};

verus! {

/// Where a decode session stands: which reply it is waiting for, or
/// whether it has finished.
#[derive(Clone, Copy, Debug, PartialEq, Eq, Structural)]
pub enum Phase {
    /// Ready to start consuming sub-packets; no call is outstanding.
    Packets,
    /// Waiting to hear that the Opus decoder was created.
    Creating,
    /// Waiting for a state reset asked for by a `0xFFFF` frame header.
    SentinelReset,
    /// Waiting for a state reset asked for by a backward sequence jump.
    BackReset,
    /// Waiting for the sample count of a loss-concealment synthesis.
    Plc,
    /// Waiting for the sample count of a real Opus frame.
    Frame,
    /// The decode call is over; the outcome is ready.
    Done,
}

/// What the caller's Opus decoder must do next for the session.
#[derive(Debug)]
pub enum DriverCall {
    /// Create a fresh mono decoder at `rate` Hz, replacing any prior one.
    Create { rate: u32 },
    /// Reset the decoder's internal state.
    Reset,
    /// Decode `input` into the output buffer at index `at`, which has
    /// `room` samples of space left.  An empty `input` asks for a
    /// loss-concealment frame.
    Decode { input: Vec<u8>, at: usize, room: usize },
    /// The session is over; `samples` were produced.
    Done { samples: usize },
    /// The session is over with an error.
    Fail { error: SteamAudioError },
}

/// What the caller reports back after performing the session's call.
#[derive(Clone, Copy, Debug, PartialEq, Eq, Structural)]
pub enum DriverReply {
    /// Nothing yet: starts the session.
    Start,
    /// The decoder was created.
    Created,
    /// The decoder state was reset.
    DidReset,
    /// A decode produced this many samples.
    Decoded { samples: usize },
    /// The decoder reported this raw libopus error code.
    OpusFailed { code: i32 },
}

/// No sub-packet of the stream carries Opus data.
pub open spec fn packets_opus_free(ps: Seq<SpecPacket>) -> bool {
    forall|i: int| 0 <= i < ps.len() ==> !((#[trigger] ps[i]) is OpusPlc)
}

/// Every sample-rate announcement in the stream repeats `rate`.
pub open spec fn packets_rate_stable(ps: Seq<SpecPacket>, rate: u16) -> bool {
    forall|i: int|
        0 <= i < ps.len() ==> ((#[trigger] ps[i]) matches SpecPacket::SampleRate(r) ==> r == rate)
}

/// The samples that a stream's silence runs announce, in total.
pub open spec fn silence_sum(ps: Seq<SpecPacket>) -> int
    decreases ps.len(),
{
    if ps.len() == 0 {
        0
    } else {
        (match ps[0] {
            SpecPacket::Silence(n) => n as int,
            _ => 0,
        }) + silence_sum(ps.skip(1))
    }
}

/// The byte stream parses cleanly and carries no Opus data.
pub open spec fn stream_opus_free(bytes: Seq<u8>) -> bool {
    &&& spec_parse_packets(bytes) is Ok
    &&& packets_opus_free(spec_parse_packets(bytes)->Ok_0)
}

/// A parse result with already-consumed packets put back on the front.
pub open spec fn with_prefix(
    done: Seq<SpecPacket>,
    r: Result<Seq<SpecPacket>, SteamAudioError>,
) -> Result<Seq<SpecPacket>, SteamAudioError> {
    match r {
        Ok(tp) => Ok(done + tp),
        Err(e) => Err(e),
    }
}

proof fn lemma_silence_sum_nonneg(ps: Seq<SpecPacket>)
    ensures
        silence_sum(ps) >= 0,
    decreases ps.len(),
{
    if ps.len() > 0 {
        lemma_silence_sum_nonneg(ps.skip(1));
    }
}

proof fn lemma_silence_sum_concat(a: Seq<SpecPacket>, b: Seq<SpecPacket>)
    ensures
        silence_sum(a + b) == silence_sum(a) + silence_sum(b),
    decreases a.len(),
{
    if a.len() == 0 {
        assert(a + b =~= b);
    } else {
        assert((a + b)[0] == a[0]);
        assert((a + b).skip(1) =~= a.skip(1) + b);
        lemma_silence_sum_concat(a.skip(1), b);
    }
}

proof fn lemma_silence_sum_push(ps: Seq<SpecPacket>, p: SpecPacket)
    ensures
        silence_sum(ps.push(p)) == silence_sum(ps) + (match p {
            SpecPacket::Silence(n) => n as int,
            _ => 0,
        }),
{
    assert(ps.push(p) =~= ps + seq![p]);
    lemma_silence_sum_concat(ps, seq![p]);
    assert(seq![p].skip(1) =~= Seq::<SpecPacket>::empty());
    assert(seq![p][0] == p);
    assert(silence_sum(Seq::<SpecPacket>::empty()) == 0);
    assert(silence_sum(seq![p]) == (match seq![p][0] {
        SpecPacket::Silence(n) => n as int,
        _ => 0,
    }) + silence_sum(seq![p].skip(1)));
}

/// The sequence number a delivered frame leaves behind: one past its
/// own, wrapping at the 16-bit boundary.
pub open spec fn spec_next_seq(fseq: u16) -> u16 {
    if fseq == 0xFFFF {
        0u16
    } else {
        (fseq + 1) as u16
    }
}

/// What the frame walk finds at cursor `pos` of an Opus sub-packet,
/// expecting sequence number `seq`.
pub enum FrameStep {
    /// Fewer than three bytes left: the walk ends, stray bytes dropped.
    Exhausted,
    /// A `0xFFFF` header: reset the decoder, expect sequence zero.
    Sentinel { pos: int },
    /// A header with no room left for its sequence field.
    Truncated,
    /// The frame's sequence is behind the expected one: reset, no
    /// concealment.
    Backward { pos: int, len: u16, fseq: u16 },
    /// The frame's sequence is ahead: `lost` frames must be synthesized
    /// before it.
    Conceal { pos: int, len: u16, fseq: u16, lost: u16 },
    /// The frame is the expected one: decode it at once.
    Deliver { pos: int, len: u16, fseq: u16 },
}

/// Reads one frame header off the sub-packet: the length field, the
/// sentinel check, and the comparison of the frame's sequence number
/// with the expected one.
pub open spec fn spec_frame_step(opus: Seq<u8>, pos: int, seq: u16) -> FrameStep {
    if opus.len() - pos <= 2 {
        FrameStep::Exhausted
    } else {
        let hdr = spec_u16_from_le_bytes(opus.subrange(pos, pos + 2));
        if hdr == 0xFFFF {
            FrameStep::Sentinel { pos: pos + 2 }
        } else if opus.len() - (pos + 2) < 2 {
            FrameStep::Truncated
        } else {
            let fseq = spec_u16_from_le_bytes(opus.subrange(pos + 2, pos + 4));
            if fseq < seq {
                FrameStep::Backward { pos: pos + 4, len: hdr, fseq }
            } else if fseq > seq {
                FrameStep::Conceal { pos: pos + 4, len: hdr, fseq, lost: (fseq - seq) as u16 }
            } else {
                FrameStep::Deliver { pos: pos + 4, len: hdr, fseq }
            }
        }
    }
}

/// What delivering the frame at `pos0` (its header already consumed,
/// its length `len` and sequence `fseq` in hand) does to the session:
/// the expected sequence moves past the frame, and the frame's bytes
/// are handed to the decoder, or the walk fails on a short sub-packet.
pub open spec fn deliver_post(
    opus: Seq<u8>,
    pos0: int,
    len: u16,
    fseq: u16,
    total0: int,
    s: DecodeSession,
    r: DriverCall,
) -> bool {
    &&& s.spec_seq() == spec_next_seq(fseq)
    &&& s.spec_opus() == opus
    &&& if opus.len() - pos0 >= len {
        &&& r matches DriverCall::Decode { input, at, room } && input@ == opus.subrange(
            pos0,
            pos0 + len,
        ) && at == total0
        &&& s.spec_pos() == pos0 + len
        &&& s.spec_phase() == Phase::Frame
        &&& s.spec_total() == total0
    } else {
        r matches DriverCall::Fail { error } && error == SteamAudioError::InsufficientData
    }
}

/// What one step of the frame walk, started at `pos0` with expected
/// sequence `seq0` and `total0` samples produced, leaves behind.
pub open spec fn frame_walk_post(
    opus: Seq<u8>,
    pos0: int,
    seq0: u16,
    total0: int,
    s: DecodeSession,
    r: DriverCall,
) -> bool {
    match spec_frame_step(opus, pos0, seq0) {
        FrameStep::Exhausted => true,  // the packet-stream clauses take over
        FrameStep::Sentinel { pos } => {
            &&& r is Reset
            &&& s.spec_phase() == Phase::SentinelReset
            &&& s.spec_opus() == opus
            &&& s.spec_pos() == pos
            &&& s.spec_seq() == seq0
            &&& s.spec_total() == total0
        },
        FrameStep::Truncated => r matches DriverCall::Fail { error } && error
            == SteamAudioError::InsufficientData,
        FrameStep::Backward { pos, len, fseq } => {
            &&& r is Reset
            &&& s.spec_phase() == Phase::BackReset
            &&& s.spec_opus() == opus
            &&& s.spec_pos() == pos
            &&& s.spec_cur_len() == len
            &&& s.spec_cur_seq() == fseq
            &&& s.spec_seq() == seq0
            &&& s.spec_total() == total0
        },
        FrameStep::Conceal { pos, len, fseq, lost } => {
            &&& r matches DriverCall::Decode { input, at, room } && input@ == Seq::<u8>::empty()
                && at == total0
            &&& s.spec_phase() == Phase::Plc
            &&& s.spec_opus() == opus
            &&& s.spec_pos() == pos
            &&& s.spec_cur_len() == len
            &&& s.spec_cur_seq() == fseq
            &&& s.spec_plc_left() == lost
            &&& s.spec_seq() == seq0
            &&& s.spec_total() == total0
        },
        FrameStep::Deliver { pos, len, fseq } => deliver_post(opus, pos, len, fseq, total0, s, r),
    }
}

/// Where consuming the sub-packet stream next needs the caller, given
/// the remaining bytes, the configured rate, whether a decoder exists,
/// and the running output total.
pub enum PacketOutcome {
    /// The stream ran out: the decode succeeds with this total.
    Finished { total: int },
    /// A bounds check failed: the output buffer is exhausted.
    Overflow,
    /// The stream is malformed; the parse error to report.
    ParseFail { error: SteamAudioError },
    /// Opus data arrived while no decoder exists.
    NoRate,
    /// A sample-rate change: a decoder must be created at `rate`.
    NeedDecoder { rate: u16, rest: Seq<u8>, total: int },
    /// An Opus sub-packet with a walkable frame stream begins.
    Opus { data: Seq<u8>, rest: Seq<u8>, total: int },
}

/// Walks the sub-packet stream until something needs the caller:
/// silence runs raise the total (with the buffer check after each
/// packet), repeated sample-rate announcements pass, a changed rate
/// asks for a decoder, and Opus data starts the frame walk — or, with
/// two or fewer bytes, is dropped whole after the buffer check.
pub open spec fn spec_packet_walk(
    rest: Seq<u8>,
    rate: u16,
    has_dec: bool,
    total: int,
    out_len: int,
) -> PacketOutcome
    decreases rest.len(),
{
    if rest.len() == 0 {
        PacketOutcome::Finished { total }
    } else {
        match spec_read_packet(rest) {
            Err(e) => PacketOutcome::ParseFail { error: e },
            Ok((p, rem)) => match p {
                SpecPacket::Silence(n) => if total + n >= out_len {
                    PacketOutcome::Overflow
                } else {
                    spec_packet_walk(rem, rate, has_dec, total + n, out_len)
                },
                SpecPacket::SampleRate(r) => if r != rate {
                    PacketOutcome::NeedDecoder { rate: r, rest: rem, total }
                } else if total >= out_len {
                    PacketOutcome::Overflow
                } else {
                    spec_packet_walk(rem, rate, has_dec, total, out_len)
                },
                SpecPacket::OpusPlc(d) => if !has_dec {
                    PacketOutcome::NoRate
                } else if d.len() <= 2 {
                    if total >= out_len {
                        PacketOutcome::Overflow
                    } else {
                        spec_packet_walk(rem, rate, has_dec, total, out_len)
                    }
                } else {
                    PacketOutcome::Opus { data: d, rest: rem, total }
                },
            },
        }
    }
}

/// What consuming the sub-packet stream from `rest0` leaves behind:
/// the call emitted and the session state, pinned case by case by the
/// packet walk.  In every case but an entered frame walk the expected
/// sequence number is untouched.
pub open spec fn packet_walk_post(
    rest0: Seq<u8>,
    rate0: u16,
    has_dec: bool,
    seq0: u16,
    total0: int,
    out_len: int,
    s: DecodeSession,
    r: DriverCall,
) -> bool {
    match spec_packet_walk(rest0, rate0, has_dec, total0, out_len) {
        PacketOutcome::Finished { total } => {
            &&& r matches DriverCall::Done { samples } && samples == total
            &&& s.spec_total() == total
            &&& s.spec_seq() == seq0
        },
        PacketOutcome::Overflow => {
            &&& r matches DriverCall::Fail { error } && error
                == SteamAudioError::InsufficientOutputBuffer
            &&& s.spec_seq() == seq0
        },
        PacketOutcome::ParseFail { error: e } => {
            &&& r matches DriverCall::Fail { error } && error == e
            &&& s.spec_seq() == seq0
        },
        PacketOutcome::NoRate => {
            &&& r matches DriverCall::Fail { error } && error == SteamAudioError::NoSampleRate
            &&& s.spec_seq() == seq0
        },
        PacketOutcome::NeedDecoder { rate, rest, total } => {
            &&& r matches DriverCall::Create { rate: rr } && rr == rate as u32
            &&& s.spec_phase() == Phase::Creating
            &&& s.spec_new_rate() == rate
            &&& s.spec_rest() == rest
            &&& s.spec_total() == total
            &&& s.spec_seq() == seq0
        },
        PacketOutcome::Opus { data, rest, total } => {
            &&& frame_walk_post(data, 0, seq0, total, s, r)
            &&& (!(r is Done) && !(r is Fail) ==> s.spec_rest() == rest)
        },
    }
}

/// What leaving a frame walk (fewer than three bytes remain) does: the
/// buffer check, then the packet walk over the rest of the payload.
pub open spec fn frame_exit_post(
    rest0: Seq<u8>,
    rate0: u16,
    seq0: u16,
    total0: int,
    out_len: int,
    s: DecodeSession,
    r: DriverCall,
) -> bool {
    if total0 >= out_len {
        &&& r matches DriverCall::Fail { error } && error
            == SteamAudioError::InsufficientOutputBuffer
        &&& s.spec_seq() == seq0
    } else {
        packet_walk_post(rest0, rate0, true, seq0, total0, out_len, s, r)
    }
}

/// The state a voice decoder carries from one payload to the next: the
/// configured sample rate, the next expected frame sequence number, and
/// whether an Opus decoder handle currently exists on the caller's side.
#[derive(Debug)]
pub struct SteamVoiceDecoder {
    sample_rate: u16,
    seq: u16,
    has_decoder: bool,
}

impl SteamVoiceDecoder {
    pub closed spec fn spec_sample_rate(&self) -> u16 {
        self.sample_rate
    }

    pub closed spec fn spec_seq(&self) -> u16 {
        self.seq
    }

    pub closed spec fn spec_has_decoder(&self) -> bool {
        self.has_decoder
    }

    /// A decoder handle exists whenever a sample rate is configured.
    pub closed spec fn wf(&self) -> bool {
        self.sample_rate != 0 ==> self.has_decoder
    }

    /// The configured sample rate, 0 while none was announced.
    pub fn sample_rate(&self) -> (r: u16)
        ensures
            r == self.spec_sample_rate(),
    {
        self.sample_rate
    }

    /// The next expected frame sequence number.
    pub fn seq(&self) -> (r: u16)
        ensures
            r == self.spec_seq(),
    {
        self.seq
    }

    /// A fresh driver: no decoder, no sample rate, sequence zero.
    pub fn new() -> (r: SteamVoiceDecoder)
        ensures
            r.wf(),
            r.spec_sample_rate() == 0,
            r.spec_seq() == 0,
            !r.spec_has_decoder(),
    {
        SteamVoiceDecoder { sample_rate: 0, seq: 0, has_decoder: false }
    }

    /// Starts decoding one payload into an output buffer of `out_len`
    /// samples.  The session consumes the driver and hands it back,
    /// updated, from [`DecodeSession::finish`].
    pub fn begin(self, voice_data: SteamVoiceData, out_len: usize) -> (s: DecodeSession)
        requires
            self.wf(),
        ensures
            s.wf(),
            s.spec_phase() == Phase::Packets,
            s.spec_rest() == voice_data.spec_packets(),
            s.spec_sample_rate() == self.spec_sample_rate(),
            s.spec_seq() == self.spec_seq(),
            s.spec_has_decoder() == self.spec_has_decoder(),
            s.spec_total() == 0,
            s.spec_out_len() == out_len,
            s.spec_outcome() is None,
    {
        DecodeSession {
            sample_rate: self.sample_rate,
            seq: self.seq,
            has_decoder: self.has_decoder,
            packets: voice_data.packets(),
            opus: Vec::new(),
            pos: 0,
            cur_len: 0,
            cur_seq: 0,
            plc_left: 0,
            new_rate: 0,
            total: 0,
            out_len,
            phase: Phase::Packets,
            outcome: None,
        }
    }
}

impl Default for SteamVoiceDecoder {
    /// The same fresh state as [`SteamVoiceDecoder::new`].
    fn default() -> (r: SteamVoiceDecoder)
        ensures
            r.wf(),
            r.spec_sample_rate() == 0,
            r.spec_seq() == 0,
            !r.spec_has_decoder(),
    {
        SteamVoiceDecoder::new()
    }
}

/// One in-flight decode of one payload.  The session walks the
/// sub-packets and the Opus frames inside them, doing all framing,
/// sequence-number and buffer accounting itself; each time the Opus
/// decoder is needed it emits a [`DriverCall`] and waits for the
/// caller's [`DriverReply`].
///
/// Buffer accounting quirk, kept for bit-compatibility with the wire
/// protocol's reference behaviour: a decode that reaches the end of the
/// output buffer *exactly* still fails with
/// [`SteamAudioError::InsufficientOutputBuffer`]; only totals strictly
/// below the buffer length succeed (an empty payload succeeds with 0).
pub struct DecodeSession {
    sample_rate: u16,
    seq: u16,
    has_decoder: bool,
    packets: SteamPacketIterator,
    opus: Vec<u8>,
    pos: usize,
    cur_len: u16,
    cur_seq: u16,
    plc_left: u16,
    new_rate: u16,
    total: usize,
    out_len: usize,
    phase: Phase,
    outcome: Option<Result<usize, SteamAudioError>>,
}

impl DecodeSession {
    pub closed spec fn spec_phase(&self) -> Phase {
        self.phase
    }

    pub closed spec fn spec_sample_rate(&self) -> u16 {
        self.sample_rate
    }

    pub closed spec fn spec_seq(&self) -> u16 {
        self.seq
    }

    pub closed spec fn spec_has_decoder(&self) -> bool {
        self.has_decoder
    }

    pub closed spec fn spec_total(&self) -> usize {
        self.total
    }

    pub closed spec fn spec_out_len(&self) -> usize {
        self.out_len
    }

    /// The sub-packet bytes not yet consumed.
    pub closed spec fn spec_rest(&self) -> Seq<u8> {
        self.packets.remaining()
    }

    /// The Opus sub-packet currently being walked.
    pub closed spec fn spec_opus(&self) -> Seq<u8> {
        self.opus@
    }

    /// The cursor into the current Opus sub-packet.
    pub closed spec fn spec_pos(&self) -> int {
        self.pos as int
    }

    /// The current frame's length field.
    pub closed spec fn spec_cur_len(&self) -> u16 {
        self.cur_len
    }

    /// The current frame's sequence number.
    pub closed spec fn spec_cur_seq(&self) -> u16 {
        self.cur_seq
    }

    /// How many concealment frames are still owed, counting the
    /// outstanding one.
    pub closed spec fn spec_plc_left(&self) -> u16 {
        self.plc_left
    }

    /// The rate a pending decoder creation will configure.
    pub closed spec fn spec_new_rate(&self) -> u16 {
        self.new_rate
    }

    pub closed spec fn spec_outcome(&self) -> Option<Result<usize, SteamAudioError>> {
        self.outcome
    }

    pub closed spec fn wf(&self) -> bool {
        &&& self.packets.wf()
        &&& self.pos <= self.opus@.len()
        &&& (self.phase == Phase::Done <==> self.outcome is Some)
        &&& (self.outcome is None ==> self.total <= self.out_len)
        &&& (self.outcome matches Some(Ok(n)) ==> n == self.total && n <= self.out_len)
        &&& (self.sample_rate != 0 ==> self.has_decoder)
        &&& (self.phase == Phase::Packets ==> self.total == 0 && self.outcome is None)
        &&& (self.phase == Phase::Plc ==> self.plc_left >= 1)
        &&& ((self.phase == Phase::SentinelReset || self.phase == Phase::BackReset || self.phase
            == Phase::Plc || self.phase == Phase::Frame) ==> self.has_decoder)
    }

    /// Which replies the session can accept in its current phase.
    pub open spec fn can_take(&self, reply: DriverReply) -> bool {
        match self.spec_phase() {
            Phase::Packets => reply is Start,
            Phase::Creating => reply is Created || reply is OpusFailed,
            Phase::SentinelReset => reply is DidReset || reply is OpusFailed,
            Phase::BackReset => reply is DidReset || reply is OpusFailed,
            Phase::Plc => reply is Decoded || reply is OpusFailed,
            Phase::Frame => reply is Decoded || reply is OpusFailed,
            Phase::Done => false,
        }
    }

    /// The total samples produced so far.
    pub fn total(&self) -> (r: usize)
        ensures
            r == self.spec_total(),
    {
        self.total
    }

    /// The next expected frame sequence number, as the session stands.
    pub fn seq(&self) -> (r: u16)
        ensures
            r == self.spec_seq(),
    {
        self.seq
    }

    /// The configured sample rate, as the session stands.
    pub fn sample_rate(&self) -> (r: u16)
        ensures
            r == self.spec_sample_rate(),
    {
        self.sample_rate
    }

    fn finish_err(&mut self, e: SteamAudioError) -> (r: DriverCall)
        requires
            old(self).packets.wf(),
            old(self).pos <= old(self).opus@.len(),
            old(self).sample_rate != 0 ==> old(self).has_decoder,
        ensures
            final(self).wf(),
            final(self).phase == Phase::Done,
            final(self).outcome == Some(Err::<usize, SteamAudioError>(e)),
            r matches DriverCall::Fail { error } && error == e,
            final(self).packets == old(self).packets,
            final(self).seq == old(self).seq,
            final(self).sample_rate == old(self).sample_rate,
            final(self).has_decoder == old(self).has_decoder,
            final(self).out_len == old(self).out_len,
            final(self).total == old(self).total,
            final(self).opus == old(self).opus,
            final(self).pos == old(self).pos,
    {
        self.outcome = Some(Err(e));
        self.phase = Phase::Done;
        DriverCall::Fail { error: e }
    }

    fn finish_ok(&mut self) -> (r: DriverCall)
        requires
            old(self).packets.wf(),
            old(self).pos <= old(self).opus@.len(),
            old(self).total <= old(self).out_len,
            old(self).sample_rate != 0 ==> old(self).has_decoder,
        ensures
            final(self).wf(),
            final(self).phase == Phase::Done,
            final(self).outcome == Some(Ok::<usize, SteamAudioError>(old(self).total)),
            r matches DriverCall::Done { samples } && samples == old(self).total,
            final(self).packets == old(self).packets,
            final(self).seq == old(self).seq,
            final(self).sample_rate == old(self).sample_rate,
            final(self).has_decoder == old(self).has_decoder,
            final(self).out_len == old(self).out_len,
            final(self).total == old(self).total,
            final(self).opus == old(self).opus,
            final(self).pos == old(self).pos,
    {
        self.outcome = Some(Ok(self.total));
        self.phase = Phase::Done;
        DriverCall::Done { samples: self.total }
    }

    /// Bumps the expected sequence number past the current frame and
    /// emits the decode of the frame's bytes, or fails if the sub-packet
    /// does not hold as many bytes as the frame header claims.
    fn emit_frame(&mut self) -> (r: DriverCall)
        requires
            old(self).packets.wf(),
            old(self).pos <= old(self).opus@.len(),
            old(self).outcome is None,
            old(self).total <= old(self).out_len,
            old(self).has_decoder,
        ensures
            final(self).wf(),
            final(self).out_len == old(self).out_len,
            final(self).has_decoder == old(self).has_decoder,
            final(self).sample_rate == old(self).sample_rate,
            final(self).packets == old(self).packets,
            final(self).total == old(self).total,
            ((r is Done || r is Fail) <==> final(self).phase == Phase::Done),
            !(r is Done),
            !(r is Reset),
            !(r is Create),
            (r is Decode ==> final(self).phase == Phase::Frame),
            (r matches DriverCall::Fail { error } ==> final(self).outcome == Some(Err::<
                usize,
                SteamAudioError,
            >(error)) && error == SteamAudioError::InsufficientData),
            (r matches DriverCall::Decode { input, at, room } ==> at == final(self).total && at
                + room == final(self).out_len),
            deliver_post(
                old(self).opus@,
                old(self).pos as int,
                old(self).cur_len,
                old(self).cur_seq,
                old(self).total as int,
                *final(self),
                r,
            ),
    {
        self.seq = self.cur_seq.wrapping_add(1);
        if self.opus.len() - self.pos < self.cur_len as usize {
            return self.finish_err(SteamAudioError::InsufficientData);
        }
        let end = self.pos + self.cur_len as usize;
        let input = slice_to_vec(slice_subrange(self.opus.as_slice(), self.pos, end));
        self.pos = end;
        self.phase = Phase::Frame;
        let at = self.total;
        let room = self.out_len - self.total;
        DriverCall::Decode { input, at, room }
    }

    /// Walks the Opus frames left in the current sub-packet: emits the
    /// pending reset, concealment or decode for the next frame, or, when
    /// fewer than three bytes are left, drops them and goes back to the
    /// sub-packet stream.
    fn run_frames(&mut self) -> (r: DriverCall)
        requires
            old(self).packets.wf(),
            old(self).pos <= old(self).opus@.len(),
            old(self).outcome is None,
            old(self).total <= old(self).out_len,
            old(self).has_decoder,
        ensures
            final(self).wf(),
            final(self).out_len == old(self).out_len,
            final(self).has_decoder,
            final(self).sample_rate == old(self).sample_rate,
            ((r is Done || r is Fail) <==> final(self).phase == Phase::Done),
            (r matches DriverCall::Done { samples } ==> final(self).outcome == Some(Ok::<
                usize,
                SteamAudioError,
            >(samples)) && samples == final(self).total && samples <= final(self).out_len),
            (r matches DriverCall::Fail { error } ==> final(self).outcome == Some(Err::<
                usize,
                SteamAudioError,
            >(error)) && error != SteamAudioError::NoSampleRate),
            (r matches DriverCall::Decode { input, at, room } ==> at == final(self).total && at
                + room == final(self).out_len),
            (r matches DriverCall::Fail { error } ==> (error matches
            SteamAudioError::UnknownPacketType { .. } ==> spec_parse_packets(
                old(self).packets.remaining(),
            ) == Err::<Seq<SpecPacket>, SteamAudioError>(error))),
            (stream_opus_free(old(self).packets.remaining()) ==> stream_opus_free(
                final(self).packets.remaining(),
            )),
            frame_walk_post(
                old(self).opus@,
                old(self).pos as int,
                old(self).seq,
                old(self).total as int,
                *final(self),
                r,
            ),
            (r matches DriverCall::Create { rate } ==> (final(self).phase == Phase::Creating
                && final(self).new_rate as u32 == rate && rate as u16 != old(self).sample_rate
                && final(self).sample_rate == old(self).sample_rate && final(self).seq == old(self).seq)),
            (r matches DriverCall::Done { samples } ==> samples < old(self).out_len),
            (r is Reset ==> (final(self).phase == Phase::SentinelReset || final(self).phase
                == Phase::BackReset) && final(self).has_decoder),
            (r is Decode ==> (final(self).phase == Phase::Plc || final(self).phase == Phase::Frame)
                && final(self).has_decoder),
            (!(spec_frame_step(old(self).opus@, old(self).pos as int, old(self).seq) is Exhausted)
                ==> final(self).packets == old(self).packets),
            (spec_frame_step(old(self).opus@, old(self).pos as int, old(self).seq) is Exhausted
                ==> frame_exit_post(
                old(self).packets.remaining(),
                old(self).sample_rate,
                old(self).seq,
                old(self).total as int,
                old(self).out_len as int,
                *final(self),
                r,
            )),
        decreases old(self).packets.remaining().len(), 1int,
    {
        if self.opus.len() - self.pos <= 2 {
            // trailing 0-2 bytes of the sub-packet are dropped by design
            if self.total >= self.out_len {
                return self.finish_err(SteamAudioError::InsufficientOutputBuffer);
            }
            return self.run_packets();
        }
        let hdr = u16_from_le_bytes(slice_subrange(self.opus.as_slice(), self.pos, self.pos + 2));
        self.pos = self.pos + 2;
        if hdr == 0xFFFF {
            self.phase = Phase::SentinelReset;
            return DriverCall::Reset;
        }
        if self.opus.len() - self.pos < 2 {
            return self.finish_err(SteamAudioError::InsufficientData);
        }
        let fseq = u16_from_le_bytes(slice_subrange(self.opus.as_slice(), self.pos, self.pos + 2));
        self.pos = self.pos + 2;
        self.cur_len = hdr;
        self.cur_seq = fseq;
        if fseq < self.seq {
            self.phase = Phase::BackReset;
            DriverCall::Reset
        } else if fseq > self.seq {
            self.plc_left = fseq - self.seq;
            self.phase = Phase::Plc;
            let at = self.total;
            let room = self.out_len - self.total;
            DriverCall::Decode { input: Vec::new(), at, room }
        } else {
            self.emit_frame()
        }
    }

    /// Consumes sub-packets in order: counts silence runs against the
    /// output buffer, asks for a decoder on a sample-rate change, and
    /// hands Opus sub-packets to the frame walk.
    #[verifier::loop_isolation(false)]
    fn run_packets(&mut self) -> (r: DriverCall)
        requires
            old(self).packets.wf(),
            old(self).pos <= old(self).opus@.len(),
            old(self).outcome is None,
            old(self).total <= old(self).out_len,
            old(self).sample_rate != 0 ==> old(self).has_decoder,
        ensures
            final(self).wf(),
            final(self).out_len == old(self).out_len,
            final(self).has_decoder == old(self).has_decoder,
            final(self).sample_rate == old(self).sample_rate,
            ((r is Done || r is Fail) <==> final(self).phase == Phase::Done),
            (r matches DriverCall::Done { samples } ==> final(self).outcome == Some(Ok::<
                usize,
                SteamAudioError,
            >(samples)) && samples == final(self).total && samples <= final(self).out_len),
            (r matches DriverCall::Fail { error } ==> final(self).outcome == Some(Err::<
                usize,
                SteamAudioError,
            >(error))),
            ((r matches DriverCall::Fail { error } && error == SteamAudioError::NoSampleRate)
                ==> !old(self).has_decoder && !stream_opus_free(old(self).packets.remaining())),
            (r matches DriverCall::Create { rate } ==> (final(self).phase == Phase::Creating
                && final(self).new_rate as u32 == rate && rate as u16 != old(self).sample_rate
                && final(self).sample_rate == old(self).sample_rate && final(self).seq == old(self).seq)),
            (r matches DriverCall::Decode { input, at, room } ==> at == final(self).total && at
                + room == final(self).out_len),
            (r matches DriverCall::Fail { error } ==> (error matches
            SteamAudioError::UnknownPacketType { .. } ==> spec_parse_packets(
                old(self).packets.remaining(),
            ) == Err::<Seq<SpecPacket>, SteamAudioError>(error))),
            (stream_opus_free(old(self).packets.remaining()) ==> stream_opus_free(
                final(self).packets.remaining(),
            )),
            (spec_parse_packets(old(self).packets.remaining()) matches Ok(pk) ==> ((
            packets_opus_free(pk) && packets_rate_stable(pk, old(self).sample_rate)) ==> {
                &&& final(self).seq == old(self).seq
                &&& final(self).sample_rate == old(self).sample_rate
                &&& if pk.len() > 0 && old(self).total + silence_sum(pk) >= old(self).out_len {
                    r matches DriverCall::Fail { error } && error
                        == SteamAudioError::InsufficientOutputBuffer
                } else {
                    r matches DriverCall::Done { samples } && samples == old(self).total
                        + silence_sum(pk)
                }
            })),
            (r matches DriverCall::Done { samples } ==> samples < old(self).out_len || samples
                == old(self).total),
            (r is Reset ==> (final(self).phase == Phase::SentinelReset || final(self).phase
                == Phase::BackReset) && final(self).has_decoder),
            (r is Decode ==> (final(self).phase == Phase::Plc || final(self).phase == Phase::Frame)
                && final(self).has_decoder),
            packet_walk_post(
                old(self).packets.remaining(),
                old(self).sample_rate,
                old(self).has_decoder,
                old(self).seq,
                old(self).total as int,
                old(self).out_len as int,
                *final(self),
                r,
            ),
        decreases old(self).packets.remaining().len(), 0int,
    {
        let ghost orig = *self;
        let ghost mut done: Seq<SpecPacket> = Seq::empty();
        proof {
            match spec_parse_packets(orig.packets.remaining()) {
                Ok(pk) => {
                    assert(done + pk =~= pk);
                },
                _ => {},
            }
        }
        loop
            invariant
                self.packets.wf(),
                self.pos <= self.opus@.len(),
                self.outcome is None,
                self.total <= self.out_len,
                self.has_decoder == orig.has_decoder,
                self.seq == orig.seq,
                self.sample_rate == orig.sample_rate,
                self.out_len == orig.out_len,
                self.packets.remaining().len() <= orig.packets.remaining().len(),
                with_prefix(done, spec_parse_packets(self.packets.remaining()))
                    == spec_parse_packets(orig.packets.remaining()),
                packets_opus_free(done),
                (spec_parse_packets(orig.packets.remaining()) matches Ok(pk) ==> ((
                packets_opus_free(pk) && packets_rate_stable(pk, orig.sample_rate)) ==> (
                self.total == orig.total + silence_sum(done) && (done.len() > 0 ==> self.total
                    < self.out_len)))),
                spec_packet_walk(
                    self.packets.remaining(),
                    self.sample_rate,
                    self.has_decoder,
                    self.total as int,
                    self.out_len as int,
                ) == spec_packet_walk(
                    orig.packets.remaining(),
                    orig.sample_rate,
                    orig.has_decoder,
                    orig.total as int,
                    orig.out_len as int,
                ),
                done.len() == 0 ==> self.total == orig.total,
                done.len() > 0 ==> self.total < self.out_len,
            decreases self.packets.remaining().len(),
        {
            let ghost rem0 = self.packets.remaining();
            let ghost pr_orig = spec_parse_packets(orig.packets.remaining());
            match self.packets.next() {
                None => {
                    proof {
                        assert(spec_parse_packets(self.packets.remaining()) == Ok::<
                            Seq<SpecPacket>,
                            SteamAudioError,
                        >(Seq::empty()));
                        assert(done + Seq::<SpecPacket>::empty() =~= done);
                        match pr_orig {
                            Ok(pk) => {
                                assert(pk == done);
                                lemma_silence_sum_nonneg(pk);
                            },
                            _ => {},
                        }
                    }
                    return self.finish_ok();
                },
                Some(Err(e)) => {
                    proof {
                        assert(spec_parse_packets(rem0) == Err::<Seq<SpecPacket>,
                            SteamAudioError>(e));
                        assert(pr_orig == Err::<Seq<SpecPacket>, SteamAudioError>(e));
                        assert(e != SteamAudioError::NoSampleRate);
                    }
                    return self.finish_err(e);
                },
                Some(Ok(p)) => {
                    let ghost sp = p@;
                    proof {
                        crate::parse::lemma_parse_packets_step(rem0);
                        crate::parse::lemma_read_packet_suffix(rem0);
                        if stream_opus_free(orig.packets.remaining()) {
                            let pk = spec_parse_packets(orig.packets.remaining())->Ok_0;
                            match spec_parse_packets(self.packets.remaining()) {
                                Ok(tp) => {
                                    assert(pk == done + (seq![sp] + tp));
                                    assert forall|i: int| 0 <= i < tp.len() implies !((
                                    #[trigger] tp[i]) is OpusPlc) by {
                                        assert(pk[done.len() + 1 + i] == tp[i]);
                                    }
                                },
                                Err(_) => {
                                    assert(false);
                                },
                            }
                        }
                    }
                    match p {
                        Packet::Silence(n) => {
                            proof {
                                lemma_silence_sum_push(done, sp);
                                match spec_parse_packets(self.packets.remaining()) {
                                    Ok(tp) => {
                                        assert(done + (seq![sp] + tp) =~= done.push(sp) + tp);
                                        lemma_silence_sum_nonneg(tp);
                                        lemma_silence_sum_concat(done.push(sp), tp);
                                    },
                                    _ => {},
                                }
                            }
                            if (n as usize) >= self.out_len - self.total {
                                return self.finish_err(SteamAudioError::InsufficientOutputBuffer);
                            }
                            self.total = self.total + n as usize;
                            proof {
                                done = done.push(sp);
                            }
                        },
                        Packet::SampleRate(rate) => {
                            if rate != self.sample_rate {
                                self.new_rate = rate;
                                self.phase = Phase::Creating;
                                proof {
                                    match pr_orig {
                                        Ok(pk) => {
                                            if packets_opus_free(pk) && packets_rate_stable(
                                                pk,
                                                orig.sample_rate,
                                            ) {
                                                assert(pk[done.len() as int] == sp);
                                                assert(false);
                                            }
                                        },
                                        _ => {},
                                    }
                                }
                                return DriverCall::Create { rate: rate as u32 };
                            }
                            proof {
                                lemma_silence_sum_push(done, sp);
                                match spec_parse_packets(self.packets.remaining()) {
                                    Ok(tp) => {
                                        assert(done + (seq![sp] + tp) =~= done.push(sp) + tp);
                                        lemma_silence_sum_nonneg(tp);
                                        lemma_silence_sum_concat(done.push(sp), tp);
                                    },
                                    _ => {},
                                }
                            }
                            if self.total >= self.out_len {
                                return self.finish_err(SteamAudioError::InsufficientOutputBuffer);
                            }
                            proof {
                                done = done.push(sp);
                            }
                        },
                        Packet::OpusPlc(od) => {
                            proof {
                                match pr_orig {
                                    Ok(pk) => {
                                        if packets_opus_free(pk) {
                                            assert(pk[done.len() as int] == sp);
                                            assert(false);
                                        }
                                    },
                                    _ => {},
                                }
                                assert(!stream_opus_free(orig.packets.remaining()));
                            }
                            if !self.has_decoder {
                                return self.finish_err(SteamAudioError::NoSampleRate);
                            }
                            self.opus = od.data;
                            self.pos = 0;
                            let ghost pre = *self;
                            let call = self.run_frames();
                            proof {
                                let d = pre.opus@;
                                if d.len() <= 2 {
                                    assert(spec_frame_step(d, 0, pre.seq) is Exhausted);
                                } else {
                                    assert(!(spec_frame_step(d, 0, pre.seq) is Exhausted));
                                }
                            }
                            return call;
                        },
                    }
                },
            }
        }
    }

    /// Advances the session: applies the caller's reply to the
    /// outstanding call, then works through the payload until the next
    /// call is needed or the decode is over.
    pub fn step(&mut self, reply: DriverReply) -> (r: DriverCall)
        requires
            old(self).wf(),
            old(self).can_take(reply),
        ensures
            final(self).wf(),
            final(self).spec_out_len() == old(self).spec_out_len(),
            ((r is Done || r is Fail) <==> final(self).spec_phase() == Phase::Done),
            (r matches DriverCall::Done { samples } ==> final(self).spec_outcome() == Some(Ok::<
                usize,
                SteamAudioError,
            >(samples)) && samples <= old(self).spec_out_len()),
            (r matches DriverCall::Fail { error } ==> final(self).spec_outcome() == Some(Err::<
                usize,
                SteamAudioError,
            >(error))),
            (r matches DriverCall::Decode { input, at, room } ==> at == final(self).spec_total()
                && at + room == final(self).spec_out_len()),
            ((r matches DriverCall::Fail { error } && error == SteamAudioError::NoSampleRate)
                ==> !old(self).spec_has_decoder() && !stream_opus_free(old(self).spec_rest())),
            (r matches DriverCall::Fail { error } ==> (error matches
            SteamAudioError::UnknownPacketType { .. } ==> spec_parse_packets(
                old(self).spec_rest(),
            ) == Err::<Seq<SpecPacket>, SteamAudioError>(error))),
            (stream_opus_free(old(self).spec_rest()) ==> stream_opus_free(final(self).spec_rest())),
            (reply matches DriverReply::OpusFailed { code } ==> (r matches DriverCall::Fail {
                error,
            } && error == SteamAudioError::Opus(code))),
            (reply is OpusFailed ==> final(self).spec_seq() == old(self).spec_seq() && final(self).spec_total() == old(self).spec_total()),
            (r matches DriverCall::Done { samples } ==> samples == final(self).spec_total() && (
            samples < old(self).spec_out_len() || samples == 0)),
            (r is Reset ==> (final(self).spec_phase() == Phase::SentinelReset || final(self).spec_phase() == Phase::BackReset) && final(self).spec_has_decoder()),
            (r is Decode ==> (final(self).spec_phase() == Phase::Plc || final(self).spec_phase()
                == Phase::Frame) && final(self).spec_has_decoder()),
            (!(old(self).spec_phase() == Phase::Creating && reply is Created) ==> (final(self).spec_has_decoder() == old(self).spec_has_decoder() && final(self).spec_sample_rate()
                == old(self).spec_sample_rate())),
            ((old(self).spec_phase() == Phase::Packets && reply is Start) ==> packet_walk_post(
                old(self).spec_rest(),
                old(self).spec_sample_rate(),
                old(self).spec_has_decoder(),
                old(self).spec_seq(),
                old(self).spec_total() as int,
                old(self).spec_out_len() as int,
                *final(self),
                r,
            )),
            ((old(self).spec_phase() == Phase::Creating && reply is Created) ==> (if old(self).spec_total() >= old(self).spec_out_len() {
                r matches DriverCall::Fail { error } && error
                    == SteamAudioError::InsufficientOutputBuffer
            } else {
                packet_walk_post(
                    old(self).spec_rest(),
                    old(self).spec_new_rate(),
                    true,
                    old(self).spec_seq(),
                    old(self).spec_total() as int,
                    old(self).spec_out_len() as int,
                    *final(self),
                    r,
                )
            })),
            ((old(self).spec_phase() == Phase::SentinelReset && reply is DidReset
                && spec_frame_step(old(self).spec_opus(), old(self).spec_pos(), 0u16)
                is Exhausted) ==> frame_exit_post(
                old(self).spec_rest(),
                old(self).spec_sample_rate(),
                0u16,
                old(self).spec_total() as int,
                old(self).spec_out_len() as int,
                *final(self),
                r,
            )),
            (reply matches DriverReply::Decoded { samples } ==> ((old(self).spec_phase()
                == Phase::Frame && samples < old(self).spec_out_len() - old(self).spec_total()
                && spec_frame_step(
                old(self).spec_opus(),
                old(self).spec_pos(),
                old(self).spec_seq(),
            ) is Exhausted) ==> frame_exit_post(
                old(self).spec_rest(),
                old(self).spec_sample_rate(),
                old(self).spec_seq(),
                old(self).spec_total() + samples,
                old(self).spec_out_len() as int,
                *final(self),
                r,
            ))),
            ((old(self).spec_phase() == Phase::Creating && reply is Created) ==> (final(self).spec_sample_rate() == old(self).spec_new_rate() && final(self).spec_has_decoder())),
            (r matches DriverCall::Create { rate } ==> (final(self).spec_phase() == Phase::Creating
                && final(self).spec_new_rate() as u32 == rate)),
            ((old(self).spec_phase() == Phase::SentinelReset && reply is DidReset)
                ==> frame_walk_post(
                old(self).spec_opus(),
                old(self).spec_pos(),
                0u16,
                old(self).spec_total() as int,
                *final(self),
                r,
            )),
            ((old(self).spec_phase() == Phase::BackReset && reply is DidReset) ==> deliver_post(
                old(self).spec_opus(),
                old(self).spec_pos(),
                old(self).spec_cur_len(),
                old(self).spec_cur_seq(),
                old(self).spec_total() as int,
                *final(self),
                r,
            )),
            (reply matches DriverReply::Decoded { samples } ==> ((old(self).spec_phase()
                == Phase::Frame && samples < old(self).spec_out_len() - old(self).spec_total())
                ==> frame_walk_post(
                old(self).spec_opus(),
                old(self).spec_pos(),
                old(self).spec_seq(),
                old(self).spec_total() + samples,
                *final(self),
                r,
            ))),
            (reply matches DriverReply::Decoded { samples } ==> ((old(self).spec_phase()
                == Phase::Plc && samples < old(self).spec_out_len() - old(self).spec_total())
                ==> (if old(self).spec_plc_left() > 1 {
                &&& r matches DriverCall::Decode { input, at, room } && input@ == Seq::<
                    u8,
                >::empty() && at == old(self).spec_total() + samples
                &&& final(self).spec_phase() == Phase::Plc
                &&& final(self).spec_has_decoder()
                &&& final(self).spec_plc_left() == old(self).spec_plc_left() - 1
                &&& final(self).spec_seq() == old(self).spec_seq()
                &&& final(self).spec_total() == old(self).spec_total() + samples
                &&& final(self).spec_opus() == old(self).spec_opus()
                &&& final(self).spec_pos() == old(self).spec_pos()
                &&& final(self).spec_cur_len() == old(self).spec_cur_len()
                &&& final(self).spec_cur_seq() == old(self).spec_cur_seq()
            } else {
                deliver_post(
                    old(self).spec_opus(),
                    old(self).spec_pos(),
                    old(self).spec_cur_len(),
                    old(self).spec_cur_seq(),
                    old(self).spec_total() + samples,
                    *final(self),
                    r,
                )
            }))),
            (reply matches DriverReply::Decoded { samples } ==> (((old(self).spec_phase()
                == Phase::Plc || old(self).spec_phase() == Phase::Frame) && samples >= old(self).spec_out_len() - old(self).spec_total()) ==> (r matches DriverCall::Fail { error }
                && error == SteamAudioError::InsufficientOutputBuffer))),
            (spec_parse_packets(old(self).spec_rest()) matches Ok(pk) ==> ((old(self).spec_phase() == Phase::Packets && packets_opus_free(pk) && packets_rate_stable(
                pk,
                old(self).spec_sample_rate(),
            )) ==> {
                &&& final(self).spec_seq() == old(self).spec_seq()
                &&& final(self).spec_sample_rate() == old(self).spec_sample_rate()
                &&& if pk.len() > 0 && silence_sum(pk) >= old(self).spec_out_len() {
                    r matches DriverCall::Fail { error } && error
                        == SteamAudioError::InsufficientOutputBuffer
                } else {
                    r matches DriverCall::Done { samples } && samples == silence_sum(pk)
                }
            })),
    {
        match (self.phase, reply) {
            (Phase::Packets, DriverReply::Start) => self.run_packets(),
            (Phase::Creating, DriverReply::Created) => {
                self.has_decoder = true;
                self.sample_rate = self.new_rate;
                if self.total >= self.out_len {
                    self.finish_err(SteamAudioError::InsufficientOutputBuffer)
                } else {
                    self.run_packets()
                }
            },
            (Phase::SentinelReset, DriverReply::DidReset) => {
                self.seq = 0;
                self.run_frames()
            },
            (Phase::BackReset, DriverReply::DidReset) => self.emit_frame(),
            (Phase::Plc, DriverReply::Decoded { samples }) => {
                if samples >= self.out_len - self.total {
                    self.finish_err(SteamAudioError::InsufficientOutputBuffer)
                } else {
                    self.total = self.total + samples;
                    if self.plc_left > 1 {
                        self.plc_left = self.plc_left - 1;
                        let at = self.total;
                        let room = self.out_len - self.total;
                        DriverCall::Decode { input: Vec::new(), at, room }
                    } else {
                        self.emit_frame()
                    }
                }
            },
            (Phase::Frame, DriverReply::Decoded { samples }) => {
                if samples >= self.out_len - self.total {
                    self.finish_err(SteamAudioError::InsufficientOutputBuffer)
                } else {
                    self.total = self.total + samples;
                    self.run_frames()
                }
            },
            (_, DriverReply::OpusFailed { code }) => self.finish_err(SteamAudioError::Opus(code)),
            _ => unreached(),
        }
    }

    /// Ends a finished session: hands back the driver state as it stood
    /// at completion or failure, and the decode's outcome.
    pub fn finish(self) -> (r: (SteamVoiceDecoder, Result<usize, SteamAudioError>))
        requires
            self.wf(),
            self.spec_phase() == Phase::Done,
        ensures
            r.0.wf(),
            r.0.spec_sample_rate() == self.spec_sample_rate(),
            r.0.spec_seq() == self.spec_seq(),
            r.0.spec_has_decoder() == self.spec_has_decoder(),
            Some(r.1) == self.spec_outcome(),
            r.1 matches Ok(n) ==> n == self.spec_total() && n <= self.spec_out_len(),
    {
        let DecodeSession { sample_rate, seq, has_decoder, outcome, .. } = self;
        let driver = SteamVoiceDecoder { sample_rate, seq, has_decoder };
        match outcome {
            Some(res) => (driver, res),
            None => unreached(),
        }
    }
}

} // verus!
