use vstd::prelude::*;
use vstd::bytes::*;
use vstd::slice::*;
use crate::crc::{crc32b, spec_crc32};
use crate::error::SteamAudioError;

verus! {

/// The mathematical shape of one sub-packet.
pub enum SpecPacket {
    /// A run of silent samples; only their count is carried.
    Silence(u16),
    /// Opus-encoded frames with per-frame sequence numbers.
    OpusPlc(Seq<u8>),
    /// The sample rate, in Hz, for the Opus frames that follow.
    SampleRate(u16),
}

/// One sub-packet of a payload, owning its bytes.
#[derive(Debug)]
pub enum Packet {
    /// A number of samples of silence
    Silence(u16),
    /// Opus PLC data
    OpusPlc(SteamOpusData),
    /// The sample rate for the opus packets
    SampleRate(u16),
}

/// The Opus byte stream carried by one sub-packet.
#[derive(Debug)]
pub struct SteamOpusData {
    pub data: Vec<u8>,
}

impl View for SteamOpusData {
    type V = Seq<u8>;

    open spec fn view(&self) -> Seq<u8> {
        self.data@
    }
}

impl SteamOpusData {
    /// The raw Opus frame stream inside this sub-packet.
    pub fn bytes(&self) -> (r: &Vec<u8>)
        ensures
            r@ == self@,
    {
        &self.data
    }
}

impl View for Packet {
    type V = SpecPacket;

    open spec fn view(&self) -> SpecPacket {
        match self {
            Packet::Silence(n) => SpecPacket::Silence(*n),
            Packet::OpusPlc(d) => SpecPacket::OpusPlc(d@),
            Packet::SampleRate(n) => SpecPacket::SampleRate(*n),
        }
    }
}

/// Reading one sub-packet from the front of `data`: a 1-byte tag, a
/// 2-byte little-endian value, and, for Opus data, that many trailing
/// bytes.  Returns the packet and the bytes after it.
pub open spec fn spec_read_packet(data: Seq<u8>) -> Result<
    (SpecPacket, Seq<u8>),
    SteamAudioError,
> {
    if data.len() == 0 {
        Err(SteamAudioError::InsufficientData)
    } else if !(data[0] == 0 || data[0] == 6 || data[0] == 11) {
        Err(SteamAudioError::UnknownPacketType { ty: data[0] })
    } else if data.len() < 3 {
        Err(SteamAudioError::InsufficientData)
    } else {
        let v = spec_u16_from_le_bytes(data.subrange(1, 3));
        let rest = data.skip(3);
        if data[0] == 0 {
            Ok((SpecPacket::Silence(v), rest))
        } else if data[0] == 11 {
            Ok((SpecPacket::SampleRate(v), rest))
        } else if rest.len() >= v as int {
            Ok((SpecPacket::OpusPlc(rest.take(v as int)), rest.skip(v as int)))
        } else {
            Err(SteamAudioError::InsufficientData)
        }
    }
}

/// Reading sub-packets left to right until the bytes run out, or failing
/// on the first malformed one.
pub open spec fn spec_parse_packets(data: Seq<u8>) -> Result<Seq<SpecPacket>, SteamAudioError>
    decreases data.len(),
{
    if data.len() == 0 {
        Ok(Seq::empty())
    } else {
        match spec_read_packet(data) {
            Err(e) => Err(e),
            Ok((p, rest)) => match spec_parse_packets(rest) {
                Err(e) => Err(e),
                Ok(ps) => Ok(seq![p] + ps),
            },
        }
    }
}

/// Splitting a whole payload: at least 12 bytes, a matching trailing
/// CRC-32, then the sender id and the interior sub-packet bytes.
pub open spec fn spec_parse_payload(data: Seq<u8>) -> Result<(u64, Seq<u8>), SteamAudioError> {
    if data.len() < 12 {
        Err(SteamAudioError::InsufficientData)
    } else {
        let expected = spec_u32_from_le_bytes(data.subrange(data.len() - 4, data.len() as int));
        let actual = spec_crc32(data.subrange(0, data.len() - 4));
        if expected != actual {
            Err(SteamAudioError::CrcMismatch { expected, actual })
        } else {
            Ok((spec_u64_from_le_bytes(data.subrange(0, 8)), data.subrange(8, data.len() - 4)))
        }
    }
}

/// Splits the first `n` bytes off `data`, or reports that fewer are there.
pub fn read_bytes<'a>(data: &'a [u8], n: usize) -> (r: Result<
    (Vec<u8>, &'a [u8]),
    SteamAudioError,
>)
    ensures
        data@.len() >= n ==> (r matches Ok((head, rest)) && head@ == data@.take(n as int)
            && rest@ == data@.skip(n as int)),
        data@.len() < n ==> r == Err::<(Vec<u8>, &'a [u8]), _>(SteamAudioError::InsufficientData),
{
    if data.len() < n {
        Err(SteamAudioError::InsufficientData)
    } else {
        let head = slice_to_vec(slice_subrange(data, 0, n));
        let rest = slice_subrange(data, n, data.len());
        Ok((head, rest))
    }
}

/// Reads a little-endian `u16` off the front of `data`.
pub fn read_u16<'a>(data: &'a [u8]) -> (r: Result<(u16, &'a [u8]), SteamAudioError>)
    ensures
        data@.len() >= 2 ==> (r matches Ok((v, rest)) && v == spec_u16_from_le_bytes(
            data@.subrange(0, 2),
        ) && rest@ == data@.skip(2)),
        data@.len() < 2 ==> r == Err::<(u16, &'a [u8]), _>(SteamAudioError::InsufficientData),
{
    if data.len() < 2 {
        Err(SteamAudioError::InsufficientData)
    } else {
        let v = u16_from_le_bytes(slice_subrange(data, 0, 2));
        let rest = slice_subrange(data, 2, data.len());
        Ok((v, rest))
    }
}

impl Packet {
    /// Reads one sub-packet off the front of `data`, returning it with
    /// the bytes that follow it.
    pub fn read<'a>(data: &'a [u8]) -> (r: Result<(Packet, &'a [u8]), SteamAudioError>)
        ensures
            match spec_read_packet(data@) {
                Ok((sp, srest)) => r matches Ok((p, rest)) && p@ == sp && rest@ == srest,
                Err(e) => r matches Err(e2) && e2 == e,
            },
    {
        if data.len() == 0 {
            return Err(SteamAudioError::InsufficientData);
        }
        let ty = data[0];
        if !(ty == 0 || ty == 6 || ty == 11) {
            return Err(SteamAudioError::UnknownPacketType { ty });
        }
        if data.len() < 3 {
            return Err(SteamAudioError::InsufficientData);
        }
        let next = u16_from_le_bytes(slice_subrange(data, 1, 3));
        let rest = slice_subrange(data, 3, data.len());
        if ty == 0 {
            Ok((Packet::Silence(next), rest))
        } else if ty == 11 {
            Ok((Packet::SampleRate(next), rest))
        } else {
            if rest.len() < next as usize {
                return Err(SteamAudioError::InsufficientData);
            }
            let opus = slice_to_vec(slice_subrange(rest, 0, next as usize));
            let after = slice_subrange(rest, next as usize, rest.len());
            Ok((Packet::OpusPlc(SteamOpusData { data: opus }), after))
        }
    }
}

/// One validated payload: the sender id and the interior sub-packet bytes.
#[derive(Debug)]
pub struct SteamVoiceData {
    pub steam_id: u64,
    pub packet_data: Vec<u8>,
}

impl SteamVoiceData {
    /// The interior bytes holding the sub-packet stream.
    pub open spec fn spec_packets(&self) -> Seq<u8> {
        self.packet_data@
    }

    /// The sender id, as contracts speak of it.
    pub open spec fn spec_steam_id(&self) -> u64 {
        self.steam_id
    }

    /// Validates `data` as a payload: checks the length and the trailing
    /// CRC-32, then splits off the sender id.
    pub fn new(data: &[u8]) -> (r: Result<SteamVoiceData, SteamAudioError>)
        ensures
            match spec_parse_payload(data@) {
                Ok((id, pd)) => r matches Ok(v) && v.spec_steam_id() == id && v.spec_packets()
                    == pd,
                Err(e) => r matches Err(e2) && e2 == e,
            },
    {
        if data.len() < 12 {
            return Err(SteamAudioError::InsufficientData);
        }
        let n = data.len();
        let expected = u32_from_le_bytes(slice_subrange(data, n - 4, n));
        let actual = crc32b(slice_subrange(data, 0, n - 4));
        if expected != actual {
            return Err(SteamAudioError::CrcMismatch { expected, actual });
        }
        let steam_id = u64_from_le_bytes(slice_subrange(data, 0, 8));
        let packet_data = slice_to_vec(slice_subrange(data, 8, n - 4));
        Ok(SteamVoiceData { steam_id, packet_data })
    }

    /// An iterator over the payload's sub-packets, left to right.
    pub fn packets(&self) -> (it: SteamPacketIterator)
        ensures
            it.wf(),
            it.remaining() == self.spec_packets(),
    {
        SteamPacketIterator { data: slice_to_vec(self.packet_data.as_slice()), pos: 0 }
    }
}

/// A cursor over a payload's sub-packet bytes, yielding one packet at a
/// time.  After it yields an error it stays where it is; callers stop.
#[derive(Debug)]
pub struct SteamPacketIterator {
    data: Vec<u8>,
    pos: usize,
}

impl SteamPacketIterator {
    pub closed spec fn wf(&self) -> bool {
        self.pos <= self.data@.len()
    }

    /// The bytes not yet consumed.
    pub closed spec fn remaining(&self) -> Seq<u8> {
        self.data@.skip(self.pos as int)
    }

    /// Yields the next sub-packet, an error if the front of the
    /// remaining bytes is malformed, or nothing when they ran out.
    pub fn next(&mut self) -> (r: Option<Result<Packet, SteamAudioError>>)
        requires
            old(self).wf(),
        ensures
            final(self).wf(),
            match r {
                None => old(self).remaining().len() == 0 && final(self).remaining()
                    == old(self).remaining(),
                Some(Ok(p)) => spec_read_packet(old(self).remaining()) matches Ok((sp, srest))
                    && p@ == sp && final(self).remaining() == srest,
                Some(Err(e)) => old(self).remaining().len() > 0 && (spec_read_packet(
                    old(self).remaining(),
                ) matches Err(e2) && e == e2 && final(self).remaining() == old(self).remaining()),
            },
    {
        if self.pos == self.data.len() {
            assert(self.remaining() =~= Seq::<u8>::empty());
            return None;
        }
        let tail = slice_subrange(self.data.as_slice(), self.pos, self.data.len());
        match Packet::read(tail) {
            Ok((packet, rest)) => {
                proof {
                    lemma_read_packet_suffix(tail@);
                }
                let consumed = tail.len() - rest.len();
                let new_pos = self.pos + consumed;
                proof {
                    assert(self.data@.skip(new_pos as int) =~= tail@.skip(consumed as int));
                    assert(tail@.skip(consumed as int) =~= rest@);
                }
                self.pos = new_pos;
                Some(Ok(packet))
            },
            Err(e) => Some(Err(e)),
        }
    }
}

/// Parsing a non-empty stream is reading its first packet and parsing
/// what follows: the whole-stream parse unrolled by one packet.
pub proof fn lemma_parse_packets_step(data: Seq<u8>)
    requires
        data.len() > 0,
        spec_read_packet(data) is Ok,
    ensures
        ({
            let p = spec_read_packet(data)->Ok_0.0;
            let rest = spec_read_packet(data)->Ok_0.1;
            spec_parse_packets(data) == (match spec_parse_packets(rest) {
                Ok(tp) => Ok::<Seq<SpecPacket>, SteamAudioError>(seq![p] + tp),
                Err(e) => Err(e),
            })
        }),
{
}

/// Whether a sub-packet can be written back: Opus data must fit its
/// 16-bit length field.
pub open spec fn spec_packet_valid(p: SpecPacket) -> bool {
    match p {
        SpecPacket::OpusPlc(d) => d.len() <= 0xFFFF,
        _ => true,
    }
}

/// The wire form of one sub-packet: its tag, its little-endian value
/// field, and, for Opus data, the bytes themselves.
pub open spec fn spec_serialize_packet(p: SpecPacket) -> Seq<u8> {
    match p {
        SpecPacket::Silence(n) => seq![0u8] + spec_u16_to_le_bytes(n),
        SpecPacket::OpusPlc(d) => seq![6u8] + spec_u16_to_le_bytes(d.len() as u16) + d,
        SpecPacket::SampleRate(n) => seq![11u8] + spec_u16_to_le_bytes(n),
    }
}

/// The wire form of a whole sub-packet stream, left to right.
pub open spec fn spec_serialize_packets(ps: Seq<SpecPacket>) -> Seq<u8>
    decreases ps.len(),
{
    if ps.len() == 0 {
        Seq::empty()
    } else {
        spec_serialize_packet(ps[0]) + spec_serialize_packets(ps.skip(1))
    }
}

/// Reading a serialized sub-packet off the front of any byte sequence
/// yields that packet back and leaves exactly the bytes behind it.
pub proof fn lemma_read_serialized_packet(p: SpecPacket, tail: Seq<u8>)
    requires
        spec_packet_valid(p),
    ensures
        spec_read_packet(spec_serialize_packet(p) + tail) == Ok::<
            (SpecPacket, Seq<u8>),
            SteamAudioError,
        >((p, tail)),
{
    lemma_auto_spec_u16_to_from_le_bytes();
    let data = spec_serialize_packet(p) + tail;
    match p {
        SpecPacket::Silence(n) => {
            assert(data[0] == 0);
            assert(data.subrange(1, 3) =~= spec_u16_to_le_bytes(n));
            assert(data.skip(3) =~= tail);
        },
        SpecPacket::SampleRate(n) => {
            assert(data[0] == 11);
            assert(data.subrange(1, 3) =~= spec_u16_to_le_bytes(n));
            assert(data.skip(3) =~= tail);
        },
        SpecPacket::OpusPlc(d) => {
            let n = d.len() as u16;
            assert(data[0] == 6);
            assert(data.subrange(1, 3) =~= spec_u16_to_le_bytes(n));
            assert(data.skip(3) =~= d + tail);
            assert(n as int == d.len());
            assert((d + tail).take(n as int) =~= d);
            assert((d + tail).skip(n as int) =~= tail);
        },
    }
}

/// Serializing any stream of valid sub-packets and parsing the result
/// gives the same stream back: the parser and the wire form agree.
pub proof fn lemma_packets_round_trip(ps: Seq<SpecPacket>)
    requires
        forall|i: int| 0 <= i < ps.len() ==> spec_packet_valid(#[trigger] ps[i]),
    ensures
        spec_parse_packets(spec_serialize_packets(ps)) == Ok::<
            Seq<SpecPacket>,
            SteamAudioError,
        >(ps),
    decreases ps.len(),
{
    lemma_auto_spec_u16_to_from_le_bytes();
    if ps.len() == 0 {
        assert(spec_serialize_packets(ps).len() == 0);
        assert(ps =~= Seq::<SpecPacket>::empty());
    } else {
        let head = spec_serialize_packet(ps[0]);
        let tail = spec_serialize_packets(ps.skip(1));
        lemma_read_serialized_packet(ps[0], tail);
        lemma_packets_round_trip(ps.skip(1));
        assert(head.len() >= 3);
        assert((head + tail).len() > 0);
        assert(seq![ps[0]] + ps.skip(1) =~= ps);
    }
}

/// A payload the parser accepts is reproduced, byte for byte, by
/// writing the sender id, the sub-packet bytes, and the CRC-32 of those
/// two back out in wire order.
pub proof fn lemma_container_round_trip(data: Seq<u8>)
    requires
        spec_parse_payload(data) is Ok,
    ensures
        ({
            let id = spec_parse_payload(data)->Ok_0.0;
            let pd = spec_parse_payload(data)->Ok_0.1;
            let prefix = spec_u64_to_le_bytes(id) + pd;
            prefix + spec_u32_to_le_bytes(spec_crc32(prefix)) == data
        }),
{
    lemma_auto_spec_u64_to_from_le_bytes();
    lemma_auto_spec_u32_to_from_le_bytes();
    let id = spec_parse_payload(data)->Ok_0.0;
    let pd = spec_parse_payload(data)->Ok_0.1;
    assert(spec_u64_to_le_bytes(id) =~= data.subrange(0, 8));
    let prefix = spec_u64_to_le_bytes(id) + pd;
    assert(prefix =~= data.subrange(0, data.len() - 4));
    let crc = spec_crc32(data.subrange(0, data.len() - 4));
    assert(spec_u32_to_le_bytes(crc) =~= data.subrange(data.len() - 4, data.len() as int));
    assert(prefix + spec_u32_to_le_bytes(spec_crc32(prefix)) =~= data);
}

/// Wrapping any valid sub-packet stream with a sender id and the CRC-32
/// of what precedes it yields a payload the parser accepts and
/// decomposes into exactly that id and that stream.
pub proof fn lemma_payload_round_trip(id: u64, ps: Seq<SpecPacket>)
    requires
        forall|i: int| 0 <= i < ps.len() ==> spec_packet_valid(#[trigger] ps[i]),
    ensures
        ({
            let stream = spec_serialize_packets(ps);
            let prefix = spec_u64_to_le_bytes(id) + stream;
            let payload = prefix + spec_u32_to_le_bytes(spec_crc32(prefix));
            &&& spec_parse_payload(payload) == Ok::<(u64, Seq<u8>), SteamAudioError>((id, stream))
            &&& spec_parse_packets(stream) == Ok::<Seq<SpecPacket>, SteamAudioError>(ps)
        }),
{
    lemma_auto_spec_u64_to_from_le_bytes();
    lemma_auto_spec_u32_to_from_le_bytes();
    let stream = spec_serialize_packets(ps);
    let prefix = spec_u64_to_le_bytes(id) + stream;
    let crc = spec_crc32(prefix);
    let payload = prefix + spec_u32_to_le_bytes(crc);
    assert(payload.len() == 12 + stream.len());
    assert(payload.subrange(payload.len() - 4, payload.len() as int) =~= spec_u32_to_le_bytes(
        crc,
    ));
    assert(payload.subrange(0, payload.len() - 4) =~= prefix);
    assert(payload.subrange(0, 8) =~= spec_u64_to_le_bytes(id));
    assert(payload.subrange(8, payload.len() - 4) =~= stream);
    lemma_packets_round_trip(ps);
}

/// A successfully read packet's trailing bytes are a suffix of the input:
/// exactly the bytes after the consumed front.
pub(crate) proof fn lemma_read_packet_suffix(data: Seq<u8>)
    requires
        spec_read_packet(data) is Ok,
    ensures
        ({
            let rest = spec_read_packet(data)->Ok_0.1;
            &&& rest.len() <= data.len() - 3
            &&& rest =~= data.skip(data.len() - rest.len())
        }),
{
    let rest = spec_read_packet(data)->Ok_0.1;
    if data[0] == 0 || data[0] == 11 {
        assert(rest =~= data.skip(data.len() - rest.len()));
    } else {
        let v = spec_u16_from_le_bytes(data.subrange(1, 3)) as int;
        assert(rest =~= data.skip(3).skip(v));
        assert(rest =~= data.skip(data.len() - rest.len()));
    }
}

} // verus!
