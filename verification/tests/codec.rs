use steam_audio_codec::{
    crc32b, read_bytes, read_u16, DriverCall, DriverReply, Packet, SteamAudioError,
    SteamVoiceData, SteamVoiceDecoder,
};

fn make_payload(id: [u8; 8], stream: &[u8]) -> Vec<u8> {
    let mut data = Vec::new();
    data.extend_from_slice(&id);
    data.extend_from_slice(stream);
    let crc = crc32b(&data);
    data.extend_from_slice(&crc.to_le_bytes());
    data
}

const ID: [u8; 8] = [0x01, 0x02, 0x03, 0x04, 0x05, 0x06, 0x07, 0x08];

#[test]
fn crc_empty_is_zero() {
    assert_eq!(crc32b(&[]), 0x00000000);
}

#[test]
fn crc_check_vector() {
    assert_eq!(crc32b(b"123456789"), 0xCBF43926);
}

#[test]
fn crc_rejection() {
    let mut data = ID.to_vec();
    data.extend_from_slice(&[0, 0, 0, 0]);
    let actual = crc32b(&data[..8]);
    assert_ne!(actual, 0);
    match SteamVoiceData::new(&data) {
        Err(SteamAudioError::CrcMismatch { expected, actual: got }) => {
            assert_eq!(expected, 0);
            assert_eq!(got, actual);
        }
        other => panic!("expected CrcMismatch, got {:?}", other.is_ok()),
    }
}

#[test]
fn empty_stream() {
    let data = make_payload(ID, &[]);
    let voice = SteamVoiceData::new(&data).unwrap();
    assert_eq!(voice.steam_id, 0x0807060504030201);
    let mut it = voice.packets();
    assert!(it.next().is_none());

    let session = SteamVoiceDecoder::new().begin(SteamVoiceData::new(&data).unwrap(), 8192);
    let mut session = session;
    match session.step(DriverReply::Start) {
        DriverCall::Done { samples } => assert_eq!(samples, 0),
        _ => panic!("expected Done"),
    }
    let (_driver, result) = session.finish();
    assert_eq!(result, Ok(0));
}

#[test]
fn silence_only() {
    let data = make_payload(ID, &[0x00, 0x20, 0x00]);
    let voice = SteamVoiceData::new(&data).unwrap();
    let mut session = SteamVoiceDecoder::new().begin(voice, 8192);
    // no decoder call is ever issued: nothing is written to the buffer
    match session.step(DriverReply::Start) {
        DriverCall::Done { samples } => assert_eq!(samples, 32),
        _ => panic!("expected Done"),
    }
    let (_driver, result) = session.finish();
    assert_eq!(result, Ok(32));
}

#[test]
fn silence_without_sample_rate_succeeds() {
    // no Opus data, so no sample rate is needed
    let data = make_payload(ID, &[0x00, 0x05, 0x00]);
    let voice = SteamVoiceData::new(&data).unwrap();
    let mut session = SteamVoiceDecoder::new().begin(voice, 16);
    match session.step(DriverReply::Start) {
        DriverCall::Done { samples } => assert_eq!(samples, 5),
        _ => panic!("expected Done"),
    }
}

fn opus_packet(frames: &[(u16, u16, &[u8])]) -> Vec<u8> {
    // each frame: (len, seq, bytes); len == 0xFFFF writes only the header
    let mut inner = Vec::new();
    for &(len, seq, bytes) in frames {
        inner.extend_from_slice(&len.to_le_bytes());
        if len != 0xFFFF {
            inner.extend_from_slice(&seq.to_le_bytes());
            inner.extend_from_slice(bytes);
        }
    }
    let mut stream = vec![0x06];
    stream.extend_from_slice(&(inner.len() as u16).to_le_bytes());
    stream.extend_from_slice(&inner);
    stream
}

#[test]
fn sample_rate_then_opus() {
    let mut stream = vec![0x0B, 0xC0, 0x5D];
    let frame_bytes = [0xAA, 0xBB, 0xCC, 0xDD];
    stream.extend_from_slice(&opus_packet(&[(4, 0, &frame_bytes)]));
    let data = make_payload(ID, &stream);
    let voice = SteamVoiceData::new(&data).unwrap();
    let mut session = SteamVoiceDecoder::new().begin(voice, 8192);
    match session.step(DriverReply::Start) {
        DriverCall::Create { rate } => assert_eq!(rate, 24000),
        _ => panic!("expected Create"),
    }
    match session.step(DriverReply::Created) {
        DriverCall::Decode { input, at, room } => {
            assert_eq!(input, frame_bytes.to_vec());
            assert_eq!(at, 0);
            assert_eq!(room, 8192);
        }
        _ => panic!("expected Decode"),
    }
    match session.step(DriverReply::Decoded { samples: 480 }) {
        DriverCall::Done { samples } => assert_eq!(samples, 480),
        _ => panic!("expected Done"),
    }
    let (driver, result) = session.finish();
    assert_eq!(result, Ok(480));
    assert_eq!(driver.sample_rate(), 24000);
    assert_eq!(driver.seq(), 1);
}

#[test]
fn plc_on_gap() {
    let mut stream = vec![0x0B, 0xC0, 0x5D];
    let frame_bytes = [0xAA, 0xBB];
    stream.extend_from_slice(&opus_packet(&[(2, 3, &frame_bytes)]));
    let data = make_payload(ID, &stream);
    let voice = SteamVoiceData::new(&data).unwrap();
    let mut session = SteamVoiceDecoder::new().begin(voice, 8192);
    assert!(matches!(session.step(DriverReply::Start), DriverCall::Create { rate: 24000 }));
    // three loss-concealment decodes (empty input) precede the real one
    let mut at_expected = 0;
    let mut reply = DriverReply::Created;
    for _ in 0..3 {
        match session.step(reply) {
            DriverCall::Decode { input, at, room } => {
                assert!(input.is_empty());
                assert_eq!(at, at_expected);
                assert_eq!(room, 8192 - at);
            }
            _ => panic!("expected PLC Decode"),
        }
        reply = DriverReply::Decoded { samples: 100 };
        at_expected += 100;
    }
    match session.step(reply) {
        DriverCall::Decode { input, at, .. } => {
            assert_eq!(input, frame_bytes.to_vec());
            assert_eq!(at, 300);
        }
        _ => panic!("expected frame Decode"),
    }
    match session.step(DriverReply::Decoded { samples: 50 }) {
        DriverCall::Done { samples } => assert_eq!(samples, 350),
        _ => panic!("expected Done"),
    }
    let (driver, result) = session.finish();
    assert_eq!(result, Ok(350));
    assert_eq!(driver.seq(), 4);
}

#[test]
fn sequence_reset_sentinel() {
    let mut stream = vec![0x0B, 0xC0, 0x5D];
    let frame_bytes = [0x11];
    stream.extend_from_slice(&opus_packet(&[(0xFFFF, 0, &[]), (1, 0, &frame_bytes)]));
    let data = make_payload(ID, &stream);
    let voice = SteamVoiceData::new(&data).unwrap();
    let mut session = SteamVoiceDecoder::new().begin(voice, 8192);
    assert!(matches!(session.step(DriverReply::Start), DriverCall::Create { .. }));
    // the 0xFFFF header asks for a reset and produces no samples itself
    assert!(matches!(session.step(DriverReply::Created), DriverCall::Reset));
    assert_eq!(session.seq(), 0);
    match session.step(DriverReply::DidReset) {
        DriverCall::Decode { input, at, .. } => {
            assert_eq!(input, frame_bytes.to_vec());
            assert_eq!(at, 0);
        }
        _ => panic!("expected Decode"),
    }
    assert!(matches!(
        session.step(DriverReply::Decoded { samples: 10 }),
        DriverCall::Done { samples: 10 }
    ));
    let (driver, _) = session.finish();
    assert_eq!(driver.seq(), 1);
}

#[test]
fn backward_sequence_resets_without_plc() {
    // expected sequence is 5, the frame carries 2: reset, no concealment
    let mut stream = vec![0x0B, 0xC0, 0x5D];
    stream.extend_from_slice(&opus_packet(&[(1, 4, &[0x11]), (1, 2, &[0x22])]));
    let data = make_payload(ID, &stream);
    let voice = SteamVoiceData::new(&data).unwrap();
    let mut session = SteamVoiceDecoder::new().begin(voice, 8192);
    assert!(matches!(session.step(DriverReply::Start), DriverCall::Create { .. }));
    // frame seq 4 with expected 0: four PLC decodes, then the frame
    let mut reply = DriverReply::Created;
    for _ in 0..4 {
        match session.step(reply) {
            DriverCall::Decode { input, .. } => assert!(input.is_empty()),
            _ => panic!("expected PLC Decode"),
        }
        reply = DriverReply::Decoded { samples: 10 };
    }
    assert!(matches!(session.step(reply), DriverCall::Decode { .. }));
    assert_eq!(session.seq(), 5);
    // second frame jumps backwards: a reset, then the frame, no PLC
    assert!(matches!(
        session.step(DriverReply::Decoded { samples: 10 }),
        DriverCall::Reset
    ));
    match session.step(DriverReply::DidReset) {
        DriverCall::Decode { input, .. } => assert_eq!(input, vec![0x22]),
        _ => panic!("expected Decode"),
    }
    assert_eq!(session.seq(), 3);
}

#[test]
fn output_exhaustion() {
    let data = make_payload(ID, &[0x00, 0x20, 0x00]);
    let voice = SteamVoiceData::new(&data).unwrap();
    let mut session = SteamVoiceDecoder::new().begin(voice, 1);
    match session.step(DriverReply::Start) {
        DriverCall::Fail { error } => {
            assert_eq!(error, SteamAudioError::InsufficientOutputBuffer)
        }
        _ => panic!("expected Fail"),
    }
    let (_driver, result) = session.finish();
    assert_eq!(result, Err(SteamAudioError::InsufficientOutputBuffer));
}

#[test]
fn unknown_packet_type() {
    let data = make_payload(ID, &[0x05, 0x00, 0x00]);
    let voice = SteamVoiceData::new(&data).unwrap();
    let mut session = SteamVoiceDecoder::new().begin(voice, 8192);
    match session.step(DriverReply::Start) {
        DriverCall::Fail { error } => {
            assert_eq!(error, SteamAudioError::UnknownPacketType { ty: 5 })
        }
        _ => panic!("expected Fail"),
    }
}

#[test]
fn opus_before_sample_rate() {
    let mut stream = Vec::new();
    stream.extend_from_slice(&opus_packet(&[(1, 0, &[0x11])]));
    let data = make_payload(ID, &stream);
    let voice = SteamVoiceData::new(&data).unwrap();
    let mut session = SteamVoiceDecoder::new().begin(voice, 8192);
    match session.step(DriverReply::Start) {
        DriverCall::Fail { error } => assert_eq!(error, SteamAudioError::NoSampleRate),
        _ => panic!("expected Fail"),
    }
}

#[test]
fn short_buffer_is_insufficient() {
    assert!(matches!(
        SteamVoiceData::new(&[1, 2, 3, 4, 5]),
        Err(SteamAudioError::InsufficientData)
    ));
    assert!(matches!(
        SteamVoiceData::new(&[]),
        Err(SteamAudioError::InsufficientData)
    ));
}

#[test]
fn truncated_opus_packet_is_insufficient() {
    // the sub-packet claims 4 bytes of Opus data but carries 1
    let data = make_payload(ID, &[0x06, 0x04, 0x00, 0xAA]);
    let voice = SteamVoiceData::new(&data).unwrap();
    let mut it = voice.packets();
    match it.next() {
        Some(Err(SteamAudioError::InsufficientData)) => {}
        _ => panic!("expected InsufficientData"),
    }
}

#[test]
fn truncated_frame_is_insufficient() {
    // frame header says 9 bytes follow, but only 1 does
    let mut stream = vec![0x0B, 0xC0, 0x5D];
    stream.extend_from_slice(&opus_packet(&[(9, 0, &[0x11])]));
    let data = make_payload(ID, &stream);
    let voice = SteamVoiceData::new(&data).unwrap();
    let mut session = SteamVoiceDecoder::new().begin(voice, 8192);
    assert!(matches!(session.step(DriverReply::Start), DriverCall::Create { .. }));
    match session.step(DriverReply::Created) {
        DriverCall::Fail { error } => assert_eq!(error, SteamAudioError::InsufficientData),
        _ => panic!("expected Fail"),
    }
}

#[test]
fn opus_error_is_wrapped() {
    let mut stream = vec![0x0B, 0xC0, 0x5D];
    stream.extend_from_slice(&opus_packet(&[(1, 0, &[0x11])]));
    let data = make_payload(ID, &stream);
    let voice = SteamVoiceData::new(&data).unwrap();
    let mut session = SteamVoiceDecoder::new().begin(voice, 8192);
    assert!(matches!(session.step(DriverReply::Start), DriverCall::Create { .. }));
    match session.step(DriverReply::OpusFailed { code: -1 }) {
        DriverCall::Fail { error } => assert_eq!(error, SteamAudioError::Opus(-1)),
        _ => panic!("expected Fail"),
    }
    let (_driver, result) = session.finish();
    assert_eq!(result, Err(SteamAudioError::Opus(-1)));
}

#[test]
fn trailing_frame_bytes_are_dropped() {
    // two stray bytes after the frame stream are ignored by design
    let mut stream = vec![0x0B, 0xC0, 0x5D];
    let mut inner = Vec::new();
    inner.extend_from_slice(&1u16.to_le_bytes());
    inner.extend_from_slice(&0u16.to_le_bytes());
    inner.push(0x11);
    inner.extend_from_slice(&[0xEE, 0xEF]);
    let mut pkt = vec![0x06];
    pkt.extend_from_slice(&(inner.len() as u16).to_le_bytes());
    pkt.extend_from_slice(&inner);
    stream.extend_from_slice(&pkt);
    let data = make_payload(ID, &stream);
    let voice = SteamVoiceData::new(&data).unwrap();
    let mut session = SteamVoiceDecoder::new().begin(voice, 8192);
    assert!(matches!(session.step(DriverReply::Start), DriverCall::Create { .. }));
    assert!(matches!(session.step(DriverReply::Created), DriverCall::Decode { .. }));
    assert!(matches!(
        session.step(DriverReply::Decoded { samples: 10 }),
        DriverCall::Done { samples: 10 }
    ));
}

#[test]
fn container_round_trip() {
    // a payload that validates is reproduced from its parts
    let stream = vec![0x00, 0x07, 0x00, 0x0B, 0xC0, 0x5D];
    let data = make_payload(ID, &stream);
    let voice = SteamVoiceData::new(&data).unwrap();
    let mut rebuilt = voice.steam_id.to_le_bytes().to_vec();
    rebuilt.extend_from_slice(&stream);
    let crc = crc32b(&rebuilt);
    rebuilt.extend_from_slice(&crc.to_le_bytes());
    assert_eq!(rebuilt, data);
}

#[test]
fn packet_stream_round_trip() {
    // serialized packets parse back to the same packets
    let mut stream = vec![0x00, 0x07, 0x00];
    stream.extend_from_slice(&[0x0B, 0xC0, 0x5D]);
    stream.extend_from_slice(&opus_packet(&[(2, 0, &[0xAA, 0xBB])]));
    let data = make_payload(ID, &stream);
    let voice = SteamVoiceData::new(&data).unwrap();
    let mut it = voice.packets();
    match it.next() {
        Some(Ok(Packet::Silence(n))) => assert_eq!(n, 7),
        _ => panic!("expected Silence"),
    }
    match it.next() {
        Some(Ok(Packet::SampleRate(r))) => assert_eq!(r, 24000),
        _ => panic!("expected SampleRate"),
    }
    match it.next() {
        Some(Ok(Packet::OpusPlc(d))) => {
            assert_eq!(d.bytes(), &vec![2, 0, 0, 0, 0xAA, 0xBB])
        }
        _ => panic!("expected OpusPlc"),
    }
    assert!(it.next().is_none());
}

#[test]
fn equal_payloads_decode_equally() {
    // fresh drivers fed the same payload and the same decoder replies
    // produce the same outcome and the same state
    let mut stream = vec![0x00, 0x10, 0x00, 0x0B, 0xC0, 0x5D];
    stream.extend_from_slice(&opus_packet(&[(2, 0, &[0xAA, 0xBB])]));
    let data = make_payload(ID, &stream);
    let run = || {
        let voice = SteamVoiceData::new(&data).unwrap();
        let mut session = SteamVoiceDecoder::new().begin(voice, 8192);
        assert!(matches!(session.step(DriverReply::Start), DriverCall::Create { .. }));
        assert!(matches!(session.step(DriverReply::Created), DriverCall::Decode { .. }));
        assert!(matches!(
            session.step(DriverReply::Decoded { samples: 480 }),
            DriverCall::Done { .. }
        ));
        let (driver, result) = session.finish();
        (driver.sample_rate(), driver.seq(), result)
    };
    let a = run();
    let b = run();
    assert_eq!(a, b);
    assert_eq!(a.2, Ok(16 + 480));
}

#[test]
fn read_u16_and_read_bytes() {
    let data = [0x34, 0x12, 0xFF];
    let (v, rest) = read_u16(&data).unwrap();
    assert_eq!(v, 0x1234);
    assert_eq!(rest, &[0xFF_u8][..]);
    assert!(matches!(
        read_u16(&[0x01]),
        Err(SteamAudioError::InsufficientData)
    ));

    let (head, rest) = read_bytes(&data, 2).unwrap();
    assert_eq!(head, vec![0x34, 0x12]);
    assert_eq!(rest, &[0xFF_u8][..]);
    assert!(matches!(
        read_bytes(&data, 4),
        Err(SteamAudioError::InsufficientData)
    ));
}

#[test]
fn packet_read_advances_exactly() {
    let data = [0x00, 0x05, 0x00, 0x0B, 0xC0, 0x5D];
    let (p, rest) = Packet::read(&data).unwrap();
    assert!(matches!(p, Packet::Silence(5)));
    assert_eq!(rest, &[0x0B_u8, 0xC0, 0x5D][..]);
    let (p2, rest2) = Packet::read(rest).unwrap();
    assert!(matches!(p2, Packet::SampleRate(24000)));
    assert!(rest2.is_empty());
}

#[test]
fn sample_rate_zero_like_values_pass_through() {
    // a repeated announcement of the current rate asks for no decoder
    let data = make_payload(ID, &[0x0B, 0x00, 0x00, 0x00, 0x02, 0x00]);
    let voice = SteamVoiceData::new(&data).unwrap();
    let mut session = SteamVoiceDecoder::new().begin(voice, 8192);
    match session.step(DriverReply::Start) {
        DriverCall::Done { samples } => assert_eq!(samples, 2),
        _ => panic!("expected Done"),
    }
}

#[test]
fn short_opus_subpacket_is_dropped_whole() {
    // an Opus sub-packet of two bytes holds no frame header: it is
    // dropped after the buffer check and the stream continues
    let mut stream = vec![0x0B, 0xC0, 0x5D];
    stream.extend_from_slice(&[0x06, 0x02, 0x00, 0xAB, 0xCD]);
    stream.extend_from_slice(&[0x00, 0x04, 0x00]);
    let data = make_payload(ID, &stream);
    let voice = SteamVoiceData::new(&data).unwrap();
    let mut session = SteamVoiceDecoder::new().begin(voice, 64);
    assert!(matches!(session.step(DriverReply::Start), DriverCall::Create { rate: 24000 }));
    match session.step(DriverReply::Created) {
        DriverCall::Done { samples } => assert_eq!(samples, 4),
        _ => panic!("expected Done"),
    }
    let (driver, result) = session.finish();
    assert_eq!(result, Ok(4));
    assert_eq!(driver.seq(), 0);
}
