use chat::codec::{build_header, decode_message, encode_message, Frame};
use chat::error::AppError;
use chat::protocol::{Event, MessageType, MsgFlag};

fn frame(
    message_type: MessageType,
    flags: u8,
    event: Option<Event>,
    session_id: &[u8],
    payload: &[u8],
) -> Frame {
    Frame {
        message_type,
        flags: MsgFlag(flags),
        event,
        session_id: session_id.to_vec(),
        payload: payload.to_vec(),
    }
}

#[test]
fn start_connection_bytes_are_exact() {
    let f = frame(MessageType::FullClient, 0b110, Some(Event::StartConnection), b"", b"{}");
    let bytes = encode_message(&f).unwrap();
    assert_eq!(
        bytes,
        vec![0x11, 0x16, 0x10, 0x00, 0, 0, 0, 1, 0, 0, 0, 0, 0, 0, 0, 2, b'{', b'}']
    );
}

#[test]
fn audio_frames_use_raw_serialization() {
    let header = build_header(MessageType::AudioOnlyClient, MsgFlag(0b101));
    assert_eq!(header, [0x11, 0x25, 0x00, 0x00]);
    let header = build_header(MessageType::Error, MsgFlag(0));
    assert_eq!(header, [0x11, 0xf0, 0x10, 0x00]);
}

#[test]
fn lengths_are_big_endian() {
    let payload = vec![7u8; 300];
    let f = frame(MessageType::FullServer, 0b100, Some(Event::TTSEnded), b"abc", &payload);
    let bytes = encode_message(&f).unwrap();
    assert_eq!(&bytes[4..8], &[0, 0, 0x01, 0x67]);
    assert_eq!(&bytes[8..12], &[0, 0, 0, 3]);
    assert_eq!(&bytes[12..15], b"abc");
    assert_eq!(&bytes[15..19], &[0, 0, 0x01, 0x2c]);
    assert_eq!(bytes.len(), 19 + 300);
}

#[test]
fn round_trip_keeps_every_field() {
    let cases = vec![
        frame(MessageType::FullClient, 0b110, Some(Event::StartSession), b"sid-1", b"{\"a\":1}"),
        frame(MessageType::AudioOnlyClient, 0b111, Some(Event::TaskRequest), b"sid-1", &[1, 2, 3]),
        frame(MessageType::AudioOnlyServer, 0b000, None, b"", &[9; 1000]),
        frame(MessageType::Error, 0b001, None, b"x", b""),
        frame(MessageType::FullServer, 0b100, Some(Event::SessionFailed), b"", b"quota exceeded"),
    ];
    for f in cases {
        let bytes = encode_message(&f).unwrap();
        let back = decode_message(&bytes).unwrap().unwrap();
        assert_eq!(back.message_type, f.message_type);
        assert_eq!(back.flags, f.flags);
        assert_eq!(back.event, f.event);
        assert_eq!(back.session_id, f.session_id);
        assert_eq!(back.payload, f.payload);
    }
}

#[test]
fn every_strict_prefix_is_incomplete() {
    let f = frame(MessageType::FullServer, 0b100, Some(Event::TTSResponse), b"sid", b"AB");
    let bytes = encode_message(&f).unwrap();
    for k in 0..bytes.len() {
        assert!(matches!(decode_message(&bytes[..k]), Ok(None)), "prefix of length {}", k);
    }
    assert!(matches!(decode_message(&bytes), Ok(Some(_))));
}

#[test]
fn unknown_event_code_is_unnamed() {
    let mut bytes = vec![0x11, 0x94, 0x10, 0x00];
    bytes.extend_from_slice(&51u32.to_be_bytes());
    bytes.extend_from_slice(&0u32.to_be_bytes());
    bytes.extend_from_slice(&2u32.to_be_bytes());
    bytes.extend_from_slice(b"{}");
    let f = decode_message(&bytes).unwrap().unwrap();
    assert_eq!(f.message_type, MessageType::FullServer);
    assert_eq!(f.flags, MsgFlag(0b100));
    assert_eq!(f.event, None);
    assert_eq!(f.payload, b"{}".to_vec());
}

#[test]
fn unknown_message_type_is_a_protocol_error() {
    let bytes = vec![0x11, 0x30, 0x10, 0x00, 0, 0, 0, 0, 0, 0, 0, 0];
    assert!(matches!(decode_message(&bytes), Err(AppError::Protocol(_))));
}

#[test]
fn zero_header_size_is_a_protocol_error() {
    let bytes = vec![0x10, 0x90, 0x10, 0x00, 0, 0, 0, 0, 0, 0, 0, 0];
    assert!(matches!(decode_message(&bytes), Err(AppError::Protocol(_))));
}

#[test]
fn longer_header_is_skipped() {
    let mut bytes = vec![0x12, 0x90, 0x10, 0x00, 0xaa, 0xbb, 0xcc, 0xdd];
    bytes.extend_from_slice(&0u32.to_be_bytes());
    bytes.extend_from_slice(&1u32.to_be_bytes());
    bytes.push(b'Z');
    let f = decode_message(&bytes).unwrap().unwrap();
    assert_eq!(f.payload, b"Z".to_vec());
    assert_eq!(f.session_id, Vec::<u8>::new());
}

#[test]
fn inconsistent_frames_are_refused() {
    let f = frame(MessageType::FullClient, 0b100, None, b"", b"");
    assert!(matches!(encode_message(&f), Err(AppError::InvalidInput(_))));
    let f = frame(MessageType::FullClient, 0b000, Some(Event::StartConnection), b"", b"");
    assert!(matches!(encode_message(&f), Err(AppError::InvalidInput(_))));
    let f = frame(MessageType::FullClient, 0x14, Some(Event::StartConnection), b"", b"");
    assert!(matches!(encode_message(&f), Err(AppError::InvalidInput(_))));
}

#[test]
fn vocabulary_codes_invert() {
    let all = [
        (Event::StartConnection, 1),
        (Event::FinishConnection, 2),
        (Event::ConnectionStarted, 50),
        (Event::ConnectionFinished, 52),
        (Event::StartSession, 100),
        (Event::FinishSession, 102),
        (Event::SessionStarted, 150),
        (Event::SessionFinished, 152),
        (Event::SessionFailed, 153),
        (Event::Usage, 154),
        (Event::TaskRequest, 200),
        (Event::TTSSentenceStart, 350),
        (Event::TTSSentenceEnd, 351),
        (Event::TTSResponse, 352),
        (Event::TTSEnded, 359),
        (Event::ChatTTSText, 500),
        (Event::ChatTextQuery, 501),
        (Event::ChatRAGText, 502),
    ];
    for (e, c) in all {
        assert_eq!(e.code(), c);
        assert_eq!(Event::from_code(c), Some(e));
    }
    assert_eq!(Event::from_code(51), None);
    assert_eq!(Event::from_code(300), None);
    assert_eq!(MessageType::from_code(0b1011), Some(MessageType::AudioOnlyServer));
    assert_eq!(MessageType::from_code(0b0011), None);
}

#[test]
fn flag_helpers() {
    assert_eq!(MsgFlag::with_event(MsgFlag::last_no_seq()), MsgFlag(0b110));
    assert_eq!(MsgFlag::positive_seq(3), MsgFlag(0b01));
    assert_eq!(MsgFlag::positive_seq(-3), MsgFlag(0b11));
    assert_eq!(MsgFlag(0xf5).bits(), 0x05);
}
