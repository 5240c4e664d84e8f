use chat::client::RealtimeClient;
use chat::codec::{decode_message, encode_message, Frame};
use chat::config::{Config, RealtimeConfig};
use chat::error::AppError;
use chat::protocol::{Event, MessageType, MsgFlag};
use chat::session::{
    Action, RealtimeSession, SessionState, SynthesisInput, SynthesisResult, AUDIO_CHUNK_BYTES,
    PACING_INTERVAL_MS,
};

const SID: &str = "test-session";

fn config() -> RealtimeConfig {
    RealtimeConfig::from(&Config::with_defaults("app".to_string(), "key".to_string()))
}

fn server(event: Option<Event>, session_id: &[u8], payload: &[u8]) -> Vec<u8> {
    let flags = if event.is_some() { 0b100 } else { 0 };
    encode_message(&Frame {
        message_type: MessageType::FullServer,
        flags: MsgFlag(flags),
        event,
        session_id: session_id.to_vec(),
        payload: payload.to_vec(),
    })
    .unwrap()
}

fn audio(payload: &[u8]) -> Vec<u8> {
    encode_message(&Frame {
        message_type: MessageType::AudioOnlyServer,
        flags: MsgFlag(0b100),
        event: Some(Event::TTSResponse),
        session_id: SID.as_bytes().to_vec(),
        payload: payload.to_vec(),
    })
    .unwrap()
}

/// Drives a session against a fake remote that answers each read with the
/// next queued message, and reports a closed connection once they run out.
fn drive(
    session: &mut RealtimeSession,
    replies: Vec<Vec<u8>>,
) -> (Vec<(Frame, u64)>, Result<SynthesisResult, AppError>) {
    let mut replies = replies.into_iter();
    let mut sent = Vec::new();
    for _ in 0..10_000 {
        match session.next_action() {
            Action::Send { frame, pause_ms } => {
                sent.push((decode_message(&frame).unwrap().unwrap(), pause_ms));
            }
            Action::Receive => match replies.next() {
                Some(m) => session.receive(&m),
                None => session.transport_failed("connection closed".to_string()),
            },
            Action::Complete(r) => return (sent, Ok(r)),
            Action::Fail(e) => return (sent, Err(e)),
        }
    }
    panic!("session did not finish");
}

fn handshake() -> Vec<Vec<u8>> {
    vec![
        server(Some(Event::ConnectionStarted), b"", b"{}"),
        server(Some(Event::SessionStarted), SID.as_bytes(), b"{}"),
    ]
}

fn text_session(text: &str) -> RealtimeSession {
    RealtimeSession::new(config(), SID.to_string(), SynthesisInput::Text(text.to_string())).unwrap()
}

#[test]
fn text_scenario_collects_audio_in_order() {
    let mut s = text_session("hello");
    let mut replies = handshake();
    replies.push(audio(b"AB"));
    replies.push(audio(b"CD"));
    replies.push(server(Some(Event::TTSEnded), SID.as_bytes(), b"{}"));
    let (sent, result) = drive(&mut s, replies);
    let result = result.unwrap();
    assert_eq!(result.audio, b"ABCD".to_vec());
    assert!(result.transcript.is_none());
    assert_eq!(s.state(), SessionState::Completed);
    let events: Vec<Option<Event>> = sent.iter().map(|(f, _)| f.event).collect();
    assert_eq!(
        events,
        vec![
            Some(Event::StartConnection),
            Some(Event::StartSession),
            Some(Event::ChatTextQuery),
            Some(Event::FinishSession)
        ]
    );
    assert_eq!(sent[2].0.payload, b"{\"content\":\"hello\"}".to_vec());
    assert_eq!(sent[2].0.flags, MsgFlag(0b101));
    assert_eq!(sent[2].0.session_id, SID.as_bytes().to_vec());
    assert_eq!(sent[0].0.session_id, Vec::<u8>::new());
    assert_eq!(sent[0].0.payload, b"{}".to_vec());
    assert_eq!(sent[3].0.payload, b"{}".to_vec());
}

#[test]
fn session_failed_carries_remote_message() {
    let mut s = text_session("hello");
    let mut replies = handshake();
    replies.push(server(Some(Event::SessionFailed), SID.as_bytes(), b"quota exceeded"));
    let (_, result) = drive(&mut s, replies);
    match result {
        Err(AppError::SessionFailed(m)) => assert_eq!(m, "quota exceeded"),
        other => panic!("unexpected {:?}", other),
    }
    assert_eq!(s.state(), SessionState::Failed);
}

#[test]
fn audio_scenario_sends_three_chunks() {
    assert_eq!(AUDIO_CHUNK_BYTES, 640);
    let pcm: Vec<u8> = (0..1281u32).map(|i| (i % 251) as u8).collect();
    let mut s =
        RealtimeSession::new(config(), SID.to_string(), SynthesisInput::Audio(pcm.clone())).unwrap();
    let mut replies = handshake();
    replies.push(audio(b"xy"));
    replies.push(server(Some(Event::TTSEnded), b"", b"{}"));
    let (sent, result) = drive(&mut s, replies);
    assert_eq!(result.unwrap().audio, b"xy".to_vec());
    assert_eq!(sent.len(), 6);
    let chunks: Vec<&(Frame, u64)> =
        sent.iter().filter(|(f, _)| f.event == Some(Event::TaskRequest)).collect();
    assert_eq!(chunks.len(), 3);
    assert_eq!(chunks[0].0.payload.len(), 640);
    assert_eq!(chunks[1].0.payload.len(), 640);
    assert_eq!(chunks[2].0.payload.len(), 1);
    let joined: Vec<u8> = chunks.iter().flat_map(|(f, _)| f.payload.clone()).collect();
    assert_eq!(joined, pcm);
    for (f, pause) in &chunks {
        assert_eq!(f.message_type, MessageType::AudioOnlyClient);
        assert_eq!(*pause, PACING_INTERVAL_MS);
    }
    assert_eq!(chunks[0].0.flags, MsgFlag(0b101));
    assert_eq!(chunks[1].0.flags, MsgFlag(0b101));
    assert_eq!(chunks[2].0.flags, MsgFlag(0b111));
    assert_eq!(sent[5].0.event, Some(Event::FinishSession));
    assert_eq!(s.sequence(), 4);
}

#[test]
fn audio_of_exactly_one_chunk_is_terminal() {
    let mut s = RealtimeSession::new(config(), SID.to_string(), SynthesisInput::Audio(vec![1; 640]))
        .unwrap();
    let (sent, _) = drive(&mut s, handshake());
    let chunks: Vec<&(Frame, u64)> =
        sent.iter().filter(|(f, _)| f.event == Some(Event::TaskRequest)).collect();
    assert_eq!(chunks.len(), 1);
    assert_eq!(chunks[0].0.flags, MsgFlag(0b111));
}

#[test]
fn handshake_waits_for_each_acknowledgement() {
    let mut s = text_session("hello");
    assert!(matches!(s.next_action(), Action::Send { .. }));
    assert_eq!(s.state(), SessionState::ConnectionPending);
    assert!(matches!(s.next_action(), Action::Receive));
    s.receive(&server(Some(Event::SessionStarted), SID.as_bytes(), b"{}"));
    s.receive(&server(Some(Event::TTSSentenceStart), b"", b"{}"));
    assert_eq!(s.state(), SessionState::ConnectionPending);
    assert!(matches!(s.next_action(), Action::Receive));
    s.receive(&server(Some(Event::ConnectionStarted), b"", b"{}"));
    assert_eq!(s.state(), SessionState::Connected);
    match s.next_action() {
        Action::Send { frame, pause_ms } => {
            let f = decode_message(&frame).unwrap().unwrap();
            assert_eq!(f.event, Some(Event::StartSession));
            assert_eq!(pause_ms, 0);
        }
        other => panic!("unexpected {:?}", other),
    }
    assert!(matches!(s.next_action(), Action::Receive));
    s.receive(&server(Some(Event::SessionStarted), b"other-session", b"{}"));
    assert_eq!(s.state(), SessionState::SessionPending);
    s.receive(&server(Some(Event::SessionStarted), b"", b"{}"));
    assert_eq!(s.state(), SessionState::Active);
}

#[test]
fn sentence_events_are_ignored_while_collecting() {
    let mut s = text_session("hi");
    let mut replies = handshake();
    replies.push(server(Some(Event::TTSSentenceStart), b"", b"{}"));
    replies.push(audio(b"1"));
    replies.push(server(Some(Event::TTSSentenceEnd), b"", b"{}"));
    replies.push(server(Some(Event::Usage), b"", b"{}"));
    replies.push(audio(b"2"));
    replies.push(server(Some(Event::TTSEnded), b"", b"{}"));
    let (_, result) = drive(&mut s, replies);
    assert_eq!(result.unwrap().audio, b"12".to_vec());
}

#[test]
fn error_message_type_fails_the_session() {
    let mut s = text_session("hi");
    let reply = encode_message(&Frame {
        message_type: MessageType::Error,
        flags: MsgFlag(0),
        event: None,
        session_id: Vec::new(),
        payload: b"bad request".to_vec(),
    })
    .unwrap();
    let (_, result) = drive(&mut s, vec![reply]);
    match result {
        Err(AppError::SessionFailed(m)) => assert_eq!(m, "bad request"),
        other => panic!("unexpected {:?}", other),
    }
}

#[test]
fn invalid_utf8_failure_text_is_replaced() {
    let mut s = text_session("hi");
    let mut replies = handshake();
    replies.push(server(Some(Event::SessionFailed), b"", &[b'o', b'k', 0xff]));
    let (_, result) = drive(&mut s, replies);
    match result {
        Err(AppError::SessionFailed(m)) => assert_eq!(m, "ok\u{fffd}"),
        other => panic!("unexpected {:?}", other),
    }
}

#[test]
fn closed_connection_is_a_transport_error() {
    let mut s = text_session("hi");
    let (sent, result) = drive(&mut s, vec![server(Some(Event::ConnectionStarted), b"", b"{}")]);
    match result {
        Err(AppError::Transport(m)) => assert_eq!(m, "connection closed"),
        other => panic!("unexpected {:?}", other),
    }
    assert_eq!(sent.len(), 2);
}

#[test]
fn broken_message_is_a_protocol_error() {
    let mut s = text_session("hi");
    s.next_action();
    let mut truncated = server(Some(Event::ConnectionStarted), b"", b"{}");
    truncated.pop();
    s.receive(&truncated);
    assert_eq!(s.state(), SessionState::Failed);
    match s.next_action() {
        Action::Fail(AppError::Protocol(_)) => {}
        other => panic!("unexpected {:?}", other),
    }
    let mut s = text_session("hi");
    s.next_action();
    s.receive(&[0x11, 0x50, 0, 0, 0, 0, 0, 0, 0, 0, 0, 0]);
    assert!(matches!(s.next_action(), Action::Fail(AppError::Protocol(_))));
}

#[test]
fn finished_session_ignores_input() {
    let mut s = text_session("hi");
    let mut replies = handshake();
    replies.push(server(Some(Event::TTSEnded), b"", b"{}"));
    let (_, result) = drive(&mut s, replies);
    assert_eq!(result.unwrap().audio, Vec::<u8>::new());
    s.receive(&server(Some(Event::SessionFailed), b"", b"late"));
    s.transport_failed("gone".to_string());
    assert_eq!(s.state(), SessionState::Completed);
    assert!(s.is_finished());
}

#[test]
fn empty_content_is_invalid_input() {
    let r = RealtimeSession::new(config(), SID.to_string(), SynthesisInput::Text(String::new()));
    assert!(matches!(r, Err(AppError::InvalidInput(_))));
    let r = RealtimeSession::new(config(), SID.to_string(), SynthesisInput::Audio(Vec::new()));
    assert!(matches!(r, Err(AppError::InvalidInput(_))));
    let r = RealtimeSession::new(config(), String::new(), SynthesisInput::Text("x".to_string()));
    assert!(matches!(r, Err(AppError::InvalidInput(_))));
}

#[test]
fn client_sessions_get_fresh_uuid_ids() {
    let client = RealtimeClient::new(config());
    let a = client.open_session(SynthesisInput::Text("hi".to_string())).unwrap();
    let b = client.open_session(SynthesisInput::Text("hi".to_string())).unwrap();
    assert_eq!(a.session_id().len(), 36);
    assert_ne!(a.session_id(), b.session_id());
    for (i, c) in a.session_id().iter().enumerate() {
        if [8, 13, 18, 23].contains(&i) {
            assert_eq!(*c, b'-');
        } else {
            assert!(c.is_ascii_hexdigit() && !c.is_ascii_uppercase());
        }
    }
    assert!(matches!(
        client.open_session(SynthesisInput::Audio(Vec::new())),
        Err(AppError::InvalidInput(_))
    ));
    assert_eq!(client.config().app_id, "app");
}
