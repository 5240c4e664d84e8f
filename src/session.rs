use vstd::prelude::*;
use vstd::slice::{slice_subrange, slice_to_vec};
use vstd::utf8::{decode_utf8, encode_utf8, is_ascii_chars, is_ascii_chars_encode_utf8, valid_utf8};

use crate::codec::{
    decode_message, decode_spec, encode_message, encode_spec, frame_is_valid, DecodeOutcome,
    Frame, FrameView,
};
use crate::config::RealtimeConfig;
use crate::error::{AppError, ErrorKind};
use crate::payload::{
    empty_json, empty_json_payload, lemma_text_query_nonempty, start_session_json, start_session_payload, text_query_json,
    text_query_payload,
};
use crate::protocol::{sequence_bits, Event, MessageType, MsgFlag, NEGATIVE_SEQUENCE};

verus! {

/// Bytes of raw PCM carried by one audio frame.
pub const AUDIO_CHUNK_BYTES: usize = 640;

/// Pause after each audio frame, so that the audio arrives at the pace of a
/// live microphone.
pub const PACING_INTERVAL_MS: u64 = 20;

/// Most audio frames that one session can number.
pub const MAX_AUDIO_CHUNKS: usize = 0x7fff_fffd;

/// Steps of one dialogue session.
#[derive(Clone, Copy, Debug, PartialEq, Eq, Structural)]
pub enum SessionState {
    Idle,
    ConnectionPending,
    Connected,
    SessionPending,
    Active,
    Streaming,
    Finalizing,
    Completed,
    Failed,
}

/// What the caller asks the remote service to answer.
#[derive(Debug)]
pub enum SynthesisInput {
    Text(String),
    /// Raw PCM, passed through as it is.
    Audio(Vec<u8>),
}

/// What a session hands back: the assembled audio and, for later use, a
/// transcript (always absent for now).
#[derive(Debug)]
pub struct SynthesisResult {
    pub audio: Vec<u8>,
    pub transcript: Option<String>,
}

/// What the connection should do next for a session.
#[derive(Debug)]
pub enum Action {
    /// Write this frame, then wait `pause_ms` milliseconds before asking again.
    Send { frame: Vec<u8>, pause_ms: u64 },
    /// Read the next message and hand it to `receive`.
    Receive,
    /// The session is over and here is its result.
    Complete(SynthesisResult),
    /// The session failed.
    Fail(AppError),
}

/// One frame that crossed the connection, in either direction.
pub enum Traffic {
    /// A frame written, with the sequence number it was tagged with, if any.
    Sent { frame: FrameView, sequence: Option<int> },
    Received { frame: FrameView },
}

/// Mathematical model of a session.
pub struct SessionView {
    pub state: SessionState,
    pub config: RealtimeConfig,
    /// UTF-8 bytes of the session id.
    pub session_id: Seq<u8>,
    pub audio_input: bool,
    /// The text query's JSON body, or the PCM to stream.
    pub content: Seq<u8>,
    /// How much of `content` has been sent.
    pub sent: int,
    /// Number for the next content frame.
    pub sequence: int,
    /// Audio received so far, in arrival order.
    pub audio: Seq<u8>,
    pub failure: Option<(ErrorKind, Seq<char>)>,
    /// Every frame sent or received, in order.
    pub history: Seq<Traffic>,
}

// ---- what the history records ----

pub open spec fn sent_event(t: Traffic) -> Option<Event> {
    match t {
        Traffic::Sent { frame, .. } => frame.event,
        Traffic::Received { .. } => None,
    }
}

pub open spec fn received_event(t: Traffic) -> Option<Event> {
    match t {
        Traffic::Sent { .. } => None,
        Traffic::Received { frame } => frame.event,
    }
}

/// A frame that submits content: the text query or a piece of audio.
pub open spec fn is_content(t: Traffic) -> bool {
    sent_event(t) == Some(Event::ChatTextQuery) || sent_event(t) == Some(Event::TaskRequest)
}

pub open spec fn is_audio_content(t: Traffic) -> bool {
    match t {
        Traffic::Sent { frame, .. } => frame.message_type == MessageType::AudioOnlyClient
            && frame.event == Some(Event::TaskRequest),
        Traffic::Received { .. } => false,
    }
}

pub open spec fn sequence_of(t: Traffic) -> int {
    match t {
        Traffic::Sent { sequence: Some(n), .. } => n,
        _ => 0,
    }
}

/// A sent frame whose flags use the last-frame sequence encoding.
pub open spec fn is_terminal(t: Traffic) -> bool {
    match t {
        Traffic::Sent { frame, .. } => sequence_bits(frame.flags) == NEGATIVE_SEQUENCE,
        Traffic::Received { .. } => false,
    }
}

/// Some frame before position `i` was a received `e`.
pub open spec fn seen_before(h: Seq<Traffic>, i: int, e: Event) -> bool {
    exists|j: int| 0 <= j < i && #[trigger] received_event(h[j]) == Some(e)
}

/// StartSession only after ConnectionStarted came in; content only after
/// SessionStarted came in.
pub open spec fn handshake_ordered(h: Seq<Traffic>) -> bool {
    &&& forall|i: int|
        0 <= i < h.len() && #[trigger] sent_event(h[i]) == Some(Event::StartSession)
            ==> seen_before(h, i, Event::ConnectionStarted)
    &&& forall|i: int|
        0 <= i < h.len() && #[trigger] is_content(h[i]) ==> seen_before(
            h,
            i,
            Event::SessionStarted,
        )
}

/// Audio frames carry strictly increasing sequence numbers, only the last
/// one uses the terminal encoding, and none is followed by FinishSession
/// without a terminal audio frame in between.
pub open spec fn audio_sequence_ordered(h: Seq<Traffic>) -> bool {
    &&& forall|i: int, j: int|
        0 <= i < j < h.len() && #[trigger] is_audio_content(h[i]) && #[trigger] is_audio_content(
            h[j],
        ) ==> sequence_of(h[i]) < sequence_of(h[j]) && !is_terminal(h[i])
    &&& forall|i: int, k: int|
        0 <= i < k < h.len() && #[trigger] is_audio_content(h[i]) && #[trigger] sent_event(h[k])
            == Some(Event::FinishSession) ==> exists|j: int|
            i <= j < k && #[trigger] is_audio_content(h[j]) && is_terminal(h[j])
}

// ---- the frames a session sends ----

pub open spec fn start_connection_frame() -> FrameView {
    FrameView {
        message_type: MessageType::FullClient,
        flags: 0b110,
        event: Some(Event::StartConnection),
        session_id: Seq::empty(),
        payload: empty_json(),
    }
}

pub open spec fn start_session_frame(v: SessionView) -> FrameView {
    FrameView {
        message_type: MessageType::FullClient,
        flags: 0b110,
        event: Some(Event::StartSession),
        session_id: v.session_id,
        payload: start_session_json(v.config, v.audio_input),
    }
}

/// Where the next content frame ends: a whole text query, or at most one
/// chunk of audio.
pub open spec fn chunk_end(v: SessionView) -> int {
    if v.audio_input && v.content.len() - v.sent > AUDIO_CHUNK_BYTES {
        v.sent + AUDIO_CHUNK_BYTES
    } else {
        v.content.len() as int
    }
}

pub open spec fn content_frame(v: SessionView) -> FrameView {
    if v.audio_input {
        FrameView {
            message_type: MessageType::AudioOnlyClient,
            flags: if chunk_end(v) == v.content.len() {
                0b111
            } else {
                0b101
            },
            event: Some(Event::TaskRequest),
            session_id: v.session_id,
            payload: v.content.subrange(v.sent, chunk_end(v)),
        }
    } else {
        FrameView {
            message_type: MessageType::FullClient,
            flags: 0b101,
            event: Some(Event::ChatTextQuery),
            session_id: v.session_id,
            payload: v.content,
        }
    }
}

pub open spec fn finish_session_frame(v: SessionView) -> FrameView {
    FrameView {
        message_type: MessageType::FullClient,
        flags: 0b110,
        event: Some(Event::FinishSession),
        session_id: v.session_id,
        payload: empty_json(),
    }
}

// ---- transitions ----

pub open spec fn with_sent(v: SessionView, state: SessionState, t: Traffic) -> SessionView {
    SessionView { state, history: v.history.push(t), ..v }
}

/// The session after `next_action`.
pub open spec fn advance(v: SessionView) -> SessionView {
    match v.state {
        SessionState::Idle => with_sent(
            v,
            SessionState::ConnectionPending,
            Traffic::Sent { frame: start_connection_frame(), sequence: None },
        ),
        SessionState::Connected => with_sent(
            v,
            SessionState::SessionPending,
            Traffic::Sent { frame: start_session_frame(v), sequence: None },
        ),
        SessionState::Active | SessionState::Streaming => if v.sent < v.content.len() {
            SessionView {
                sent: chunk_end(v),
                sequence: v.sequence + 1,
                ..with_sent(
                    v,
                    SessionState::Streaming,
                    Traffic::Sent { frame: content_frame(v), sequence: Some(v.sequence) },
                )
            }
        } else {
            with_sent(
                v,
                SessionState::Finalizing,
                Traffic::Sent { frame: finish_session_frame(v), sequence: None },
            )
        },
        _ => v,
    }
}

pub open spec fn sends(a: Action, frame: FrameView, pause: u64) -> bool {
    match a {
        Action::Send { frame: bytes, pause_ms } => bytes@ == encode_spec(frame) && pause_ms
            == pause,
        _ => false,
    }
}

/// The action that `next_action` returns in a given session.
pub open spec fn action_for(v: SessionView, a: Action) -> bool {
    match v.state {
        SessionState::Idle => sends(a, start_connection_frame(), 0),
        SessionState::Connected => sends(a, start_session_frame(v), 0),
        SessionState::Active | SessionState::Streaming => if v.sent < v.content.len() {
            sends(
                a,
                content_frame(v),
                if v.audio_input {
                    PACING_INTERVAL_MS
                } else {
                    0
                },
            )
        } else {
            sends(a, finish_session_frame(v), 0)
        },
        SessionState::ConnectionPending | SessionState::SessionPending
        | SessionState::Finalizing => a is Receive,
        SessionState::Completed => match a {
            Action::Complete(r) => r.audio@ == v.audio && r.transcript is None,
            _ => false,
        },
        SessionState::Failed => match a {
            Action::Fail(e) => v.failure == Some((e.kind(), e.message_view())),
            _ => false,
        },
    }
}

pub open spec fn is_over(s: SessionState) -> bool {
    s == SessionState::Completed || s == SessionState::Failed
}

pub open spec fn failed(v: SessionView, kind: ErrorKind, message: Seq<char>) -> SessionView {
    SessionView { state: SessionState::Failed, failure: Some((kind, message)), ..v }
}

/// The characters of a byte sequence read as UTF-8, invalid parts replaced.
pub uninterp spec fn utf8_lossy(b: Seq<u8>) -> Seq<char>;

/// Relies on String::from_utf8_lossy: valid UTF-8 decodes to exactly its
/// characters; the result depends on the bytes alone.
#[verifier::external_body]
fn text_from_bytes(b: &[u8]) -> (r: String)
    ensures
        r@ == utf8_lossy(b@),
        valid_utf8(b@) ==> r@ == decode_utf8(b@),
{
    String::from_utf8_lossy(b).into_owned()
}

/// A SessionStarted that answers this session: its id is ours, or absent.
pub open spec fn answers_session(v: SessionView, f: FrameView) -> bool {
    f.event == Some(Event::SessionStarted) && (f.session_id.len() == 0 || f.session_id
        == v.session_id)
}

/// The session after it reads a frame. Failure reports preempt every state;
/// every other frame advances the session only where it is the awaited one.
pub open spec fn after_frame(v: SessionView, f: FrameView) -> SessionView {
    let r = SessionView { history: v.history.push(Traffic::Received { frame: f }), ..v };
    if f.event == Some(Event::SessionFailed) || f.message_type == MessageType::Error {
        failed(r, ErrorKind::SessionFailed, utf8_lossy(f.payload))
    } else if v.state == SessionState::ConnectionPending && f.event == Some(
        Event::ConnectionStarted,
    ) {
        SessionView { state: SessionState::Connected, ..r }
    } else if v.state == SessionState::SessionPending && answers_session(v, f) {
        SessionView { state: SessionState::Active, ..r }
    } else if (v.state == SessionState::Streaming || v.state == SessionState::Finalizing)
        && f.event == Some(Event::TTSResponse) {
        SessionView { audio: v.audio + f.payload, ..r }
    } else if v.state == SessionState::Finalizing && f.event == Some(Event::TTSEnded) {
        SessionView { state: SessionState::Completed, ..r }
    } else {
        r
    }
}

/// The session after it reads one whole message from the connection.
pub open spec fn after_message(v: SessionView, m: Seq<u8>) -> SessionView {
    if is_over(v.state) {
        v
    } else {
        match decode_spec(m) {
            DecodeOutcome::Complete(f) => after_frame(v, f),
            DecodeOutcome::Incomplete => failed(
                v,
                ErrorKind::Protocol,
                "message ends inside a frame"@,
            ),
            DecodeOutcome::Malformed => failed(v, ErrorKind::Protocol, "malformed frame"@),
        }
    }
}

/// What may be asked of a session: a non-empty session id and content, and
/// fields that fit their length prefixes and the sequence numbers.
pub open spec fn content_is_acceptable(cfg: RealtimeConfig, input: SynthesisInput) -> bool {
    match input {
        SynthesisInput::Text(t) => {
            &&& t@.len() > 0
            &&& text_query_json(t@).len() <= u32::MAX
            &&& start_session_json(cfg, false).len() <= u32::MAX
        },
        SynthesisInput::Audio(p) => {
            &&& p@.len() > 0
            &&& p@.len() as int / (AUDIO_CHUNK_BYTES as int) <= MAX_AUDIO_CHUNKS
            &&& start_session_json(cfg, true).len() <= u32::MAX
        },
    }
}

pub open spec fn session_id_is_acceptable(sid: Seq<u8>) -> bool {
    0 < sid.len() <= u32::MAX
}

pub open spec fn initial_view(cfg: RealtimeConfig, sid: Seq<u8>, input: SynthesisInput) -> SessionView {
    SessionView {
        state: SessionState::Idle,
        config: cfg,
        session_id: sid,
        audio_input: input is Audio,
        content: match input {
            SynthesisInput::Text(t) => text_query_json(t@),
            SynthesisInput::Audio(p) => p@,
        },
        sent: 0,
        sequence: 1,
        audio: Seq::empty(),
        failure: None,
        history: Seq::empty(),
    }
}

/// A character of a lower-case hyphenated UUID at position `i`.
pub open spec fn is_uuid_char(i: int, c: char) -> bool {
    if i == 8 || i == 13 || i == 18 || i == 23 {
        c == '-'
    } else {
        ('0' <= c <= '9') || ('a' <= c <= 'f')
    }
}

/// Relies on uuid::Uuid::new_v4 and its `Display`: a random version 4 UUID
/// written as 36 lower-case characters in 8-4-4-4-12 hex groups.
#[verifier::external_body]
fn fresh_session_id() -> (r: String)
    ensures
        r@.len() == 36,
        forall|i: int| 0 <= i < 36 ==> is_uuid_char(i, #[trigger] r@[i]),
{
    uuid::Uuid::new_v4().to_string()
}

/// One dialogue session: handshake, submission and the collection of the
/// answer, as a state machine that the caller drives over its connection.
pub struct RealtimeSession {
    cfg: RealtimeConfig,
    session_id: Vec<u8>,
    audio_input: bool,
    content: Vec<u8>,
    start_payload: Vec<u8>,
    sent: usize,
    sequence: i32,
    state: SessionState,
    audio: Vec<u8>,
    failure: Option<AppError>,
    history: Ghost<Seq<Traffic>>,
    /// Position of the last audio frame in the history.
    last_audio: Ghost<int>,
}

pub open spec fn frames_left(v: SessionView) -> int {
    if v.audio_input {
        (v.content.len() - v.sent + AUDIO_CHUNK_BYTES - 1) / (AUDIO_CHUNK_BYTES as int)
    } else if v.sent < v.content.len() {
        1
    } else {
        0
    }
}

pub open spec fn past_connection(s: SessionState) -> bool {
    s != SessionState::Idle && s != SessionState::ConnectionPending && s != SessionState::Failed
}

pub open spec fn past_session_start(s: SessionState) -> bool {
    past_connection(s) && s != SessionState::Connected && s != SessionState::SessionPending
}

impl View for RealtimeSession {
    type V = SessionView;

    closed spec fn view(&self) -> SessionView {
        SessionView {
            state: self.state,
            config: self.cfg,
            session_id: self.session_id@,
            audio_input: self.audio_input,
            content: self.content@,
            sent: self.sent as int,
            sequence: self.sequence as int,
            audio: self.audio@,
            failure: match self.failure {
                Some(e) => Some((e.kind(), e.message_view())),
                None => None,
            },
            history: self.history@,
        }
    }
}

impl RealtimeSession {
    /// The session's invariant.
    pub closed spec fn wf(&self) -> bool {
        let v = self@;
        let h = v.history;
        &&& session_id_is_acceptable(v.session_id)
        &&& self.start_payload@ == start_session_json(v.config, v.audio_input)
        &&& self.start_payload@.len() <= u32::MAX
        &&& 0 < v.content.len()
        &&& !v.audio_input ==> v.content.len() <= u32::MAX
        &&& !v.audio_input ==> v.sent == 0 || v.sent == v.content.len()
        &&& 0 <= v.sent <= v.content.len()
        &&& 1 <= v.sequence
        &&& v.sequence + frames_left(v) <= i32::MAX
        &&& !past_session_start(v.state) && v.state != SessionState::Failed ==> v.sent == 0
        &&& v.state == SessionState::Active ==> v.sent == 0
        &&& (v.state == SessionState::Failed <==> self.failure is Some)
        &&& handshake_ordered(h)
        &&& audio_sequence_ordered(h)
        &&& past_connection(v.state) ==> seen_before(h, h.len() as int, Event::ConnectionStarted)
        &&& past_session_start(v.state) ==> seen_before(
            h,
            h.len() as int,
            Event::SessionStarted,
        )
        &&& forall|i: int|
            0 <= i < h.len() && #[trigger] is_audio_content(h[i]) ==> {
                &&& v.audio_input
                &&& v.sent > 0
                &&& sequence_of(h[i]) < v.sequence
                &&& i <= self.last_audio@
                &&& is_terminal(h[i]) ==> v.sent == v.content.len()
            }
        &&& v.audio_input && v.sent > 0 ==> {
            &&& 0 <= self.last_audio@ < h.len()
            &&& is_audio_content(h[self.last_audio@])
            &&& v.sent == v.content.len() ==> is_terminal(h[self.last_audio@])
        }
        &&& forall|k: int|
            0 <= k < h.len() && #[trigger] sent_event(h[k]) == Some(Event::FinishSession) ==> (
            v.state == SessionState::Finalizing || is_over(v.state))
    }
}

proof fn lemma_seen_extends(h: Seq<Traffic>, t: Traffic, i: int, e: Event)
    requires
        seen_before(h, i, e),
        i <= h.len(),
    ensures
        seen_before(h.push(t), i, e),
        seen_before(h.push(t), h.len() + 1int, e),
{
    let j = choose|j: int| 0 <= j < i && #[trigger] received_event(h[j]) == Some(e);
    assert(h.push(t)[j] == h[j]);
}

/// Appending a frame keeps the history ordered when the frame itself obeys
/// the order with respect to what came before.
proof fn lemma_push_keeps_order(h: Seq<Traffic>, t: Traffic)
    requires
        handshake_ordered(h),
        audio_sequence_ordered(h),
        sent_event(t) == Some(Event::StartSession) ==> seen_before(
            h,
            h.len() as int,
            Event::ConnectionStarted,
        ),
        is_content(t) ==> seen_before(h, h.len() as int, Event::SessionStarted),
        is_audio_content(t) ==> forall|i: int|
            0 <= i < h.len() && #[trigger] is_audio_content(h[i]) ==> sequence_of(h[i])
                < sequence_of(t) && !is_terminal(h[i]),
        sent_event(t) == Some(Event::FinishSession) ==> forall|i: int|
            0 <= i < h.len() && #[trigger] is_audio_content(h[i]) ==> exists|j: int|
                i <= j < h.len() && #[trigger] is_audio_content(h[j]) && is_terminal(h[j]),
        !(is_audio_content(t) && sent_event(t) == Some(Event::FinishSession)),
        is_audio_content(t) ==> forall|k: int|
            0 <= k < h.len() ==> #[trigger] sent_event(h[k]) != Some(Event::FinishSession),
    ensures
        handshake_ordered(h.push(t)),
        audio_sequence_ordered(h.push(t)),
{
    let g = h.push(t);
    let n = h.len() as int;
    assert forall|i: int|
        0 <= i < g.len() && #[trigger] sent_event(g[i]) == Some(
            Event::StartSession,
        ) implies seen_before(g, i, Event::ConnectionStarted) by {
        if i < n {
            assert(g[i] == h[i]);
            lemma_seen_extends(h, t, i, Event::ConnectionStarted);
        } else {
            lemma_seen_extends(h, t, n, Event::ConnectionStarted);
        }
    }
    assert forall|i: int| 0 <= i < g.len() && #[trigger] is_content(g[i]) implies seen_before(
        g,
        i,
        Event::SessionStarted,
    ) by {
        if i < n {
            assert(g[i] == h[i]);
            lemma_seen_extends(h, t, i, Event::SessionStarted);
        } else {
            lemma_seen_extends(h, t, n, Event::SessionStarted);
        }
    }
    assert forall|i: int, j: int|
        0 <= i < j < g.len() && #[trigger] is_audio_content(g[i]) && #[trigger] is_audio_content(
            g[j],
        ) implies sequence_of(g[i]) < sequence_of(g[j]) && !is_terminal(g[i]) by {
        assert(g[i] == h[i]);
        if j < n {
            assert(g[j] == h[j]);
        }
    }
    assert forall|i: int, k: int|
        0 <= i < k < g.len() && #[trigger] is_audio_content(g[i]) && #[trigger] sent_event(g[k])
            == Some(Event::FinishSession) implies exists|j: int|
        i <= j < k && #[trigger] is_audio_content(g[j]) && is_terminal(g[j]) by {
        assert(g[i] == h[i]);
        if k < n {
            assert(g[k] == h[k]);
            let j = choose|j: int| i <= j < k && #[trigger] is_audio_content(h[j]) && is_terminal(h[j]);
            assert(g[j] == h[j]);
        } else {
            let j = choose|j: int| i <= j < n && #[trigger] is_audio_content(h[j]) && is_terminal(h[j]);
            assert(g[j] == h[j]);
        }
    }
}

/// Writes a frame that is known to be valid.
fn encode_valid(frame: &Frame) -> (r: Vec<u8>)
    requires
        frame_is_valid(frame@),
    ensures
        r@ == encode_spec(frame@),
{
    match encode_message(frame) {
        Ok(bytes) => bytes,
        Err(_) => Vec::new(),
    }
}

fn copy_bytes(b: &Vec<u8>) -> (r: Vec<u8>)
    ensures
        r@ == b@,
{
    slice_to_vec(b.as_slice())
}

impl RealtimeSession {
    /// A session in state Idle that will submit `input` under `session_id`.
    /// Refuses an empty id or empty content, and anything whose frames the
    /// wire format or the sequence numbers cannot carry.
    pub fn new(cfg: RealtimeConfig, session_id: String, input: SynthesisInput) -> (r: Result<
        RealtimeSession,
        AppError,
    >)
        ensures
            r is Ok <==> session_id_is_acceptable(encode_utf8(session_id@)) && content_is_acceptable(
                cfg,
                input,
            ),
            r is Err ==> r->Err_0.kind() == ErrorKind::InvalidInput,
            r is Ok ==> r->Ok_0.wf() && r->Ok_0@ == initial_view(
                cfg,
                encode_utf8(session_id@),
                input,
            ),
    {
        let sid = slice_to_vec(session_id.as_str().as_bytes());
        if sid.len() == 0 || sid.len() as u64 > 0xffff_ffff {
            return Err(AppError::InvalidInput("session id must not be empty".to_string()));
        }
        let ghost input_spec = input;
        let (audio_input, content) = match input {
            SynthesisInput::Text(t) => {
                if t.as_str().is_empty() {
                    return Err(AppError::InvalidInput("no text to synthesize".to_string()));
                }
                let body = text_query_payload(t.as_str());
                proof {
                    lemma_text_query_nonempty(t@);
                }
                if body.len() as u64 > 0xffff_ffff {
                    return Err(AppError::InvalidInput("text too long for one frame".to_string()));
                }
                (false, body)
            },
            SynthesisInput::Audio(p) => {
                if p.len() == 0 {
                    return Err(AppError::InvalidInput("no audio to synthesize".to_string()));
                }
                if p.len() / AUDIO_CHUNK_BYTES > MAX_AUDIO_CHUNKS {
                    return Err(AppError::InvalidInput("audio too long for one session".to_string()));
                }
                (true, p)
            },
        };
        let start_payload = start_session_payload(&cfg, audio_input);
        if start_payload.len() as u64 > 0xffff_ffff {
            return Err(
                AppError::InvalidInput("session settings too long for one frame".to_string()),
            );
        }
        let s = RealtimeSession {
            cfg,
            session_id: sid,
            audio_input,
            content,
            start_payload,
            sent: 0,
            sequence: 1,
            state: SessionState::Idle,
            audio: Vec::new(),
            failure: None,
            history: Ghost(Seq::empty()),
            last_audio: Ghost(0),
        };
        proof {
            let l = s.content@.len() as int;
            if audio_input {
                assert((l + 639) / 640 <= l / 640 + 1) by (nonlinear_arith)
                    requires
                        l >= 0,
                ;
            }
            assert(frames_left(s@) <= MAX_AUDIO_CHUNKS + 1);
        }
        assert(s@ == initial_view(cfg, encode_utf8(session_id@), input_spec));
        assert(s.wf());
        Ok(s)
    }

    /// A session under a fresh random session id.
    pub fn start(cfg: RealtimeConfig, input: SynthesisInput) -> (r: Result<
        RealtimeSession,
        AppError,
    >)
        ensures
            r is Ok <==> content_is_acceptable(cfg, input),
            r is Err ==> r->Err_0.kind() == ErrorKind::InvalidInput,
            r is Ok ==> r->Ok_0.wf() && exists|id: Seq<char>|
                #![trigger encode_utf8(id)]
                id.len() == 36 && r->Ok_0@ == initial_view(cfg, encode_utf8(id), input),
    {
        let id = fresh_session_id();
        proof {
            assert(is_ascii_chars(id@));
            is_ascii_chars_encode_utf8(id@);
        }
        RealtimeSession::new(cfg, id, input)
    }
}

impl RealtimeSession {
    /// What to do next. Sends advance the session at once; a session that
    /// waits for the remote side asks for a read; a finished session hands
    /// out its result.
    pub fn next_action(&mut self) -> (a: Action)
        requires
            old(self).wf(),
        ensures
            final(self).wf(),
            final(self)@ == advance(old(self)@),
            action_for(old(self)@, a),
    {
        let ghost v = self@;
        let ghost h = self.history@;
        assert((2u8 | 4u8) == 6u8 && (1u8 | 4u8) == 5u8 && (3u8 | 4u8) == 7u8) by (bit_vector);
        match self.state {
            SessionState::Idle => {
                let frame = Frame {
                    message_type: MessageType::FullClient,
                    flags: MsgFlag::with_event(MsgFlag::last_no_seq()),
                    event: Some(Event::StartConnection),
                    session_id: Vec::new(),
                    payload: empty_json_payload(),
                };
                assert(frame@.session_id =~= Seq::<u8>::empty());
                assert(frame@ == start_connection_frame());
                let bytes = encode_valid(&frame);
                let ghost t = Traffic::Sent { frame: frame@, sequence: None };
                proof {
                    lemma_push_keeps_order(h, t);
                }
                self.history = Ghost(h.push(t));
                self.state = SessionState::ConnectionPending;
                proof {
                    assert forall|k: int|
                        0 <= k < self.history@.len() && #[trigger] sent_event(self.history@[k])
                            == Some(Event::FinishSession) implies false by {
                        if k < h.len() {
                            assert(self.history@[k] == h[k]);
                        }
                    }
                }
                Action::Send { frame: bytes, pause_ms: 0 }
            },
            SessionState::Connected => {
                let frame = Frame {
                    message_type: MessageType::FullClient,
                    flags: MsgFlag::with_event(MsgFlag::last_no_seq()),
                    event: Some(Event::StartSession),
                    session_id: copy_bytes(&self.session_id),
                    payload: copy_bytes(&self.start_payload),
                };
                assert(frame@ == start_session_frame(v));
                let bytes = encode_valid(&frame);
                let ghost t = Traffic::Sent { frame: frame@, sequence: None };
                proof {
                    lemma_push_keeps_order(h, t);
                    lemma_seen_extends(h, t, h.len() as int, Event::ConnectionStarted);
                }
                self.history = Ghost(h.push(t));
                self.state = SessionState::SessionPending;
                proof {
                    assert forall|k: int|
                        0 <= k < self.history@.len() && #[trigger] sent_event(self.history@[k])
                            == Some(Event::FinishSession) implies false by {
                        if k < h.len() {
                            assert(self.history@[k] == h[k]);
                        }
                    }
                }
                Action::Send { frame: bytes, pause_ms: 0 }
            },
            SessionState::Active | SessionState::Streaming => {
                if self.sent < self.content.len() {
                    self.send_content()
                } else {
                    self.send_finish()
                }
            },
            SessionState::ConnectionPending | SessionState::SessionPending
            | SessionState::Finalizing => Action::Receive,
            SessionState::Completed => Action::Complete(
                SynthesisResult { audio: copy_bytes(&self.audio), transcript: None },
            ),
            SessionState::Failed => {
                let e = match &self.failure {
                    Some(e) => e.duplicate(),
                    None => AppError::Protocol("session failed".to_string()),
                };
                Action::Fail(e)
            },
        }
    }

    fn send_content(&mut self) -> (a: Action)
        requires
            old(self).wf(),
            old(self)@.state == SessionState::Active || old(self)@.state
                == SessionState::Streaming,
            old(self)@.sent < old(self)@.content.len(),
        ensures
            final(self).wf(),
            final(self)@ == advance(old(self)@),
            action_for(old(self)@, a),
    {
        let ghost v = self@;
        let ghost h = self.history@;
        assert((1u8 | 4u8) == 5u8 && (3u8 | 4u8) == 7u8) by (bit_vector);
        let end = if self.audio_input && self.content.len() - self.sent > AUDIO_CHUNK_BYTES {
            self.sent + AUDIO_CHUNK_BYTES
        } else {
            self.content.len()
        };
        let last = end == self.content.len();
        let chunk = slice_to_vec(slice_subrange(self.content.as_slice(), self.sent, end));
        let frame = if self.audio_input {
            let sequence_flag = if last {
                MsgFlag::positive_seq(-self.sequence)
            } else {
                MsgFlag::positive_seq(self.sequence)
            };
            Frame {
                message_type: MessageType::AudioOnlyClient,
                flags: MsgFlag::with_event(sequence_flag),
                event: Some(Event::TaskRequest),
                session_id: copy_bytes(&self.session_id),
                payload: chunk,
            }
        } else {
            Frame {
                message_type: MessageType::FullClient,
                flags: MsgFlag::with_event(MsgFlag::positive_seq(self.sequence)),
                event: Some(Event::ChatTextQuery),
                session_id: copy_bytes(&self.session_id),
                payload: chunk,
            }
        };
        assert(!v.audio_input ==> chunk@ =~= v.content);
        assert(frame@ == content_frame(v));
        let bytes = encode_valid(&frame);
        let ghost t = Traffic::Sent { frame: frame@, sequence: Some(v.sequence) };
        proof {
            assert forall|i: int|
                0 <= i < h.len() && #[trigger] is_audio_content(h[i]) implies sequence_of(h[i])
                < sequence_of(t) && !is_terminal(h[i]) by {}
            assert forall|k: int| 0 <= k < h.len() implies #[trigger] sent_event(h[k]) != Some(
                Event::FinishSession,
            ) by {}
            lemma_push_keeps_order(h, t);
            lemma_seen_extends(h, t, h.len() as int, Event::ConnectionStarted);
            lemma_seen_extends(h, t, h.len() as int, Event::SessionStarted);
            let l = v.content.len() as int;
            let rem = l - v.sent;
            if v.audio_input {
                if rem > 640 {
                    assert((rem - 640 + 639) / 640 == (rem + 639) / 640 - 1);
                } else {
                    assert((rem + 639) / 640 == 1);
                }
            }
        }
        self.history = Ghost(h.push(t));
        if self.audio_input {
            self.last_audio = Ghost(h.len() as int);
        }
        self.sequence = self.sequence + 1;
        self.sent = end;
        self.state = SessionState::Streaming;
        proof {
            let g = self.history@;
            assert forall|i: int| 0 <= i < g.len() && #[trigger] is_audio_content(g[i]) implies {
                &&& self@.audio_input
                &&& self@.sent > 0
                &&& sequence_of(g[i]) < self@.sequence
                &&& i <= self.last_audio@
                &&& is_terminal(g[i]) ==> self@.sent == self@.content.len()
            } by {
                if i < h.len() {
                    assert(g[i] == h[i]);
                }
            }
            assert forall|k: int|
                0 <= k < g.len() && #[trigger] sent_event(g[k]) == Some(
                    Event::FinishSession,
                ) implies false by {
                if k < h.len() {
                    assert(g[k] == h[k]);
                }
            }
            assert(self@ == advance(v));
        }
        let pause_ms = if self.audio_input {
            PACING_INTERVAL_MS
        } else {
            0
        };
        Action::Send { frame: bytes, pause_ms }
    }

    fn send_finish(&mut self) -> (a: Action)
        requires
            old(self).wf(),
            old(self)@.state == SessionState::Active || old(self)@.state
                == SessionState::Streaming,
            old(self)@.sent >= old(self)@.content.len(),
        ensures
            final(self).wf(),
            final(self)@ == advance(old(self)@),
            action_for(old(self)@, a),
    {
        let ghost v = self@;
        let ghost h = self.history@;
        assert((2u8 | 4u8) == 6u8) by (bit_vector);
        let frame = Frame {
            message_type: MessageType::FullClient,
            flags: MsgFlag::with_event(MsgFlag::last_no_seq()),
            event: Some(Event::FinishSession),
            session_id: copy_bytes(&self.session_id),
            payload: empty_json_payload(),
        };
        assert(frame@ == finish_session_frame(v));
        let bytes = encode_valid(&frame);
        let ghost t = Traffic::Sent { frame: frame@, sequence: None };
        proof {
            assert forall|i: int| 0 <= i < h.len() && #[trigger] is_audio_content(h[i]) implies exists|
                j: int,
            | i <= j < h.len() && #[trigger] is_audio_content(h[j]) && is_terminal(h[j]) by {
                let j = self.last_audio@;
                assert(is_audio_content(h[j]) && is_terminal(h[j]));
            }
            lemma_push_keeps_order(h, t);
            lemma_seen_extends(h, t, h.len() as int, Event::ConnectionStarted);
            lemma_seen_extends(h, t, h.len() as int, Event::SessionStarted);
        }
        self.history = Ghost(h.push(t));
        self.state = SessionState::Finalizing;
        proof {
            let g = self.history@;
            assert forall|i: int| 0 <= i < g.len() && #[trigger] is_audio_content(g[i]) implies {
                &&& self@.audio_input
                &&& self@.sent > 0
                &&& sequence_of(g[i]) < self@.sequence
                &&& i <= self.last_audio@
                &&& is_terminal(g[i]) ==> self@.sent == self@.content.len()
            } by {
                if i < h.len() {
                    assert(g[i] == h[i]);
                }
            }
            assert(self@ == advance(v));
        }
        Action::Send { frame: bytes, pause_ms: 0 }
    }
}

fn same_bytes(a: &Vec<u8>, b: &Vec<u8>) -> (r: bool)
    ensures
        r == (a@ == b@),
{
    if a.len() != b.len() {
        return false;
    }
    let mut i: usize = 0;
    while i < a.len()
        invariant
            a@.len() == b@.len(),
            i <= a@.len(),
            a@.subrange(0, i as int) == b@.subrange(0, i as int),
        decreases a@.len() - i,
    {
        if a[i] != b[i] {
            assert(a@[i as int] != b@[i as int]);
            return false;
        }
        assert(a@.subrange(0, i + 1) =~= a@.subrange(0, i as int).push(a@[i as int]));
        assert(b@.subrange(0, i + 1) =~= b@.subrange(0, i as int).push(b@[i as int]));
        i = i + 1;
    }
    assert(a@ =~= a@.subrange(0, i as int));
    assert(b@ =~= b@.subrange(0, i as int));
    true
}

impl RealtimeSession {
    /// Hands the session one whole message read from the connection. A
    /// message that is not exactly one well-formed frame fails the session
    /// with a protocol error. A finished session ignores it.
    pub fn receive(&mut self, message: &[u8])
        requires
            old(self).wf(),
        ensures
            final(self).wf(),
            final(self)@ == after_message(old(self)@, message@),
    {
        if self.state == SessionState::Completed || self.state == SessionState::Failed {
            return ;
        }
        match decode_message(message) {
            Ok(Some(frame)) => self.observe(frame),
            Ok(None) => self.fail(AppError::Protocol("message ends inside a frame".to_string())),
            Err(_) => self.fail(AppError::Protocol("malformed frame".to_string())),
        }
    }

    /// Tells the session that the connection closed or a read or write
    /// failed. A session still under way fails with a transport error.
    pub fn transport_failed(&mut self, reason: String)
        requires
            old(self).wf(),
        ensures
            final(self).wf(),
            final(self)@ == if is_over(old(self)@.state) {
                old(self)@
            } else {
                failed(old(self)@, ErrorKind::Transport, reason@)
            },
    {
        if self.state == SessionState::Completed || self.state == SessionState::Failed {
            return ;
        }
        self.fail(AppError::Transport(reason));
    }

    fn fail(&mut self, e: AppError)
        requires
            old(self).wf(),
            !is_over(old(self)@.state),
        ensures
            final(self).wf(),
            final(self)@ == failed(old(self)@, e.kind(), e.message_view()),
    {
        self.failure = Some(e);
        self.state = SessionState::Failed;
    }

    fn observe(&mut self, frame: Frame)
        requires
            old(self).wf(),
            !is_over(old(self)@.state),
        ensures
            final(self).wf(),
            final(self)@ == after_frame(old(self)@, frame@),
    {
        let ghost v = self@;
        let ghost h = self.history@;
        let ghost t = Traffic::Received { frame: frame@ };
        let ghost g = h.push(t);
        proof {
            lemma_push_keeps_order(h, t);
            if past_connection(v.state) {
                lemma_seen_extends(h, t, h.len() as int, Event::ConnectionStarted);
            }
            if past_session_start(v.state) {
                lemma_seen_extends(h, t, h.len() as int, Event::SessionStarted);
            }
            assert(received_event(g[h.len() as int]) == frame.event);
            assert forall|i: int| 0 <= i < g.len() && #[trigger] is_audio_content(g[i]) implies {
                &&& v.audio_input
                &&& v.sent > 0
                &&& sequence_of(g[i]) < v.sequence
                &&& i <= self.last_audio@
                &&& is_terminal(g[i]) ==> v.sent == v.content.len()
            } by {
                assert(g[i] == h[i]);
            }
            if v.audio_input && v.sent > 0 {
                assert(g[self.last_audio@] == h[self.last_audio@]);
            }
            assert forall|k: int|
                0 <= k < g.len() && #[trigger] sent_event(g[k]) == Some(
                    Event::FinishSession,
                ) implies v.state == SessionState::Finalizing || is_over(v.state) by {
                assert(g[k] == h[k]);
            }
        }
        self.history = Ghost(g);
        if matches!(frame.event, Some(Event::SessionFailed)) || matches!(
            frame.message_type,
            MessageType::Error
        ) {
            let message = text_from_bytes(frame.payload.as_slice());
            self.fail(AppError::SessionFailed(message));
        } else if self.state == SessionState::ConnectionPending && matches!(
            frame.event,
            Some(Event::ConnectionStarted)
        ) {
            self.state = SessionState::Connected;
        } else if self.state == SessionState::SessionPending && matches!(
            frame.event,
            Some(Event::SessionStarted)
        ) && (frame.session_id.len() == 0 || same_bytes(&frame.session_id, &self.session_id)) {
            self.state = SessionState::Active;
        } else if (self.state == SessionState::Streaming || self.state == SessionState::Finalizing)
            && matches!(frame.event, Some(Event::TTSResponse)) {
            let mut payload = frame.payload;
            self.audio.append(&mut payload);
        } else if self.state == SessionState::Finalizing && matches!(
            frame.event,
            Some(Event::TTSEnded)
        ) {
            self.state = SessionState::Completed;
        }
    }

    pub fn state(&self) -> (r: SessionState)
        ensures
            r == self@.state,
    {
        self.state
    }

    /// Number that the next content frame will carry.
    pub fn sequence(&self) -> (r: i32)
        ensures
            r == self@.sequence,
    {
        self.sequence
    }

    /// UTF-8 bytes of the session id.
    pub fn session_id(&self) -> (r: &[u8])
        ensures
            r@ == self@.session_id,
    {
        self.session_id.as_slice()
    }

    /// Whether the session has completed or failed.
    pub fn is_finished(&self) -> (r: bool)
        ensures
            r == is_over(self@.state),
    {
        self.state == SessionState::Completed || self.state == SessionState::Failed
    }
}

/// Handshake order holds in every session: StartSession goes out only after
/// ConnectionStarted came in, and no content goes out before SessionStarted
/// came in.
pub proof fn lemma_handshake_order(s: &RealtimeSession)
    requires
        s.wf(),
    ensures
        handshake_ordered(s@.history),
{
}

/// Sequence numbers hold in every session: each audio frame carries a
/// strictly greater number than the audio frame before it, only the last one
/// uses the terminal encoding, and the audio frames before a FinishSession
/// end with a terminal one.
pub proof fn lemma_audio_sequence(s: &RealtimeSession)
    requires
        s.wf(),
    ensures
        audio_sequence_ordered(s@.history),
{
}

} // verus!
