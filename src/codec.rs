use vstd::prelude::*;
use vstd::slice::{slice_subrange, slice_to_vec};

use crate::error::AppError;
use crate::protocol::{
    event_code, event_of_code, has_event_bit, lemma_event_codes_invert,
    lemma_message_type_codes_invert, message_type_code, message_type_of_code,
    serialization_code, Event, MessageType, MsgFlag, WITH_EVENT,
};

verus! {

/// One unit of wire exchange.
#[derive(Debug)]
pub struct Frame {
    pub message_type: MessageType,
    pub flags: MsgFlag,
    /// Present only when the flag nibble carries the event bit.
    pub event: Option<Event>,
    /// UTF-8 bytes of the session id; empty when the frame carries none.
    pub session_id: Vec<u8>,
    pub payload: Vec<u8>,
}

/// Mathematical model of a frame.
pub struct FrameView {
    pub message_type: MessageType,
    pub flags: u8,
    pub event: Option<Event>,
    pub session_id: Seq<u8>,
    pub payload: Seq<u8>,
}

impl View for Frame {
    type V = FrameView;

    open spec fn view(&self) -> FrameView {
        FrameView {
            message_type: self.message_type,
            flags: self.flags.0,
            event: self.event,
            session_id: self.session_id@,
            payload: self.payload@,
        }
    }
}

/// A frame that the wire format can carry: a 4-bit flag nibble whose event bit
/// agrees with the event, and fields whose lengths fit their 32-bit prefixes.
pub open spec fn frame_is_valid(f: FrameView) -> bool {
    &&& f.flags < 16
    &&& has_event_bit(f.flags) == f.event.is_some()
    &&& f.session_id.len() <= u32::MAX
    &&& f.payload.len() <= u32::MAX
}

/// Big-endian bytes of a 32-bit value.
pub open spec fn be32(n: u32) -> Seq<u8> {
    seq![(n >> 24) as u8, ((n >> 16) & 0xff) as u8, ((n >> 8) & 0xff) as u8, (n & 0xff) as u8]
}

/// The 32-bit value written big-endian at `at`.
pub open spec fn be32_at(b: Seq<u8>, at: int) -> u32 {
    ((b[at] as u32) << 24) | ((b[at + 1] as u32) << 16) | ((b[at + 2] as u32) << 8) | (
    b[at + 3] as u32)
}

/// Protocol version 1, a header of one 4-byte word, no compression.
pub open spec fn header_spec(t: MessageType, flags: u8) -> Seq<u8> {
    seq![0x11u8, (message_type_code(t) * 16 + flags) as u8, (serialization_code(t) * 16) as u8, 0u8]
}

/// The bytes of a frame whose event, if any, is given by its raw code.
pub open spec fn frame_bytes(
    t: MessageType,
    flags: u8,
    code: Option<u32>,
    session_id: Seq<u8>,
    payload: Seq<u8>,
) -> Seq<u8> {
    header_spec(t, flags) + match code {
        Some(c) => be32(c),
        None => Seq::<u8>::empty(),
    } + be32(session_id.len() as u32) + session_id + be32(payload.len() as u32) + payload
}

/// The encoding of a frame.
pub open spec fn encode_spec(f: FrameView) -> Seq<u8> {
    frame_bytes(
        f.message_type,
        f.flags,
        match f.event {
            Some(e) => Some(event_code(e)),
            None => None,
        },
        f.session_id,
        f.payload,
    )
}

/// What reading one frame from the front of a buffer gives.
pub enum DecodeOutcome {
    /// The buffer ends before the frame does.
    Incomplete,
    /// The bytes cannot start a frame.
    Malformed,
    Complete(FrameView),
}

/// Where the event field ends (or the header, without one).
pub open spec fn event_end(d: Seq<u8>) -> int {
    let h = (d[0] % 16) as int * 4;
    if has_event_bit(d[1] % 16) {
        h + 4
    } else {
        h
    }
}

/// Reading one frame from the front of `d`.
pub open spec fn decode_spec(d: Seq<u8>) -> DecodeOutcome {
    if d.len() < 4 {
        DecodeOutcome::Incomplete
    } else if message_type_of_code(d[1] / 16) is None || d[0] % 16 == 0 {
        DecodeOutcome::Malformed
    } else {
        let h = (d[0] % 16) as int * 4;
        let flags = d[1] % 16;
        let ev_end = event_end(d);
        if d.len() < ev_end + 4 {
            DecodeOutcome::Incomplete
        } else {
            let s_end = ev_end + 4 + be32_at(d, ev_end) as int;
            if d.len() < s_end + 4 {
                DecodeOutcome::Incomplete
            } else {
                let p_end = s_end + 4 + be32_at(d, s_end) as int;
                if d.len() < p_end {
                    DecodeOutcome::Incomplete
                } else {
                    DecodeOutcome::Complete(
                        FrameView {
                            message_type: message_type_of_code(d[1] / 16)->Some_0,
                            flags,
                            event: if has_event_bit(flags) {
                                event_of_code(be32_at(d, h))
                            } else {
                                None
                            },
                            session_id: d.subrange(ev_end + 4, s_end),
                            payload: d.subrange(s_end + 4, p_end),
                        },
                    )
                }
            }
        }
    }
}

/// How an executable decode result stands for a decode outcome.
pub open spec fn decode_result_is(r: Result<Option<Frame>, AppError>, d: DecodeOutcome) -> bool {
    match d {
        DecodeOutcome::Incomplete => r is Ok && r->Ok_0 is None,
        DecodeOutcome::Malformed => r is Err && r->Err_0 is Protocol,
        DecodeOutcome::Complete(v) => r is Ok && r->Ok_0 is Some && r->Ok_0->Some_0@ == v,
    }
}

proof fn lemma_be32_inverse(n: u32)
    ensures
        be32_at(be32(n), 0) == n,
{
    let b0 = (n >> 24) as u8;
    let b1 = ((n >> 16) & 0xff) as u8;
    let b2 = ((n >> 8) & 0xff) as u8;
    let b3 = (n & 0xff) as u8;
    assert(((b0 as u32) << 24) | ((b1 as u32) << 16) | ((b2 as u32) << 8) | (b3 as u32) == n)
        by (bit_vector)
        requires
            b0 == (n >> 24) as u8,
            b1 == ((n >> 16) & 0xff) as u8,
            b2 == ((n >> 8) & 0xff) as u8,
            b3 == (n & 0xff) as u8,
    ;
}

fn append_bytes(buf: &mut Vec<u8>, bytes: &[u8])
    ensures
        final(buf)@ == old(buf)@ + bytes@,
{
    let mut i: usize = 0;
    while i < bytes.len()
        invariant
            i <= bytes@.len(),
            buf@ == old(buf)@ + bytes@.subrange(0, i as int),
        decreases bytes@.len() - i,
    {
        buf.push(bytes[i]);
        i = i + 1;
        assert(bytes@.subrange(0, i as int) == bytes@.subrange(0, i - 1) + seq![bytes@[i - 1]]);
    }
    assert(bytes@.subrange(0, i as int) == bytes@);
}

fn push_be32(buf: &mut Vec<u8>, n: u32)
    ensures
        final(buf)@ == old(buf)@ + be32(n),
{
    buf.push((n >> 24) as u8);
    buf.push(((n >> 16) & 0xff) as u8);
    buf.push(((n >> 8) & 0xff) as u8);
    buf.push((n & 0xff) as u8);
    assert(buf@ == old(buf)@ + be32(n));
}

fn read_be32(data: &[u8], at: usize) -> (r: u32)
    requires
        at + 4 <= data@.len(),
    ensures
        r == be32_at(data@, at as int),
{
    ((data[at] as u32) << 24) | ((data[at + 1] as u32) << 16) | ((data[at + 2] as u32) << 8) | (
    data[at + 3] as u32)
}

/// The fixed 4-byte header of a frame.
pub fn build_header(message_type: MessageType, flags: MsgFlag) -> (r: [u8; 4])
    requires
        flags.0 < 16,
    ensures
        r@ == header_spec(message_type, flags.0),
{
    let version: u8 = 0b0001 << 4;
    let header_size: u8 = 0b0001;
    let type_code = message_type.code();
    let flag_bits = flags.bits();
    assert(type_code < 16 && flag_bits < 16 ==> (type_code << 4u8) | flag_bits == type_code * 16
        + flag_bits) by (bit_vector);
    let ser = message_type.serialization();
    assert(ser < 16 ==> (ser << 4u8) | 0u8 == ser * 16) by (bit_vector);
    let compression: u8 = 0b0000;
    assert((0b0001u8 << 4u8) | 0b0001u8 == 0x11u8) by (bit_vector);
    let b0 = version | header_size;
    let b1 = (type_code << 4) | flag_bits;
    let b2 = (ser << 4) | compression;
    let r = [b0, b1, b2, 0];
    assert(r@ =~= seq![b0, b1, b2, 0u8]);
    assert(r@ =~= header_spec(message_type, flags.0));
    r
}

/// Writes a frame in wire form; refuses a frame that the format cannot carry.
pub fn encode_message(frame: &Frame) -> (r: Result<Vec<u8>, AppError>)
    ensures
        r is Ok <==> frame_is_valid(frame@),
        r is Ok ==> r->Ok_0@ == encode_spec(frame@),
        r is Err ==> r->Err_0 is InvalidInput,
{
    let flag_value = frame.flags.0;
    if flag_value >= 16 {
        return Err(AppError::InvalidInput("flags do not fit in four bits".to_string()));
    }
    let has_event = frame.flags.bits() & WITH_EVENT != 0;
    assert(flag_value < 16 ==> ((flag_value % 16) & 4u8 != 0) == ((flag_value / 4) % 2 == 1))
        by (bit_vector);
    if has_event != frame.event.is_some() {
        return Err(AppError::InvalidInput("event flag and event disagree".to_string()));
    }
    if frame.session_id.len() as u64 > 0xffff_ffff || frame.payload.len() as u64 > 0xffff_ffff {
        return Err(AppError::InvalidInput("field longer than its length prefix allows".to_string()));
    }
    let mut buf: Vec<u8> = Vec::new();
    let header = build_header(frame.message_type, frame.flags);
    append_bytes(&mut buf, &header);
    match frame.event {
        Some(e) => push_be32(&mut buf, e.code()),
        None => {},
    }
    push_be32(&mut buf, frame.session_id.len() as u32);
    append_bytes(&mut buf, frame.session_id.as_slice());
    push_be32(&mut buf, frame.payload.len() as u32);
    append_bytes(&mut buf, frame.payload.as_slice());
    assert(buf@ =~= encode_spec(frame@));
    Ok(buf)
}

/// Reads one frame from the front of `data`. `Ok(None)` means that the
/// buffer ends before the frame does: more bytes are needed, nothing is wrong.
/// An unknown message type or a zero header size is a protocol error; an
/// unknown event code only leaves the event unnamed.
pub fn decode_message(data: &[u8]) -> (r: Result<Option<Frame>, AppError>)
    ensures
        decode_result_is(r, decode_spec(data@)),
{
    if data.len() < 4 {
        return Ok(None);
    }
    let version_header = data[0];
    let type_header = data[1];
    let type_bits = type_header >> 4;
    assert(type_header >> 4u8 == type_header / 16) by (bit_vector);
    let message_type = match MessageType::from_code(type_bits) {
        Some(t) => t,
        None => return Err(AppError::Protocol("unknown message type".to_string())),
    };
    let header_size_words = version_header & 0x0f;
    assert(version_header & 0x0fu8 == version_header % 16) by (bit_vector);
    if header_size_words == 0 {
        return Err(AppError::Protocol("header size of zero words".to_string()));
    }
    let flags = MsgFlag(type_header & 0x0f);
    assert(type_header & 0x0fu8 == type_header % 16) by (bit_vector);
    let header_bytes = (header_size_words as usize) * 4;
    let fv = flags.0;
    assert(fv < 16 ==> ((fv % 16) & 4u8 != 0) == ((fv / 4) % 2 == 1)) by (bit_vector);
    let has_event = flags.bits() & WITH_EVENT != 0;
    let ev_end = if has_event {
        header_bytes + 4
    } else {
        header_bytes
    };
    assert(ev_end == event_end(data@));
    if data.len() < ev_end || data.len() - ev_end < 4 {
        return Ok(None);
    }
    let event = if has_event {
        Event::from_code(read_be32(data, header_bytes))
    } else {
        None
    };
    let session_len = read_be32(data, ev_end) as usize;
    let s_start = ev_end + 4;
    if data.len() - s_start < session_len || data.len() - s_start - session_len < 4 {
        return Ok(None);
    }
    let s_end = s_start + session_len;
    let payload_len = read_be32(data, s_end) as usize;
    let p_start = s_end + 4;
    if data.len() - p_start < payload_len {
        return Ok(None);
    }
    let p_end = p_start + payload_len;
    let session_id = slice_to_vec(slice_subrange(data, s_start, s_end));
    let payload = slice_to_vec(slice_subrange(data, p_start, p_end));
    let frame = Frame { message_type, flags, event, session_id, payload };
    assert(frame@ == decode_spec(data@)->Complete_0);
    Ok(Some(frame))
}

proof fn lemma_be32_at_bytes(b: Seq<u8>, at: int, n: u32)
    requires
        0 <= at,
        at + 4 <= b.len(),
        b.subrange(at, at + 4) == be32(n),
    ensures
        be32_at(b, at) == n,
{
    lemma_be32_inverse(n);
    assert(b[at] == be32(n)[0] && b[at + 1] == be32(n)[1]);
    assert(b[at + 2] == be32(n)[2] && b[at + 3] == be32(n)[3]);
}

proof fn lemma_be32_at_prefix(b: Seq<u8>, k: int, at: int)
    requires
        0 <= at,
        at + 4 <= k <= b.len(),
    ensures
        be32_at(b.take(k), at) == be32_at(b, at),
{
    assert(b.take(k)[at] == b[at] && b.take(k)[at + 1] == b[at + 1]);
    assert(b.take(k)[at + 2] == b[at + 2] && b.take(k)[at + 3] == b[at + 3]);
}

/// The layout of a frame's bytes: where each length prefix sits and what it holds.
proof fn lemma_frame_layout(
    t: MessageType,
    flags: u8,
    code: Option<u32>,
    session_id: Seq<u8>,
    payload: Seq<u8>,
)
    requires
        flags < 16,
        has_event_bit(flags) == code is Some,
        session_id.len() <= u32::MAX,
        payload.len() <= u32::MAX,
    ensures
        ({
            let d = frame_bytes(t, flags, code, session_id, payload);
            let ev_end = event_end(d);
            let s_end = ev_end + 4 + session_id.len();
            &&& d.len() == s_end + 4 + payload.len()
            &&& d[0] % 16 == 1
            &&& d[1] / 16 == message_type_code(t)
            &&& d[1] % 16 == flags
            &&& ev_end == if code is Some { 8int } else { 4int }
            &&& code is Some ==> be32_at(d, 4) == code->Some_0
            &&& be32_at(d, ev_end) == session_id.len()
            &&& be32_at(d, s_end) == payload.len()
            &&& d.subrange(ev_end + 4, s_end) == session_id
            &&& d.subrange(s_end + 4, s_end + 4 + payload.len()) == payload
        }),
{
    let d = frame_bytes(t, flags, code, session_id, payload);
    let ev = match code {
        Some(c) => be32(c),
        None => Seq::<u8>::empty(),
    };
    let ev_end: int = 4 + ev.len() as int;
    let sl = session_id.len() as u32;
    let pl = payload.len() as u32;
    let s_end: int = ev_end + 4 + session_id.len() as int;
    assert(d == header_spec(t, flags) + ev + be32(sl) + session_id + be32(pl) + payload);
    assert(d[0] == 0x11u8);
    assert(d[1] == (message_type_code(t) * 16 + flags) as u8);
    assert(event_end(d) == ev_end);
    if code is Some {
        assert(d.subrange(4, 8) =~= be32(code->Some_0));
        lemma_be32_at_bytes(d, 4, code->Some_0);
    }
    assert(d.subrange(ev_end, ev_end + 4) =~= be32(sl));
    lemma_be32_at_bytes(d, ev_end, sl);
    assert(d.subrange(s_end, s_end + 4) =~= be32(pl));
    lemma_be32_at_bytes(d, s_end, pl);
    assert(d.subrange(ev_end + 4, s_end) =~= session_id);
    assert(d.subrange(s_end + 4, s_end + 4 + payload.len()) =~= payload);
}

/// Decoding the bytes of a frame gives back its type, flags, session id and
/// payload; the event is whatever the vocabulary names for the code.
pub proof fn lemma_decode_frame_bytes(
    t: MessageType,
    flags: u8,
    code: Option<u32>,
    session_id: Seq<u8>,
    payload: Seq<u8>,
)
    requires
        flags < 16,
        has_event_bit(flags) == code is Some,
        session_id.len() <= u32::MAX,
        payload.len() <= u32::MAX,
    ensures
        decode_spec(frame_bytes(t, flags, code, session_id, payload)) == DecodeOutcome::Complete(
            FrameView {
                message_type: t,
                flags,
                event: match code {
                    Some(c) => event_of_code(c),
                    None => None,
                },
                session_id,
                payload,
            },
        ),
{
    lemma_frame_layout(t, flags, code, session_id, payload);
    lemma_message_type_codes_invert(t, 0);
}

/// Round trip: decoding the encoding of a valid frame gives the same message
/// type, flags, event, session id and payload.
pub proof fn lemma_round_trip(f: FrameView)
    requires
        frame_is_valid(f),
    ensures
        decode_spec(encode_spec(f)) == DecodeOutcome::Complete(f),
{
    let code = match f.event {
        Some(e) => Some(event_code(e)),
        None => None,
    };
    lemma_decode_frame_bytes(f.message_type, f.flags, code, f.session_id, f.payload);
    if f.event is Some {
        lemma_event_codes_invert(f.event->Some_0, 0);
    }
}

/// Truncation: every strict prefix of a valid frame's encoding is reported as
/// incomplete, never as malformed and never as a frame.
pub proof fn lemma_prefix_incomplete(f: FrameView, k: int)
    requires
        frame_is_valid(f),
        0 <= k < encode_spec(f).len(),
    ensures
        decode_spec(encode_spec(f).take(k)) == DecodeOutcome::Incomplete,
{
    let code = match f.event {
        Some(e) => Some(event_code(e)),
        None => None,
    };
    let d = encode_spec(f);
    let p = d.take(k);
    lemma_frame_layout(f.message_type, f.flags, code, f.session_id, f.payload);
    lemma_message_type_codes_invert(f.message_type, 0);
    if k >= 4 {
        assert(p[0] == d[0] && p[1] == d[1]);
        let ev_end = event_end(d);
        assert(event_end(p) == ev_end);
        if k >= ev_end + 4 {
            lemma_be32_at_prefix(d, k, ev_end);
            let s_end: int = ev_end + 4 + f.session_id.len() as int;
            if k >= s_end + 4 {
                lemma_be32_at_prefix(d, k, s_end);
            }
        }
    }
}

/// An event code outside the vocabulary leaves the event unnamed and the rest
/// of the frame decodes as usual.
pub proof fn lemma_unknown_event_code(
    t: MessageType,
    flags: u8,
    code: u32,
    session_id: Seq<u8>,
    payload: Seq<u8>,
)
    requires
        flags < 16,
        has_event_bit(flags),
        event_of_code(code) is None,
        session_id.len() <= u32::MAX,
        payload.len() <= u32::MAX,
    ensures
        decode_spec(frame_bytes(t, flags, Some(code), session_id, payload))
            == DecodeOutcome::Complete(
            FrameView { message_type: t, flags, event: None, session_id, payload },
        ),
{
    lemma_decode_frame_bytes(t, flags, Some(code), session_id, payload);
}

} // verus!
