use vstd::prelude::*;

verus! {

/// Kind of a frame, carried in the high nibble of the second header byte.
#[derive(Clone, Copy, Debug, PartialEq, Eq, Structural)]
pub enum MessageType {
    FullClient,
    AudioOnlyClient,
    FullServer,
    AudioOnlyServer,
    Error,
}

/// Wire code of each message type.
pub open spec fn message_type_code(t: MessageType) -> u8 {
    match t {
        MessageType::FullClient => 0b0001,
        MessageType::AudioOnlyClient => 0b0010,
        MessageType::FullServer => 0b1001,
        MessageType::AudioOnlyServer => 0b1011,
        MessageType::Error => 0b1111,
    }
}

/// The message type that a wire code names, if any.
pub open spec fn message_type_of_code(code: u8) -> Option<MessageType> {
    if code == 0b0001 {
        Some(MessageType::FullClient)
    } else if code == 0b0010 {
        Some(MessageType::AudioOnlyClient)
    } else if code == 0b1001 {
        Some(MessageType::FullServer)
    } else if code == 0b1011 {
        Some(MessageType::AudioOnlyServer)
    } else if code == 0b1111 {
        Some(MessageType::Error)
    } else {
        None
    }
}

/// Audio frames carry raw bytes; every other frame carries JSON.
pub open spec fn is_audio_type(t: MessageType) -> bool {
    t == MessageType::AudioOnlyClient || t == MessageType::AudioOnlyServer
}

/// Serialization nibble: 0 for raw bytes, 1 for JSON.
pub open spec fn serialization_code(t: MessageType) -> u8 {
    if is_audio_type(t) {
        0
    } else {
        1
    }
}

impl MessageType {
    pub fn code(self) -> (r: u8)
        ensures
            r == message_type_code(self),
    {
        match self {
            MessageType::FullClient => 0b0001,
            MessageType::AudioOnlyClient => 0b0010,
            MessageType::FullServer => 0b1001,
            MessageType::AudioOnlyServer => 0b1011,
            MessageType::Error => 0b1111,
        }
    }

    pub fn from_code(code: u8) -> (r: Option<MessageType>)
        ensures
            r == message_type_of_code(code),
    {
        match code {
            0b0001 => Some(MessageType::FullClient),
            0b0010 => Some(MessageType::AudioOnlyClient),
            0b1001 => Some(MessageType::FullServer),
            0b1011 => Some(MessageType::AudioOnlyServer),
            0b1111 => Some(MessageType::Error),
            _ => None,
        }
    }

    pub fn serialization(self) -> (r: u8)
        ensures
            r == serialization_code(self),
    {
        match self {
            MessageType::AudioOnlyClient | MessageType::AudioOnlyServer => 0,
            _ => 1,
        }
    }
}

/// Named lifecycle and content events.
#[derive(Clone, Copy, Debug, PartialEq, Eq, Structural)]
pub enum Event {
    StartConnection,
    FinishConnection,
    ConnectionStarted,
    ConnectionFinished,
    StartSession,
    FinishSession,
    SessionStarted,
    SessionFinished,
    SessionFailed,
    Usage,
    TaskRequest,
    TTSSentenceStart,
    TTSSentenceEnd,
    TTSResponse,
    TTSEnded,
    ChatTTSText,
    ChatTextQuery,
    ChatRAGText,
}

/// Wire code of each event: total over the named events.
pub open spec fn event_code(e: Event) -> u32 {
    match e {
        Event::StartConnection => 1,
        Event::FinishConnection => 2,
        Event::ConnectionStarted => 50,
        Event::ConnectionFinished => 52,
        Event::StartSession => 100,
        Event::FinishSession => 102,
        Event::SessionStarted => 150,
        Event::SessionFinished => 152,
        Event::SessionFailed => 153,
        Event::Usage => 154,
        Event::TaskRequest => 200,
        Event::TTSSentenceStart => 350,
        Event::TTSSentenceEnd => 351,
        Event::TTSResponse => 352,
        Event::TTSEnded => 359,
        Event::ChatTTSText => 500,
        Event::ChatTextQuery => 501,
        Event::ChatRAGText => 502,
    }
}

/// The event that a wire code names: partial, unknown codes give `None`.
pub open spec fn event_of_code(code: u32) -> Option<Event> {
    if code == 1 {
        Some(Event::StartConnection)
    } else if code == 2 {
        Some(Event::FinishConnection)
    } else if code == 50 {
        Some(Event::ConnectionStarted)
    } else if code == 52 {
        Some(Event::ConnectionFinished)
    } else if code == 100 {
        Some(Event::StartSession)
    } else if code == 102 {
        Some(Event::FinishSession)
    } else if code == 150 {
        Some(Event::SessionStarted)
    } else if code == 152 {
        Some(Event::SessionFinished)
    } else if code == 153 {
        Some(Event::SessionFailed)
    } else if code == 154 {
        Some(Event::Usage)
    } else if code == 200 {
        Some(Event::TaskRequest)
    } else if code == 350 {
        Some(Event::TTSSentenceStart)
    } else if code == 351 {
        Some(Event::TTSSentenceEnd)
    } else if code == 352 {
        Some(Event::TTSResponse)
    } else if code == 359 {
        Some(Event::TTSEnded)
    } else if code == 500 {
        Some(Event::ChatTTSText)
    } else if code == 501 {
        Some(Event::ChatTextQuery)
    } else if code == 502 {
        Some(Event::ChatRAGText)
    } else {
        None
    }
}

impl Event {
    pub fn code(self) -> (r: u32)
        ensures
            r == event_code(self),
    {
        match self {
            Event::StartConnection => 1,
            Event::FinishConnection => 2,
            Event::ConnectionStarted => 50,
            Event::ConnectionFinished => 52,
            Event::StartSession => 100,
            Event::FinishSession => 102,
            Event::SessionStarted => 150,
            Event::SessionFinished => 152,
            Event::SessionFailed => 153,
            Event::Usage => 154,
            Event::TaskRequest => 200,
            Event::TTSSentenceStart => 350,
            Event::TTSSentenceEnd => 351,
            Event::TTSResponse => 352,
            Event::TTSEnded => 359,
            Event::ChatTTSText => 500,
            Event::ChatTextQuery => 501,
            Event::ChatRAGText => 502,
        }
    }

    pub fn from_code(code: u32) -> (r: Option<Event>)
        ensures
            r == event_of_code(code),
    {
        match code {
            1 => Some(Event::StartConnection),
            2 => Some(Event::FinishConnection),
            50 => Some(Event::ConnectionStarted),
            52 => Some(Event::ConnectionFinished),
            100 => Some(Event::StartSession),
            102 => Some(Event::FinishSession),
            150 => Some(Event::SessionStarted),
            152 => Some(Event::SessionFinished),
            153 => Some(Event::SessionFailed),
            154 => Some(Event::Usage),
            200 => Some(Event::TaskRequest),
            350 => Some(Event::TTSSentenceStart),
            351 => Some(Event::TTSSentenceEnd),
            352 => Some(Event::TTSResponse),
            359 => Some(Event::TTSEnded),
            500 => Some(Event::ChatTTSText),
            501 => Some(Event::ChatTextQuery),
            502 => Some(Event::ChatRAGText),
            _ => None,
        }
    }
}

/// Every named event has exactly one code, and decoding that code gives the
/// event back; a code that decodes to an event is that event's code.
pub proof fn lemma_event_codes_invert(e: Event, code: u32)
    ensures
        event_of_code(event_code(e)) == Some(e),
        event_of_code(code) == Some(e) ==> event_code(e) == code,
{
}

/// Decoding a message type's code gives the type back, and only its code does.
pub proof fn lemma_message_type_codes_invert(t: MessageType, code: u8)
    ensures
        message_type_of_code(message_type_code(t)) == Some(t),
        message_type_of_code(code) == Some(t) ==> message_type_code(t) == code,
{
}

/// Header flag nibble: bit 2 marks an event id; bits 0-1 say whether a
/// sequence number is absent, positive, or marks the last frame.
#[derive(Clone, Copy, Debug, PartialEq, Eq, Structural)]
pub struct MsgFlag(pub u8);

pub const NO_SEQUENCE: u8 = 0b00;
pub const POSITIVE_SEQUENCE: u8 = 0b01;
pub const LAST_NO_SEQUENCE: u8 = 0b10;
pub const NEGATIVE_SEQUENCE: u8 = 0b11;
pub const WITH_EVENT: u8 = 0b100;

/// The sequence part of a flag nibble.
pub open spec fn sequence_bits(flags: u8) -> u8 {
    flags % 4
}

/// Whether a flag nibble announces an event id.
pub open spec fn has_event_bit(flags: u8) -> bool {
    (flags / 4) % 2 == 1
}

impl MsgFlag {
    pub fn with_event(flag: MsgFlag) -> (r: MsgFlag)
        requires
            flag.0 < 16,
        ensures
            r.0 == flag.0 | WITH_EVENT,
            r.0 < 16,
            has_event_bit(r.0),
            sequence_bits(r.0) == sequence_bits(flag.0),
    {
        let v = flag.0;
        let r = v | WITH_EVENT;
        assert(v < 16 ==> (v | 4u8) < 16 && ((v | 4u8) / 4) % 2 == 1 && (v | 4u8) % 4 == v % 4)
            by (bit_vector);
        MsgFlag(r)
    }

    pub fn positive_seq(seq: i32) -> (r: MsgFlag)
        ensures
            seq >= 0 ==> r.0 == POSITIVE_SEQUENCE,
            seq < 0 ==> r.0 == NEGATIVE_SEQUENCE,
    {
        if seq >= 0 {
            MsgFlag(POSITIVE_SEQUENCE)
        } else {
            MsgFlag(NEGATIVE_SEQUENCE)
        }
    }

    pub fn last_no_seq() -> (r: MsgFlag)
        ensures
            r.0 == LAST_NO_SEQUENCE,
    {
        MsgFlag(LAST_NO_SEQUENCE)
    }

    pub fn bits(self) -> (r: u8)
        ensures
            r == self.0 % 16,
    {
        let v = self.0;
        assert(v & 0x0f == v % 16) by (bit_vector);
        v & 0x0f
    }
}

} // verus!
