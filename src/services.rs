use vstd::prelude::*;

use crate::models::ChatMessage;
use crate::text::same_text;

verus! {

/// How many earlier turns go along with a chat completion request.
pub const HISTORY_LIMIT: usize = 10;

/// Where the kept history starts: only the latest turns are kept.
pub open spec fn history_start(len: nat) -> int {
    if len > HISTORY_LIMIT {
        len - HISTORY_LIMIT
    } else {
        0
    }
}

/// The messages of a chat completion request: the system prompt, the latest
/// turns of the history in their order, then the user's message.
pub fn chat_messages(user_message: &str, history: &Vec<ChatMessage>, system_prompt: &str) -> (r:
    Vec<ChatMessage>)
    ensures
        r@.len() == history@.len() - history_start(history@.len()) + 2,
        r@[0].role@ == "system"@,
        r@[0].content@ == system_prompt@,
        forall|i: int|
            1 <= i < r@.len() - 1 ==> #[trigger] r@[i] == history@[history_start(history@.len())
                + i - 1],
        r@.last().role@ == "user"@,
        r@.last().content@ == user_message@,
{
    let mut messages: Vec<ChatMessage> = Vec::new();
    messages.push(ChatMessage { role: "system".to_string(), content: system_prompt.to_string() });
    let start = if history.len() > HISTORY_LIMIT {
        history.len() - HISTORY_LIMIT
    } else {
        0
    };
    let mut i = start;
    while i < history.len()
        invariant
            start == history_start(history@.len()),
            start <= i <= history@.len(),
            messages@.len() == i - start + 1,
            messages@[0].role@ == "system"@,
            messages@[0].content@ == system_prompt@,
            forall|j: int|
                1 <= j < messages@.len() ==> #[trigger] messages@[j] == history@[start + j - 1],
        decreases history@.len() - i,
    {
        messages.push(history[i].copy());
        i = i + 1;
    }
    messages.push(ChatMessage { role: "user".to_string(), content: user_message.to_string() });
    messages
}

/// The synthetic voice for a reply language: "nova" for Chinese, "alloy"
/// for every other language.
pub fn speech_voice(language: &str) -> (r: &'static str)
    ensures
        r@ == if language@ == "zh"@ {
            "nova"@
        } else {
            "alloy"@
        },
{
    if same_text(language, "zh") {
        "nova"
    } else {
        "alloy"
    }
}

/// Whether an uploaded form field holds the audio to transcribe.
pub fn is_audio_field(name: &str) -> (r: bool)
    ensures
        r == (name@ == "audio"@ || name@ == "file"@),
{
    same_text(name, "audio") || same_text(name, "file")
}

} // verus!
