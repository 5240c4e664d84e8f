use vstd::prelude::*;
use vstd::string::StringExecFns;

verus! {

/// One turn of a conversation.
#[derive(Debug, Clone)]
pub struct ChatMessage {
    /// "user", "assistant" or "system".
    pub role: String,
    pub content: String,
}

/// A chat request as a client sends it.
#[derive(Debug)]
pub struct ChatRequest {
    pub message: String,
    pub history: Vec<ChatMessage>,
    pub role_id: String,
    pub language: String,
    pub enable_audio: bool,
}

/// The answer to a chat request.
#[derive(Debug)]
pub struct ChatResponse {
    pub message: Option<String>,
    pub audio_url: Option<String>,
}

/// The body of a failed request.
#[derive(Debug)]
pub struct ErrorResponse {
    pub error: String,
    pub message: String,
}

impl ChatMessage {
    pub fn copy(&self) -> (r: ChatMessage)
        ensures
            r == *self,
    {
        ChatMessage { role: self.role.clone(), content: self.content.clone() }
    }
}

impl ChatResponse {
    /// The answer that echoes the message and points at the stored audio
    /// file, served under `/audio/`.
    pub fn with_audio(message: String, file_name: &str) -> (r: ChatResponse)
        ensures
            r.message == Some(message),
            r.audio_url is Some,
            r.audio_url->Some_0@ == "/audio/"@ + file_name@,
    {
        let mut url = "/audio/".to_string();
        url.append(file_name);
        ChatResponse { message: Some(message), audio_url: Some(url) }
    }
}

impl ErrorResponse {
    /// The body sent for any failure inside the service.
    pub fn internal(message: String) -> (r: ErrorResponse)
        ensures
            r.error@ == "InternalError"@,
            r.message == message,
    {
        ErrorResponse { error: "InternalError".to_string(), message }
    }
}

} // verus!
