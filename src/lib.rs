//! Client side of a realtime duplex speech protocol: a bit-exact frame codec,
//! the closed vocabulary of message types and events, and the session state
//! machine that drives a handshake, submits text or paced audio, and
//! reassembles the streamed speech answer. Around it: the service settings,
//! the chat data model, role prompts and the small rules of the chat
//! services.
pub mod protocol;
pub mod error;
pub mod codec;
pub mod config;
pub mod payload;
pub mod session;
pub mod text;
pub mod role;
pub mod client;
pub mod models;
pub mod services;
