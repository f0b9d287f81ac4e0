//! Client-side adapter for a streaming chat-completion service: the message
//! model, its wire encoding, and the reconstruction of streamed answers.

/// The provider-neutral conversation model.
pub mod message;
/// The provider's wire schema and the mapping to and from the message model.
pub mod wire;
/// The protocol state machine that rebuilds an answer from server-sent events.
pub mod stream;
/// The request side of the completion client.
pub mod anthropic;
/// The view-model of the terminal chat.
pub mod chat;
