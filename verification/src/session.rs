//! What a WebSocket session does with each message its client sends.
use vstd::prelude::*;

verus! {

/// The status code and optional description sent when closing a WebSocket.
pub struct CloseReason {
    pub code: u16,
    pub description: Option<String>,
}

/// A message received from a WebSocket client (or a protocol error in its place).
pub enum ClientMessage {
    Ping(Vec<u8>),
    Pong(Vec<u8>),
    Text(String),
    Binary(Vec<u8>),
    Continuation,
    Close(Option<CloseReason>),
    Nop,
    ProtocolError,
}

/// What the session does in answer.
pub enum SessionAction {
    /// Answer a ping with a pong carrying the same bytes.
    Pong(Vec<u8>),
    /// Send this text back to the client.
    Text(String),
    /// Close the connection with this reason, then stop the session.
    Close(Option<CloseReason>),
    /// Nothing to send.
    Nothing,
}

/// The session's answer to a client message: pings are answered with a pong,
/// text is echoed back, a close is returned and ends the session, and
/// everything else (binary data, pongs, continuations, errors) is ignored.
pub fn handle_client_message(message: ClientMessage) -> (action: SessionAction)
    ensures
        action == match message {
            ClientMessage::Ping(bytes) => SessionAction::Pong(bytes),
            ClientMessage::Text(text) => SessionAction::Text(text),
            ClientMessage::Close(reason) => SessionAction::Close(reason),
            _ => SessionAction::Nothing,
        },
{
    match message {
        ClientMessage::Ping(bytes) => SessionAction::Pong(bytes),
        ClientMessage::Text(text) => SessionAction::Text(text),
        ClientMessage::Close(reason) => SessionAction::Close(reason),
        _ => SessionAction::Nothing,
    }
}

} // verus!
