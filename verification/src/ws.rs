//! WebSocket messages as the two sides of a bridge see them, and the
//! conversion between the two.

use vstd::prelude::*;
use vstd::utf8::encode_utf8;

verus! {

/// The code and reason that a close message may carry.
#[derive(Debug, Clone, PartialEq, Eq)]
pub struct CloseFrame {
    pub code: u16,
    pub reason: String,
}

/// A message on the socket that the client opened to the proxy.
#[derive(Debug, Clone, PartialEq, Eq)]
pub enum ClientMessage {
    Text(String),
    Binary(Vec<u8>),
    Ping(Vec<u8>),
    Pong(Vec<u8>),
    Close(Option<CloseFrame>),
}

/// The kind of a frame, as its header names it.
#[derive(Debug, Clone, Copy, PartialEq, Eq)]
pub enum OpCode {
    Continue,
    Text,
    Binary,
    /// A data kind that the protocol keeps in reserve.
    DataReserved(u8),
    Close,
    Ping,
    Pong,
    /// A control kind that the protocol keeps in reserve.
    ControlReserved(u8),
}

/// A single frame as it stands on the wire: its header and its payload.
#[derive(Debug, Clone, PartialEq, Eq)]
pub struct RawFrame {
    pub is_final: bool,
    pub rsv1: bool,
    pub rsv2: bool,
    pub rsv3: bool,
    pub opcode: OpCode,
    pub mask: Option<[u8; 4]>,
    pub payload: Vec<u8>,
}

/// A message on the socket that the proxy opened to the upstream.
#[derive(Debug, Clone, PartialEq, Eq)]
pub enum UpstreamMessage {
    Text(String),
    Binary(Vec<u8>),
    Ping(Vec<u8>),
    Pong(Vec<u8>),
    Close(Option<CloseFrame>),
    /// A raw frame, which the client side has no message for.
    Frame(RawFrame),
}

/// What a client message becomes on the upstream socket: the same message,
/// except that a close loses its code and reason.
pub open spec fn to_upstream(msg: ClientMessage) -> UpstreamMessage {
    match msg {
        ClientMessage::Text(text) => UpstreamMessage::Text(text),
        ClientMessage::Binary(data) => UpstreamMessage::Binary(data),
        ClientMessage::Ping(data) => UpstreamMessage::Ping(data),
        ClientMessage::Pong(data) => UpstreamMessage::Pong(data),
        ClientMessage::Close(_) => UpstreamMessage::Close(None),
    }
}

/// What an upstream message becomes on the client socket: the same message,
/// except that a close loses its code and reason and a raw frame has no
/// counterpart.
pub open spec fn to_client(msg: UpstreamMessage) -> Option<ClientMessage> {
    match msg {
        UpstreamMessage::Text(text) => Some(ClientMessage::Text(text)),
        UpstreamMessage::Binary(data) => Some(ClientMessage::Binary(data)),
        UpstreamMessage::Ping(data) => Some(ClientMessage::Ping(data)),
        UpstreamMessage::Pong(data) => Some(ClientMessage::Pong(data)),
        UpstreamMessage::Close(_) => Some(ClientMessage::Close(None)),
        UpstreamMessage::Frame(_) => None,
    }
}

/// The payload bytes that a client message adds to the WebSocket aggregate:
/// the length of a text or binary payload, nothing for a control message.
pub open spec fn client_payload(msg: ClientMessage) -> nat {
    match msg {
        ClientMessage::Text(text) => encode_utf8(text@).len(),
        ClientMessage::Binary(data) => data@.len(),
        _ => 0,
    }
}

/// The payload bytes that an upstream message adds to the WebSocket
/// aggregate: the length of a text or binary payload, nothing for a control
/// message or a raw frame.
pub open spec fn upstream_payload(msg: UpstreamMessage) -> nat {
    match msg {
        UpstreamMessage::Text(text) => encode_utf8(text@).len(),
        UpstreamMessage::Binary(data) => data@.len(),
        _ => 0,
    }
}

/// Converts a message read from the client for the upstream socket.
pub fn axum_to_tungstein(msg: ClientMessage) -> (out: UpstreamMessage)
    ensures
        out == to_upstream(msg),
{
    match msg {
        ClientMessage::Text(text) => UpstreamMessage::Text(text),
        ClientMessage::Binary(data) => UpstreamMessage::Binary(data),
        ClientMessage::Ping(ping) => UpstreamMessage::Ping(ping),
        ClientMessage::Pong(pong) => UpstreamMessage::Pong(pong),
        ClientMessage::Close(_) => UpstreamMessage::Close(None),
    }
}

/// Converts a message read from the upstream for the client socket, or
/// says that it has no counterpart there.
pub fn tungstein_to_axum(msg: UpstreamMessage) -> (out: Option<ClientMessage>)
    ensures
        out == to_client(msg),
{
    match msg {
        UpstreamMessage::Text(text) => Some(ClientMessage::Text(text)),
        UpstreamMessage::Binary(data) => Some(ClientMessage::Binary(data)),
        UpstreamMessage::Ping(data) => Some(ClientMessage::Ping(data)),
        UpstreamMessage::Pong(data) => Some(ClientMessage::Pong(data)),
        UpstreamMessage::Close(_) => Some(ClientMessage::Close(None)),
        UpstreamMessage::Frame(_) => None,
    }
}

/// The payload bytes that a client message counts for.
pub fn client_payload_len(msg: &ClientMessage) -> (len: u64)
    ensures
        len == client_payload(*msg),
{
    match msg {
        ClientMessage::Text(text) => text.as_str().as_bytes().len() as u64,
        ClientMessage::Binary(data) => data.len() as u64,
        _ => 0,
    }
}

/// The payload bytes that an upstream message counts for.
pub fn upstream_payload_len(msg: &UpstreamMessage) -> (len: u64)
    ensures
        len == upstream_payload(*msg),
{
    match msg {
        UpstreamMessage::Text(text) => text.as_str().as_bytes().len() as u64,
        UpstreamMessage::Binary(data) => data.len() as u64,
        _ => 0,
    }
}

/// Conversion keeps what a message counts for, wherever it has a
/// counterpart, so a relayed payload is counted the same on either side.
pub proof fn lemma_conversion_keeps_payload(up: UpstreamMessage, down: ClientMessage)
    ensures
        upstream_payload(to_upstream(down)) == client_payload(down),
        to_client(up) matches Some(msg) ==> client_payload(msg) == upstream_payload(up),
        to_client(up) is None ==> upstream_payload(up) == 0,
{
}

} // verus!
