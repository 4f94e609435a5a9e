//! What to do with a frame of the streaming connection.

use vstd::prelude::*;

verus! {

/// Why the peer closes the connection.
#[derive(Clone, Debug, PartialEq, Eq)]
pub struct CloseReason {
    pub status_code: u16,
    pub reason: String,
}

/// A frame as it comes off the connection.
#[derive(Clone, Debug, PartialEq, Eq)]
pub enum Frame {
    Text(String),
    Binary(Vec<u8>),
    Ping(Vec<u8>),
    Pong(Vec<u8>),
    Close(Option<CloseReason>),
}

/// What a frame calls for.
#[derive(Clone, Debug, PartialEq, Eq)]
pub enum Routed {
    /// A text frame: its payload is a diff message to decode.
    Payload(String),
    /// A ping: answer with a pong that carries the same payload.
    Pong(Vec<u8>),
    /// A close: send the same close back, then tear the connection down.
    CloseEcho(Option<CloseReason>),
    /// Nothing to do.
    Nothing,
}

/// What each kind of frame calls for.
pub open spec fn routed(frame: Frame) -> Routed {
    match frame {
        Frame::Text(text) => Routed::Payload(text),
        Frame::Ping(payload) => Routed::Pong(payload),
        Frame::Close(reason) => Routed::CloseEcho(reason),
        Frame::Binary(_) => Routed::Nothing,
        Frame::Pong(_) => Routed::Nothing,
    }
}

/// Sorts a frame: text is handed on as a diff message, a ping and a close
/// are answered in kind, anything else is passed over.
pub fn route(frame: Frame) -> (r: Routed)
    ensures
        r == routed(frame),
{
    match frame {
        Frame::Text(text) => Routed::Payload(text),
        Frame::Ping(payload) => Routed::Pong(payload),
        Frame::Close(reason) => Routed::CloseEcho(reason),
        Frame::Binary(_) => Routed::Nothing,
        Frame::Pong(_) => Routed::Nothing,
    }
}

} // verus!
