//! The protocols beside plain HTTP: their events and errors.

use vstd::prelude::*;

use crate::text::cat2;

verus! {

broadcast use vstd::string::group_string_axioms;

/// What can go wrong with a GraphQL, gRPC, WebSocket or SSE session.
#[derive(Debug)]
pub enum ProtocolError {
    Connect(String),
    Http(String),
    Parse(String),
    Closed,
}

/// The error in words.
pub open spec fn protocol_error_text(e: ProtocolError) -> Seq<char> {
    match e {
        ProtocolError::Connect(s) => "connection failed: "@ + s@,
        ProtocolError::Http(s) => s@,
        ProtocolError::Parse(s) => "failed to parse response: "@ + s@,
        ProtocolError::Closed => "connection closed"@,
    }
}

impl ProtocolError {
    /// The error in words.
    pub fn message(&self) -> (r: String)
        ensures
            r@ == protocol_error_text(*self),
    {
        match self {
            ProtocolError::Connect(s) => cat2("connection failed: ", s.as_str()),
            ProtocolError::Http(s) => s.clone(),
            ProtocolError::Parse(s) => cat2("failed to parse response: ", s.as_str()),
            ProtocolError::Closed => "connection closed".to_owned(),
        }
    }
}

/// Something happened on a WebSocket connection.
#[derive(Debug)]
pub enum WsEvent {
    Text(String),
    Error(String),
    Closed,
}

/// Something happened on a stream of server-sent events.
#[derive(Debug)]
pub enum SseEvent {
    Message(String),
    Error(String),
    Closed,
}

/// What a gRPC method answered.
#[derive(Debug)]
pub struct GrpcResponse {
    /// The messages, each as JSON.
    pub messages: Vec<String>,
    pub metadata: Vec<(String, String)>,
}

} // verus!
