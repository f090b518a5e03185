//! The envelopes of the messages that are sent.

use vstd::prelude::*;

verus! {

/// The protocol version that every message carries: `2.0`.
pub open spec fn protocol_version() -> Seq<char> {
    seq!['2', '.', '0']
}

/// What every message starts with.
#[derive(Debug, Clone, PartialEq, Eq)]
pub struct Message {
    pub jsonrpc: String,
}

/// The identifier that ties a response to its request.
#[derive(Debug, Clone, PartialEq, Eq)]
pub enum Id {
    /// Numeric ID.
    Number(i64),
    /// String ID.
    String(String),
}

/// A request: a call of `method` that expects a response under `id`.
#[derive(Debug, Clone, PartialEq, Eq)]
pub struct RequestMessage {
    pub message: Message,
    pub id: Id,
    pub method: String,
}

/// The response to the request `id`.
#[derive(Debug, Clone, PartialEq, Eq)]
pub struct ResponseMessage<T> {
    pub message: Message,
    pub id: Id,
    pub result: T,
}

/// An unsolicited message: no identifier, no response.
#[derive(Debug, Clone, PartialEq, Eq)]
pub struct Notification<T> {
    pub message: Message,
    pub method: String,
    pub params: T,
}

impl Message {
    /// The message header for the protocol version in use.
    pub fn current() -> (message: Message)
        ensures
            message.jsonrpc@ == protocol_version(),
    {
        proof {
            reveal_strlit("2.0");
        }
        let jsonrpc = "2.0".to_owned();
        assert(jsonrpc@ =~= protocol_version());
        Message { jsonrpc }
    }
}

impl<T> ResponseMessage<T> {
    /// The response that carries `result` back to the request numbered `id`.
    pub fn new(id: i64, result: T) -> (response: Self)
        ensures
            response.message.jsonrpc@ == protocol_version(),
            response.id == Id::Number(id),
            response.result == result,
    {
        Self { message: Message::current(), id: Id::Number(id), result }
    }
}

impl<T> Notification<T> {
    /// The notification of `method` with `params`.
    pub fn new(method: String, params: T) -> (notification: Self)
        ensures
            notification.message.jsonrpc@ == protocol_version(),
            notification.method == method,
            notification.params == params,
    {
        Self { message: Message::current(), method, params }
    }
}

} // verus!
