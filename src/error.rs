use vstd::prelude::*;

verus! {

/// Errors of the client. `NoApiKeySet` is the configuration error of a
/// private subscription without credentials; the last four end a session.
#[derive(Debug, Clone)]
pub enum Error {
    HuobiError { code: i64, msg: String },
    AssetsNotFound,
    SymbolNotFound,
    NoApiKeySet,
    NoStreamSubscribed,
    /// The websocket handshake did not complete.
    ConnectionFailed,
    /// A frame's payload could not be decoded for its exchange.
    MalformedFrame,
    /// The remote side sent a close frame.
    SocketClosed,
    /// The consumer's callback reported a failure.
    CallbackFailed,
}

} // verus!
