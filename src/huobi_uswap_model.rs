use vstd::prelude::*;

verus! {

/// Acknowledgement of a market-data subscription.
#[derive(Debug, Clone)]
pub struct SubStatus {
    pub id: String,
    pub subbed: Option<String>,
    pub ts: u64,
    pub status: String,
    pub err_code: Option<String>,
    pub err_msg: Option<String>,
}

/// A server ping on the market stream; `ping` is a timestamp in milliseconds.
#[derive(Debug, Clone, Copy, PartialEq, Eq, Structural)]
pub struct MarketPing {
    pub ping: u64,
}

/// A timestamp sent either as text or as a number.
#[derive(Debug, Clone)]
pub enum Ts {
    St(String),
    It(u64),
}

/// An `op` control message of the private stream: pings and login
/// acknowledgements.
#[derive(Debug, Clone)]
pub struct OpStatus {
    pub op: String,
    pub otype: Option<String>,
    pub ts: Ts,
    pub err_code: Option<u32>,
    pub err_msg: Option<String>,
    pub cid: Option<String>,
    pub topic: Option<String>,
}

/// A market-data push: channel, time and payload.
#[derive(Debug, Clone)]
pub struct WSMarketResponse<T> {
    pub ch: String,
    pub ts: u64,
    pub tick: T,
}

/// A private-topic push: topic, time, user and payload.
#[derive(Debug, Clone)]
pub struct WSAccountResponse<T> {
    pub op: String,
    pub topic: String,
    pub ts: u64,
    pub uid: Option<String>,
    pub event: String,
    pub data: T,
}

} // verus!
