use vstd::prelude::*;
use crate::ftx_model::Type;
use crate::huobi_uswap_model::{MarketPing, OpStatus, SubStatus};
use crate::models::{EventKind, Family, Subscription};
use crate::okex_model::SubEvent;

verus! {

/// A frame's payload once decoded for its exchange. Each exchange's decoder
/// tries its message shapes in a fixed order and keeps the first that fits;
/// data messages are named by their `EventKind`, control messages keep the
/// fields that the dispatcher reads.
pub enum Inbound {
    Data(EventKind),
    MarketPing(MarketPing),
    SubStatus(SubStatus),
    OpStatus(OpStatus),
    OkexSubRsp,
    OkexSubEvent(SubEvent),
    FtxResponse(Type),
    Pong,
    Text(String),
}

/// What the receive loop does with a decoded frame.
#[derive(Debug, Clone, Copy, PartialEq, Eq, Structural)]
pub enum Reaction {
    /// Hand the event to the callback under this tag.
    Forward(EventKind),
    /// Answer a market-stream ping with a pong carrying the current time.
    SendPong,
    /// Answer an `op: ping` with an `op: pong` carrying the current time.
    SendOpPong,
    /// The login was acknowledged: send the private-topic subscriptions.
    SubscribePrivate,
    /// The exchange reported an error: log it, do not forward it.
    ReportError,
    /// Nothing to do beyond logging.
    Ignore,
}

/// The data messages that each subscription hands to the callback.
pub open spec fn forwards(subscription: Subscription, kind: EventKind) -> bool {
    match subscription {
        Subscription::BinanceSpotMStream => matches!(kind, EventKind::BinanceSpotAggrTrades
            | EventKind::BinanceSpotTrade
            | EventKind::BinanceSpotOrderBook
            | EventKind::BinanceSpotDayTicker
            | EventKind::BinanceSpotDayTickerAll
            | EventKind::BinanceSpotKline
            | EventKind::BinanceSpotDepthOrderBook),
        Subscription::BinanceSpotOrder => matches!(kind, EventKind::BinanceSpotAccountUpdate
            | EventKind::BinanceSpotOrderTrade
            | EventKind::BinanceSpotBalanceUpdate),
        Subscription::BinanceUSwapMStream => matches!(kind, EventKind::BinanceUSwapBookTickerEvent
            | EventKind::BinanceUSwapAggrTradesEvent
            | EventKind::BinanceUSwapDayTickerEvent
            | EventKind::BinanceUSwapMiniTickerEvent
            | EventKind::BinanceUSwapVec
            | EventKind::BinanceUSwapIndexPriceEvent
            | EventKind::BinanceUSwapMarkPriceEvent
            | EventKind::BinanceUSwapVecMarkPriceEvent
            | EventKind::BinanceUSwapTradeEvent
            | EventKind::BinanceUSwapContinuousKlineEvent
            | EventKind::BinanceUSwapKlineEvent
            | EventKind::BinanceUSwapIndexKlineEvent
            | EventKind::BinanceUSwapLiquidationEvent
            | EventKind::BinanceUSwapOrderBook
            | EventKind::BinanceUSwapDepthOrderBookEvent
            | EventKind::BinanceUSwapEtpNavEvent
            | EventKind::BinanceUSwapEtpKlineEvent),
        Subscription::BinanceUSwapOrder => matches!(kind, EventKind::BinanceUSwapOrderTradeEvent
            | EventKind::BinanceUSwapAccountUpdateEvent
            | EventKind::BinanceUSwapListenKeyEvent
            | EventKind::BinanceUSwapMarginCallEvent
            | EventKind::BinanceUSwapAccountConfigEvent),
        Subscription::HuobiUSwapMarketStream => matches!(kind, EventKind::HuobiUSwapOrderBook
            | EventKind::HuobiUSwapIncrementalOrderBook
            | EventKind::HuobiUSwapBBO
            | EventKind::HuobiUSwapKline
            | EventKind::HuobiUSwapTradeDetail),
        Subscription::HuobiUSwapOrderStream => matches!(kind, EventKind::HuobiUSwapAccount
            | EventKind::HuobiUSwapOrder
            | EventKind::HuobiUSwapMatchOrder
            | EventKind::HuobiUSwapPosition),
        Subscription::OkexMarketStream => matches!(kind, EventKind::OkexOrderBook | EventKind::OkexTrade),
        Subscription::OkexOrderStream => matches!(kind, EventKind::OkexAccount
            | EventKind::OkexPosition
            | EventKind::OkexOrder
            | EventKind::OkexAccountPosition),
        Subscription::FtxMarketStream | Subscription::FtxOrderStream => false,
    }
}

/// What the receive loop does with `inbound`, decoded from a frame of `subscription`.
pub open spec fn reaction_of(subscription: Subscription, inbound: Inbound) -> Reaction {
    match inbound {
        Inbound::Data(kind) => if forwards(subscription, kind) {
            Reaction::Forward(kind)
        } else {
            Reaction::Ignore
        },
        Inbound::MarketPing(_) => if subscription == Subscription::HuobiUSwapMarketStream {
            Reaction::SendPong
        } else {
            Reaction::Ignore
        },
        Inbound::OpStatus(status) => if subscription != Subscription::HuobiUSwapOrderStream {
            Reaction::Ignore
        } else if status.op@ == "ping"@ {
            Reaction::SendOpPong
        } else if status.op@ == "auth"@ && status.err_code == Some(0u32) {
            Reaction::SubscribePrivate
        } else {
            Reaction::Ignore
        },
        Inbound::OkexSubEvent(event) => if subscription == Subscription::OkexOrderStream
            && event.event@ == "login"@ && event.code@ == "0"@ {
            Reaction::SubscribePrivate
        } else {
            Reaction::Ignore
        },
        Inbound::FtxResponse(t) => if subscription.spec_family() != Family::Ftx {
            Reaction::Ignore
        } else {
            match t {
                Type::Update | Type::Partial => Reaction::Forward(EventKind::FtxRsp),
                Type::Error => Reaction::ReportError,
                _ => Reaction::Ignore,
            }
        },
        _ => Reaction::Ignore,
    }
}

/// An error response is never handed to the callback as an event: on the
/// exchange that sends them it is reported apart, elsewhere it is dropped.
pub proof fn lemma_error_response_not_forwarded(subscription: Subscription)
    ensures
        !(reaction_of(subscription, Inbound::FtxResponse(Type::Error)) is Forward),
        subscription.spec_family() == Family::Ftx ==> reaction_of(subscription, Inbound::FtxResponse(Type::Error))
            == Reaction::ReportError,
{
}

/// Pings and other control messages never reach the callback.
pub proof fn lemma_control_not_forwarded(subscription: Subscription, inbound: Inbound)
    requires
        !(inbound is Data),
        !(inbound is FtxResponse),
    ensures
        !(reaction_of(subscription, inbound) is Forward),
{
}

/// Whether two texts are equal.
pub fn text_is(s: &str, t: &str) -> (r: bool)
    ensures
        r == (s@ == t@),
{
    let n = s.unicode_len();
    if n != t.unicode_len() {
        return false;
    }
    let mut i: usize = 0;
    while i < n
        invariant
            n == s@.len(),
            n == t@.len(),
            i <= n,
            s@.subrange(0, i as int) == t@.subrange(0, i as int),
        decreases n - i,
    {
        if s.get_char(i) != t.get_char(i) {
            return false;
        }
        assert(s@.subrange(0, i as int + 1) =~= s@.subrange(0, i as int).push(s@[i as int]));
        assert(t@.subrange(0, i as int + 1) =~= t@.subrange(0, i as int).push(t@[i as int]));
        i = i + 1;
    }
    assert(s@ =~= s@.subrange(0, n as int));
    assert(t@ =~= t@.subrange(0, n as int));
    true
}

fn forwards_exec(subscription: Subscription, kind: EventKind) -> (r: bool)
    ensures
        r == forwards(subscription, kind),
{
    match subscription {
        Subscription::BinanceSpotMStream => matches!(kind, EventKind::BinanceSpotAggrTrades
            | EventKind::BinanceSpotTrade
            | EventKind::BinanceSpotOrderBook
            | EventKind::BinanceSpotDayTicker
            | EventKind::BinanceSpotDayTickerAll
            | EventKind::BinanceSpotKline
            | EventKind::BinanceSpotDepthOrderBook),
        Subscription::BinanceSpotOrder => matches!(kind, EventKind::BinanceSpotAccountUpdate
            | EventKind::BinanceSpotOrderTrade
            | EventKind::BinanceSpotBalanceUpdate),
        Subscription::BinanceUSwapMStream => matches!(kind, EventKind::BinanceUSwapBookTickerEvent
            | EventKind::BinanceUSwapAggrTradesEvent
            | EventKind::BinanceUSwapDayTickerEvent
            | EventKind::BinanceUSwapMiniTickerEvent
            | EventKind::BinanceUSwapVec
            | EventKind::BinanceUSwapIndexPriceEvent
            | EventKind::BinanceUSwapMarkPriceEvent
            | EventKind::BinanceUSwapVecMarkPriceEvent
            | EventKind::BinanceUSwapTradeEvent
            | EventKind::BinanceUSwapContinuousKlineEvent
            | EventKind::BinanceUSwapKlineEvent
            | EventKind::BinanceUSwapIndexKlineEvent
            | EventKind::BinanceUSwapLiquidationEvent
            | EventKind::BinanceUSwapOrderBook
            | EventKind::BinanceUSwapDepthOrderBookEvent
            | EventKind::BinanceUSwapEtpNavEvent
            | EventKind::BinanceUSwapEtpKlineEvent),
        Subscription::BinanceUSwapOrder => matches!(kind, EventKind::BinanceUSwapOrderTradeEvent
            | EventKind::BinanceUSwapAccountUpdateEvent
            | EventKind::BinanceUSwapListenKeyEvent
            | EventKind::BinanceUSwapMarginCallEvent
            | EventKind::BinanceUSwapAccountConfigEvent),
        Subscription::HuobiUSwapMarketStream => matches!(kind, EventKind::HuobiUSwapOrderBook
            | EventKind::HuobiUSwapIncrementalOrderBook
            | EventKind::HuobiUSwapBBO
            | EventKind::HuobiUSwapKline
            | EventKind::HuobiUSwapTradeDetail),
        Subscription::HuobiUSwapOrderStream => matches!(kind, EventKind::HuobiUSwapAccount
            | EventKind::HuobiUSwapOrder
            | EventKind::HuobiUSwapMatchOrder
            | EventKind::HuobiUSwapPosition),
        Subscription::OkexMarketStream => matches!(kind, EventKind::OkexOrderBook | EventKind::OkexTrade),
        Subscription::OkexOrderStream => matches!(kind, EventKind::OkexAccount
            | EventKind::OkexPosition
            | EventKind::OkexOrder
            | EventKind::OkexAccountPosition),
        Subscription::FtxMarketStream | Subscription::FtxOrderStream => false,
    }
}

/// Decides what to do with a decoded frame of `subscription`: forward data
/// to the callback, answer pings, start the private subscriptions once a
/// login is acknowledged, report exchange errors apart, or drop the rest.
pub fn dispatch(subscription: Subscription, inbound: &Inbound) -> (r: Reaction)
    ensures
        r == reaction_of(subscription, *inbound),
{
    match inbound {
        Inbound::Data(kind) => if forwards_exec(subscription, *kind) {
            Reaction::Forward(*kind)
        } else {
            Reaction::Ignore
        },
        Inbound::MarketPing(_) => if subscription == Subscription::HuobiUSwapMarketStream {
            Reaction::SendPong
        } else {
            Reaction::Ignore
        },
        Inbound::OpStatus(status) => if subscription != Subscription::HuobiUSwapOrderStream {
            Reaction::Ignore
        } else if text_is(status.op.as_str(), "ping") {
            Reaction::SendOpPong
        } else if text_is(status.op.as_str(), "auth") && status.err_code == Some(0u32) {
            Reaction::SubscribePrivate
        } else {
            Reaction::Ignore
        },
        Inbound::OkexSubEvent(event) => if subscription == Subscription::OkexOrderStream
            && text_is(event.event.as_str(), "login") && text_is(event.code.as_str(), "0") {
            Reaction::SubscribePrivate
        } else {
            Reaction::Ignore
        },
        Inbound::FtxResponse(t) => if subscription.family() != Family::Ftx {
            Reaction::Ignore
        } else {
            match t {
                Type::Update | Type::Partial => Reaction::Forward(EventKind::FtxRsp),
                Type::Error => Reaction::ReportError,
                _ => Reaction::Ignore,
            }
        },
        _ => Reaction::Ignore,
    }
}

} // verus!
