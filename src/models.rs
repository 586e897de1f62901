use vstd::prelude::*;

verus! {

/// One logical channel group on one exchange: the key that ties together
/// credentials, connections and dispatch rules.
#[derive(Debug, Clone, Copy, PartialEq, Eq, Hash, Structural)]
pub enum Subscription {
    BinanceSpotMStream,
    BinanceSpotOrder,
    BinanceUSwapMStream,
    BinanceUSwapOrder,
    HuobiUSwapMarketStream,
    HuobiUSwapOrderStream,
    OkexMarketStream,
    OkexOrderStream,
    FtxMarketStream,
    FtxOrderStream,
}

/// Number of `Subscription` variants.
pub const SUBSCRIPTION_COUNT: usize = 10;

/// The exchange family a subscription belongs to; it decides the wire format.
#[derive(Debug, Clone, Copy, PartialEq, Eq, Structural)]
pub enum Family {
    BinanceSpot,
    BinanceUSwap,
    Huobi,
    Okex,
    Ftx,
}

impl Subscription {
    pub open spec fn spec_family(self) -> Family {
        match self {
            Subscription::BinanceSpotMStream | Subscription::BinanceSpotOrder => Family::BinanceSpot,
            Subscription::BinanceUSwapMStream | Subscription::BinanceUSwapOrder => Family::BinanceUSwap,
            Subscription::HuobiUSwapMarketStream | Subscription::HuobiUSwapOrderStream => Family::Huobi,
            Subscription::OkexMarketStream | Subscription::OkexOrderStream => Family::Okex,
            Subscription::FtxMarketStream | Subscription::FtxOrderStream => Family::Ftx,
        }
    }

    /// Position of the subscription in declaration order.
    pub open spec fn spec_index(self) -> int {
        match self {
            Subscription::BinanceSpotMStream => 0,
            Subscription::BinanceSpotOrder => 1,
            Subscription::BinanceUSwapMStream => 2,
            Subscription::BinanceUSwapOrder => 3,
            Subscription::HuobiUSwapMarketStream => 4,
            Subscription::HuobiUSwapOrderStream => 5,
            Subscription::OkexMarketStream => 6,
            Subscription::OkexOrderStream => 7,
            Subscription::FtxMarketStream => 8,
            Subscription::FtxOrderStream => 9,
        }
    }

    /// Position of the subscription in declaration order.
    pub fn index(&self) -> (r: usize)
        ensures
            r == self.spec_index(),
            r < SUBSCRIPTION_COUNT,
    {
        match self {
            Subscription::BinanceSpotMStream => 0,
            Subscription::BinanceSpotOrder => 1,
            Subscription::BinanceUSwapMStream => 2,
            Subscription::BinanceUSwapOrder => 3,
            Subscription::HuobiUSwapMarketStream => 4,
            Subscription::HuobiUSwapOrderStream => 5,
            Subscription::OkexMarketStream => 6,
            Subscription::OkexOrderStream => 7,
            Subscription::FtxMarketStream => 8,
            Subscription::FtxOrderStream => 9,
        }
    }

    /// The exchange family of this subscription.
    pub fn family(&self) -> (r: Family)
        ensures
            r == self.spec_family(),
    {
        match self {
            Subscription::BinanceSpotMStream | Subscription::BinanceSpotOrder => Family::BinanceSpot,
            Subscription::BinanceUSwapMStream | Subscription::BinanceUSwapOrder => Family::BinanceUSwap,
            Subscription::HuobiUSwapMarketStream | Subscription::HuobiUSwapOrderStream => Family::Huobi,
            Subscription::OkexMarketStream | Subscription::OkexOrderStream => Family::Okex,
            Subscription::FtxMarketStream | Subscription::FtxOrderStream => Family::Ftx,
        }
    }
}

pub proof fn lemma_index_injective(a: Subscription, b: Subscription)
    ensures
        a.spec_index() == b.spec_index() ==> a == b,
        0 <= a.spec_index() < SUBSCRIPTION_COUNT,
{
}

/// A combined-stream envelope: the stream name and its payload.
#[derive(Debug, Clone)]
pub struct BnWsRx<T> {
    pub stream: String,
    pub data: T,
}

/// The caller-facing tag of a decoded message, one per kind of event that
/// any exchange delivers.
#[derive(Debug, Clone, Copy, PartialEq, Eq, Structural)]
pub enum EventKind {
    BinanceSpotAccountUpdate,
    BinanceSpotOrderTrade,
    BinanceSpotBalanceUpdate,
    BinanceSpotAggrTrades,
    BinanceSpotTrade,
    BinanceSpotOrderBook,
    BinanceSpotDayTicker,
    BinanceSpotDayTickerAll,
    BinanceSpotKline,
    BinanceSpotDepthOrderBook,
    BinanceSpotBookTicker,
    BinanceUSwapVec,
    BinanceUSwapDayTickerEvent,
    BinanceUSwapBookTickerEvent,
    BinanceUSwapMiniTickerEvent,
    BinanceUSwapVecMiniTickerEvent,
    BinanceUSwapAccountUpdateEvent,
    BinanceUSwapOrderTradeEvent,
    BinanceUSwapListenKeyEvent,
    BinanceUSwapMarginCallEvent,
    BinanceUSwapAccountConfigEvent,
    BinanceUSwapAggrTradesEvent,
    BinanceUSwapIndexPriceEvent,
    BinanceUSwapMarkPriceEvent,
    BinanceUSwapVecMarkPriceEvent,
    BinanceUSwapTradeEvent,
    BinanceUSwapKlineEvent,
    BinanceUSwapContinuousKlineEvent,
    BinanceUSwapIndexKlineEvent,
    BinanceUSwapLiquidationEvent,
    BinanceUSwapOrderBook,
    BinanceUSwapDepthOrderBookEvent,
    BinanceUSwapEtpNavEvent,
    BinanceUSwapEtpKlineEvent,
    HuobiUSwapIncrementalOrderBook,
    HuobiUSwapOrderBook,
    HuobiUSwapBBO,
    HuobiUSwapKline,
    HuobiUSwapTradeDetail,
    HuobiUSwapAccount,
    HuobiUSwapOrder,
    HuobiUSwapMatchOrder,
    HuobiUSwapPosition,
    OkexOrderBook,
    OkexTrade,
    OkexOrder,
    OkexAccountPosition,
    OkexAccount,
    OkexPosition,
    FtxRsp,
}

} // verus!
