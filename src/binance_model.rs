use vstd::prelude::*;

verus! {

/// How long will an order stay alive
#[derive(Debug, Clone, Copy, PartialEq, Eq, Structural)]
pub enum TimeInForce {
    /// Good Till Canceled
    GTC,
    /// Immediate Or Cancel
    IOC,
    /// Fill or Kill
    FOK,
    /// Good till expired
    GTX,
}

/// Order types, the following restrictions apply
/// LIMIT_MAKER are LIMIT orders that will be rejected if they would immediately match and trade as a taker.
/// STOP_LOSS and TAKE_PROFIT will execute a MARKET order when the stopPrice is reached.
/// Any LIMIT or LIMIT_MAKER type order can be made an iceberg order by sending an icebergQty.
/// Any order with an icebergQty MUST have timeInForce set to GTC.
/// MARKET orders using quantity specifies how much a user wants to buy or sell based on the market price.
/// MARKET orders using quoteOrderQty specifies the amount the user wants to spend (when buying) or receive (when selling) of the quote asset; the correct quantity will be determined based on the market liquidity and quoteOrderQty.
/// MARKET orders using quoteOrderQty will not break LOT_SIZE filter rules; the order will execute a quantity that will have the notional value as close as possible to quoteOrderQty.
#[derive(Debug, Clone, Copy, PartialEq, Eq, Structural)]
pub enum OrderType {
    Limit,
    Market,
    StopLoss,
    StopLossLimit,
    TakeProfit,
    TakeProfitLimit,
    LimitMaker,
}

/// Status of an order, this can typically change over time
#[derive(Debug, Clone)]
pub enum OrderStatus {
    /// The order has been accepted by the engine.
    New,
    /// A part of the order has been filled.
    PartiallyFilled,
    /// The order has been completely filled.
    Filled,
    /// The order has been canceled by the user.
    Canceled,
    /// (currently unused)
    PendingCancel,
    /// The order was not accepted by the engine and not processed.
    Rejected,
    /// The order was canceled according to the order type's rules (e.g. LIMIT FOK orders with no fill, LIMIT IOC or MARKET orders that partially fill) or by the exchange, (e.g. orders canceled during liquidation, orders canceled during maintenance)
    Expired,
    /// Part of the order or all of the order's quantity has filled.
    Trade,
}

#[derive(Debug, Clone, Copy, PartialEq, Eq, Structural)]
pub enum OrderSide {
    Buy,
    Sell,
}

#[derive(Debug, Clone)]
pub struct QueryResult {
    pub result: Option<String>,
    pub id: i64,
}

#[derive(Debug, Clone)]
pub struct TradesEvent {
    pub event_time: u64,

    pub symbol: String,

    pub aggregated_trade_id: u64,

    pub price: String,

    pub qty: String,

    pub first_break_trade_id: u64,

    pub last_break_trade_id: u64,

    pub trade_order_time: u64,

    pub is_buyer_maker: bool,

    pub m_ignore: bool,
}

#[derive(Debug, Clone)]
pub struct TradeEvent {
    pub event_time: u64,

    pub symbol: String,

    pub trade_id: u64,

    pub price: String,

    pub qty: String,

    pub buyer_order_id: u64,

    pub seller_order_id: u64,

    pub trade_order_time: u64,

    pub is_buyer_maker: bool,

    pub m_ignore: bool,
}

#[derive(Debug, Clone)]
pub struct DayTickerEvent {
    pub event_time: u64,
    pub symbol: String,
    pub price_change: String,
    pub price_change_percent: String,
    pub average_price: String,
    pub prev_close: String,
    pub current_close: String,
    pub current_close_qty: String,
    pub best_bid: String,
    pub best_bid_qty: String,
    pub best_ask: String,
    pub best_ask_qty: String,
    pub open: String,
    pub high: String,
    pub low: String,
    pub volume: String,
    pub quote_volume: String,
    pub open_time: u64,
    pub close_time: u64,
    pub first_trade_id: i64,
    pub last_trade_id: i64,
    pub num_trades: u64,
}

#[derive(Debug, Clone)]
pub struct MiniDayTickerEvent {
    pub event_time: u64,
    pub symbol: String,
    pub current_close: String,
    pub open: String,
    pub high: String,
    pub low: String,
    pub volume: String,
    pub quote_volume: String,
}

#[derive(Debug, Clone)]
pub struct BookTickerEvent {
    pub update_id: u64,

    pub symbol: String,

    pub best_bid: String,

    pub best_bid_qty: String,

    pub best_ask: String,

    pub best_ask_qty: String,
}

/// Account position update
#[derive(Debug, Clone)]
pub struct AccountPositionUpdate {
    pub event_time: u64,

    pub last_update_time: u64,

    pub balances: Vec<EventBalance>,
}

#[derive(Debug, Clone)]
pub struct AccountUpdateEvent {
    pub event_time: u64,

    pub event_type: String,
    pub last_update_time: u64,

    pub balances: Vec<EventBalance>,
}

#[derive(Debug, Clone)]
pub struct EventBalance {
    pub asset: String,
    pub free: String,
    pub locked: String,
}

/// For OCO Events
#[derive(Debug, Clone)]
pub struct OrderListUpdate {
    pub event_time: u64,
    pub symbol: String,
    order_list_id: i64,
    contingency_type: String,
    list_status_type: String,
    list_order_status: String,
    list_reject_reason: String,
    list_client_order_id: String,
    pub transaction_time: u64,
    pub objects: Vec<OrderListTransaction>,
}

#[derive(Debug, Clone)]
pub struct OrderListTransaction {
    pub symbol: String,
    pub order_id: i64,
    pub client_order_id: i64,
}

/// The Aggregate Trade Streams push trade information that is aggregated for a single taker order.
///
/// Stream Name: \<symbol\>@aggTrade
///
/// Update Speed: Real-time
///
/// https://github.com/binance/binance-spot-api-docs/blob/master/web-socket-streams.md#aggregate-trade-streams
#[derive(Debug, Clone)]
pub struct AggrTradesEvent {
    pub event_type: String,

    pub event_time: u64,

    pub symbol: String,

    pub aggregated_trade_id: u64,

    pub price: String,

    pub qty: String,

    pub first_break_trade_id: u64,

    pub last_break_trade_id: u64,

    pub trade_order_time: u64,

    pub is_buyer_maker: bool,

    pub m_ignore: bool,
}

/// Orders are market orders unless told otherwise.
impl Default for OrderType {
    fn default() -> (r: Self)
        ensures
            r == OrderType::Market,
    {
        OrderType::Market
    }
}

/// Orders buy unless told otherwise.
impl Default for OrderSide {
    fn default() -> (r: Self)
        ensures
            r == OrderSide::Buy,
    {
        OrderSide::Buy
    }
}

} // verus!
