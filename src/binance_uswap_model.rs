use vstd::prelude::*;

verus! {

#[derive(Debug, Clone)]
pub struct Empty { }

#[derive(Debug, Clone)]
pub struct ServerTime {
    pub server_time: u64,
}

#[derive(Debug, Clone)]
pub struct RateLimit {
    pub rate_limit_type: String,
    pub interval: String,
    pub interval_num: u16,
    pub limit: u64,
}

#[derive(Debug, Clone)]
pub struct Balance {
    pub asset: String,
    pub free: String,
    pub locked: String,
}

#[derive(Debug, Clone)]
pub struct OrderCanceled {
    pub symbol: String,
    pub orig_client_order_id: Option<String>,
    pub order_id: Option<u64>,
    pub client_order_id: Option<String>,
}

/// Response to a test order (endpoint /api/v3/order/test).
///
/// Currently, the API responds {} on a successfull test transaction,
/// hence this struct has no fields.
#[derive(Debug, Clone)]
pub struct TestResponse {}

#[derive(Debug, Clone)]
pub struct UserDataStream {
    pub listen_key: String,
}

#[derive(Debug, Clone)]
pub struct Success {}

#[derive(Debug, Clone)]
pub struct AccountUpdateEvent {
    pub event_type: String,

    pub event_time: u64,

    pub match_time: u64,

    pub account_event: EventBalance,
}

#[derive(Debug, Clone)]
pub struct EventBalance {
    pub event: String,
    pub balance: Vec<BalanceItem>,
    pub position: Option<Vec<PositionItem>>,
}

#[derive(Debug, Clone)]
pub struct BalanceItem {
    pub asset: String,
    pub balance: String,
    pub cross_balance: String,
    pub balance_change: String,
}

#[derive(Debug, Clone)]
pub struct PositionItem {
    pub asset: String,
    pub position_amount: String,
    pub entry_price: String,
    pub accumulated_realized: String,
    pub unrealized_pnl: String,
    pub margin_type: String,
    pub isolated_wallet: String,
    pub position_side: String,
}

#[derive(Debug, Clone)]
pub struct OrderItem {
    pub symbol: String,

    pub client_order_id: String,

    pub side: String,

    pub order_type: String,

    pub time_in_force: String,

    pub qty: String,

    pub price: String,

    pub avg_price: String,

    pub stop_price: String,

    pub execute_type: String,

    pub order_status: String,

    pub order_id: u64,

    pub order_last_filled_quantity: String,

    pub order_filled_accumulated_quantity: String,

    pub order_last_filled_price: String,

    pub order_trade_time: u64,

    pub trade_id: u64,

    pub is_buyer_maker: bool,

    pub is_reduced: bool,

    pub original_order_type: String,

    pub position_side: String,

}

/// The Aggregate Trade Streams push trade information that is aggregated for a single taker order.
///
/// Stream Name: \<symbol\>@aggTrade
///
/// Update Speed: Real-time
///
/// https://github.com/binance/binance-spot-api-docs/blob/master/web-socket-streams.md#aggregate-trade-streams
#[derive(Debug, Clone)]
pub struct AggrTradesEvent {
    pub event_type: String,

    pub event_time: u64,

    pub symbol: String,

    pub aggregated_trade_id: u64,

    pub price: String,

    pub qty: String,

    pub first_break_trade_id: u64,

    pub last_break_trade_id: u64,

    pub trade_order_time: u64,

    pub is_buyer_maker: bool,

    pub m_ignore: bool,
}

/// The Trade Streams push raw trade information; each trade has a unique buyer and seller.
///
/// Stream Name: \<symbol\>@trade
///
/// Update Speed: Real-time
///
/// https://github.com/binance/binance-spot-api-docs/blob/master/web-socket-streams.md#trade-streams
#[derive(Debug, Clone)]
pub struct TradeEvent {
    pub event_type: String,

    pub event_time: u64,

    pub symbol: String,

    pub trade_id: u64,

    pub price: String,

    pub qty: String,

    pub buyer_order_id: u64,

    pub seller_order_id: u64,

    pub trade_order_time: u64,

    pub is_buyer_maker: bool,

    pub m_ignore: bool,
}

#[derive(Debug, Clone)]
pub struct IndexPriceEvent {
    pub event_type: String,

    pub event_time: u64,

    pub pair: String,

    pub price: String,

}

#[derive(Debug, Clone)]
pub struct MarkPriceEvent {
    pub event_time: u64,

    pub estimate_settle_price: String,

    pub next_funding_time: u64,

    pub event_type: String,

    pub index_price: Option<String>,

    pub mark_price: String,

    pub funding_rate: String,

    pub symbol: String,
}

#[derive(Debug, Clone)]
pub struct LiquidationEvent {
    pub event_type: String,

    pub event_time: u64,

    pub liquidation_order: LiquidationOrder,

}

#[derive(Debug, Clone)]
pub struct LiquidationOrder {
    pub symbol: String,

    pub side: String,

    pub order_type: String,

    pub time_in_force: String,

    pub original_quantity: String,

    pub price: String,

    pub average_price: String,

    pub order_status: String,

    pub order_last_filled_quantity: String,

    pub order_filled_accumulated_quantity: String,

    pub order_trade_time: u64,
}

#[derive(Debug, Clone)]
pub struct BookTickerEvent {
    pub update_id: u64,

    pub symbol: String,

    pub best_bid: String,

    pub best_bid_qty: String,

    pub best_ask: String,

    pub best_ask_qty: String,
}

#[derive(Debug, Clone)]
pub struct DayTickerEvent {
    pub event_type: String,

    pub event_time: u64,

    pub symbol: String,

    pub price_change: String,

    pub price_change_percent: String,

    pub average_price: String,

    pub prev_close: String,

    pub current_close: String,

    pub current_close_qty: String,

    pub best_bid: String,

    pub best_bid_qty: String,

    pub best_ask: String,

    pub best_ask_qty: String,

    pub open: String,

    pub high: String,

    pub low: String,

    pub volume: String,

    pub quote_volume: String,

    pub open_time: u64,

    pub close_time: u64,

    pub first_trade_id: i64,

    pub last_trade_id: i64,

    pub num_trades: u64,
}

#[derive(Debug, Clone)]
pub struct MiniTickerEvent {
    pub event_type: String,

    pub event_time: u64,

    pub symbol: String,

    pub close: String,

    pub open: String,

    pub high: String,

    pub low: String,

    pub volume: String,

    pub quote_volume: String,
}

#[derive(Debug, Clone)]
pub struct ContinuousKlineEvent {
    pub event_type: String,

    pub event_time: u64,

    pub pair: String,

    pub contract_type: String,

    pub kline: ContinuousKline,
}

#[derive(Debug, Clone)]
pub struct IndexKlineEvent {
    pub event_type: String,

    pub event_time: u64,

    pub pair: String,

    pub kline: IndexKline,
}

#[derive(Debug, Clone)]
pub struct ContinuousKline {
    pub start_time: i64,

    pub end_time: i64,

    pub interval: String,

    pub first_trade_id: i64,

    pub last_trade_id: i64,

    pub open: String,

    pub close: String,

    pub high: String,

    pub low: String,

    pub volume: String,

    pub number_of_trades: i64,

    pub is_final_bar: bool,

    pub quote_volume: String,

    pub active_buy_volume: String,

    pub active_volume_buy_quote: String,

    pub ignore_me: String,
}

#[derive(Debug, Clone)]
pub struct IndexKline {
    pub start_time: i64,

    pub end_time: i64,

    pub ignore_me: String,

    pub interval: String,

    pub first_trade_id: i64,

    pub last_trade_id: i64,

    pub open: String,

    pub close: String,

    pub high: String,

    pub low: String,

    pub volume: String,

    pub number_of_trades: i64,

    pub is_final_bar: bool,

    pub ignore_me2: String,

    pub ignore_me3: String,

    pub ignore_me4: String,

    pub ignore_me5: String,
}

#[derive(Debug, Clone)]
pub struct EtpKlineEvent {
    pub event_type: String,
    pub event_time: u64,
    pub symbol: String,
    pub kline: EtpNavKline,
}

#[derive(Debug, Clone)]
pub struct EtpNavKline {
    pub kline_start_ts: u64,
    pub kline_end_ts: u64,
    pub symbol: String,
    pub interval: String,
    pub first_nav_ts: u64,
    pub last_nav_ts: u64,
    pub open: String,
    pub close: String,
    pub high: String,
    pub low: String,
    pub actual_leverage: String,
    pub nav_count: u32,
}

#[derive(Debug, Clone)]
pub struct DepositAddress {
    pub address: String,
    pub coin: String,
    pub tag: String,
    pub url: String,
}

#[derive(Debug, Clone)]
pub struct ListenKeyEvent {
    pub event_type: String,
    pub event_time: u64,
}

#[derive(Debug, Clone)]
pub struct MarginCallEvent {
    pub event_type: String,
    pub event_time: u64,
    pub cross_balance: String,
    pub position: Vec<MarginPosition>,
}

#[derive(Debug, Clone)]
pub struct MarginPosition {
    pub symbol: String,
    pub position_side: String,
    pub position_amount: String,
    pub margin_type: String,
    pub isolated_balance: String,
    pub mark_price: String,
    pub unrealized_pnl: String,
    pub maintenance_margin: String,
}

#[derive(Debug, Clone)]
pub struct AccountConfigEvent {
    pub event_type: String,
    pub event_time: u64,
    pub transact_time: u64,
    pub account_config: Option<AccountConfig>,
    pub multi_asset: Option<MultiAssetConfig>,
}

#[derive(Debug, Clone)]
pub struct AccountConfig {
    pub symbol: String,
    pub leverage: u32,
}

#[derive(Debug, Clone)]
pub struct MultiAssetConfig {
    pub multi_asset_mode: bool,
}

} // verus!
