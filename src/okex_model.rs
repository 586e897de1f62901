use vstd::prelude::*;

verus! {

#[derive(Debug, Clone)]
pub struct SubEvent {
    pub event: String,
    pub code: String,
    pub msg: String,
}

#[derive(Debug, Clone, Copy, PartialEq, Eq, Structural)]
pub enum Action {
    Snapshot,
    Update,
}

#[derive(Debug, Clone, Copy, PartialEq, Eq, Structural)]
pub enum Alias {
    ThisWeek,
    NextWeek,
    Quarter,
    NextQuarter,
}

#[derive(Debug, Clone, Copy, PartialEq, Eq, Structural)]
pub enum ExecType {
    T,
    M,
}

#[derive(Debug, Clone, Copy, PartialEq, Eq, Structural)]
pub enum InstType {
    Spot,
    Margin,
    Swap,
    Futures,
    Option,
    Any,
}

#[derive(Debug, Clone, Copy, PartialEq, Eq, Structural)]
pub enum MgnMode {
    Cross,
    Isolated,
}

#[derive(Debug, Clone, Copy, PartialEq, Eq, Structural)]
pub enum Side {
    Buy,
    Sell,
}

#[derive(Debug, Clone, Copy, PartialEq, Eq, Structural)]
pub enum TdMode {
    Cross,
    Isolated,
    Cash,
}

#[derive(Debug, Clone, Copy, PartialEq, Eq, Structural)]
pub enum OrdType {
    Market,
    Limit,
    PostOnly,
    Fok,
    Ioc,
}

#[derive(Debug, Clone, Copy, PartialEq, Eq, Structural)]
pub enum PosSide {
    Long,
    Short,
    Net,
}

#[derive(Debug, Clone, Copy, PartialEq, Eq, Structural)]
pub enum OrdState {
    Canceled,
    Live,
    PartiallyFilled,
    Filled,
}

#[derive(Debug, Clone, Copy, PartialEq, Eq, Structural)]
pub enum OptType {
    C,
    P,
}

#[derive(Debug, Clone, Copy, PartialEq, Eq, Structural)]
pub enum CtType {
    Linear,
    Inverse,
}

#[derive(Debug, Clone, Copy, PartialEq, Eq, Structural)]
pub enum InstrumentState {
    Live,
    Suspend,
    Preopen,
    Settlement,
}

#[derive(Debug, Clone)]
pub struct BalanceDetail {
    pub avail_bal: String,
    pub avail_eq: String,
    pub ccy: String,
    pub cash_bal: String,
    pub u_time: String,
    pub dis_eq: String,
    pub eq: String,
    pub eq_usd: String,
    pub frozen_bal: String,
    pub max_loan: String,
    pub mgn_ratio: String,
}

#[derive(Debug, Clone)]
pub struct PositionData {
    pub inst_type: String,
    pub mgn_mode: String,
    pub pos_id: String,
    pub pos_side: String,
    pub pos: String,
    pub pos_ccy: String,
    pub avail_pos: String,
    pub avg_px: String,
    pub upl: String,
    pub upl_ratio: String,
    pub inst_id: String,
    pub lever: String,
    pub imr: String,
    pub margin: String,
    pub mgn_ratio: String,
    pub mmr: String,
    pub liab: String,
    pub liab_ccy: String,
    pub interest: String,
    pub notional_usd: String,
    pub adl: String,
    pub ccy: String,
    pub last: String,
    pub c_time: String,
    pub u_time: String,
    pub p_time: String,
}

} // verus!
