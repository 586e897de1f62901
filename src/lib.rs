//! The core of a multi-exchange websocket client, with its contracts:
//! subscription identities and endpoints (`models`, `websocket`), request
//! signing (`params`, `subscription`), control messages (`messages`), the
//! registry of connected read sides (`websocket`), frame extraction and the
//! per-exchange dispatch decisions (`websocket`, `dispatch`), the opening,
//! reconnect and keep-alive steps of a session (`subscription`), an order
//! book kept from snapshots and updates (`ftx_model`), and the exchanges'
//! plain event records (`*_model`). Outside calls sit behind the trusted
//! wrappers of `encoding` and `ftx_model`.

pub mod binance_model;
pub mod binance_uswap_model;
pub mod dispatch;
pub mod encoding;
pub mod error;
pub mod ftx_model;
pub mod huobi_uswap_model;
pub mod messages;
pub mod models;
pub mod okex_model;
pub mod params;
pub mod subscription;
pub mod websocket;

pub use crate::models::Subscription;
pub use crate::websocket::Websocket;
