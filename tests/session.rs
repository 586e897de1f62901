use std::io::Write;

use exchange_ws::binance_model::{OrderSide, OrderType};
use exchange_ws::dispatch::{dispatch, text_is, Inbound, Reaction};
use exchange_ws::error::Error;
use exchange_ws::ftx_model::Type;
use exchange_ws::huobi_uswap_model::{MarketPing, OpStatus, Ts};
use exchange_ws::models::{EventKind, Family, Subscription};
use exchange_ws::okex_model::SubEvent;
use exchange_ws::subscription::{
    huobi_auth_params, keepalive_targets, query_signature, reaction_messages, RECONNECT_DELAY_MS,
};
use exchange_ws::websocket::{endpoint, Frame, Websocket};

fn strings(v: &[&str]) -> Vec<String> {
    v.iter().map(|s| s.to_string()).collect()
}

fn json(text: &str) -> serde_json::Value {
    serde_json::from_str(text).unwrap()
}

fn gzip(text: &str) -> Vec<u8> {
    let mut enc = flate2::write::GzEncoder::new(Vec::new(), flate2::Compression::default());
    enc.write_all(text.as_bytes()).unwrap();
    enc.finish().unwrap()
}

fn op_status(op: &str, err_code: Option<u32>) -> OpStatus {
    OpStatus {
        op: op.to_string(),
        otype: None,
        ts: Ts::It(1),
        err_code,
        err_msg: None,
        cid: None,
        topic: None,
    }
}

fn client() -> Websocket {
    Websocket::new(vec![(
        Subscription::HuobiUSwapOrderStream,
        ("key".to_string(), "secret".to_string(), "".to_string()),
    )])
}

#[test]
fn endpoints_match_each_exchange() {
    let topics = strings(&["btcusdt@trade", "ethusdt@depth"]);
    assert_eq!(
        endpoint(&Subscription::BinanceSpotMStream, &topics),
        "wss://stream.binance.com:9443/stream?streams=btcusdt@trade/ethusdt@depth"
    );
    assert_eq!(
        endpoint(&Subscription::BinanceSpotOrder, &strings(&["lk"])),
        "wss://stream.binance.com:9443/stream?streams=lk"
    );
    assert_eq!(
        endpoint(&Subscription::BinanceUSwapMStream, &topics),
        "wss://fstream.binance.com/stream?streams=btcusdt@trade/ethusdt@depth"
    );
    assert_eq!(endpoint(&Subscription::BinanceUSwapOrder, &strings(&["listenkey"])), "wss://fstream.binance.com/ws/listenkey");
    assert_eq!(endpoint(&Subscription::HuobiUSwapMarketStream, &topics), "wss://api.hbdm.vn/linear-swap-ws");
    assert_eq!(endpoint(&Subscription::HuobiUSwapOrderStream, &topics), "wss://api.hbdm.vn/linear-swap-notification");
    assert_eq!(endpoint(&Subscription::OkexMarketStream, &topics), "wss://wsaws.okex.com:8443/ws/v5/public");
    assert_eq!(endpoint(&Subscription::OkexOrderStream, &topics), "wss://wsaws.okex.com:8443/ws/v5/private");
    assert_eq!(endpoint(&Subscription::FtxMarketStream, &topics), "wss://ftx.com/ws");
    assert_eq!(endpoint(&Subscription::FtxOrderStream, &Vec::new()), "wss://ftx.com/ws");
    assert_eq!(endpoint(&Subscription::BinanceSpotMStream, &Vec::new()), "wss://stream.binance.com:9443/stream?streams=");
}

#[test]
fn subscriptions_belong_to_their_exchange() {
    assert_eq!(Subscription::BinanceUSwapOrder.family(), Family::BinanceUSwap);
    assert_eq!(Subscription::HuobiUSwapMarketStream.family(), Family::Huobi);
    assert_eq!(Subscription::FtxOrderStream.family(), Family::Ftx);
    assert_eq!(Subscription::FtxOrderStream.index(), 9);
}

#[test]
fn private_swap_stream_logs_in_then_subscribes_after_ack() {
    let ws = client();
    let topics = strings(&["orders_cross.btc-usdt"]);
    let ts = "2023-07-22T04:26:40";
    let opening = ws
        .opening_messages_at(Subscription::HuobiUSwapOrderStream, &topics, ts, 1690000000, 1690000000000)
        .unwrap();
    assert_eq!(opening.len(), 1);
    let auth = json(&opening[0]);
    assert_eq!(auth["op"], "auth");
    assert_eq!(auth["type"], "api");
    assert_eq!(auth["AccessKeyId"], "key");
    assert_eq!(auth["SignatureMethod"], "HmacSHA256");
    assert_eq!(auth["SignatureVersion"], "2");
    assert_eq!(auth["Timestamp"], ts);
    let expected = query_signature("secret", "api.hbdm.vn", "/linear-swap-notification", &huobi_auth_params("key", ts));
    assert_eq!(auth["Signature"], expected.as_str());
    assert_eq!(data_encoding::BASE64.decode(expected.as_bytes()).unwrap().len(), 32);

    let not_yet = Inbound::OpStatus(op_status("sub", Some(0)));
    assert_eq!(dispatch(Subscription::HuobiUSwapOrderStream, &not_yet), Reaction::Ignore);
    let failed = Inbound::OpStatus(op_status("auth", Some(2002)));
    assert_eq!(dispatch(Subscription::HuobiUSwapOrderStream, &failed), Reaction::Ignore);

    let ack = Inbound::OpStatus(op_status("auth", Some(0)));
    let reaction = dispatch(Subscription::HuobiUSwapOrderStream, &ack);
    assert_eq!(reaction, Reaction::SubscribePrivate);
    let follow = reaction_messages(Subscription::HuobiUSwapOrderStream, reaction, &topics, 0);
    assert_eq!(follow.len(), 1);
    let sub = json(&follow[0]);
    assert_eq!(sub["op"], "sub");
    assert_eq!(sub["topic"], "orders_cross.btc-usdt");
    assert_eq!(sub["cid"], "huobiusdtswap_rust");
}

#[test]
fn opening_a_private_stream_without_credential_fails_first() {
    let ws = Websocket::new(Vec::new());
    for s in [Subscription::HuobiUSwapOrderStream, Subscription::OkexOrderStream, Subscription::FtxOrderStream] {
        assert!(matches!(ws.opening_messages_at(s, &Vec::new(), "t", 1, 1), Err(Error::NoApiKeySet)));
        assert!(matches!(ws.opening_messages(s, &Vec::new()), Err(Error::NoApiKeySet)));
    }
    assert!(ws.opening_messages(Subscription::BinanceSpotMStream, &strings(&["a"])).unwrap().is_empty());
}

#[test]
fn market_streams_subscribe_over_the_socket() {
    let ws = Websocket::new(Vec::new());
    let topics = strings(&["market.BTC-USDT.depth.step0", "market.ETH-USDT.bbo"]);
    let m = ws.opening_messages_at(Subscription::HuobiUSwapMarketStream, &topics, "t", 1, 1).unwrap();
    assert_eq!(m, vec![
        "{\"id\":\"huobiusdtswap_rust\",\"sub\":\"market.BTC-USDT.depth.step0\"}".to_string(),
        "{\"id\":\"huobiusdtswap_rust\",\"sub\":\"market.ETH-USDT.bbo\"}".to_string(),
    ]);
    let m = ws.opening_messages_at(Subscription::OkexMarketStream, &strings(&["BTC-USDT"]), "t", 1, 1).unwrap();
    assert_eq!(m.len(), 1);
    let v = json(&m[0]);
    assert_eq!(v["op"], "subscribe");
    assert_eq!(v["args"].as_array().unwrap().len(), 3);
    assert_eq!(v["args"][0]["channel"], "books50-l2-tbt");
    assert_eq!(v["args"][1]["channel"], "price-limit");
    assert_eq!(v["args"][2]["channel"], "trades");
    assert_eq!(v["args"][2]["instId"], "BTC-USDT");
    let m = ws.opening_messages_at(Subscription::FtxMarketStream, &strings(&["BTC-PERP", "ETH-PERP"]), "t", 1, 1).unwrap();
    assert_eq!(m.len(), 6);
    assert_eq!(json(&m[3])["channel"], "orderbook");
    assert_eq!(json(&m[4])["channel"], "ticker");
    assert_eq!(json(&m[5])["channel"], "trades");
    assert_eq!(json(&m[5])["market"], "ETH-PERP");
    assert!(ws.opening_messages_at(Subscription::BinanceUSwapOrder, &strings(&["k"]), "t", 1, 1).unwrap().is_empty());
}

#[test]
fn private_logins_carry_key_and_signature() {
    let ws = Websocket::new(vec![
        (Subscription::OkexOrderStream, ("okey".to_string(), "osecret".to_string(), "pass".to_string())),
        (Subscription::FtxOrderStream, ("fkey".to_string(), "fsecret".to_string(), "sub".to_string())),
    ]);
    let m = ws.opening_messages_at(Subscription::OkexOrderStream, &Vec::new(), "t", 1600000000, 0).unwrap();
    assert_eq!(m.len(), 1);
    let v = json(&m[0]);
    assert_eq!(v["op"], "login");
    assert_eq!(v["args"][0]["apiKey"], "okey");
    assert_eq!(v["args"][0]["passphrase"], "pass");
    assert_eq!(v["args"][0]["timestamp"], "1600000000");
    let (_, _, sig) = ws.okex_generate_signature(Subscription::OkexOrderStream, "1600000000", "GET", "/users/self/verify").unwrap();
    assert_eq!(v["args"][0]["sign"], sig.as_str());

    let m = ws.opening_messages_at(Subscription::FtxOrderStream, &Vec::new(), "t", 0, 1600000000123).unwrap();
    assert_eq!(m.len(), 3);
    let v = json(&m[0]);
    assert_eq!(v["op"], "login");
    assert_eq!(v["args"]["key"], "fkey");
    assert_eq!(v["args"]["subaccount"], "sub");
    assert_eq!(v["args"]["time"], 1600000000123i64);
    assert_eq!(m[1], "{\"channel\":\"fills\",\"op\":\"subscribe\"}");
    assert_eq!(m[2], "{\"channel\":\"orders\",\"op\":\"subscribe\"}");
}

#[test]
fn okex_login_ack_triggers_private_subscriptions() {
    let ok = Inbound::OkexSubEvent(SubEvent { event: "login".to_string(), code: "0".to_string(), msg: "".to_string() });
    let bad = Inbound::OkexSubEvent(SubEvent { event: "login".to_string(), code: "60009".to_string(), msg: "".to_string() });
    let other = Inbound::OkexSubEvent(SubEvent { event: "subscribe".to_string(), code: "0".to_string(), msg: "".to_string() });
    assert_eq!(dispatch(Subscription::OkexOrderStream, &ok), Reaction::SubscribePrivate);
    assert_eq!(dispatch(Subscription::OkexOrderStream, &bad), Reaction::Ignore);
    assert_eq!(dispatch(Subscription::OkexOrderStream, &other), Reaction::Ignore);
    let m = reaction_messages(Subscription::OkexOrderStream, Reaction::SubscribePrivate, &strings(&["SWAP", "SPOT"]), 0);
    assert_eq!(m.len(), 1);
    let v = json(&m[0]);
    assert_eq!(v["op"], "subscribe");
    let args = v["args"].as_array().unwrap();
    assert_eq!(args.len(), 5);
    assert_eq!(args[0]["channel"], "balance_and_position");
    assert_eq!(args[1]["instType"], "SWAP");
    assert_eq!(args[2]["instType"], "SPOT");
    assert_eq!(args[3]["channel"], "account");
    assert_eq!(args[4]["instType"], "ANY");
}

#[test]
fn gzip_ping_is_answered_and_not_forwarded() {
    let mut ws = Websocket::new(Vec::new());
    ws.register(Subscription::HuobiUSwapMarketStream, 7);
    let frame = Frame::Binary(gzip("{\"ping\": 1690000000000}"));
    let (sub, text) = ws.parse_message(frame, 7).unwrap();
    assert_eq!(sub, Subscription::HuobiUSwapMarketStream);
    let text = text.unwrap();
    let ping = json(&text)["ping"].as_u64().unwrap();
    assert_eq!(ping, 1690000000000);
    let reaction = dispatch(sub, &Inbound::MarketPing(MarketPing { ping }));
    assert_eq!(reaction, Reaction::SendPong);
    assert!(!matches!(reaction, Reaction::Forward(_)));
    let now = 1690000000123i64;
    let reply = reaction_messages(sub, reaction, &Vec::new(), now);
    assert_eq!(reply, vec!["{\"pong\":1690000000123}".to_string()]);
}

#[test]
fn pong_timestamp_survives_encoding_and_decoding() {
    for ts in [0i64, 7, 1690000000000, i64::MAX, -5] {
        let reply = reaction_messages(Subscription::HuobiUSwapMarketStream, Reaction::SendPong, &Vec::new(), ts);
        assert_eq!(json(&reply[0])["pong"].as_i64().unwrap(), ts);
        let reply = reaction_messages(Subscription::HuobiUSwapOrderStream, Reaction::SendOpPong, &Vec::new(), ts);
        let v = json(&reply[0]);
        assert_eq!(v["op"], "pong");
        assert_eq!(v["ts"].as_i64().unwrap(), ts);
    }
}

#[test]
fn op_ping_is_answered_with_op_pong() {
    let reaction = dispatch(Subscription::HuobiUSwapOrderStream, &Inbound::OpStatus(op_status("ping", None)));
    assert_eq!(reaction, Reaction::SendOpPong);
    assert_eq!(dispatch(Subscription::HuobiUSwapMarketStream, &Inbound::OpStatus(op_status("ping", None))), Reaction::Ignore);
}

#[test]
fn malformed_gzip_is_a_protocol_error() {
    let mut ws = Websocket::new(Vec::new());
    ws.register(Subscription::HuobiUSwapOrderStream, 1);
    assert!(matches!(ws.parse_message(Frame::Binary(vec![1, 2, 3]), 1), Err(Error::MalformedFrame)));
}

#[test]
fn text_and_control_frames_are_classified() {
    let mut ws = Websocket::new(Vec::new());
    ws.register(Subscription::OkexMarketStream, 3);
    let (sub, text) = ws.parse_message(Frame::Text("{\"event\":\"x\"}".to_string()), 3).unwrap();
    assert_eq!(sub, Subscription::OkexMarketStream);
    assert_eq!(text.unwrap(), "{\"event\":\"x\"}");
    assert!(matches!(ws.parse_message(Frame::Binary(vec![1]), 3), Err(Error::MalformedFrame)));
    let (_, text) = ws.parse_message(Frame::Binary(gzip("{\"arg\":1}")), 3).unwrap();
    assert_eq!(text.unwrap(), "{\"arg\":1}");
    assert!(ws.parse_message(Frame::Ping(vec![]), 3).unwrap().1.is_none());
    assert!(ws.parse_message(Frame::Pong(vec![]), 3).unwrap().1.is_none());
    assert!(matches!(ws.parse_message(Frame::Text("x".to_string()), 4), Err(Error::NoStreamSubscribed)));
}

#[test]
fn close_frame_ends_the_session_and_leaves_others_registered() {
    let mut ws = Websocket::new(Vec::new());
    ws.register(Subscription::BinanceSpotMStream, 1);
    ws.register(Subscription::OkexMarketStream, 2);
    assert!(matches!(ws.parse_message(Frame::Close, 1), Err(Error::SocketClosed)));
    assert_eq!(ws.token_of(&Subscription::OkexMarketStream), Some(2));
    assert_eq!(ws.resolve(2), Some(Subscription::OkexMarketStream));
}

#[test]
fn exchange_error_responses_are_not_forwarded() {
    assert_eq!(dispatch(Subscription::FtxMarketStream, &Inbound::FtxResponse(Type::Error)), Reaction::ReportError);
    assert_eq!(dispatch(Subscription::FtxOrderStream, &Inbound::FtxResponse(Type::Error)), Reaction::ReportError);
    assert_eq!(
        dispatch(Subscription::FtxMarketStream, &Inbound::FtxResponse(Type::Update)),
        Reaction::Forward(EventKind::FtxRsp)
    );
    assert_eq!(
        dispatch(Subscription::FtxOrderStream, &Inbound::FtxResponse(Type::Partial)),
        Reaction::Forward(EventKind::FtxRsp)
    );
    assert_eq!(dispatch(Subscription::FtxMarketStream, &Inbound::FtxResponse(Type::Subscribed)), Reaction::Ignore);
    assert_eq!(dispatch(Subscription::FtxMarketStream, &Inbound::FtxResponse(Type::Pong)), Reaction::Ignore);
}

#[test]
fn data_is_forwarded_only_on_its_own_stream() {
    let d = |k| Inbound::Data(k);
    assert_eq!(
        dispatch(Subscription::BinanceSpotMStream, &d(EventKind::BinanceSpotTrade)),
        Reaction::Forward(EventKind::BinanceSpotTrade)
    );
    assert_eq!(dispatch(Subscription::BinanceSpotMStream, &d(EventKind::BinanceSpotBookTicker)), Reaction::Ignore);
    assert_eq!(dispatch(Subscription::BinanceSpotOrder, &d(EventKind::BinanceSpotTrade)), Reaction::Ignore);
    assert_eq!(
        dispatch(Subscription::BinanceSpotOrder, &d(EventKind::BinanceSpotBalanceUpdate)),
        Reaction::Forward(EventKind::BinanceSpotBalanceUpdate)
    );
    assert_eq!(
        dispatch(Subscription::BinanceUSwapMStream, &d(EventKind::BinanceUSwapEtpKlineEvent)),
        Reaction::Forward(EventKind::BinanceUSwapEtpKlineEvent)
    );
    assert_eq!(dispatch(Subscription::BinanceUSwapMStream, &d(EventKind::BinanceUSwapVecMiniTickerEvent)), Reaction::Ignore);
    assert_eq!(
        dispatch(Subscription::BinanceUSwapOrder, &d(EventKind::BinanceUSwapListenKeyEvent)),
        Reaction::Forward(EventKind::BinanceUSwapListenKeyEvent)
    );
    assert_eq!(
        dispatch(Subscription::HuobiUSwapMarketStream, &d(EventKind::HuobiUSwapBBO)),
        Reaction::Forward(EventKind::HuobiUSwapBBO)
    );
    assert_eq!(dispatch(Subscription::HuobiUSwapMarketStream, &d(EventKind::HuobiUSwapOrder)), Reaction::Ignore);
    assert_eq!(
        dispatch(Subscription::HuobiUSwapOrderStream, &d(EventKind::HuobiUSwapPosition)),
        Reaction::Forward(EventKind::HuobiUSwapPosition)
    );
    assert_eq!(
        dispatch(Subscription::OkexMarketStream, &d(EventKind::OkexTrade)),
        Reaction::Forward(EventKind::OkexTrade)
    );
    assert_eq!(
        dispatch(Subscription::OkexOrderStream, &d(EventKind::OkexAccountPosition)),
        Reaction::Forward(EventKind::OkexAccountPosition)
    );
    assert_eq!(dispatch(Subscription::OkexOrderStream, &Inbound::OkexSubRsp), Reaction::Ignore);
    assert_eq!(dispatch(Subscription::OkexMarketStream, &Inbound::Pong), Reaction::Ignore);
    assert_eq!(dispatch(Subscription::FtxMarketStream, &d(EventKind::FtxRsp)), Reaction::Ignore);
    assert_eq!(dispatch(Subscription::BinanceSpotMStream, &Inbound::Text("x".to_string())), Reaction::Ignore);
}

#[test]
fn unsubscribe_twice_detaches_once() {
    let mut ws = Websocket::new(Vec::new());
    assert_eq!(ws.register(Subscription::OkexMarketStream, 5), None);
    assert_eq!(ws.unsubscribe(&Subscription::OkexMarketStream), Some(5));
    assert_eq!(ws.unsubscribe(&Subscription::OkexMarketStream), None);
    assert_eq!(ws.resolve(5), None);
    assert_eq!(ws.unsubscribe(&Subscription::FtxMarketStream), None);
}

#[test]
fn removing_one_source_keeps_the_others() {
    let mut ws = Websocket::new(Vec::new());
    ws.register(Subscription::BinanceSpotMStream, 0);
    ws.register(Subscription::HuobiUSwapMarketStream, 1);
    ws.register(Subscription::FtxMarketStream, 2);
    assert_eq!(ws.unsubscribe(&Subscription::HuobiUSwapMarketStream), Some(1));
    assert_eq!(ws.resolve(0), Some(Subscription::BinanceSpotMStream));
    assert_eq!(ws.resolve(2), Some(Subscription::FtxMarketStream));
    assert_eq!(ws.resolve(1), None);
    assert_eq!(ws.token_of(&Subscription::FtxMarketStream), Some(2));
}

#[test]
fn subscribing_again_replaces_the_connection() {
    let mut ws = Websocket::new(Vec::new());
    assert_eq!(ws.register(Subscription::OkexOrderStream, 4), None);
    assert_eq!(ws.register(Subscription::OkexOrderStream, 9), Some(4));
    assert_eq!(ws.resolve(4), None);
    assert_eq!(ws.resolve(9), Some(Subscription::OkexOrderStream));
    assert_eq!(ws.register(Subscription::FtxOrderStream, 9), None);
    assert_eq!(ws.resolve(9), Some(Subscription::FtxOrderStream));
    assert_eq!(ws.token_of(&Subscription::OkexOrderStream), None);
}

#[test]
fn reconnect_detaches_all_and_waits_five_seconds() {
    let mut ws = Websocket::new(Vec::new());
    ws.register(Subscription::BinanceSpotMStream, 10);
    ws.register(Subscription::OkexMarketStream, 11);
    ws.register(Subscription::FtxMarketStream, 12);
    let (mut tokens, delay) = ws.reconnect(&vec![Subscription::BinanceSpotMStream, Subscription::OkexMarketStream, Subscription::HuobiUSwapOrderStream]);
    tokens.sort();
    assert_eq!(tokens, vec![10, 11]);
    assert_eq!(delay, 5000);
    assert_eq!(RECONNECT_DELAY_MS, 5000);
    assert_eq!(ws.resolve(10), None);
    assert_eq!(ws.resolve(12), Some(Subscription::FtxMarketStream));
}

#[test]
fn keepalive_pings_only_the_client_ping_exchange() {
    let subs = vec![Subscription::FtxMarketStream, Subscription::OkexMarketStream, Subscription::FtxOrderStream];
    assert_eq!(keepalive_targets(&subs), vec![Subscription::FtxMarketStream, Subscription::FtxOrderStream]);
    assert!(keepalive_targets(&Vec::new()).is_empty());
    let order = vec![Subscription::FtxOrderStream, Subscription::BinanceSpotMStream, Subscription::FtxMarketStream];
    assert_eq!(keepalive_targets(&order), vec![Subscription::FtxOrderStream, Subscription::FtxMarketStream]);
    assert_eq!(exchange_ws::messages::ftx_ping_message(), "{\"op\":\"ping\"}");
}

#[test]
fn text_comparison_is_exact() {
    assert!(text_is("auth", "auth"));
    assert!(!text_is("auth", "auth2"));
    assert!(!text_is("ping", "pong"));
    assert!(text_is("", ""));
}

#[test]
fn orders_default_to_market_buys() {
    assert_eq!(OrderType::default(), OrderType::Market);
    assert_eq!(OrderSide::default(), OrderSide::Buy);
}

#[test]
fn topics_are_json_escaped() {
    let m = exchange_ws::messages::huobi_sub_market_messages(&strings(&["a\"b\\c"]));
    assert_eq!(json(&m[0])["sub"], "a\"b\\c");
}
