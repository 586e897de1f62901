use vstd::prelude::*;
use crate::encoding::{decimal_digits, decimal_of, i64_text, json_quote, json_quoted};

verus! {

/// The texts of a list of strings.
pub open spec fn texts(v: Seq<String>) -> Seq<Seq<char>> {
    v.map_values(|t: String| t@)
}

// ---- swap exchange with gzip frames ----

pub open spec fn huobi_sub_market_text(topic: Seq<char>) -> Seq<char> {
    "{\"id\":\"huobiusdtswap_rust\",\"sub\":"@ + json_quoted(topic) + "}"@
}

pub open spec fn huobi_sub_account_text(topic: Seq<char>) -> Seq<char> {
    "{\"cid\":\"huobiusdtswap_rust\",\"op\":\"sub\",\"topic\":"@ + json_quoted(topic) + "}"@
}

pub open spec fn huobi_auth_text(key: Seq<char>, signature: Seq<char>, timestamp: Seq<char>) -> Seq<char> {
    "{\"AccessKeyId\":"@ + json_quoted(key) + ",\"Signature\":"@ + json_quoted(signature)
        + ",\"SignatureMethod\":\"HmacSHA256\",\"SignatureVersion\":\"2\",\"Timestamp\":"@
        + json_quoted(timestamp) + ",\"op\":\"auth\",\"type\":\"api\"}"@
}

pub open spec fn huobi_pong_text(ts: int) -> Seq<char> {
    "{\"pong\":"@ + decimal_of(ts) + "}"@
}

pub open spec fn huobi_op_pong_text(ts: int) -> Seq<char> {
    "{\"op\":\"pong\",\"ts\":"@ + decimal_of(ts) + "}"@
}

/// One market-data subscription message per topic.
pub fn huobi_sub_market_messages(topics: &Vec<String>) -> (r: Vec<String>)
    ensures
        r@.len() == topics@.len(),
        forall|i: int| 0 <= i < r@.len() ==> #[trigger] r@[i]@ == huobi_sub_market_text(topics@[i]@),
{
    let mut out: Vec<String> = Vec::new();
    let mut i: usize = 0;
    while i < topics.len()
        invariant
            i <= topics@.len(),
            out@.len() == i,
            forall|j: int| 0 <= j < i ==> #[trigger] out@[j]@ == huobi_sub_market_text(topics@[j]@),
        decreases topics@.len() - i,
    {
        let mut m = String::from_str("{\"id\":\"huobiusdtswap_rust\",\"sub\":");
        let q = json_quote(topics[i].as_str());
        m.append(q.as_str());
        m.append("}");
        out.push(m);
        i = i + 1;
    }
    out
}

/// One private-topic subscription message per topic, sent once the login is acknowledged.
pub fn huobi_sub_account_messages(topics: &Vec<String>) -> (r: Vec<String>)
    ensures
        r@.len() == topics@.len(),
        forall|i: int| 0 <= i < r@.len() ==> #[trigger] r@[i]@ == huobi_sub_account_text(topics@[i]@),
{
    let mut out: Vec<String> = Vec::new();
    let mut i: usize = 0;
    while i < topics.len()
        invariant
            i <= topics@.len(),
            out@.len() == i,
            forall|j: int| 0 <= j < i ==> #[trigger] out@[j]@ == huobi_sub_account_text(topics@[j]@),
        decreases topics@.len() - i,
    {
        let mut m = String::from_str("{\"cid\":\"huobiusdtswap_rust\",\"op\":\"sub\",\"topic\":");
        let q = json_quote(topics[i].as_str());
        m.append(q.as_str());
        m.append("}");
        out.push(m);
        i = i + 1;
    }
    out
}

/// The login message of the private swap stream.
pub fn huobi_auth_message(key: &str, signature: &str, timestamp: &str) -> (r: String)
    ensures
        r@ == huobi_auth_text(key@, signature@, timestamp@),
{
    let mut m = String::from_str("{\"AccessKeyId\":");
    let q = json_quote(key);
    m.append(q.as_str());
    m.append(",\"Signature\":");
    let q = json_quote(signature);
    m.append(q.as_str());
    m.append(",\"SignatureMethod\":\"HmacSHA256\",\"SignatureVersion\":\"2\",\"Timestamp\":");
    let q = json_quote(timestamp);
    m.append(q.as_str());
    m.append(",\"op\":\"auth\",\"type\":\"api\"}");
    m
}

/// The answer to a market-stream ping, carrying `ts` in milliseconds.
pub fn huobi_pong_message(ts: i64) -> (r: String)
    ensures
        r@ == huobi_pong_text(ts as int),
{
    let mut m = String::from_str("{\"pong\":");
    let t = i64_text(ts);
    m.append(t.as_str());
    m.append("}");
    m
}

/// The answer to an `op: ping` on the private stream, carrying `ts` in milliseconds.
pub fn huobi_op_pong_message(ts: i64) -> (r: String)
    ensures
        r@ == huobi_op_pong_text(ts as int),
{
    let mut m = String::from_str("{\"op\":\"pong\",\"ts\":");
    let t = i64_text(ts);
    m.append(t.as_str());
    m.append("}");
    m
}

// ---- exchange with a login over the websocket and a batched subscribe ----

pub open spec fn okex_market_arg_text(symbol: Seq<char>) -> Seq<char> {
    "{\"channel\":\"books50-l2-tbt\",\"instId\":"@ + json_quoted(symbol)
        + "},{\"channel\":\"price-limit\",\"instId\":"@ + json_quoted(symbol)
        + "},{\"channel\":\"trades\",\"instId\":"@ + json_quoted(symbol) + "}"@
}

/// The order-book, price-limit and trade channels of each symbol, comma-separated.
pub open spec fn okex_market_args_text(symbols: Seq<Seq<char>>) -> Seq<char>
    decreases symbols.len(),
{
    if symbols.len() == 0 {
        Seq::empty()
    } else if symbols.len() == 1 {
        okex_market_arg_text(symbols[0])
    } else {
        okex_market_args_text(symbols.drop_last()) + ","@ + okex_market_arg_text(symbols.last())
    }
}

pub open spec fn okex_sub_market_text(symbols: Seq<Seq<char>>) -> Seq<char> {
    "{\"args\":["@ + okex_market_args_text(symbols) + "],\"op\":\"subscribe\"}"@
}

pub open spec fn okex_order_arg_text(inst_type: Seq<char>) -> Seq<char> {
    ",{\"channel\":\"orders\",\"instType\":"@ + json_quoted(inst_type) + "}"@
}

/// The order channel of each instrument type, each with a leading comma.
pub open spec fn okex_order_args_text(inst_types: Seq<Seq<char>>) -> Seq<char>
    decreases inst_types.len(),
{
    if inst_types.len() == 0 {
        Seq::empty()
    } else {
        okex_order_args_text(inst_types.drop_last()) + okex_order_arg_text(inst_types.last())
    }
}

pub open spec fn okex_sub_account_text(inst_types: Seq<Seq<char>>) -> Seq<char> {
    "{\"args\":[{\"channel\":\"balance_and_position\"}"@ + okex_order_args_text(inst_types)
        + ",{\"channel\":\"account\"},{\"channel\":\"positions\",\"instType\":\"ANY\"}],\"op\":\"subscribe\"}"@
}

pub open spec fn okex_login_text(
    key: Seq<char>,
    passphrase: Seq<char>,
    signature: Seq<char>,
    timestamp: Seq<char>,
) -> Seq<char> {
    "{\"args\":[{\"apiKey\":"@ + json_quoted(key) + ",\"passphrase\":"@ + json_quoted(passphrase)
        + ",\"sign\":"@ + json_quoted(signature) + ",\"timestamp\":"@ + json_quoted(timestamp)
        + "}],\"op\":\"login\"}"@
}

/// One subscribe message for the order book, price limits and trades of every symbol.
pub fn okex_sub_market_message(symbols: &Vec<String>) -> (r: String)
    ensures
        r@ == okex_sub_market_text(texts(symbols@)),
{
    let mut args = String::new();
    let mut i: usize = 0;
    while i < symbols.len()
        invariant
            i <= symbols@.len(),
            args@ == okex_market_args_text(texts(symbols@).subrange(0, i as int)),
        decreases symbols@.len() - i,
    {
        let ghost before = args@;
        let q = json_quote(symbols[i].as_str());
        if i > 0 {
            args.append(",");
        }
        args.append("{\"channel\":\"books50-l2-tbt\",\"instId\":");
        args.append(q.as_str());
        args.append("},{\"channel\":\"price-limit\",\"instId\":");
        args.append(q.as_str());
        args.append("},{\"channel\":\"trades\",\"instId\":");
        args.append(q.as_str());
        args.append("}");
        proof {
            let s = texts(symbols@).subrange(0, i as int + 1);
            assert(s.drop_last() =~= texts(symbols@).subrange(0, i as int));
            assert(s.last() == symbols@[i as int]@);
            if i == 0 {
                assert(args@ =~= okex_market_arg_text(s[0]));
            } else {
                assert(args@ =~= before + ","@ + okex_market_arg_text(s.last()));
            }
        }
        i = i + 1;
    }
    assert(texts(symbols@).subrange(0, symbols@.len() as int) =~= texts(symbols@));
    let mut m = String::from_str("{\"args\":[");
    m.append(args.as_str());
    m.append("],\"op\":\"subscribe\"}");
    m
}

/// The private subscribe message: balances and positions, the orders of
/// each instrument type, the account, and all positions.
pub fn okex_sub_account_message(inst_types: &Vec<String>) -> (r: String)
    ensures
        r@ == okex_sub_account_text(texts(inst_types@)),
{
    let mut m = String::from_str("{\"args\":[{\"channel\":\"balance_and_position\"}");
    let ghost head = m@;
    let mut i: usize = 0;
    while i < inst_types.len()
        invariant
            i <= inst_types@.len(),
            m@ == head + okex_order_args_text(texts(inst_types@).subrange(0, i as int)),
        decreases inst_types@.len() - i,
    {
        let q = json_quote(inst_types[i].as_str());
        m.append(",{\"channel\":\"orders\",\"instType\":");
        m.append(q.as_str());
        m.append("}");
        proof {
            let s = texts(inst_types@).subrange(0, i as int + 1);
            assert(s.drop_last() =~= texts(inst_types@).subrange(0, i as int));
            assert(s.last() == inst_types@[i as int]@);
            assert(m@ =~= head + okex_order_args_text(s));
        }
        i = i + 1;
    }
    assert(texts(inst_types@).subrange(0, inst_types@.len() as int) =~= texts(inst_types@));
    m.append(",{\"channel\":\"account\"},{\"channel\":\"positions\",\"instType\":\"ANY\"}],\"op\":\"subscribe\"}");
    m
}

/// The login message of the private stream.
pub fn okex_login_message(key: &str, passphrase: &str, signature: &str, timestamp: &str) -> (r: String)
    ensures
        r@ == okex_login_text(key@, passphrase@, signature@, timestamp@),
{
    let mut m = String::from_str("{\"args\":[{\"apiKey\":");
    let q = json_quote(key);
    m.append(q.as_str());
    m.append(",\"passphrase\":");
    let q = json_quote(passphrase);
    m.append(q.as_str());
    m.append(",\"sign\":");
    let q = json_quote(signature);
    m.append(q.as_str());
    m.append(",\"timestamp\":");
    let q = json_quote(timestamp);
    m.append(q.as_str());
    m.append("}],\"op\":\"login\"}");
    m
}

// ---- exchange with client-initiated pings ----

pub open spec fn ftx_subscribe_text(channel: Seq<char>, symbol: Seq<char>) -> Seq<char> {
    "{\"channel\":"@ + channel + ",\"market\":"@ + json_quoted(symbol) + ",\"op\":\"subscribe\"}"@
}

pub open spec fn ftx_login_text(key: Seq<char>, signature: Seq<char>, subaccount: Seq<char>, time: int) -> Seq<char> {
    "{\"args\":{\"key\":"@ + json_quoted(key) + ",\"sign\":"@ + json_quoted(signature)
        + ",\"subaccount\":"@ + json_quoted(subaccount) + ",\"time\":"@ + decimal_of(time) + "},\"op\":\"login\"}"@
}

/// For each symbol in turn, its order-book, ticker and trade subscriptions.
pub open spec fn ftx_market_texts(symbols: Seq<Seq<char>>) -> Seq<Seq<char>>
    decreases symbols.len(),
{
    if symbols.len() == 0 {
        Seq::empty()
    } else {
        ftx_market_texts(symbols.drop_last()) + seq![
            ftx_subscribe_text("\"orderbook\""@, symbols.last()),
            ftx_subscribe_text("\"ticker\""@, symbols.last()),
            ftx_subscribe_text("\"trades\""@, symbols.last()),
        ]
    }
}

/// Three subscribe messages per symbol, for its order book, ticker and trades.
pub fn ftx_sub_market_messages(symbols: &Vec<String>) -> (r: Vec<String>)
    ensures
        texts(r@) == ftx_market_texts(texts(symbols@)),
{
    let mut out: Vec<String> = Vec::new();
    let mut i: usize = 0;
    while i < symbols.len()
        invariant
            i <= symbols@.len(),
            texts(out@) == ftx_market_texts(texts(symbols@).subrange(0, i as int)),
        decreases symbols@.len() - i,
    {
        let q = json_quote(symbols[i].as_str());
        let mut a = String::from_str("{\"channel\":");
        a.append("\"orderbook\"");
        a.append(",\"market\":");
        a.append(q.as_str());
        a.append(",\"op\":\"subscribe\"}");
        let mut b = String::from_str("{\"channel\":");
        b.append("\"ticker\"");
        b.append(",\"market\":");
        b.append(q.as_str());
        b.append(",\"op\":\"subscribe\"}");
        let mut c = String::from_str("{\"channel\":");
        c.append("\"trades\"");
        c.append(",\"market\":");
        c.append(q.as_str());
        c.append(",\"op\":\"subscribe\"}");
        let ghost before = out@;
        out.push(a);
        out.push(b);
        out.push(c);
        proof {
            let s = texts(symbols@).subrange(0, i as int + 1);
            assert(s.drop_last() =~= texts(symbols@).subrange(0, i as int));
            assert(s.last() == symbols@[i as int]@);
            assert(texts(out@) =~= texts(before) + seq![a@, b@, c@]);
        }
        i = i + 1;
    }
    assert(texts(symbols@).subrange(0, symbols@.len() as int) =~= texts(symbols@));
    out
}

/// The private subscribe messages, for fills and for orders.
pub fn ftx_sub_account_messages() -> (r: Vec<String>)
    ensures
        r@.len() == 2,
        r@[0]@ == "{\"channel\":\"fills\",\"op\":\"subscribe\"}"@,
        r@[1]@ == "{\"channel\":\"orders\",\"op\":\"subscribe\"}"@,
{
    let mut out: Vec<String> = Vec::new();
    out.push(String::from_str("{\"channel\":\"fills\",\"op\":\"subscribe\"}"));
    out.push(String::from_str("{\"channel\":\"orders\",\"op\":\"subscribe\"}"));
    out
}

/// The keep-alive message sent on every tick of the ping timer.
pub fn ftx_ping_message() -> (r: String)
    ensures
        r@ == "{\"op\":\"ping\"}"@,
{
    String::from_str("{\"op\":\"ping\"}")
}

/// The login message of the private stream; `time` is in milliseconds.
pub fn ftx_login_message(key: &str, signature: &str, subaccount: &str, time: i64) -> (r: String)
    ensures
        r@ == ftx_login_text(key@, signature@, subaccount@, time as int),
{
    let mut m = String::from_str("{\"args\":{\"key\":");
    let q = json_quote(key);
    m.append(q.as_str());
    m.append(",\"sign\":");
    let q = json_quote(signature);
    m.append(q.as_str());
    m.append(",\"subaccount\":");
    let q = json_quote(subaccount);
    m.append(q.as_str());
    m.append(",\"time\":");
    let t = i64_text(time);
    m.append(t.as_str());
    m.append("},\"op\":\"login\"}");
    m
}

/// The number that a run of decimal digits stands for.
pub open spec fn digits_value(s: Seq<char>) -> int
    decreases s.len(),
{
    if s.len() == 0 {
        0
    } else {
        digits_value(s.drop_last()) * 10 + (s.last() as int - 0x30)
    }
}

/// The integer that a decimal text stands for, with an optional leading `-`.
pub open spec fn decimal_value(s: Seq<char>) -> int {
    if s.len() > 0 && s[0] == '-' {
        -digits_value(s.drop_first())
    } else {
        digits_value(s)
    }
}

/// The timestamp that a market-stream pong carries: the number between
/// `{"pong":` and the closing brace.
pub open spec fn pong_timestamp_of(text: Seq<char>) -> int {
    decimal_value(text.subrange(8, text.len() - 1))
}

proof fn lemma_digits_round_trip(n: nat)
    ensures
        digits_value(decimal_digits(n)) == n,
        decimal_digits(n).len() > 0,
        decimal_digits(n)[0] != '-',
    decreases n,
{
    let digit = ((n % 10) + 0x30) as u8;
    assert((digit as char) as int == digit as int);
    assert(digit as int == n % 10 + 0x30);
    if n >= 10 {
        lemma_digits_round_trip(n / 10);
        let d = decimal_digits(n);
        assert(d.last() == digit as char);
        assert(d.drop_last() =~= decimal_digits(n / 10));
        assert(d[0] == decimal_digits(n / 10)[0]);
        assert(digits_value(d) == digits_value(decimal_digits(n / 10)) * 10 + (d.last() as int - 0x30));
        assert((n / 10) * 10 + n % 10 == n);
        assert(digits_value(d) == n);
    } else {
        let d = decimal_digits(n);
        assert(d.drop_last() =~= Seq::<char>::empty());
        assert(d.last() == digit as char);
        assert(digits_value(d.drop_last()) == 0);
        assert(digits_value(d) == n);
    }
}

/// Decoding a decimal text gives back the integer it was written from.
pub proof fn lemma_decimal_round_trip(n: int)
    ensures
        decimal_value(decimal_of(n)) == n,
{
    if n < 0 {
        lemma_digits_round_trip((-n) as nat);
        assert(decimal_of(n).drop_first() =~= decimal_digits((-n) as nat));
    } else {
        lemma_digits_round_trip(n as nat);
    }
}

/// A market-stream pong encoded with a millisecond timestamp decodes to
/// exactly that timestamp.
pub proof fn lemma_pong_round_trip(ts: int)
    ensures
        pong_timestamp_of(huobi_pong_text(ts)) == ts,
{
    reveal_strlit("{\"pong\":");
    reveal_strlit("}");
    let t = huobi_pong_text(ts);
    assert(t.subrange(8, t.len() - 1) =~= decimal_of(ts));
    lemma_decimal_round_trip(ts);
}

} // verus!
