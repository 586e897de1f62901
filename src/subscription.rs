use vstd::prelude::*;
use vstd::utf8::encode_utf8;
use crate::dispatch::Reaction;
use crate::encoding::{
    base64_encode, base64_of, decimal_of, hex_encode, hex_lower, hmac_sha256, hmac_sha256_of,
    i64_text, percent_encode, percent_encoded, unix_millis, unix_seconds, utc_text_form,
    utc_timestamp_text,
};
use crate::error::Error;
use crate::messages::{
    ftx_login_message, ftx_login_text, ftx_market_texts, ftx_sub_account_messages,
    ftx_sub_market_messages, huobi_auth_message, huobi_auth_text, huobi_op_pong_message,
    huobi_op_pong_text, huobi_pong_message, huobi_pong_text, huobi_sub_account_messages,
    huobi_sub_account_text, huobi_sub_market_messages, huobi_sub_market_text,
    okex_login_message, okex_login_text, okex_sub_account_message, okex_sub_account_text,
    okex_sub_market_message, okex_sub_market_text, texts,
};
use crate::models::{Family, Subscription};
use crate::websocket::{CredentialText, Websocket, detached, owner_in, token_in, tokens_distinct};
use crate::params::{
    ParamSet, distinct_keys, key_lt, last_written, lemma_distinct_inserts_order_free,
    lemma_sorted_entries_unique, same_entries, sorted_entries,
};

verus! {

/// Host of the swap exchange that signs its websocket login with a query string.
pub const WS_HOST: &'static str = "api.hbdm.vn";

/// One `key=value` pair of a canonical query, its value percent-encoded.
pub open spec fn param_text(e: (Seq<char>, Seq<char>)) -> Seq<char> {
    e.0 + seq!['='] + percent_encoded(encode_utf8(e.1))
}

/// The pairs joined with `&`, in the order given.
pub open spec fn query_of(s: Seq<(Seq<char>, Seq<char>)>) -> Seq<char>
    decreases s.len(),
{
    if s.len() == 0 {
        Seq::empty()
    } else if s.len() == 1 {
        param_text(s[0])
    } else {
        query_of(s.drop_last()) + seq!['&'] + param_text(s.last())
    }
}

/// The canonical query string: parameters in key order, values percent-encoded.
pub fn build_query_string(parameters: &ParamSet) -> (r: String)
    ensures
        r@ == query_of(parameters@),
{
    let mut out = String::new();
    let n = parameters.len();
    let mut i: usize = 0;
    while i < n
        invariant
            n == parameters@.len(),
            i <= n,
            out@ == query_of(parameters@.subrange(0, i as int)),
        decreases n - i,
    {
        let (key, value) = parameters.entry(i);
        let ghost before = out@;
        if i > 0 {
            out.append("&");
        }
        out.append(key);
        out.append("=");
        let encoded = percent_encode(value);
        out.append(encoded.as_str());
        proof {
            reveal_strlit("&");
            reveal_strlit("=");
            let s = parameters@.subrange(0, i as int + 1);
            assert(s.drop_last() =~= parameters@.subrange(0, i as int));
            assert(s.last() == parameters@[i as int]);
            if i == 0 {
                assert(out@ =~= param_text(parameters@[0]));
            } else {
                assert(out@ =~= before + seq!['&'] + param_text(parameters@[i as int]));
            }
        }
        i = i + 1;
    }
    assert(parameters@.subrange(0, n as int) =~= parameters@);
    out
}

/// The canonical query string does not depend on the order in which the
/// parameters were inserted: two parameter sets holding the same pairs give
/// the same text.
pub proof fn lemma_query_string_order_free(a: ParamSet, b: ParamSet)
    requires
        a.wf(),
        b.wf(),
        same_entries(a@, b@),
    ensures
        query_of(a@) == query_of(b@),
{
    lemma_sorted_entries_unique(a@, b@);
}

/// Inserting the same parameters in two different orders gives the same
/// canonical query string, when no key is inserted twice. `pa` and `pb` are
/// what `ParamSet::from_pairs` builds from `a` and `b`.
pub proof fn lemma_query_string_insertion_order_free(
    a: Seq<(Seq<char>, Seq<char>)>,
    b: Seq<(Seq<char>, Seq<char>)>,
    pa: ParamSet,
    pb: ParamSet,
)
    requires
        distinct_keys(a),
        distinct_keys(b),
        forall|e: (Seq<char>, Seq<char>)| a.contains(e) <==> b.contains(e),
        pa.wf(),
        pb.wf(),
        forall|e: (Seq<char>, Seq<char>)| pa@.contains(e) <==> last_written(a, e),
        forall|e: (Seq<char>, Seq<char>)| pb@.contains(e) <==> last_written(b, e),
    ensures
        query_of(pa@) == query_of(pb@),
{
    lemma_distinct_inserts_order_free(a, b);
    assert forall|e: (Seq<char>, Seq<char>)| pa@.contains(e) <==> pb@.contains(e) by {
        assert(last_written(a, e) <==> last_written(b, e));
    }
    lemma_query_string_order_free(pa, pb);
}

/// HMAC-SHA256 of the UTF-8 bytes of `digest` under those of `secret`, in base64.
pub fn sign_hmac_sha256_base64(secret: &str, digest: &str) -> (r: String)
    ensures
        r@ == base64_of(hmac_sha256_of(encode_utf8(secret@), encode_utf8(digest@))),
{
    let tag = hmac_sha256(secret.as_bytes(), digest.as_bytes());
    base64_encode(tag.as_slice())
}

/// HMAC-SHA256 of the UTF-8 bytes of `message` under those of `secret`, in lower-case hex.
pub fn sign_hmac_sha256_hex(secret: &str, message: &str) -> (r: String)
    ensures
        r@ == hex_lower(hmac_sha256_of(encode_utf8(secret@), encode_utf8(message@))),
{
    let tag = hmac_sha256(secret.as_bytes(), message.as_bytes());
    hex_encode(tag.as_slice())
}

/// The text signed for a query-string login: method, host, path and query on
/// four lines.
pub open spec fn signing_payload_of(
    method: Seq<char>,
    host: Seq<char>,
    path: Seq<char>,
    query: Seq<char>,
) -> Seq<char> {
    method + seq!['\n'] + host + seq!['\n'] + path + seq!['\n'] + query
}

/// Builds the text signed for a query-string login.
pub fn signing_payload(method: &str, host: &str, path: &str, query: &str) -> (r: String)
    ensures
        r@ == signing_payload_of(method@, host@, path@, query@),
{
    let mut out = String::from_str(method);
    out.append("\n");
    out.append(host);
    out.append("\n");
    out.append(path);
    out.append("\n");
    out.append(query);
    proof {
        reveal_strlit("\n");
    }
    assert(out@ =~= signing_payload_of(method@, host@, path@, query@));
    out
}

/// The base64 signature of a `GET` query-string login on `host` and `path`
/// with the given parameters.
pub open spec fn query_signature_of(
    secret: Seq<char>,
    host: Seq<char>,
    path: Seq<char>,
    params: Seq<(Seq<char>, Seq<char>)>,
) -> Seq<char> {
    base64_of(
        hmac_sha256_of(
            encode_utf8(secret),
            encode_utf8(signing_payload_of(seq!['G', 'E', 'T'], host, path, query_of(params))),
        ),
    )
}

/// Signs a `GET` query-string login on `host` and `path` with the given parameters.
pub fn query_signature(secret: &str, host: &str, path: &str, params: &ParamSet) -> (r: String)
    ensures
        r@ == query_signature_of(secret@, host@, path@, params@),
{
    let query = build_query_string(params);
    let payload = signing_payload("GET", host, path, query.as_str());
    proof {
        reveal_strlit("GET");
        assert("GET"@ =~= seq!['G', 'E', 'T']);
    }
    sign_hmac_sha256_base64(secret, payload.as_str())
}

/// The four login parameters of the query-string login, in key order.
pub open spec fn huobi_auth_entries(key: Seq<char>, timestamp: Seq<char>) -> Seq<(Seq<char>, Seq<char>)> {
    seq![
        ("AccessKeyId"@, key),
        ("SignatureMethod"@, "HmacSHA256"@),
        ("SignatureVersion"@, "2"@),
        ("Timestamp"@, timestamp),
    ]
}

/// The parameters that a query-string login signs: the access key, the
/// signature method and version, and the timestamp.
pub fn huobi_auth_params(key: &str, timestamp: &str) -> (r: ParamSet)
    ensures
        r.wf(),
        r@ == huobi_auth_entries(key@, timestamp@),
{
    let mut params = ParamSet::new();
    params.insert(String::from_str("AccessKeyId"), String::from_str(key));
    params.insert(String::from_str("SignatureMethod"), String::from_str("HmacSHA256"));
    params.insert(String::from_str("SignatureVersion"), String::from_str("2"));
    params.insert(String::from_str("Timestamp"), String::from_str(timestamp));
    proof {
        reveal_strlit("AccessKeyId");
        reveal_strlit("SignatureMethod");
        reveal_strlit("SignatureVersion");
        reveal_strlit("Timestamp");
        reveal_with_fuel(crate::params::key_lt_from, 12);
        let e = huobi_auth_entries(key@, timestamp@);
        assert(key_lt(e[0].0, e[1].0));
        assert(key_lt(e[1].0, e[2].0));
        assert(key_lt(e[2].0, e[3].0));
        assert(key_lt(e[0].0, e[2].0));
        assert(key_lt(e[0].0, e[3].0));
        assert(key_lt(e[1].0, e[3].0));
        assert(sorted_entries(e));
        assert forall|x: (Seq<char>, Seq<char>)| params@.contains(x) <==> e.contains(x) by {
            if e.contains(x) {
                let i = choose|i: int| 0 <= i < e.len() && e[i] == x;
                assert(params@.contains(x));
            }
            if params@.contains(x) {
                assert(x == e[0] || x == e[1] || x == e[2] || x == e[3]);
                if x == e[0] {
                    assert(e[0] == e[0]);
                }
            }
        }
        lemma_sorted_entries_unique(params@, e);
    }
    params
}

/// The base64 signature of a query-string login, keyed by `secret`.
pub open spec fn huobi_signature_of(
    secret: Seq<char>,
    host: Seq<char>,
    path: Seq<char>,
    key: Seq<char>,
    timestamp: Seq<char>,
) -> Seq<char> {
    query_signature_of(secret, host, path, huobi_auth_entries(key, timestamp))
}

/// The base64 signature of `timestamp + method + path`, keyed by `secret`.
pub open spec fn okex_signature_of(secret: Seq<char>, message: Seq<char>) -> Seq<char> {
    base64_of(hmac_sha256_of(encode_utf8(secret), encode_utf8(message)))
}

/// The hex signature of `timestamp + "websocket_login"`, keyed by `secret`.
pub open spec fn ftx_signature_of(secret: Seq<char>, timestamp: Seq<char>) -> Seq<char> {
    hex_lower(hmac_sha256_of(encode_utf8(secret), encode_utf8(timestamp + "websocket_login"@)))
}

/// The subscriptions that log in over the websocket before their topics can be had.
pub open spec fn needs_login(subscription: Subscription) -> bool {
    subscription == Subscription::HuobiUSwapOrderStream || subscription == Subscription::OkexOrderStream
        || subscription == Subscription::FtxOrderStream
}

/// The messages sent right after `subscription` connects, for the given
/// credential, topics and clock readings (UTC text, seconds and milliseconds
/// since the epoch). `None` when a login is needed and no credential is known.
pub open spec fn opening_texts(
    subscription: Subscription,
    credential: Option<CredentialText>,
    topics: Seq<Seq<char>>,
    utc: Seq<char>,
    seconds: int,
    millis: int,
) -> Option<Seq<Seq<char>>> {
    if needs_login(subscription) && credential is None {
        None
    } else {
        let c = credential->Some_0;
        Some(
            match subscription {
                Subscription::HuobiUSwapMarketStream => topics.map_values(
                    |t: Seq<char>| huobi_sub_market_text(t),
                ),
                Subscription::HuobiUSwapOrderStream => seq![
                    huobi_auth_text(
                        c.0,
                        huobi_signature_of(c.1, "api.hbdm.vn"@, "/linear-swap-notification"@, c.0, utc),
                        utc,
                    ),
                ],
                Subscription::OkexMarketStream => seq![okex_sub_market_text(topics)],
                Subscription::OkexOrderStream => seq![
                    okex_login_text(
                        c.0,
                        c.2,
                        okex_signature_of(c.1, decimal_of(seconds) + "GET"@ + "/users/self/verify"@),
                        decimal_of(seconds),
                    ),
                ],
                Subscription::FtxMarketStream => ftx_market_texts(topics),
                Subscription::FtxOrderStream => seq![
                    ftx_login_text(c.0, ftx_signature_of(c.1, decimal_of(millis)), c.2, millis),
                    "{\"channel\":\"fills\",\"op\":\"subscribe\"}"@,
                    "{\"channel\":\"orders\",\"op\":\"subscribe\"}"@,
                ],
                _ => Seq::empty(),
            },
        )
    }
}

/// The messages that carry out `reaction` on `subscription`, whose requested
/// topics are `topics`; `now` is the current time in milliseconds.
pub open spec fn reaction_texts(
    subscription: Subscription,
    reaction: Reaction,
    topics: Seq<Seq<char>>,
    now: int,
) -> Seq<Seq<char>> {
    match reaction {
        Reaction::SendPong => seq![huobi_pong_text(now)],
        Reaction::SendOpPong => seq![huobi_op_pong_text(now)],
        Reaction::SubscribePrivate => match subscription {
            Subscription::HuobiUSwapOrderStream => topics.map_values(|t: Seq<char>| huobi_sub_account_text(t)),
            Subscription::OkexOrderStream => seq![okex_sub_account_text(topics)],
            _ => Seq::empty(),
        },
        _ => Seq::empty(),
    }
}

/// How long a reconnect waits between detaching the old connections and
/// opening new ones, in milliseconds.
pub const RECONNECT_DELAY_MS: u64 = 5000;

/// The client-side keep-alive interval, in milliseconds.
pub const PING_INTERVAL_MS: u64 = 5000;

impl Websocket {
    /// Signs the query-string login of `subscription` on `wspoint` and
    /// `suffix` at the given UTC time text.
    pub fn generate_signature_at(
        &self,
        subscription: Subscription,
        wspoint: &str,
        suffix: &str,
        timestamp: &str,
    ) -> (r: Result<String, Error>)
        ensures
            self.credential(subscription) is None ==> r matches Err(Error::NoApiKeySet),
            self.credential(subscription) matches Some(c) ==> r matches Ok(sig) && sig@
                == huobi_signature_of(c.1, wspoint@, suffix@, c.0, timestamp@),
    {
        let (key, secret) = match self.check_key(&subscription) {
            Ok(p) => p,
            Err(e) => return Err(e),
        };
        let params = huobi_auth_params(key, timestamp);
        Ok(query_signature(secret, wspoint, suffix, &params))
    }

    /// Signs the query-string login of `subscription` at the current time;
    /// hands back the timestamp text and the signature.
    pub fn generate_signature(&self, subscription: Subscription, wspoint: &str, suffix: &str) -> (r: Result<
        (String, String),
        Error,
    >)
        ensures
            self.credential(subscription) is None ==> r matches Err(Error::NoApiKeySet),
            self.credential(subscription) matches Some(c) ==> r matches Ok(p) && utc_text_form(p.0@)
                && p.1@ == huobi_signature_of(c.1, wspoint@, suffix@, c.0, p.0@),
    {
        let timestamp = utc_timestamp_text();
        match self.generate_signature_at(subscription, wspoint, suffix, timestamp.as_str()) {
            Ok(sig) => Ok((timestamp, sig)),
            Err(e) => Err(e),
        }
    }

    /// Key, passphrase and base64 signature of `timestamp + method + url`.
    pub fn okex_generate_signature(
        &self,
        subscription: Subscription,
        timestamp: &str,
        method: &str,
        url: &str,
    ) -> (r: Result<(String, String, String), Error>)
        ensures
            self.credential(subscription) is None ==> r matches Err(Error::NoApiKeySet),
            self.credential(subscription) matches Some(c) ==> r matches Ok(t) && t.0@ == c.0 && t.1@ == c.2
                && t.2@ == okex_signature_of(c.1, timestamp@ + method@ + url@),
    {
        let (key, secret, passphrase) = match self.okex_check_key(&subscription) {
            Ok(t) => t,
            Err(e) => return Err(e),
        };
        let mut message = String::from_str(timestamp);
        message.append(method);
        message.append(url);
        let signature = sign_hmac_sha256_base64(secret, message.as_str());
        Ok((String::from_str(key), String::from_str(passphrase), signature))
    }

    /// Key, sub-account and hex signature of `timestamp + "websocket_login"`.
    pub fn ftx_generate_signature(&self, subscription: Subscription, timestamp: &str) -> (r: Result<
        (String, String, String),
        Error,
    >)
        ensures
            self.credential(subscription) is None ==> r matches Err(Error::NoApiKeySet),
            self.credential(subscription) matches Some(c) ==> r matches Ok(t) && t.0@ == c.0 && t.1@ == c.2
                && t.2@ == ftx_signature_of(c.1, timestamp@),
    {
        let (key, secret, subaccount) = match self.ftx_check_key(&subscription) {
            Ok(t) => t,
            Err(e) => return Err(e),
        };
        let mut message = String::from_str(timestamp);
        message.append("websocket_login");
        let signature = sign_hmac_sha256_hex(secret, message.as_str());
        Ok((String::from_str(key), String::from_str(subaccount), signature))
    }

    /// The messages to send right after `subscription` connects, for the
    /// given clock readings: topic subscriptions where the exchange takes
    /// them over the socket, or the login of a private stream. Fails, before
    /// anything is sent, when a login is needed and no credential is known.
    pub fn opening_messages_at(
        &self,
        subscription: Subscription,
        topics: &Vec<String>,
        utc: &str,
        seconds: i64,
        millis: i64,
    ) -> (r: Result<Vec<String>, Error>)
        ensures
            opening_texts(subscription, self.credential(subscription), texts(topics@), utc@, seconds as int, millis as int)
                matches Some(v) ==> r matches Ok(m) && texts(m@) == v,
            opening_texts(subscription, self.credential(subscription), texts(topics@), utc@, seconds as int, millis as int)
                is None ==> r matches Err(Error::NoApiKeySet),
    {
        let ghost c = self.credential(subscription)->Some_0;
        match subscription {
            Subscription::HuobiUSwapMarketStream => {
                let m = huobi_sub_market_messages(topics);
                assert(texts(m@) =~= texts(topics@).map_values(|t: Seq<char>| huobi_sub_market_text(t)));
                Ok(m)
            },
            Subscription::HuobiUSwapOrderStream => {
                let (key, _) = match self.check_key(&subscription) {
                    Ok(p) => p,
                    Err(e) => return Err(e),
                };
                let signature = match self.generate_signature_at(
                    subscription,
                    WS_HOST,
                    "/linear-swap-notification",
                    utc,
                ) {
                    Ok(sig) => sig,
                    Err(e) => return Err(e),
                };
                proof {
                    reveal_strlit("api.hbdm.vn");
                    assert(WS_HOST@ == "api.hbdm.vn"@);
                }
                let mut m: Vec<String> = Vec::new();
                m.push(huobi_auth_message(key, signature.as_str(), utc));
                assert(texts(m@) =~= seq![huobi_auth_text(c.0, signature@, utc@)]);
                Ok(m)
            },
            Subscription::OkexMarketStream => {
                let mut m: Vec<String> = Vec::new();
                m.push(okex_sub_market_message(topics));
                assert(texts(m@) =~= seq![okex_sub_market_text(texts(topics@))]);
                Ok(m)
            },
            Subscription::OkexOrderStream => {
                let timestamp = i64_text(seconds);
                let (key, passphrase, signature) = match self.okex_generate_signature(
                    subscription,
                    timestamp.as_str(),
                    "GET",
                    "/users/self/verify",
                ) {
                    Ok(t) => t,
                    Err(e) => return Err(e),
                };
                let mut m: Vec<String> = Vec::new();
                m.push(okex_login_message(key.as_str(), passphrase.as_str(), signature.as_str(), timestamp.as_str()));
                assert(texts(m@) =~= seq![okex_login_text(key@, passphrase@, signature@, timestamp@)]);
                Ok(m)
            },
            Subscription::FtxMarketStream => Ok(ftx_sub_market_messages(topics)),
            Subscription::FtxOrderStream => {
                let time = i64_text(millis);
                let (key, subaccount, signature) = match self.ftx_generate_signature(subscription, time.as_str()) {
                    Ok(t) => t,
                    Err(e) => return Err(e),
                };
                let mut m: Vec<String> = Vec::new();
                m.push(ftx_login_message(key.as_str(), signature.as_str(), subaccount.as_str(), millis));
                let mut rest = ftx_sub_account_messages();
                m.append(&mut rest);
                assert(texts(m@) =~= seq![
                    ftx_login_text(key@, signature@, subaccount@, millis as int),
                    "{\"channel\":\"fills\",\"op\":\"subscribe\"}"@,
                    "{\"channel\":\"orders\",\"op\":\"subscribe\"}"@,
                ]);
                Ok(m)
            },
            _ => {
                let m: Vec<String> = Vec::new();
                assert(texts(m@) =~= Seq::empty());
                Ok(m)
            },
        }
    }

    /// The messages to send right after `subscription` connects, at the
    /// current time. Fails, before anything is sent, when a login is needed
    /// and no credential is known.
    pub fn opening_messages(&self, subscription: Subscription, topics: &Vec<String>) -> (r: Result<Vec<String>, Error>)
        ensures
            needs_login(subscription) && self.credential(subscription) is None ==> r matches Err(Error::NoApiKeySet),
            !(needs_login(subscription) && self.credential(subscription) is None) ==> exists|utc: Seq<char>, seconds: int, millis: int|
                r matches Ok(m) && utc_text_form(utc) && seconds >= 0 && millis >= 0 && #[trigger] opening_texts(subscription, self.credential(subscription), texts(topics@), utc, seconds, millis)
                    == Some(texts(m@)),
    {
        let utc = utc_timestamp_text();
        let seconds = unix_seconds();
        let millis = unix_millis();
        self.opening_messages_at(subscription, topics, utc.as_str(), seconds, millis)
    }

    /// Detaches every subscription of a reconnect request. Hands back the
    /// tokens whose read sides are to be taken out of the multiplexer and the
    /// pause, in milliseconds, to keep before connecting again.
    pub fn reconnect(&mut self, subscriptions: &Vec<Subscription>) -> (r: (Vec<usize>, u64))
        requires
            old(self).wf(),
        ensures
            final(self).wf(),
            tokens_distinct(final(self).registered()),
            r.1 == RECONNECT_DELAY_MS,
            forall|t: usize| #[trigger] r.0@.contains(t) ==> owner_in(final(self).registered(), t) is None,
            forall|s: Subscription| subscriptions@.contains(s) ==> token_in(final(self).registered(), s) is None,
            forall|s: Subscription| !subscriptions@.contains(s) ==> token_in(final(self).registered(), s)
                == token_in(old(self).registered(), s),
            forall|t: usize| r.0@.contains(t) <==> exists|s: Subscription| subscriptions@.contains(s)
                && token_in(old(self).registered(), s) == Some(t),
            forall|s: Subscription| final(self).credential(s) == old(self).credential(s),
    {
        proof {
            self.lemma_tokens_distinct();
        }
        let mut detached_tokens: Vec<usize> = Vec::new();
        let mut i: usize = 0;
        while i < subscriptions.len()
            invariant
                self.wf(),
                tokens_distinct(self.registered()),
                forall|t: usize| #[trigger] detached_tokens@.contains(t) ==> owner_in(self.registered(), t) is None,
                i <= subscriptions@.len(),
                forall|s: Subscription| subscriptions@.subrange(0, i as int).contains(s) ==> token_in(self.registered(), s) is None,
                forall|s: Subscription| !subscriptions@.subrange(0, i as int).contains(s) ==> token_in(self.registered(), s)
                    == token_in(old(self).registered(), s),
                forall|t: usize| detached_tokens@.contains(t) <==> exists|s: Subscription|
                    subscriptions@.subrange(0, i as int).contains(s) && token_in(old(self).registered(), s) == Some(t),
                forall|s: Subscription| self.credential(s) == old(self).credential(s),
            decreases subscriptions@.len() - i,
        {
            let ghost prev_tokens = detached_tokens@;
            let ghost prev_reg = self.registered();
            let s = subscriptions[i];
            let ghost before = subscriptions@.subrange(0, i as int);
            let ghost after = subscriptions@.subrange(0, i as int + 1);
            assert(after =~= before.push(s));
            assert(after[i as int] == s);
            let removed = self.unsubscribe(&s);
            match removed {
                Some(t) => detached_tokens.push(t),
                None => {},
            }
            assert forall|t: usize| #[trigger] detached_tokens@.contains(t) implies owner_in(self.registered(), t) is None by {
                if prev_tokens.contains(t) {
                    assert forall|x: Subscription| !(self.registered().dom().contains(x) && self.registered()[x] == t) by {
                        if self.registered().dom().contains(x) && self.registered()[x] == t {
                            assert(prev_reg.dom().contains(x) && prev_reg[x] == t);
                        }
                    }
                }
            }
            assert forall|x: Subscription| after.contains(x) implies token_in(self.registered(), x) is None by {
                if x != s {
                    assert(before.contains(x));
                }
            }
            assert forall|x: Subscription| !after.contains(x) implies token_in(self.registered(), x)
                == token_in(old(self).registered(), x) by {
                assert(!before.contains(x));
                assert(x != s);
            }
            assert forall|t: usize| detached_tokens@.contains(t) <==> exists|x: Subscription|
                after.contains(x) && token_in(old(self).registered(), x) == Some(t) by {
                if detached_tokens@.contains(t) {
                    if prev_tokens.contains(t) {
                        let x = choose|x: Subscription| before.contains(x) && token_in(old(self).registered(), x) == Some(t);
                        assert(after.contains(x));
                    } else {
                        assert(t == detached_tokens@.last());
                        if before.contains(s) {
                            assert(token_in(prev_reg, s) is None);
                        } else {
                            assert(after.contains(s) && token_in(old(self).registered(), s) == Some(t));
                        }
                    }
                }
                if exists|x: Subscription| after.contains(x) && token_in(old(self).registered(), x) == Some(t) {
                    let x = choose|x: Subscription| after.contains(x) && token_in(old(self).registered(), x) == Some(t);
                    if before.contains(x) {
                        assert(prev_tokens.contains(t));
                        let k = choose|k: int| 0 <= k < prev_tokens.len() && prev_tokens[k] == t;
                        assert(detached_tokens@[k] == t);
                    } else {
                        assert(x == s);
                        assert(detached_tokens@.last() == t);
                    }
                }
            }
            i = i + 1;
        }
        assert(subscriptions@.subrange(0, subscriptions@.len() as int) =~= subscriptions@);
        (detached_tokens, RECONNECT_DELAY_MS)
    }
}

/// The messages that carry out `reaction` on `subscription`: pong answers
/// stamped with `now` (milliseconds), or the private-topic subscriptions
/// once a login is acknowledged. Other reactions send nothing.
pub fn reaction_messages(subscription: Subscription, reaction: Reaction, topics: &Vec<String>, now: i64) -> (r: Vec<String>)
    ensures
        texts(r@) == reaction_texts(subscription, reaction, texts(topics@), now as int),
{
    let mut m: Vec<String> = Vec::new();
    match reaction {
        Reaction::SendPong => {
            m.push(huobi_pong_message(now));
            assert(texts(m@) =~= seq![huobi_pong_text(now as int)]);
        },
        Reaction::SendOpPong => {
            m.push(huobi_op_pong_message(now));
            assert(texts(m@) =~= seq![huobi_op_pong_text(now as int)]);
        },
        Reaction::SubscribePrivate => match subscription {
            Subscription::HuobiUSwapOrderStream => {
                m = huobi_sub_account_messages(topics);
                assert(texts(m@) =~= texts(topics@).map_values(|t: Seq<char>| huobi_sub_account_text(t)));
            },
            Subscription::OkexOrderStream => {
                m.push(okex_sub_account_message(topics));
                assert(texts(m@) =~= seq![okex_sub_account_text(texts(topics@))]);
            },
            _ => {
                assert(texts(m@) =~= Seq::empty());
            },
        },
        _ => {
            assert(texts(m@) =~= Seq::empty());
        },
    }
    m
}

/// The subscriptions that the keep-alive timer pings, each once per
/// request entry, in request order: those of the exchange that expects
/// client-initiated pings.
pub fn keepalive_targets(subscriptions: &Vec<Subscription>) -> (r: Vec<Subscription>)
    ensures
        r@ == subscriptions@.filter(|s: Subscription| s.spec_family() == Family::Ftx),
{
    let ghost pred = |s: Subscription| s.spec_family() == Family::Ftx;
    let mut out: Vec<Subscription> = Vec::new();
    let mut i: usize = 0;
    assert(subscriptions@.subrange(0, 0).filter(pred) =~= Seq::<Subscription>::empty()) by {
        reveal(Seq::filter);
    }
    while i < subscriptions.len()
        invariant
            i <= subscriptions@.len(),
            pred == (|s: Subscription| s.spec_family() == Family::Ftx),
            out@ == subscriptions@.subrange(0, i as int).filter(pred),
        decreases subscriptions@.len() - i,
    {
        let s = subscriptions[i];
        let ghost after = subscriptions@.subrange(0, i as int + 1);
        assert(after.drop_last() =~= subscriptions@.subrange(0, i as int));
        assert(after.last() == s);
        proof {
            reveal(Seq::filter);
        }
        if s.family() == Family::Ftx {
            out.push(s);
        }
        i = i + 1;
    }
    assert(subscriptions@.subrange(0, subscriptions@.len() as int) =~= subscriptions@);
    out
}

} // verus!
