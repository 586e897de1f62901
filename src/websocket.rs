use vstd::prelude::*;
use crate::encoding::{gunzip_text, gunzip_text_of};
use crate::error::Error;
use crate::messages::texts;
use crate::models::{Subscription, SUBSCRIPTION_COUNT, lemma_index_injective};

verus! {

/// The base URL of the exchange that serves `subscription`.
pub open spec fn base_url_of(subscription: Subscription) -> Seq<char> {
    match subscription {
        Subscription::BinanceSpotMStream | Subscription::BinanceSpotOrder => "wss://stream.binance.com:9443"@,
        Subscription::BinanceUSwapMStream | Subscription::BinanceUSwapOrder => "wss://fstream.binance.com"@,
        Subscription::HuobiUSwapMarketStream | Subscription::HuobiUSwapOrderStream => "wss://api.hbdm.vn"@,
        Subscription::OkexMarketStream | Subscription::OkexOrderStream => "wss://wsaws.okex.com:8443"@,
        Subscription::FtxMarketStream | Subscription::FtxOrderStream => "wss://ftx.com"@,
    }
}

/// Topics joined with `/`.
pub open spec fn slash_joined(topics: Seq<Seq<char>>) -> Seq<char>
    decreases topics.len(),
{
    if topics.len() == 0 {
        Seq::empty()
    } else if topics.len() == 1 {
        topics[0]
    } else {
        slash_joined(topics.drop_last()) + "/"@ + topics.last()
    }
}

/// The path that `subscription` connects to; some exchanges take the topics in it.
pub open spec fn path_of(subscription: Subscription, topics: Seq<Seq<char>>) -> Seq<char> {
    match subscription {
        Subscription::BinanceSpotMStream | Subscription::BinanceSpotOrder
        | Subscription::BinanceUSwapMStream => "/stream?streams="@ + slash_joined(topics),
        Subscription::BinanceUSwapOrder => "/ws/"@ + slash_joined(topics),
        Subscription::HuobiUSwapMarketStream => "/linear-swap-ws"@,
        Subscription::HuobiUSwapOrderStream => "/linear-swap-notification"@,
        Subscription::OkexMarketStream => "/ws/v5/public"@,
        Subscription::OkexOrderStream => "/ws/v5/private"@,
        Subscription::FtxMarketStream | Subscription::FtxOrderStream => "/ws"@,
    }
}

fn join_topics(topics: &Vec<String>) -> (r: String)
    ensures
        r@ == slash_joined(texts(topics@)),
{
    let mut out = String::new();
    let mut i: usize = 0;
    while i < topics.len()
        invariant
            i <= topics@.len(),
            out@ == slash_joined(texts(topics@).subrange(0, i as int)),
        decreases topics@.len() - i,
    {
        let ghost before = out@;
        if i > 0 {
            out.append("/");
        }
        out.append(topics[i].as_str());
        proof {
            let s = texts(topics@).subrange(0, i as int + 1);
            assert(s.drop_last() =~= texts(topics@).subrange(0, i as int));
            if i == 0 {
                assert(out@ =~= s[0]);
            } else {
                assert(out@ =~= before + "/"@ + s.last());
            }
        }
        i = i + 1;
    }
    assert(texts(topics@).subrange(0, topics@.len() as int) =~= texts(topics@));
    out
}

/// The websocket URL that `subscription` connects to for the given topics.
pub fn endpoint(subscription: &Subscription, topics: &Vec<String>) -> (r: String)
    ensures
        r@ == base_url_of(*subscription) + path_of(*subscription, texts(topics@)),
{
    let mut url = match subscription {
        Subscription::BinanceSpotMStream | Subscription::BinanceSpotOrder => String::from_str("wss://stream.binance.com:9443"),
        Subscription::BinanceUSwapMStream | Subscription::BinanceUSwapOrder => String::from_str("wss://fstream.binance.com"),
        Subscription::HuobiUSwapMarketStream | Subscription::HuobiUSwapOrderStream => String::from_str("wss://api.hbdm.vn"),
        Subscription::OkexMarketStream | Subscription::OkexOrderStream => String::from_str("wss://wsaws.okex.com:8443"),
        Subscription::FtxMarketStream | Subscription::FtxOrderStream => String::from_str("wss://ftx.com"),
    };
    match subscription {
        Subscription::BinanceSpotMStream | Subscription::BinanceSpotOrder
        | Subscription::BinanceUSwapMStream => {
            url.append("/stream?streams=");
            let joined = join_topics(topics);
            url.append(joined.as_str());
        },
        Subscription::BinanceUSwapOrder => {
            url.append("/ws/");
            let joined = join_topics(topics);
            url.append(joined.as_str());
        },
        Subscription::HuobiUSwapMarketStream => url.append("/linear-swap-ws"),
        Subscription::HuobiUSwapOrderStream => url.append("/linear-swap-notification"),
        Subscription::OkexMarketStream => url.append("/ws/v5/public"),
        Subscription::OkexOrderStream => url.append("/ws/v5/private"),
        Subscription::FtxMarketStream | Subscription::FtxOrderStream => url.append("/ws"),
    }
    url
}

/// One websocket message as it came off a connection.
pub enum Frame {
    Text(String),
    Binary(Vec<u8>),
    Ping(Vec<u8>),
    Pong(Vec<u8>),
    Close,
}

/// The texts of a credential: key, secret, and a third field that is the
/// passphrase or the sub-account, depending on the exchange.
pub type CredentialText = (Seq<char>, Seq<char>, Seq<char>);

/// The credential that a list gives a subscription: its last entry wins, as
/// when the list is collected into a map.
pub open spec fn credential_in(
    list: Seq<(Subscription, (String, String, String))>,
    subscription: Subscription,
) -> Option<CredentialText>
    decreases list.len(),
{
    if list.len() == 0 {
        None
    } else if list.last().0 == subscription {
        let c = list.last().1;
        Some((c.0@, c.1@, c.2@))
    } else {
        credential_in(list.drop_last(), subscription)
    }
}

/// The registry after `subscription` is detached.
pub open spec fn detached(
    registered: Map<Subscription, usize>,
    subscription: Subscription,
) -> Map<Subscription, usize> {
    registered.remove(subscription)
}

/// The token that `subscription` holds, if any.
pub open spec fn token_in(registered: Map<Subscription, usize>, subscription: Subscription) -> Option<usize> {
    if registered.dom().contains(subscription) {
        Some(registered[subscription])
    } else {
        None
    }
}

/// The subscription that holds `token`, if any.
pub open spec fn owner_in(registered: Map<Subscription, usize>, token: usize) -> Option<Subscription> {
    if exists|s: Subscription| registered.dom().contains(s) && registered[s] == token {
        Some(choose|s: Subscription| registered.dom().contains(s) && registered[s] == token)
    } else {
        None
    }
}

/// No two subscriptions share a token.
pub open spec fn tokens_distinct(registered: Map<Subscription, usize>) -> bool {
    forall|a: Subscription, b: Subscription|
        registered.dom().contains(a) && registered.dom().contains(b) && registered[a] == registered[b]
            ==> a == b
}

/// Detaching a subscription twice is safe: the second time there is nothing
/// to hand back, and the registry stays as the first detach left it.
pub proof fn lemma_unsubscribe_idempotent(registered: Map<Subscription, usize>, subscription: Subscription)
    ensures
        token_in(detached(registered, subscription), subscription) is None,
        detached(detached(registered, subscription), subscription) == detached(registered, subscription),
{
    assert(detached(detached(registered, subscription), subscription) =~= detached(registered, subscription));
}

/// Detaching one subscription does not disturb another: the other keeps its
/// token, and every token that was not the detached one's still resolves to
/// the subscription it resolved to before, so frames already pulled for it
/// are still dispatched as theirs.
pub proof fn lemma_unsubscribe_isolated(
    registered: Map<Subscription, usize>,
    removed: Subscription,
    other: Subscription,
    token: usize,
)
    requires
        tokens_distinct(registered),
        removed != other,
    ensures
        token_in(detached(registered, removed), other) == token_in(registered, other),
        token_in(registered, removed) != Some(token) ==> owner_in(detached(registered, removed), token)
            == owner_in(registered, token),
{
    if token_in(registered, removed) != Some(token) {
        let after = detached(registered, removed);
        if exists|s: Subscription| registered.dom().contains(s) && registered[s] == token {
            let o = choose|s: Subscription| registered.dom().contains(s) && registered[s] == token;
            assert(o != removed);
            assert(after.dom().contains(o) && after[o] == token);
            let p = choose|s: Subscription| after.dom().contains(s) && after[s] == token;
            assert(registered.dom().contains(p) && registered[p] == token);
        } else {
            assert forall|s: Subscription| !(after.dom().contains(s) && after[s] == token) by {
                if after.dom().contains(s) {
                    assert(registered.dom().contains(s));
                }
            }
        }
    }
}

/// The state of the multiplexed client: the credentials it was built with and
/// the token under which each connected subscription's read side is
/// registered in the stream multiplexer.
pub struct Websocket {
    credentials: Vec<(Subscription, (String, String, String))>,
    tokens: Vec<Option<usize>>,
}

impl Websocket {
    /// The credential of `subscription`, if one was given.
    pub closed spec fn credential(&self, subscription: Subscription) -> Option<CredentialText> {
        credential_in(self.credentials@, subscription)
    }

    /// The token of each connected subscription.
    pub closed spec fn registered(&self) -> Map<Subscription, usize> {
        Map::new(
            |s: Subscription| self.tokens@[s.spec_index()] is Some,
            |s: Subscription| self.tokens@[s.spec_index()]->Some_0,
        )
    }

    pub closed spec fn wf(&self) -> bool {
        &&& self.tokens@.len() == SUBSCRIPTION_COUNT
        &&& tokens_distinct(self.registered())
    }

    /// No two connected subscriptions share a token.
    pub proof fn lemma_tokens_distinct(&self)
        requires
            self.wf(),
        ensures
            tokens_distinct(self.registered()),
    {
    }

    /// A client with the given credentials and no connection.
    pub fn new(credentials: Vec<(Subscription, (String, String, String))>) -> (r: Websocket)
        ensures
            r.wf(),
            tokens_distinct(r.registered()),
            r.registered() == Map::<Subscription, usize>::empty(),
            forall|s: Subscription| r.credential(s) == credential_in(credentials@, s),
    {
        let mut tokens: Vec<Option<usize>> = Vec::new();
        let mut i: usize = 0;
        while i < SUBSCRIPTION_COUNT
            invariant
                i <= SUBSCRIPTION_COUNT,
                tokens@.len() == i,
                forall|j: int| 0 <= j < i ==> tokens@[j] is None,
            decreases SUBSCRIPTION_COUNT - i,
        {
            tokens.push(None);
            i = i + 1;
        }
        let r = Websocket { credentials, tokens };
        assert(r.registered() =~= Map::<Subscription, usize>::empty()) by {
            assert forall|s: Subscription| !r.registered().dom().contains(s) by {
                lemma_index_injective(s, s);
            }
        }
        r
    }

    fn find_credential(&self, subscription: &Subscription) -> (r: Option<&(String, String, String)>)
        ensures
            r matches Some(c) ==> self.credential(*subscription) == Some((c.0@, c.1@, c.2@)),
            r is None ==> self.credential(*subscription) is None,
    {
        let mut i = self.credentials.len();
        assert(self.credentials@.subrange(0, i as int) =~= self.credentials@);
        while i > 0
            invariant
                i <= self.credentials@.len(),
                credential_in(self.credentials@, *subscription) == credential_in(
                    self.credentials@.subrange(0, i as int),
                    *subscription,
                ),
            decreases i,
        {
            let ghost s = self.credentials@.subrange(0, i as int);
            assert(s.drop_last() =~= self.credentials@.subrange(0, i as int - 1));
            if self.credentials[i - 1].0 == *subscription {
                return Some(&self.credentials[i - 1].1);
            }
            i = i - 1;
        }
        None
    }

    /// Records that `subscription`'s read side now sits in the multiplexer
    /// under `token`. A subscription holds one connection at a time: the
    /// token it held before is handed back, for its read side to be detached,
    /// and a stale entry that held `token` is dropped.
    pub fn register(&mut self, subscription: Subscription, token: usize) -> (r: Option<usize>)
        requires
            old(self).wf(),
        ensures
            final(self).wf(),
            tokens_distinct(final(self).registered()),
            r == token_in(old(self).registered(), subscription),
            owner_in(final(self).registered(), token) == Some(subscription),
            r matches Some(t) ==> t == token || owner_in(final(self).registered(), t) is None,
            final(self).registered() == old(self).registered().restrict(
                old(self).registered().dom().filter(|s: Subscription| old(self).registered()[s] != token),
            ).insert(subscription, token),
            forall|s: Subscription| final(self).credential(s) == old(self).credential(s),
    {
        let ghost m0 = self.registered();
        let previous = self.tokens[subscription.index()];
        let mut i: usize = 0;
        while i < SUBSCRIPTION_COUNT
            invariant
                i <= SUBSCRIPTION_COUNT,
                self.tokens@.len() == SUBSCRIPTION_COUNT,
                self.credentials == old(self).credentials,
                forall|j: int| 0 <= j < SUBSCRIPTION_COUNT ==> #[trigger] self.tokens@[j] == if j < i
                    && old(self).tokens@[j] == Some(token) {
                    None
                } else {
                    old(self).tokens@[j]
                },
            decreases SUBSCRIPTION_COUNT - i,
        {
            if self.tokens[i] == Some(token) {
                self.tokens.set(i, None);
            }
            i = i + 1;
        }
        self.tokens.set(subscription.index(), Some(token));
        let ghost expected = m0.restrict(m0.dom().filter(|s: Subscription| m0[s] != token)).insert(subscription, token);
        assert(self.registered() =~= expected) by {
            assert forall|s: Subscription| #[trigger] self.registered().dom().contains(s) == expected.dom().contains(s)
                by {
                lemma_index_injective(s, subscription);
            }
            assert forall|s: Subscription| #[trigger] expected.dom().contains(s) implies self.registered()[s]
                == expected[s] by {
                lemma_index_injective(s, subscription);
            }
        }
        assert forall|a: Subscription, b: Subscription|
            self.registered().dom().contains(a) && self.registered().dom().contains(b)
                && self.registered()[a] == self.registered()[b] implies a == b by {
            lemma_index_injective(a, b);
        }
        proof {
            let m = self.registered();
            assert(m.dom().contains(subscription) && m[subscription] == token);
            let o = choose|x: Subscription| m.dom().contains(x) && m[x] == token;
            if let Some(t) = previous {
                if t != token {
                    assert forall|x: Subscription| !(m.dom().contains(x) && m[x] == t) by {
                        if m.dom().contains(x) && m[x] == t {
                            assert(x != subscription);
                            assert(m0.dom().contains(x) && m0[x] == t);
                            assert(m0.dom().contains(subscription) && m0[subscription] == t);
                        }
                    }
                }
            }
        }
        previous
    }

    /// Detaches `subscription`: its token is handed back, for its read side
    /// to be taken out of the multiplexer, and both directions of its
    /// token mapping are gone. Nothing is handed back if it was not connected.
    pub fn unsubscribe(&mut self, subscription: &Subscription) -> (r: Option<usize>)
        requires
            old(self).wf(),
        ensures
            final(self).wf(),
            tokens_distinct(final(self).registered()),
            r == token_in(old(self).registered(), *subscription),
            r matches Some(t) ==> owner_in(final(self).registered(), t) is None,
            forall|t: usize| r != Some(t) ==> #[trigger] owner_in(final(self).registered(), t) == owner_in(
                old(self).registered(),
                t,
            ),
            final(self).registered() == detached(old(self).registered(), *subscription),
            forall|s: Subscription| final(self).credential(s) == old(self).credential(s),
    {
        let ghost m0 = self.registered();
        let previous = self.tokens[subscription.index()];
        self.tokens.set(subscription.index(), None);
        assert(self.registered() =~= detached(m0, *subscription)) by {
            assert forall|s: Subscription| #[trigger] self.registered().dom().contains(s) == detached(m0, *subscription).dom().contains(s)
                by {
                lemma_index_injective(s, *subscription);
            }
        }
        assert forall|a: Subscription, b: Subscription|
            self.registered().dom().contains(a) && self.registered().dom().contains(b)
                && self.registered()[a] == self.registered()[b] implies a == b by {
            assert(m0.dom().contains(a) && m0.dom().contains(b));
        }
        proof {
            let m = self.registered();
            let other = if *subscription == Subscription::BinanceSpotMStream {
                Subscription::BinanceSpotOrder
            } else {
                Subscription::BinanceSpotMStream
            };
            assert forall|t: usize| previous != Some(t) implies #[trigger] owner_in(m, t) == owner_in(m0, t) by {
                lemma_unsubscribe_isolated(m0, *subscription, other, t);
            }
            if let Some(t) = previous {
                assert forall|x: Subscription| !(m.dom().contains(x) && m[x] == t) by {
                    if m.dom().contains(x) && m[x] == t {
                        assert(m0.dom().contains(x) && m0.dom().contains(*subscription));
                    }
                }
            }
        }
        previous
    }

    /// The token under which `subscription` is connected.
    pub fn token_of(&self, subscription: &Subscription) -> (r: Option<usize>)
        requires
            self.wf(),
        ensures
            tokens_distinct(self.registered()),
            r == token_in(self.registered(), *subscription),
    {
        self.tokens[subscription.index()]
    }

    /// The subscription whose read side the multiplexer knows as `token`.
    pub fn resolve(&self, token: usize) -> (r: Option<Subscription>)
        requires
            self.wf(),
        ensures
            tokens_distinct(self.registered()),
            r == owner_in(self.registered(), token),
    {
        let subs = [
            Subscription::BinanceSpotMStream,
            Subscription::BinanceSpotOrder,
            Subscription::BinanceUSwapMStream,
            Subscription::BinanceUSwapOrder,
            Subscription::HuobiUSwapMarketStream,
            Subscription::HuobiUSwapOrderStream,
            Subscription::OkexMarketStream,
            Subscription::OkexOrderStream,
            Subscription::FtxMarketStream,
            Subscription::FtxOrderStream,
        ];
        let mut i: usize = 0;
        while i < SUBSCRIPTION_COUNT
            invariant
                i <= SUBSCRIPTION_COUNT,
                self.wf(),
                forall|j: int| 0 <= j < SUBSCRIPTION_COUNT ==> (#[trigger] subs@[j]).spec_index() == j,
                forall|s: Subscription| s.spec_index() < i ==> !(self.registered().dom().contains(s)
                    && self.registered()[s] == token),
            decreases SUBSCRIPTION_COUNT - i,
        {
            let s = subs[i];
            if self.tokens[i] == Some(token) {
                assert(self.registered().dom().contains(s) && self.registered()[s] == token);
                return Some(s);
            }
            assert forall|t: Subscription| t.spec_index() < i + 1 implies !(self.registered().dom().contains(t)
                && self.registered()[t] == token) by {
                if t.spec_index() == i {
                    lemma_index_injective(t, s);
                }
            }
            i = i + 1;
        }
        assert forall|t: Subscription| !(self.registered().dom().contains(t) && self.registered()[t] == token) by {
            lemma_index_injective(t, t);
        }
        None
    }

    /// Resolves the frame's origin and extracts its JSON text: text frames as
    /// they are, binary frames inflated from gzip. A binary frame that is not
    /// gzip of UTF-8 text is a protocol error. Ping and pong frames carry
    /// nothing to decode; a close frame ends the session with an error.
    pub fn parse_message(&self, msg: Frame, token: usize) -> (r: Result<(Subscription, Option<String>), Error>)
        requires
            self.wf(),
        ensures
            owner_in(self.registered(), token) is None ==> r matches Err(Error::NoStreamSubscribed),
            owner_in(self.registered(), token) matches Some(s) ==> match msg {
                Frame::Text(t) => r matches Ok((o, Some(u))) && o == s && u@ == t@,
                Frame::Binary(b) => match gunzip_text_of(b@) {
                    Some(t) => r matches Ok((o, Some(u))) && o == s && u@ == t,
                    None => r matches Err(Error::MalformedFrame),
                },
                Frame::Ping(_) | Frame::Pong(_) => r matches Ok((o, None)) && o == s,
                Frame::Close => r matches Err(Error::SocketClosed),
            },
    {
        let subscription = match self.resolve(token) {
            None => return Err(Error::NoStreamSubscribed),
            Some(s) => s,
        };
        match msg {
            Frame::Text(t) => Ok((subscription, Some(t))),
            Frame::Binary(b) => match gunzip_text(b.as_slice()) {
                Some(t) => Ok((subscription, Some(t))),
                None => Err(Error::MalformedFrame),
            },
            Frame::Ping(_) | Frame::Pong(_) => Ok((subscription, None)),
            Frame::Close => Err(Error::SocketClosed),
        }
    }

    /// The key and secret of `subscription`.
    pub fn check_key(&self, subscription: &Subscription) -> (r: Result<(&str, &str), Error>)
        ensures
            r matches Ok(p) ==> self.credential(*subscription) matches Some(c) && p.0@ == c.0
                && p.1@ == c.1,
            r is Err ==> self.credential(*subscription) is None && r matches Err(Error::NoApiKeySet),
    {
        match self.find_credential(subscription) {
            None => Err(Error::NoApiKeySet),
            Some(c) => Ok((c.0.as_str(), c.1.as_str())),
        }
    }

    /// The key, secret and passphrase of `subscription`.
    pub fn okex_check_key(&self, subscription: &Subscription) -> (r: Result<(&str, &str, &str), Error>)
        ensures
            r matches Ok(p) ==> self.credential(*subscription) == Some((p.0@, p.1@, p.2@)),
            r is Err ==> self.credential(*subscription) is None && r matches Err(Error::NoApiKeySet),
    {
        match self.find_credential(subscription) {
            None => Err(Error::NoApiKeySet),
            Some(c) => Ok((c.0.as_str(), c.1.as_str(), c.2.as_str())),
        }
    }

    /// The key, secret and sub-account of `subscription`.
    pub fn ftx_check_key(&self, subscription: &Subscription) -> (r: Result<(&str, &str, &str), Error>)
        ensures
            r matches Ok(p) ==> self.credential(*subscription) == Some((p.0@, p.1@, p.2@)),
            r is Err ==> self.credential(*subscription) is None && r matches Err(Error::NoApiKeySet),
    {
        match self.find_credential(subscription) {
            None => Err(Error::NoApiKeySet),
            Some(c) => Ok((c.0.as_str(), c.1.as_str(), c.2.as_str())),
        }
    }
}

} // verus!
