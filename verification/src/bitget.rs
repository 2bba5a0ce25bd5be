//! The Bitget swap-market adapter and its WebSocket client facade:
//! the wire format for subscribe/unsubscribe commands, the inbound
//! frame classifier, and the signed login command.

use vstd::prelude::*;
use vstd::string::StringExecFns;
use vstd::utf8::encode_utf8;
use crate::adapter::{string_views, topic_views, Classification, ClassificationV, ExchangeAdapter};
use crate::engine::{fresh_views, departing_views, subscribe_topics, unsubscribe_topics, StreamEngine};
use crate::errors::{AuthError, SubscribeError};
use crate::extern_calls::{base64_of, base64_encode, hmac_sha256, hmac_sha256_of, now_unix_secs};
use crate::strutil::{chars_vec, chars_eq, extract_after, extract_between, find_from, first_match_from, u64_to_dec};
use crate::topics::{Topic, TopicV};

verus! {

/// The default endpoint for Bitget swap markets.
pub const WEBSOCKET_URL: &'static str = "wss://ws.bitget.com/mix/v1/stream";

/// Bitget tolerates this many outbound commands per rate interval.
pub const UPLINK_LIMIT: usize = 100;

/// The length of Bitget's uplink rate window, in milliseconds.
pub const UPLINK_INTERVAL_MS: u64 = 10000;

/// Reconnection attempts allowed before the engine closes for good.
pub const MAX_RETRIES: u32 = 10;

/// One wire command subscribing to or unsubscribing from one topic.
pub open spec fn bitget_command(t: TopicV, subscribe: bool) -> Seq<char> {
    (if subscribe {
        "{\"op\":\"subscribe\",\"args\":[{\"instType\":\"MC\",\"channel\":\""@
    } else {
        "{\"op\":\"unsubscribe\",\"args\":[{\"instType\":\"MC\",\"channel\":\""@
    }) + t.channel + "\",\"instId\":\""@ + t.symbol + "\"}]}"@
}

/// How an inbound Bitget frame is classified: the keep-alive answer,
/// an error event, a data frame carrying an instrument id, or noise.
pub open spec fn bitget_classification(frame: Seq<char>) -> ClassificationV {
    if frame == "pong"@ {
        ClassificationV::Heartbeat
    } else if first_match_from(frame, "\"event\":\"error\""@, 0) is Some {
        ClassificationV::ProtocolError { reason: frame }
    } else {
        match extract_after(frame, "\"instId\":\""@, "\""@) {
            Some(sym) => ClassificationV::Data { symbol: sym, payload: frame },
            None => ClassificationV::Ignore,
        }
    }
}

/// The per-topic command builder behind the translator.
fn build_command(t: &Topic, subscribe: bool) -> (r: String)
    ensures
        r@ == bitget_command(t@, subscribe),
{
    let mut s = if subscribe {
        "{\"op\":\"subscribe\",\"args\":[{\"instType\":\"MC\",\"channel\":\"".to_owned()
    } else {
        "{\"op\":\"unsubscribe\",\"args\":[{\"instType\":\"MC\",\"channel\":\"".to_owned()
    };
    s.append(t.channel.as_str());
    s.append("\",\"instId\":\"");
    s.append(t.symbol.as_str());
    s.append("\"}]}");
    s
}

/// The Bitget swap adapter: stateless, so replay after reconnection is
/// deterministic given the same topic set.
pub struct BitgetAdapter {
}

impl ExchangeAdapter for BitgetAdapter {
    open spec fn wire_commands(&self, topics: Seq<TopicV>, subscribe: bool) -> Seq<Seq<char>> {
        topics.map_values(|t: TopicV| bitget_command(t, subscribe))
    }

    open spec fn classification_of(&self, frame: Seq<char>) -> ClassificationV {
        bitget_classification(frame)
    }

    open spec fn heartbeat_reply_frame(&self) -> Seq<char> {
        "ping"@
    }

    open spec fn auth_required(&self) -> bool {
        false
    }

    fn translate(&self, topics: &Vec<Topic>, subscribe: bool) -> (cmds: Vec<String>) {
        let mut cmds: Vec<String> = Vec::new();
        let n = topics.len();
        for i in 0..n
            invariant
                n == topics@.len(),
                cmds@.len() == i,
                forall|j: int| 0 <= j < i ==> cmds@[j]@ == bitget_command(topics@[j]@, subscribe),
        {
            cmds.push(build_command(&topics[i], subscribe));
        }
        proof {
            assert(string_views(cmds@) =~= self.wire_commands(topic_views(topics@), subscribe));
        }
        cmds
    }

    fn classify(&self, frame: &str) -> (c: Classification) {
        let cs = chars_vec(frame);
        proof {
            reveal_strlit("pong");
            reveal_strlit("\"event\":\"error\"");
            reveal_strlit("\"instId\":\"");
            reveal_strlit("\"");
        }
        let pong = chars_vec("pong");
        if chars_eq(&cs, &pong) {
            return Classification::Heartbeat;
        }
        let err_marker = chars_vec("\"event\":\"error\"");
        if find_from(&cs, &err_marker, 0).is_some() {
            return Classification::ProtocolError { reason: frame.to_owned() };
        }
        match extract_between(frame, "\"instId\":\"", "\"") {
            Some(sym) => Classification::Data { symbol: sym, payload: frame.to_owned() },
            None => Classification::Ignore,
        }
    }

    fn heartbeat_reply(&self) -> (r: String) {
        proof {
            reveal_strlit("ping");
        }
        "ping".to_owned()
    }

    fn needs_auth(&self) -> (r: bool) {
        false
    }
}

/// What is signed for a WebSocket login: the timestamp, the verb and the
/// verification path.
pub open spec fn ws_sign_payload(ts: Seq<char>) -> Seq<char> {
    ts + "GET"@ + "/user/verify"@
}

/// The login signature: the base64 of the HMAC-SHA-256 of the sign
/// payload under the API secret.
pub open spec fn ws_signature_of(secret: Seq<char>, ts: Seq<char>) -> Seq<char> {
    base64_of(hmac_sha256_of(encode_utf8(secret), encode_utf8(ws_sign_payload(ts))))
}

/// The login wire command carrying key, passphrase, timestamp and
/// signature.
pub open spec fn login_command_view(
    key: Seq<char>,
    pass: Seq<char>,
    ts: Seq<char>,
    sign: Seq<char>,
) -> Seq<char> {
    "{\"op\":\"login\",\"args\":[{\"apiKey\":\""@ + key + "\",\"passphrase\":\""@ + pass
        + "\",\"timestamp\":\""@ + ts + "\",\"sign\":\""@ + sign + "\"}]}"@
}

/// Signs the login payload for a timestamp.
fn create_signature(secret: &str, timestamp: &str) -> (r: String)
    ensures
        r@ == ws_signature_of(secret@, timestamp@),
{
    let mut message = timestamp.to_owned();
    message.append("GET");
    message.append("/user/verify");
    proof {
        assert(message@ == ws_sign_payload(timestamp@));
    }
    let code = hmac_sha256(secret.as_bytes(), message.as_str().as_bytes());
    base64_encode(code.as_slice())
}

/// The WebSocket client for Bitget swap markets: a stream engine under
/// the Bitget adapter, plus the credentials a private session needs.
pub struct BitgetSwapWSClient {
    pub engine: StreamEngine<BitgetAdapter>,
    pub url: String,
    pub api_key: Option<String>,
    pub api_secret: Option<String>,
    pub api_passphrase: Option<String>,
}

impl BitgetSwapWSClient {
    pub open spec fn well_formed(&self) -> bool {
        self.engine.well_formed()
    }

    /// A fresh client against the given endpoint, or the default one.
    pub fn new(url: Option<String>) -> (c: BitgetSwapWSClient)
        ensures
            c.well_formed(),
            c.engine.conn is Connecting,
            c.engine.topics@ =~= Set::<TopicV>::empty(),
            c.engine.outbound@ == Seq::<String>::empty(),
            match url {
                Some(u) => c.url@ == u@,
                None => c.url@ == WEBSOCKET_URL@,
            },
            c.api_key is None,
            c.api_secret is None,
            c.api_passphrase is None,
    {
        let real_url = match url {
            Some(endpoint) => endpoint,
            None => WEBSOCKET_URL.to_owned(),
        };
        BitgetSwapWSClient {
            engine: StreamEngine::connect(
                BitgetAdapter {  },
                UPLINK_LIMIT,
                UPLINK_INTERVAL_MS,
                MAX_RETRIES,
            ),
            url: real_url,
            api_key: None,
            api_secret: None,
            api_passphrase: None,
        }
    }

    pub fn set_api_keys(
        &mut self,
        api_key: Option<String>,
        api_secret: Option<String>,
        api_passphrase: Option<String>,
    )
        ensures
            final(self).api_key == api_key,
            final(self).api_secret == api_secret,
            final(self).api_passphrase == api_passphrase,
            final(self).engine == old(self).engine,
            final(self).url == old(self).url,
    {
        self.api_key = api_key;
        self.api_secret = api_secret;
        self.api_passphrase = api_passphrase;
    }

    /// The login command for a given timestamp, or which credential is
    /// missing. Checked in the order key, secret, passphrase.
    pub fn login_command(&self, timestamp: &str) -> (r: Result<String, AuthError>)
        ensures
            match r {
                Ok(cmd) => {
                    &&& self.api_key matches Some(k) && self.api_secret matches Some(sec)
                        && self.api_passphrase matches Some(p) && cmd@ == login_command_view(
                        k@,
                        p@,
                        timestamp@,
                        ws_signature_of(sec@, timestamp@),
                    )
                },
                Err(e) => match e {
                    AuthError::MissingApiKey => self.api_key is None,
                    AuthError::MissingApiSecret => self.api_key is Some && self.api_secret
                        is None,
                    AuthError::MissingApiPassphrase => self.api_key is Some && self.api_secret
                        is Some && self.api_passphrase is None,
                },
            },
    {
        let key = match &self.api_key {
            Some(k) => k,
            None => {
                return Err(AuthError::MissingApiKey);
            },
        };
        let secret = match &self.api_secret {
            Some(s) => s,
            None => {
                return Err(AuthError::MissingApiSecret);
            },
        };
        let passphrase = match &self.api_passphrase {
            Some(p) => p,
            None => {
                return Err(AuthError::MissingApiPassphrase);
            },
        };
        let sign = create_signature(secret.as_str(), timestamp);
        let mut cmd = "{\"op\":\"login\",\"args\":[{\"apiKey\":\"".to_owned();
        cmd.append(key.as_str());
        cmd.append("\",\"passphrase\":\"");
        cmd.append(passphrase.as_str());
        cmd.append("\",\"timestamp\":\"");
        cmd.append(timestamp);
        cmd.append("\",\"sign\":\"");
        cmd.append(sign.as_str());
        cmd.append("\"}]}");
        Ok(cmd)
    }

    /// Builds the signed login command for the current clock reading and
    /// enqueues it, before any subscription is flushed.
    pub fn login(&mut self) -> (r: Result<(), AuthError>)
        requires
            old(self).well_formed(),
            !(old(self).engine.conn is Closed),
        ensures
            final(self).well_formed(),
            final(self).api_key == old(self).api_key,
            final(self).api_secret == old(self).api_secret,
            final(self).api_passphrase == old(self).api_passphrase,
            final(self).engine.conn == old(self).engine.conn,
            final(self).engine.topics@ =~= old(self).engine.topics@,
            match r {
                Ok(_) => {
                    &&& old(self).api_key is Some
                    &&& old(self).api_secret is Some
                    &&& old(self).api_passphrase is Some
                    &&& old(self).api_key matches Some(k) && old(self).api_secret matches Some(
                        sec,
                    ) && old(self).api_passphrase matches Some(p) && exists|ts: Seq<char>|
                        string_views(final(self).engine.outbound@) == string_views(
                            old(self).engine.outbound@,
                        ).push(login_command_view(k@, p@, ts, ws_signature_of(sec@, ts)))
                },
                Err(e) => {
                    &&& *final(self) == *old(self)
                    &&& match e {
                        AuthError::MissingApiKey => old(self).api_key is None,
                        AuthError::MissingApiSecret => old(self).api_key is Some && old(self).api_secret is None,
                        AuthError::MissingApiPassphrase => old(self).api_key is Some && old(self).api_secret is Some && old(self).api_passphrase is None,
                    }
                },
            },
    {
        let now = now_unix_secs();
        let ts = u64_to_dec(now);
        match self.login_command(ts.as_str()) {
            Ok(cmd) => {
                let ghost cmdv = cmd@;
                let mut v: Vec<String> = Vec::new();
                v.push(cmd);
                match self.engine.send(v) {
                    Ok(_) => {
                        proof {
                            assert(string_views(self.engine.outbound@) =~= string_views(
                                old(self).engine.outbound@,
                            ).push(cmdv));
                        }
                        Ok(())
                    },
                    Err(_) => {
                        // send fails only on a closed engine, which the
                        // precondition rules out.
                        proof {
                            assert(false);
                        }
                        Err(AuthError::MissingApiKey)
                    },
                }
            },
            Err(e) => Err(e),
        }
    }
}

/// One topic per symbol, all on the same channel.
pub open spec fn channel_topics(channel: Seq<char>, symbols: Seq<Seq<char>>) -> Seq<TopicV> {
    symbols.map_values(|s: Seq<char>| TopicV { channel: channel, symbol: s })
}

/// The Bitget candlestick channel for a bar interval in seconds; the
/// empty name marks an interval the exchange does not offer.
pub open spec fn candle_channel_name(interval: u64) -> Seq<char> {
    if interval == 60 {
        "candle1m"@
    } else if interval == 300 {
        "candle5m"@
    } else if interval == 900 {
        "candle15m"@
    } else if interval == 1800 {
        "candle30m"@
    } else if interval == 3600 {
        "candle1H"@
    } else if interval == 14400 {
        "candle4H"@
    } else if interval == 43200 {
        "candle12H"@
    } else if interval == 86400 {
        "candle1D"@
    } else if interval == 604800 {
        "candle1W"@
    } else {
        Seq::empty()
    }
}

/// Whether Bitget offers candlesticks at this bar interval.
pub open spec fn candle_supported(interval: u64) -> bool {
    ||| interval == 60
    ||| interval == 300
    ||| interval == 900
    ||| interval == 1800
    ||| interval == 3600
    ||| interval == 14400
    ||| interval == 43200
    ||| interval == 86400
    ||| interval == 604800
}

/// The (symbol, interval) views of a candlestick request.
pub open spec fn pair_views(pairs: Seq<(String, u64)>) -> Seq<(Seq<char>, u64)> {
    pairs.map_values(|p: (String, u64)| (p.0@, p.1))
}

/// One candlestick topic per requested (symbol, interval) pair.
pub open spec fn candle_topics(pairs: Seq<(Seq<char>, u64)>) -> Seq<TopicV> {
    pairs.map_values(|p: (Seq<char>, u64)| TopicV { channel: candle_channel_name(p.1), symbol: p.0 })
}

/// The candlestick channel identifier, if the interval is offered.
fn candle_channel_str(interval: u64) -> (r: Option<&'static str>)
    ensures
        match r {
            Some(c) => candle_supported(interval) && c@ == candle_channel_name(interval),
            None => !candle_supported(interval),
        },
{
    if interval == 60 {
        Some("candle1m")
    } else if interval == 300 {
        Some("candle5m")
    } else if interval == 900 {
        Some("candle15m")
    } else if interval == 1800 {
        Some("candle30m")
    } else if interval == 3600 {
        Some("candle1H")
    } else if interval == 14400 {
        Some("candle4H")
    } else if interval == 43200 {
        Some("candle12H")
    } else if interval == 86400 {
        Some("candle1D")
    } else if interval == 604800 {
        Some("candle1W")
    } else {
        None
    }
}

/// Builds one topic per symbol on a fixed channel.
pub fn build_channel_topics(channel: &str, symbols: &Vec<String>) -> (ts: Vec<Topic>)
    ensures
        topic_views(ts@) == channel_topics(channel@, string_views(symbols@)),
{
    let mut ts: Vec<Topic> = Vec::new();
    let n = symbols.len();
    for i in 0..n
        invariant
            n == symbols@.len(),
            ts@.len() == i,
            forall|j: int| 0 <= j < i ==> ts@[j]@ == (TopicV {
                channel: channel@,
                symbol: symbols@[j]@,
            }),
    {
        ts.push(Topic::new(channel.to_owned(), symbols[i].clone()));
    }
    proof {
        assert(topic_views(ts@) =~= channel_topics(channel@, string_views(symbols@)));
    }
    ts
}

impl BitgetSwapWSClient {
    /// What every successful subscription leaves unchanged, and how it
    /// moves the active set and the outbound queue.
    pub open spec fn subscribed_ok(pre: Self, post: Self, asked: Seq<TopicV>) -> bool {
        &&& post.engine.topics@ == subscribe_topics(pre.engine.topics@, asked)
        &&& string_views(post.engine.outbound@) == string_views(pre.engine.outbound@)
            + pre.engine.adapter.wire_commands(fresh_views(asked, pre.engine.topics@), true)
        &&& post.engine.conn == pre.engine.conn
        &&& post.engine.budget == pre.engine.budget
        &&& post.url == pre.url
        &&& post.api_key == pre.api_key
        &&& post.api_secret == pre.api_secret
        &&& post.api_passphrase == pre.api_passphrase
    }

    /// As `subscribed_ok`, for removal.
    pub open spec fn unsubscribed_ok(pre: Self, post: Self, asked: Seq<TopicV>) -> bool {
        &&& post.engine.topics@ == unsubscribe_topics(pre.engine.topics@, asked)
        &&& string_views(post.engine.outbound@) == string_views(pre.engine.outbound@)
            + pre.engine.adapter.wire_commands(departing_views(asked, pre.engine.topics@), false)
        &&& post.engine.conn == pre.engine.conn
        &&& post.engine.budget == pre.engine.budget
        &&& post.url == pre.url
        &&& post.api_key == pre.api_key
        &&& post.api_secret == pre.api_secret
        &&& post.api_passphrase == pre.api_passphrase
    }

    /// Subscribes to raw (channel, symbol) topics.
    pub fn subscribe(&mut self, topics: &Vec<Topic>) -> (r: Result<(), SubscribeError>)
        requires
            old(self).well_formed(),
        ensures
            final(self).well_formed(),
            old(self).engine.conn is Closed ==> (r matches Err(SubscribeError::Closed)) && *final(self) == *old(self),
            !(old(self).engine.conn is Closed) ==> r is Ok && Self::subscribed_ok(
                *old(self),
                *final(self),
                topic_views(topics@),
            ),
    {
        match self.engine.subscribe(topics) {
            Ok(_) => Ok(()),
            Err(_) => Err(SubscribeError::Closed),
        }
    }

    /// Removes raw (channel, symbol) topics.
    pub fn unsubscribe(&mut self, topics: &Vec<Topic>) -> (r: Result<(), SubscribeError>)
        requires
            old(self).well_formed(),
        ensures
            final(self).well_formed(),
            old(self).engine.conn is Closed ==> (r matches Err(SubscribeError::Closed)) && *final(self) == *old(self),
            !(old(self).engine.conn is Closed) ==> r is Ok && Self::unsubscribed_ok(
                *old(self),
                *final(self),
                topic_views(topics@),
            ),
    {
        match self.engine.unsubscribe(topics) {
            Ok(_) => Ok(()),
            Err(_) => Err(SubscribeError::Closed),
        }
    }

    /// Enqueues pre-formatted wire commands.
    pub fn send(&mut self, raw: Vec<String>) -> (r: Result<(), SubscribeError>)
        requires
            old(self).well_formed(),
        ensures
            final(self).well_formed(),
            old(self).engine.conn is Closed ==> (r matches Err(SubscribeError::Closed)) && *final(self) == *old(self),
            !(old(self).engine.conn is Closed) ==> r is Ok && final(self).engine.outbound@ == old(
                self,
            ).engine.outbound@ + raw@ && final(self).engine.topics@ =~= old(self).engine.topics@
                && final(self).engine.conn == old(self).engine.conn,
    {
        match self.engine.send(raw) {
            Ok(_) => Ok(()),
            Err(_) => Err(SubscribeError::Closed),
        }
    }

    /// One capability subscription: the fixed channel across the symbols.
    fn subscribe_channel(&mut self, channel: &str, symbols: &Vec<String>) -> (r: Result<
        (),
        SubscribeError,
    >)
        requires
            old(self).well_formed(),
        ensures
            final(self).well_formed(),
            old(self).engine.conn is Closed ==> (r matches Err(SubscribeError::Closed)) && *final(self) == *old(self),
            !(old(self).engine.conn is Closed) ==> r is Ok && Self::subscribed_ok(
                *old(self),
                *final(self),
                channel_topics(channel@, string_views(symbols@)),
            ),
    {
        let ts = build_channel_topics(channel, symbols);
        match self.engine.subscribe(&ts) {
            Ok(_) => Ok(()),
            Err(_) => Err(SubscribeError::Closed),
        }
    }

    /// Subscribes to per-trade events for the symbols.
    pub fn subscribe_trade(&mut self, symbols: &Vec<String>) -> (r: Result<(), SubscribeError>)
        requires
            old(self).well_formed(),
        ensures
            final(self).well_formed(),
            old(self).engine.conn is Closed ==> (r matches Err(SubscribeError::Closed)) && *final(self) == *old(self),
            !(old(self).engine.conn is Closed) ==> r is Ok && Self::subscribed_ok(
                *old(self),
                *final(self),
                channel_topics("trade"@, string_views(symbols@)),
            ),
    {
        self.subscribe_channel("trade", symbols)
    }

    /// Subscribes to incremental order-book events for the symbols.
    pub fn subscribe_orderbook(&mut self, symbols: &Vec<String>) -> (r: Result<
        (),
        SubscribeError,
    >)
        requires
            old(self).well_formed(),
        ensures
            final(self).well_formed(),
            old(self).engine.conn is Closed ==> (r matches Err(SubscribeError::Closed)) && *final(self) == *old(self),
            !(old(self).engine.conn is Closed) ==> r is Ok && Self::subscribed_ok(
                *old(self),
                *final(self),
                channel_topics("books"@, string_views(symbols@)),
            ),
    {
        self.subscribe_channel("books", symbols)
    }

    /// Subscribes to top-fifteen order-book snapshots for the symbols.
    pub fn subscribe_orderbook_topk(&mut self, symbols: &Vec<String>) -> (r: Result<
        (),
        SubscribeError,
    >)
        requires
            old(self).well_formed(),
        ensures
            final(self).well_formed(),
            old(self).engine.conn is Closed ==> (r matches Err(SubscribeError::Closed)) && *final(self) == *old(self),
            !(old(self).engine.conn is Closed) ==> r is Ok && Self::subscribed_ok(
                *old(self),
                *final(self),
                channel_topics("books15"@, string_views(symbols@)),
            ),
    {
        self.subscribe_channel("books15", symbols)
    }

    /// Subscribes to ticker updates for the symbols.
    pub fn subscribe_ticker(&mut self, symbols: &Vec<String>) -> (r: Result<(), SubscribeError>)
        requires
            old(self).well_formed(),
        ensures
            final(self).well_formed(),
            old(self).engine.conn is Closed ==> (r matches Err(SubscribeError::Closed)) && *final(self) == *old(self),
            !(old(self).engine.conn is Closed) ==> r is Ok && Self::subscribed_ok(
                *old(self),
                *final(self),
                channel_topics("ticker"@, string_views(symbols@)),
            ),
    {
        self.subscribe_channel("ticker", symbols)
    }

    /// Bitget swap markets publish no best-bid-offer channel.
    pub fn subscribe_bbo(&mut self, symbols: &Vec<String>) -> (r: Result<(), SubscribeError>)
        ensures
            r matches Err(SubscribeError::NotSupported),
            *final(self) == *old(self),
    {
        let _ = symbols;
        Err(SubscribeError::NotSupported)
    }

    /// Bitget swap markets publish no order-level (level-3) book channel.
    pub fn subscribe_l3_orderbook(&mut self, symbols: &Vec<String>) -> (r: Result<
        (),
        SubscribeError,
    >)
        ensures
            r matches Err(SubscribeError::NotSupported),
            *final(self) == *old(self),
    {
        let _ = symbols;
        Err(SubscribeError::NotSupported)
    }

    /// Subscribes to candlesticks, one (symbol, bar interval in seconds)
    /// pair at a time. An interval the exchange does not offer fails the
    /// whole call before anything is subscribed.
    pub fn subscribe_candlestick(&mut self, pairs: &Vec<(String, u64)>) -> (r: Result<
        (),
        SubscribeError,
    >)
        requires
            old(self).well_formed(),
        ensures
            final(self).well_formed(),
            r matches Err(SubscribeError::NotSupported) ==> *final(self) == *old(self) && exists|
                i: int,
            | 0 <= i < pairs@.len() && !candle_supported(pair_views(pairs@)[i].1),
            (forall|i: int| 0 <= i < pairs@.len() ==> candle_supported(pair_views(pairs@)[i].1))
                ==> !(r matches Err(SubscribeError::NotSupported)),
            old(self).engine.conn is Closed && (forall|i: int|
                0 <= i < pairs@.len() ==> candle_supported(pair_views(pairs@)[i].1)) ==> (r matches Err(SubscribeError::Closed)) && *final(self) == *old(self),
            !(old(self).engine.conn is Closed) && (forall|i: int|
                0 <= i < pairs@.len() ==> candle_supported(pair_views(pairs@)[i].1)) ==> r is Ok
                && Self::subscribed_ok(
                *old(self),
                *final(self),
                candle_topics(pair_views(pairs@)),
            ),
    {
        let mut ts: Vec<Topic> = Vec::new();
        let n = pairs.len();
        for i in 0..n
            invariant
                n == pairs@.len(),
                *self == *old(self),
                old(self).well_formed(),
                ts@.len() == i,
                forall|j: int| 0 <= j < i ==> candle_supported(pair_views(pairs@)[j].1),
                forall|j: int| 0 <= j < i ==> ts@[j]@ == (TopicV {
                    channel: candle_channel_name(pairs@[j].1),
                    symbol: pairs@[j].0@,
                }),
        {
            match candle_channel_str(pairs[i].1) {
                Some(channel) => {
                    ts.push(Topic::new(channel.to_owned(), pairs[i].0.clone()));
                },
                None => {
                    proof {
                        assert(!candle_supported(pair_views(pairs@)[i as int].1));
                    }
                    return Err(SubscribeError::NotSupported);
                },
            }
        }
        proof {
            assert(topic_views(ts@) =~= candle_topics(pair_views(pairs@)));
        }
        match self.engine.subscribe(&ts) {
            Ok(_) => Ok(()),
            Err(_) => Err(SubscribeError::Closed),
        }
    }
}

} // verus!
