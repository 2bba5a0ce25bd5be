//! The polymorphic adapter contract that isolates per-exchange wire
//! quirks: a command translator (uniform subscription request to wire
//! commands) and a message classifier (raw inbound frame to data,
//! heartbeat, error, or noise).

use vstd::prelude::*;
use crate::topics::{Topic, TopicV};

verus! {

/// The character sequences of a vector of wire commands.
pub open spec fn string_views(ss: Seq<String>) -> Seq<Seq<char>> {
    ss.map_values(|s: String| s@)
}

/// The topic values of a vector of topics.
pub open spec fn topic_views(ts: Seq<Topic>) -> Seq<TopicV> {
    ts.map_values(|t: Topic| t@)
}

/// The mathematical value of a classified inbound frame.
pub enum ClassificationV {
    Data { symbol: Seq<char>, payload: Seq<char> },
    Heartbeat,
    ProtocolError { reason: Seq<char> },
    Ignore,
}

/// What the classifier makes of one raw inbound frame. Payload semantics
/// are never parsed beyond a routing symbol and this coarse tag.
#[derive(Debug)]
pub enum Classification {
    /// A market-data frame for one symbol; the payload is passed through.
    Data { symbol: String, payload: String },
    /// A keep-alive frame; the engine answers it and resets its idle timer.
    Heartbeat,
    /// A frame the adapter cannot interpret; logged and dropped.
    ProtocolError { reason: String },
    /// Administrative noise (acknowledgements, status frames).
    Ignore,
}

impl View for Classification {
    type V = ClassificationV;

    open spec fn view(&self) -> ClassificationV {
        match self {
            Classification::Data { symbol, payload } => ClassificationV::Data {
                symbol: symbol@,
                payload: payload@,
            },
            Classification::Heartbeat => ClassificationV::Heartbeat,
            Classification::ProtocolError { reason } => ClassificationV::ProtocolError {
                reason: reason@,
            },
            Classification::Ignore => ClassificationV::Ignore,
        }
    }
}

/// One implementation per exchange. The translator must be a pure
/// function of its inputs — the spec-level `wire_commands` is that
/// function, and the executable translator is proved to compute it —
/// so that replay after a reconnection is deterministic given the same
/// topic set.
pub trait ExchangeAdapter: Sized {
    /// The wire commands that subscribe to (or unsubscribe from) the
    /// given topics, in order.
    spec fn wire_commands(&self, topics: Seq<TopicV>, subscribe: bool) -> Seq<Seq<char>>;

    /// The classification of one raw inbound frame.
    spec fn classification_of(&self, frame: Seq<char>) -> ClassificationV;

    /// The keep-alive frame this exchange expects in answer to a
    /// heartbeat.
    spec fn heartbeat_reply_frame(&self) -> Seq<char>;

    /// Whether a login command must be sent before any subscription.
    spec fn auth_required(&self) -> bool;

    fn translate(&self, topics: &Vec<Topic>, subscribe: bool) -> (cmds: Vec<String>)
        ensures
            string_views(cmds@) == self.wire_commands(topic_views(topics@), subscribe),
    ;

    fn classify(&self, frame: &str) -> (c: Classification)
        ensures
            c@ == self.classification_of(frame@),
    ;

    fn heartbeat_reply(&self) -> (r: String)
        ensures
            r@ == self.heartbeat_reply_frame(),
    ;

    fn needs_auth(&self) -> (r: bool)
        ensures
            r == self.auth_required(),
    ;
}

} // verus!
