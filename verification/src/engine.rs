//! The streaming-client engine: one connection state machine, the active
//! topic set, a FIFO outbound command queue drained through the rate
//! budget, and subscription replay after reconnection.

use vstd::prelude::*;
use crate::adapter::{string_views, topic_views, Classification, ExchangeAdapter};
use crate::errors::EngineError;
use crate::rate::RateBudget;
use crate::topics::{Topic, TopicSet, TopicV};

verus! {

/// The lifecycle of the one transport an engine owns. `Closed` is
/// terminal: subscribe, unsubscribe and send fail on a closed engine
/// rather than silently dropping.
#[derive(Clone, Copy, Debug, PartialEq, Eq, Structural)]
pub enum ConnectionState {
    Connecting,
    Connected,
    Reconnecting,
    Closed,
}

/// The mathematical state of an engine: its connection phase, its active
/// topic set, and how many reconnection attempts failed in a row.
pub struct EngineModel {
    pub conn: ConnectionState,
    pub topics: Set<TopicV>,
    pub retries: nat,
}

/// The active set after merging a subscription request: the union of
/// what was held and what was asked.
pub open spec fn subscribe_topics(have: Set<TopicV>, asked: Seq<TopicV>) -> Set<TopicV> {
    have.union(asked.to_set())
}

/// The active set after an unsubscription request: what was held minus
/// what was asked.
pub open spec fn unsubscribe_topics(have: Set<TopicV>, asked: Seq<TopicV>) -> Set<TopicV> {
    have.difference(asked.to_set())
}

/// The topics of `asked` that are genuinely new against `have`, in
/// request order, first occurrences only: exactly those the engine
/// translates into wire commands on subscribe.
pub open spec fn fresh_views(asked: Seq<TopicV>, have: Set<TopicV>) -> Seq<TopicV>
    decreases asked.len(),
{
    if asked.len() == 0 {
        Seq::empty()
    } else {
        let rest = fresh_views(asked.drop_last(), have);
        if have.contains(asked.last()) || asked.drop_last().contains(asked.last()) {
            rest
        } else {
            rest.push(asked.last())
        }
    }
}

/// The topics of `asked` actually present in `have`, in request order,
/// first occurrences only: exactly those the engine translates into wire
/// commands on unsubscribe.
pub open spec fn departing_views(asked: Seq<TopicV>, have: Set<TopicV>) -> Seq<TopicV>
    decreases asked.len(),
{
    if asked.len() == 0 {
        Seq::empty()
    } else {
        let rest = departing_views(asked.drop_last(), have);
        if have.contains(asked.last()) && !asked.drop_last().contains(asked.last()) {
            rest.push(asked.last())
        } else {
            rest
        }
    }
}

/// How the handshake outcome moves the state machine out of
/// `Connecting`: success connects, failure closes — the initial connect
/// does not retry.
pub open spec fn spec_connect_result(m: EngineModel, ok: bool) -> EngineModel {
    if m.conn is Connecting {
        if ok {
            EngineModel { conn: ConnectionState::Connected, ..m }
        } else {
            EngineModel { conn: ConnectionState::Closed, ..m }
        }
    } else {
        m
    }
}

/// A transport read/write error, an exchange-initiated close or a missed
/// heartbeat while connected forces reconnection.
pub open spec fn spec_transport_error(m: EngineModel) -> EngineModel {
    if m.conn is Connected {
        EngineModel { conn: ConnectionState::Reconnecting, retries: 0, ..m }
    } else {
        m
    }
}

/// One reconnection attempt: success reconnects; failures beyond the
/// retry ceiling close the engine for good.
pub open spec fn spec_reconnect_result(m: EngineModel, ok: bool, max_retries: nat) -> EngineModel {
    if m.conn is Reconnecting {
        if ok {
            EngineModel { conn: ConnectionState::Connected, retries: 0, ..m }
        } else if m.retries + 1 > max_retries {
            EngineModel { conn: ConnectionState::Closed, retries: m.retries + 1, ..m }
        } else {
            EngineModel { conn: ConnectionState::Reconnecting, retries: m.retries + 1, ..m }
        }
    } else {
        m
    }
}

/// The engine: owns one adapter, the active topic set, the rate budget
/// and the outbound queue. The surrounding runtime performs the I/O and
/// reports transport events back in.
pub struct StreamEngine<A: ExchangeAdapter> {
    pub adapter: A,
    pub conn: ConnectionState,
    pub topics: TopicSet,
    pub budget: RateBudget,
    /// Pending wire commands, sent strictly in enqueue order.
    pub outbound: Vec<String>,
    /// Failed reconnection attempts since entering `Reconnecting`.
    pub retries: u32,
    /// The retry ceiling: one more failure than this closes the engine.
    pub max_retries: u32,
    /// The latest clock value this engine has seen.
    pub last_time: u64,
    /// When heartbeat-qualifying traffic was last observed.
    pub last_traffic: u64,
}

impl<A: ExchangeAdapter> StreamEngine<A> {
    pub open spec fn well_formed(&self) -> bool {
        &&& self.topics.well_formed()
        &&& self.budget.well_formed()
        &&& self.budget.clock_ok(self.last_time)
        &&& self.last_traffic <= self.last_time
        &&& self.max_retries < u32::MAX
        &&& (self.conn is Reconnecting ==> self.retries <= self.max_retries)
    }

    pub open spec fn model(&self) -> EngineModel {
        EngineModel { conn: self.conn, topics: self.topics@, retries: self.retries as nat }
    }

    /// A fresh engine about to perform its initial handshake: no active
    /// topics, nothing outbound, a full rate budget.
    pub fn connect(
        adapter: A,
        uplink_limit: usize,
        rate_interval_ms: u64,
        max_retries: u32,
    ) -> (e: StreamEngine<A>)
        requires
            uplink_limit > 0,
            max_retries < u32::MAX,
        ensures
            e.well_formed(),
            e.conn is Connecting,
            e.topics@ =~= Set::<TopicV>::empty(),
            e.outbound@ == Seq::<String>::empty(),
            e.budget.grants@ == Seq::<u64>::empty(),
            e.budget.limit == uplink_limit,
            e.budget.interval_ms == rate_interval_ms,
            e.retries == 0,
            e.max_retries == max_retries,
            e.adapter == adapter,
    {
        StreamEngine {
            adapter,
            conn: ConnectionState::Connecting,
            topics: TopicSet::new(),
            budget: RateBudget::new(uplink_limit, rate_interval_ms),
            outbound: Vec::new(),
            retries: 0,
            max_retries,
            last_time: 0,
            last_traffic: 0,
        }
    }

    pub fn connection_state(&self) -> (s: ConnectionState)
        ensures
            s == self.conn,
    {
        self.conn
    }

    /// Merges the topics into the active set — duplicates are no-ops —
    /// and enqueues wire commands for the newly added topics only.
    /// Returns once the commands are enqueued, not once the exchange
    /// acknowledges.
    pub fn subscribe(&mut self, ts: &Vec<Topic>) -> (r: Result<(), EngineError>)
        requires
            old(self).well_formed(),
        ensures
            final(self).well_formed(),
            old(self).conn is Closed ==> r is Err && *final(self) == *old(self),
            !(old(self).conn is Closed) ==> {
                &&& r is Ok
                &&& final(self).topics@ =~= subscribe_topics(old(self).topics@, topic_views(ts@))
                &&& string_views(final(self).outbound@) == string_views(old(self).outbound@)
                    + old(self).adapter.wire_commands(
                    fresh_views(topic_views(ts@), old(self).topics@),
                    true,
                )
                &&& final(self).conn == old(self).conn
                &&& final(self).budget == old(self).budget
                &&& final(self).adapter == old(self).adapter
                &&& final(self).retries == old(self).retries
                &&& final(self).max_retries == old(self).max_retries
                &&& final(self).last_time == old(self).last_time
                &&& final(self).last_traffic == old(self).last_traffic
            },
    {
        if matches!(self.conn, ConnectionState::Closed) {
            return Err(EngineError::Closed);
        }
        let ghost have = self.topics@;
        let ghost all = topic_views(ts@);
        let mut fresh: Vec<Topic> = Vec::new();
        let n = ts.len();
        for i in 0..n
            invariant
                n == ts@.len(),
                all == topic_views(ts@),
                self.topics.well_formed(),
                self.topics@ =~= subscribe_topics(have, all.subrange(0, i as int)),
                topic_views(fresh@) =~= fresh_views(all.subrange(0, i as int), have),
                self.conn == old(self).conn,
                self.budget == old(self).budget,
                self.outbound == old(self).outbound,
                self.adapter == old(self).adapter,
                self.retries == old(self).retries,
                self.max_retries == old(self).max_retries,
                self.last_time == old(self).last_time,
                self.last_traffic == old(self).last_traffic,
                have == old(self).topics@,
                old(self).well_formed(),
        {
            let ghost prefix = all.subrange(0, i as int);
            let ghost longer = all.subrange(0, i as int + 1);
            proof {
                assert(all[i as int] == ts@[i as int]@);
                assert(longer =~= prefix.push(all[i as int]));
                assert(longer.drop_last() =~= prefix);
            }
            let t = &ts[i];
            if !self.topics.contains(t) {
                proof {
                    assert(!have.contains(t@) && !prefix.contains(t@));
                }
                fresh.push(t.clone_topic());
                self.topics.insert(t.clone_topic());
                proof {
                    assert(topic_views(fresh@) =~= fresh_views(prefix, have).push(t@));
                    assert(topic_views(fresh@) =~= fresh_views(longer, have));
                    assert(self.topics@ =~= subscribe_topics(have, longer));
                }
            } else {
                proof {
                    assert(have.contains(t@) || prefix.contains(t@));
                    assert(topic_views(fresh@) =~= fresh_views(longer, have));
                    assert(self.topics@ =~= subscribe_topics(have, longer));
                }
            }
        }
        proof {
            assert(all.subrange(0, n as int) =~= all);
        }
        let mut cmds = self.adapter.translate(&fresh, true);
        let ghost enqueued = string_views(cmds@);
        self.outbound.append(&mut cmds);
        proof {
            assert(string_views(self.outbound@) =~= string_views(old(self).outbound@) + enqueued);
        }
        Ok(())
    }

    /// Removes the topics from the active set and enqueues unsubscribe
    /// commands only for topics that were actually present; absent
    /// topics are no-ops, so the call is idempotent.
    pub fn unsubscribe(&mut self, ts: &Vec<Topic>) -> (r: Result<(), EngineError>)
        requires
            old(self).well_formed(),
        ensures
            final(self).well_formed(),
            old(self).conn is Closed ==> r is Err && *final(self) == *old(self),
            !(old(self).conn is Closed) ==> {
                &&& r is Ok
                &&& final(self).topics@ =~= unsubscribe_topics(old(self).topics@, topic_views(ts@))
                &&& string_views(final(self).outbound@) == string_views(old(self).outbound@)
                    + old(self).adapter.wire_commands(
                    departing_views(topic_views(ts@), old(self).topics@),
                    false,
                )
                &&& final(self).conn == old(self).conn
                &&& final(self).budget == old(self).budget
                &&& final(self).adapter == old(self).adapter
                &&& final(self).retries == old(self).retries
                &&& final(self).max_retries == old(self).max_retries
                &&& final(self).last_time == old(self).last_time
                &&& final(self).last_traffic == old(self).last_traffic
            },
    {
        if matches!(self.conn, ConnectionState::Closed) {
            return Err(EngineError::Closed);
        }
        let ghost have = self.topics@;
        let ghost all = topic_views(ts@);
        let mut departing: Vec<Topic> = Vec::new();
        let n = ts.len();
        for i in 0..n
            invariant
                n == ts@.len(),
                all == topic_views(ts@),
                self.topics.well_formed(),
                self.topics@ =~= unsubscribe_topics(have, all.subrange(0, i as int)),
                topic_views(departing@) =~= departing_views(all.subrange(0, i as int), have),
                self.conn == old(self).conn,
                self.budget == old(self).budget,
                self.outbound == old(self).outbound,
                self.adapter == old(self).adapter,
                self.retries == old(self).retries,
                self.max_retries == old(self).max_retries,
                self.last_time == old(self).last_time,
                self.last_traffic == old(self).last_traffic,
                have == old(self).topics@,
                old(self).well_formed(),
        {
            let ghost prefix = all.subrange(0, i as int);
            let ghost longer = all.subrange(0, i as int + 1);
            proof {
                assert(all[i as int] == ts@[i as int]@);
                assert(longer =~= prefix.push(all[i as int]));
                assert(longer.drop_last() =~= prefix);
            }
            let t = &ts[i];
            if self.topics.contains(t) {
                proof {
                    assert(have.contains(t@) && !prefix.contains(t@));
                }
                departing.push(t.clone_topic());
                self.topics.remove(t);
                proof {
                    assert(topic_views(departing@) =~= departing_views(prefix, have).push(t@));
                    assert(topic_views(departing@) =~= departing_views(longer, have));
                    assert(self.topics@ =~= unsubscribe_topics(have, longer));
                }
            } else {
                proof {
                    assert(!(have.contains(t@) && !prefix.contains(t@)));
                    assert(topic_views(departing@) =~= departing_views(longer, have));
                    assert(self.topics@ =~= unsubscribe_topics(have, longer));
                }
            }
        }
        proof {
            assert(all.subrange(0, n as int) =~= all);
        }
        let mut cmds = self.adapter.translate(&departing, false);
        let ghost enqueued = string_views(cmds@);
        self.outbound.append(&mut cmds);
        proof {
            assert(string_views(self.outbound@) =~= string_views(old(self).outbound@) + enqueued);
        }
        Ok(())
    }

    /// Enqueues pre-formatted commands, bypassing translation (used for
    /// login and for raw testing); they still drain through the rate
    /// budget like everything else.
    pub fn send(&mut self, raw: Vec<String>) -> (r: Result<(), EngineError>)
        requires
            old(self).well_formed(),
        ensures
            final(self).well_formed(),
            old(self).conn is Closed ==> r is Err && *final(self) == *old(self),
            !(old(self).conn is Closed) ==> {
                &&& r is Ok
                &&& final(self).outbound@ == old(self).outbound@ + raw@
                &&& final(self).topics@ =~= old(self).topics@
                &&& final(self).conn == old(self).conn
                &&& final(self).budget == old(self).budget
            },
    {
        if matches!(self.conn, ConnectionState::Closed) {
            return Err(EngineError::Closed);
        }
        let mut raw = raw;
        self.outbound.append(&mut raw);
        Ok(())
    }

    /// Hands out the next pending command if the rate budget grants it
    /// at time `now`; the queue drains strictly first-in first-out.
    pub fn next_outbound(&mut self, now: u64) -> (r: Option<String>)
        requires
            old(self).well_formed(),
            now >= old(self).last_time,
        ensures
            final(self).well_formed(),
            final(self).conn == old(self).conn,
            final(self).topics@ =~= old(self).topics@,
            final(self).last_time == now,
            match r {
                Some(cmd) => {
                    &&& old(self).outbound@.len() > 0
                    &&& old(self).budget.would_grant(now)
                    &&& cmd@ == old(self).outbound@[0]@
                    &&& final(self).outbound@ == old(self).outbound@.drop_first()
                    &&& final(self).budget.grants@ == old(self).budget.grants@.push(now)
                },
                None => {
                    &&& !(old(self).outbound@.len() > 0 && old(self).budget.would_grant(now))
                    &&& final(self).outbound@ == old(self).outbound@
                    &&& final(self).budget.grants@ == old(self).budget.grants@
                },
            },
    {
        if self.outbound.len() == 0 {
            self.last_time = now;
            return None;
        }
        if self.budget.try_acquire(now) {
            self.last_time = now;
            let cmd = self.outbound.remove(0);
            proof {
                assert(self.outbound@ =~= old(self).outbound@.drop_first());
            }
            Some(cmd)
        } else {
            self.last_time = now;
            None
        }
    }

    /// Classifies one inbound frame. Any frame counts as traffic for the
    /// idle timer; a heartbeat additionally enqueues the adapter's
    /// keep-alive reply.
    pub fn on_frame(&mut self, frame: &str, now: u64) -> (c: Classification)
        requires
            old(self).well_formed(),
            now >= old(self).last_time,
        ensures
            final(self).well_formed(),
            c@ == old(self).adapter.classification_of(frame@),
            final(self).last_traffic == now,
            final(self).last_time == now,
            final(self).conn == old(self).conn,
            final(self).topics@ =~= old(self).topics@,
            final(self).budget == old(self).budget,
            c@ is Heartbeat ==> string_views(final(self).outbound@) == string_views(
                old(self).outbound@,
            ).push(old(self).adapter.heartbeat_reply_frame()),
            !(c@ is Heartbeat) ==> final(self).outbound@ == old(self).outbound@,
    {
        self.last_time = now;
        self.last_traffic = now;
        let c = self.adapter.classify(frame);
        if matches!(c, Classification::Heartbeat) {
            let reply = self.adapter.heartbeat_reply();
            self.outbound.push(reply);
            proof {
                assert(string_views(self.outbound@) =~= string_views(old(self).outbound@).push(
                    old(self).adapter.heartbeat_reply_frame(),
                ));
            }
        }
        c
    }

    /// Whether the idle timer has run out: no heartbeat-qualifying
    /// traffic for longer than the exchange's documented interval. The
    /// runtime then reports a transport error to force reconnection.
    pub fn heartbeat_expired(&self, now: u64, heartbeat_interval_ms: u64) -> (r: bool)
        requires
            now >= self.last_traffic,
        ensures
            r == (now - self.last_traffic > heartbeat_interval_ms),
    {
        now - self.last_traffic > heartbeat_interval_ms
    }

    /// The initial handshake finished: success connects, failure closes.
    pub fn on_connect_result(&mut self, ok: bool)
        requires
            old(self).well_formed(),
        ensures
            final(self).well_formed(),
            final(self).model() == spec_connect_result(old(self).model(), ok),
            final(self).outbound@ == old(self).outbound@,
            final(self).budget == old(self).budget,
            final(self).topics@ =~= old(self).topics@,
    {
        if matches!(self.conn, ConnectionState::Connecting) {
            if ok {
                self.conn = ConnectionState::Connected;
            } else {
                self.conn = ConnectionState::Closed;
            }
        }
    }

    /// The transport failed while connected: enter `Reconnecting`. The
    /// active topic set is untouched — it is the replay source.
    pub fn on_transport_error(&mut self)
        requires
            old(self).well_formed(),
        ensures
            final(self).well_formed(),
            final(self).model() == spec_transport_error(old(self).model()),
            final(self).outbound@ == old(self).outbound@,
            final(self).budget == old(self).budget,
            final(self).topics@ =~= old(self).topics@,
    {
        if matches!(self.conn, ConnectionState::Connected) {
            self.conn = ConnectionState::Reconnecting;
            self.retries = 0;
        }
    }

    /// One reconnection attempt came back. On success the engine replays
    /// the entire current active topic set — each active topic exactly
    /// once — before resuming; past the retry ceiling it closes.
    pub fn on_reconnect_result(&mut self, ok: bool)
        requires
            old(self).well_formed(),
        ensures
            final(self).well_formed(),
            final(self).model() == spec_reconnect_result(
                old(self).model(),
                ok,
                old(self).max_retries as nat,
            ),
            final(self).max_retries == old(self).max_retries,
            final(self).budget == old(self).budget,
            final(self).topics@ =~= old(self).topics@,
            old(self).conn is Reconnecting && ok ==> string_views(final(self).outbound@)
                == string_views(old(self).outbound@) + old(self).adapter.wire_commands(
                old(self).topics.seq_view(),
                true,
            ),
            !(old(self).conn is Reconnecting && ok) ==> final(self).outbound@ == old(
                self,
            ).outbound@,
    {
        if matches!(self.conn, ConnectionState::Reconnecting) {
            if ok {
                self.conn = ConnectionState::Connected;
                self.retries = 0;
                let replay = self.topics.snapshot();
                proof {
                    assert(topic_views(replay@) =~= old(self).topics.seq_view());
                }
                let mut cmds = self.adapter.translate(&replay, true);
                let ghost enqueued = string_views(cmds@);
                self.outbound.append(&mut cmds);
                proof {
                    assert(string_views(self.outbound@) =~= string_views(old(self).outbound@)
                        + enqueued);
                }
            } else {
                if self.retries >= self.max_retries {
                    self.conn = ConnectionState::Closed;
                } else {
                    self.conn = ConnectionState::Reconnecting;
                }
                self.retries = self.retries + 1;
            }
        }
    }

    /// An explicit stop: terminal, whatever the current phase.
    pub fn close(&mut self)
        requires
            old(self).well_formed(),
        ensures
            final(self).well_formed(),
            final(self).conn is Closed,
            final(self).topics@ =~= old(self).topics@,
            final(self).outbound@ == old(self).outbound@,
    {
        self.conn = ConnectionState::Closed;
    }

    /// Whether a blocking `run` must hand control back: the transport is
    /// terminally closed, or the caller's optional duration has elapsed.
    /// With no deadline the loop runs until the transport closes.
    pub fn run_should_return(&self, deadline: Option<u64>, now: u64) -> (r: bool)
        ensures
            r == (self.conn is Closed || match deadline {
                Some(d) => now >= d,
                None => false,
            }),
    {
        if matches!(self.conn, ConnectionState::Closed) {
            return true;
        }
        match deadline {
            Some(d) => now >= d,
            None => false,
        }
    }

    /// The delay before the next reconnection attempt: capped
    /// exponential backoff, never retrying unboundedly fast.
    pub fn reconnect_delay_ms(&self) -> (d: u64)
        ensures
            d >= 1000,
            d <= 60000,
            self.retries < 6 ==> d == 1000u64 * (1u64 << self.retries),
            self.retries >= 6 ==> d == 60000u64,
    {
        if self.retries < 6 {
            let shift = self.retries;
            let p = 1u64 << shift;
            assert(1 <= p && p <= 32) by (bit_vector)
                requires
                    p == 1u64 << shift && shift < 6,
            ;
            1000u64 * p
        } else {
            60000
        }
    }
}

/// The law behind "subscribe then unsubscribe leaves nothing": starting
/// from an empty active set, merging any requested topic sequence and
/// then removing the same sequence leaves the active set empty. The
/// engine's `subscribe` and `unsubscribe` contracts say the active set
/// moves exactly by `subscribe_topics` and `unsubscribe_topics`.
pub proof fn lemma_subscribe_then_unsubscribe_empty(asked: Seq<TopicV>)
    ensures
        unsubscribe_topics(subscribe_topics(Set::<TopicV>::empty(), asked), asked)
            =~= Set::<TopicV>::empty(),
{
}

/// One induced reconnection event, as the runtime reports it.
pub enum ReconnectEvent {
    TransportError,
    AttemptFailed,
    AttemptOk,
}

/// The model state after a sequence of reconnection events, applied in
/// order.
pub open spec fn apply_reconnect_events(
    m: EngineModel,
    evs: Seq<ReconnectEvent>,
    max_retries: nat,
) -> EngineModel
    decreases evs.len(),
{
    if evs.len() == 0 {
        m
    } else {
        let first = match evs[0] {
            ReconnectEvent::TransportError => spec_transport_error(m),
            ReconnectEvent::AttemptFailed => spec_reconnect_result(m, false, max_retries),
            ReconnectEvent::AttemptOk => spec_reconnect_result(m, true, max_retries),
        };
        apply_reconnect_events(first, evs.drop_first(), max_retries)
    }
}

/// The rate-limit law at the engine: outbound commands leave only when
/// the budget grants them, so however subscribe, unsubscribe and send
/// were called, the commands sent within any window equal to the rate
/// interval never exceed the configured uplink limit.
pub proof fn lemma_engine_rate_bound<A: ExchangeAdapter>(e: &StreamEngine<A>, t: int)
    requires
        e.well_formed(),
    ensures
        crate::rate::count_in_window(e.budget.grants@, t, e.budget.interval_ms as int)
            <= e.budget.limit as int,
{
    crate::rate::lemma_rate_window_bound(&e.budget, t);
}

/// The law behind topic replay: whatever sequence of transport errors
/// and reconnection attempts the engine goes through, the active topic
/// set it observes afterwards is exactly the one it started with —
/// nothing lost, nothing gained.
pub proof fn lemma_reconnections_preserve_topics(
    m: EngineModel,
    evs: Seq<ReconnectEvent>,
    max_retries: nat,
)
    ensures
        apply_reconnect_events(m, evs, max_retries).topics == m.topics,
    decreases evs.len(),
{
    if evs.len() == 0 {
    } else {
        let first = match evs[0] {
            ReconnectEvent::TransportError => spec_transport_error(m),
            ReconnectEvent::AttemptFailed => spec_reconnect_result(m, false, max_retries),
            ReconnectEvent::AttemptOk => spec_reconnect_result(m, true, max_retries),
        };
        lemma_reconnections_preserve_topics(first, evs.drop_first(), max_retries);
    }
}

/// The law behind "no topic lost, none duplicated": the sequence the
/// engine replays after a successful reconnection — its active topics in
/// holding order — covers the active set exactly and repeats no topic.
pub proof fn lemma_replay_exact(ts: &TopicSet)
    requires
        ts.well_formed(),
    ensures
        ts.seq_view().to_set() =~= ts@,
        forall|i: int, j: int|
            0 <= i < j < ts.seq_view().len() ==> ts.seq_view()[i] != ts.seq_view()[j],
{
}

} // verus!
