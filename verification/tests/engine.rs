//! The engine state machine: active-set bookkeeping, replay after
//! reconnection, rate-limited outbound drain, and the run/stop decision.

use crypto_crawler::{
    BitgetAdapter, Classification, ConnectionState, RateBudget, StreamEngine, Topic,
};

fn topic(channel: &str, symbol: &str) -> Topic {
    Topic::new(channel.to_string(), symbol.to_string())
}

fn connected_engine() -> StreamEngine<BitgetAdapter> {
    let mut e = StreamEngine::connect(BitgetAdapter {}, 100, 10_000, 5);
    e.on_connect_result(true);
    e
}

#[test]
fn subscribe_then_unsubscribe_leaves_active_set_empty() {
    let mut e = connected_engine();
    let ts = vec![topic("trade", "BTCUSDT"), topic("ticker", "ETHUSDT")];
    e.subscribe(&ts).unwrap();
    assert_eq!(e.topics.len(), 2);
    e.unsubscribe(&ts).unwrap();
    assert_eq!(e.topics.len(), 0);
}

#[test]
fn duplicate_subscriptions_are_no_ops() {
    let mut e = connected_engine();
    let ts = vec![topic("trade", "BTCUSDT")];
    e.subscribe(&ts).unwrap();
    let first_pending = e.outbound.len();
    assert_eq!(first_pending, 1);
    e.subscribe(&ts).unwrap();
    assert_eq!(e.topics.len(), 1);
    // The repeat produced no further wire command.
    assert_eq!(e.outbound.len(), first_pending);
}

#[test]
fn reconnection_replays_every_active_topic_exactly_once() {
    let mut e = connected_engine();
    let ts = vec![topic("trade", "BTCUSDT"), topic("books", "ETHUSDT")];
    e.subscribe(&ts).unwrap();
    // Drain the initial subscribe commands.
    let mut now = 1u64;
    while let Some(_) = e.next_outbound(now) {
        now += 1;
    }
    assert_eq!(e.outbound.len(), 0);

    e.on_transport_error();
    assert_eq!(e.connection_state(), ConnectionState::Reconnecting);
    assert_eq!(e.topics.len(), 2);

    e.on_reconnect_result(true);
    assert_eq!(e.connection_state(), ConnectionState::Connected);
    assert_eq!(e.topics.len(), 2);
    let replay: Vec<String> = e.outbound.clone();
    assert_eq!(replay.len(), 2);
    assert!(replay.iter().any(|c| c.contains("\"channel\":\"trade\"") && c.contains("BTCUSDT")));
    assert!(replay.iter().any(|c| c.contains("\"channel\":\"books\"") && c.contains("ETHUSDT")));
}

#[test]
fn retries_past_the_ceiling_close_the_engine() {
    let mut e = StreamEngine::connect(BitgetAdapter {}, 100, 10_000, 2);
    e.on_connect_result(true);
    e.on_transport_error();
    e.on_reconnect_result(false);
    assert_eq!(e.connection_state(), ConnectionState::Reconnecting);
    e.on_reconnect_result(false);
    assert_eq!(e.connection_state(), ConnectionState::Reconnecting);
    e.on_reconnect_result(false);
    assert_eq!(e.connection_state(), ConnectionState::Closed);
    // Closed is terminal: subscribing now fails.
    assert!(e.subscribe(&vec![topic("trade", "BTCUSDT")]).is_err());
    assert!(e.send(vec!["raw".to_string()]).is_err());
}

#[test]
fn failed_initial_handshake_closes_without_retry() {
    let mut e = StreamEngine::connect(BitgetAdapter {}, 100, 10_000, 5);
    e.on_connect_result(false);
    assert_eq!(e.connection_state(), ConnectionState::Closed);
}

#[test]
fn outbound_commands_drain_in_fifo_order_through_the_budget() {
    let mut e = StreamEngine::connect(BitgetAdapter {}, 2, 1_000, 5);
    e.on_connect_result(true);
    e.send(vec!["a".to_string(), "b".to_string(), "c".to_string()]).unwrap();
    assert_eq!(e.next_outbound(10).as_deref(), Some("a"));
    assert_eq!(e.next_outbound(11).as_deref(), Some("b"));
    // Budget of 2 per 1000 ms is spent; the third must wait a full window.
    assert_eq!(e.next_outbound(12), None);
    assert_eq!(e.next_outbound(1009), None);
    assert_eq!(e.next_outbound(1010).as_deref(), Some("c"));
    assert_eq!(e.next_outbound(1011), None);
}

#[test]
fn rate_budget_never_grants_more_than_limit_per_window() {
    let mut b = RateBudget::new(3, 1_000);
    assert!(b.try_acquire(0));
    assert!(b.try_acquire(1));
    assert!(b.try_acquire(2));
    assert!(!b.try_acquire(3));
    assert!(!b.try_acquire(999));
    assert!(b.try_acquire(1_000));
    assert!(!b.try_acquire(1_000));
    assert!(b.try_acquire(1_001));
    // Every window of 1000 ms holds at most 3 grants.
    let grants = b.grants.clone();
    for (i, t) in grants.iter().enumerate() {
        let in_window =
            grants.iter().filter(|u| **u >= *t && **u < *t + 1_000).count();
        assert!(in_window <= 3, "window at {t} (grant {i}) holds {in_window}");
    }
}

#[test]
fn heartbeat_frames_are_answered_and_reset_the_idle_timer() {
    let mut e = connected_engine();
    let c = e.on_frame("pong", 500);
    assert!(matches!(c, Classification::Heartbeat));
    assert_eq!(e.outbound.last().map(|s| s.as_str()), Some("ping"));
    assert!(!e.heartbeat_expired(1_000, 30_000));
    assert!(e.heartbeat_expired(31_000, 30_000));
}

#[test]
fn run_returns_on_deadline_or_close() {
    let mut e = connected_engine();
    assert!(!e.run_should_return(Some(100), 99));
    assert!(e.run_should_return(Some(100), 100));
    assert!(!e.run_should_return(None, u64::MAX - 1));
    e.close();
    assert!(e.run_should_return(None, 0));
}

#[test]
fn reconnect_backoff_is_bounded() {
    let mut e = connected_engine();
    e.on_transport_error();
    let mut last = 0u64;
    for _ in 0..8 {
        let d = e.reconnect_delay_ms();
        assert!((1_000..=60_000).contains(&d));
        assert!(d >= last);
        last = d;
        e.on_reconnect_result(false);
        if e.connection_state() == ConnectionState::Closed {
            break;
        }
    }
}

#[test]
fn a_universe_refresh_only_subscribes_new_symbols() {
    let mut e = connected_engine();
    e.subscribe(&vec![topic("trade", "BTCUSDT")]).unwrap();
    assert_eq!(e.outbound.len(), 1);
    // The refreshed universe repeats the old symbol and adds one more.
    e.subscribe(&vec![topic("trade", "BTCUSDT"), topic("trade", "ETHUSDT")])
        .unwrap();
    assert_eq!(e.topics.len(), 2);
    assert_eq!(e.outbound.len(), 2);
    assert!(e.outbound[1].contains("ETHUSDT"));
}
