//! Snapshot-crawl behavior: symbol resolution against registry data and
//! one normalized record per successful per-symbol fetch.

use crypto_crawler::{collect_snapshots, resolve_symbols, MarketType, Message, MessageKind};

fn spot_registry() -> Vec<String> {
    vec![
        "tBTCUSD".to_string(),
        "tETHUSD".to_string(),
        "tLTCUSD".to_string(),
    ]
}

fn swap_registry() -> Vec<String> {
    vec!["tBTCF0:USTF0".to_string(), "tETHF0:USTF0".to_string()]
}

#[test]
fn test_spot_symbols() {
    let registry = spot_registry();
    let symbols = resolve_symbols(None, &registry);
    assert!(!symbols.is_empty());
}

#[test]
fn test_swap_symbols() {
    let registry = swap_registry();
    let symbols = resolve_symbols(None, &registry);
    assert!(!symbols.is_empty());
}

#[test]
fn test_trades() {
    let symbols = vec!["tBTCUSD".to_string()];
    let outcomes = vec![Some("[[1,1,0.1,30000]]".to_string())];
    let msgs = collect_snapshots(
        "bitfinex",
        MarketType::Spot,
        MessageKind::Trade,
        &symbols,
        &outcomes,
        7,
    );
    let text = msgs[0].payload.clone();
    assert!(text.starts_with("[["));
}

#[test]
fn test_l2_snapshot() {
    let symbols = vec!["tBTCUSD".to_string()];
    let outcomes = vec![Some("[[30000,2,1.5]]".to_string())];
    let msgs = collect_snapshots(
        "bitfinex",
        MarketType::Spot,
        MessageKind::L2Snapshot,
        &symbols,
        &outcomes,
        7,
    );
    let text = msgs[0].payload.clone();
    assert!(text.starts_with("[["));
}

#[test]
fn test_l3_snapshot() {
    let symbols = vec!["tBTCUSD".to_string()];
    let outcomes = vec![Some("[[91,30000,0.3]]".to_string())];
    let msgs = collect_snapshots(
        "bitfinex",
        MarketType::Spot,
        MessageKind::L3Snapshot,
        &symbols,
        &outcomes,
        7,
    );
    let text = msgs[0].payload.clone();
    assert!(text.starts_with("[["));
}

#[test]
fn snapshot_crawl_none_and_empty_agree() {
    let registry = spot_registry();
    let from_none = resolve_symbols(None, &registry);
    let empty: Vec<String> = Vec::new();
    let from_empty = resolve_symbols(Some(&empty), &registry);
    assert_eq!(from_none, registry);
    assert_eq!(from_empty, registry);
}

#[test]
fn snapshot_crawl_one_message_per_symbol() {
    let registry = spot_registry();
    let symbols = resolve_symbols(None, &registry);
    let outcomes: Vec<Option<String>> =
        symbols.iter().map(|s| Some(format!("[[snapshot of {s}]]"))).collect();
    let msgs = collect_snapshots(
        "bitfinex",
        MarketType::Spot,
        MessageKind::L2Snapshot,
        &symbols,
        &outcomes,
        42,
    );
    assert_eq!(msgs.len(), symbols.len());
    for (i, m) in msgs.iter().enumerate() {
        assert_eq!(m.symbol, symbols[i]);
        assert_eq!(m.exchange, "bitfinex");
        assert_eq!(m.received_at, 42);
        assert!(matches!(m.kind, MessageKind::L2Snapshot));
    }
}

#[test]
fn snapshot_crawl_failure_skips_only_that_symbol() {
    let symbols = spot_registry();
    let outcomes = vec![
        Some("[[first]]".to_string()),
        None,
        Some("[[third]]".to_string()),
    ];
    let msgs = collect_snapshots(
        "bitfinex",
        MarketType::Spot,
        MessageKind::L2Snapshot,
        &symbols,
        &outcomes,
        0,
    );
    assert_eq!(msgs.len(), 2);
    assert_eq!(msgs[0].symbol, "tBTCUSD");
    assert_eq!(msgs[0].payload, "[[first]]");
    assert_eq!(msgs[1].symbol, "tLTCUSD");
    assert_eq!(msgs[1].payload, "[[third]]");
}

#[test]
fn explicit_symbol_list_is_kept() {
    let registry = spot_registry();
    let explicit = vec!["tETHUSD".to_string()];
    let resolved = resolve_symbols(Some(&explicit), &registry);
    assert_eq!(resolved, explicit);
}

#[test]
fn message_kinds_carry_their_parameters() {
    let m = Message::new(
        "bitfinex".to_string(),
        MarketType::Spot,
        "tBTCUSD".to_string(),
        MessageKind::Candlestick(60),
        "[[bar]]".to_string(),
        1,
    );
    assert!(matches!(m.kind, MessageKind::Candlestick(60)));
    let k = MessageKind::OrderBookTopK(15);
    assert!(matches!(k, MessageKind::OrderBookTopK(15)));
}
