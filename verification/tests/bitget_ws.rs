//! The Bitget WebSocket facade: capability subscriptions, the wire
//! command format, frame classification, and the signed login command.

use crypto_crawler::{
    BitgetSwapWSClient, Classification, MarketType, Message, MessageKind, SubscribeError,
};
use hmac::{Hmac, Mac};
use sha2::Sha256;

fn expected_sign(secret: &str, message: &str) -> String {
    let mut mac = Hmac::<Sha256>::new_from_slice(secret.as_bytes()).unwrap();
    mac.update(message.as_bytes());
    base64::encode(mac.finalize().into_bytes())
}

#[test]
fn subscribe_trade_produces_the_trade_wire_command() {
    let mut client = BitgetSwapWSClient::new(None);
    client.subscribe_trade(&vec!["BTC-USDT".to_string()]).unwrap();
    assert_eq!(client.engine.outbound.len(), 1);
    let cmd = client.engine.outbound[0].clone();
    assert!(cmd.contains("\"channel\":\"trade\""));
    assert!(cmd.contains("\"instId\":\"BTC-USDT\""));
    assert_eq!(
        cmd,
        "{\"op\":\"subscribe\",\"args\":[{\"instType\":\"MC\",\"channel\":\"trade\",\"instId\":\"BTC-USDT\"}]}"
    );
}

#[test]
fn data_frame_for_a_subscribed_symbol_becomes_a_trade_message() {
    let mut client = BitgetSwapWSClient::new(None);
    client.subscribe_trade(&vec!["BTC-USDT".to_string()]).unwrap();
    let frame = "{\"action\":\"update\",\"arg\":{\"instType\":\"MC\",\"channel\":\"trade\",\"instId\":\"BTC-USDT\"},\"data\":[[\"1\",\"30000\",\"0.1\",\"buy\"]]}";
    let c = client.engine.on_frame(frame, 99);
    match c {
        Classification::Data { symbol, payload } => {
            assert_eq!(symbol, "BTC-USDT");
            let m = Message::new(
                "bitget".to_string(),
                MarketType::LinearSwap,
                symbol,
                MessageKind::Trade,
                payload,
                99,
            );
            assert_eq!(m.symbol, "BTC-USDT");
            assert!(matches!(m.kind, MessageKind::Trade));
            assert_eq!(m.payload, frame);
        },
        other => panic!("expected a data frame, got {other:?}"),
    }
}

#[test]
fn unsubscribe_emits_commands_only_for_present_topics() {
    let mut client = BitgetSwapWSClient::new(None);
    client.subscribe_trade(&vec!["BTC-USDT".to_string()]).unwrap();
    let before = client.engine.outbound.len();
    client
        .subscribe_ticker(&vec!["BTC-USDT".to_string()])
        .unwrap();
    assert_eq!(client.engine.outbound.len(), before + 1);
    // Removing a topic that was never subscribed sends nothing.
    let ghost_topics = vec![crypto_crawler::Topic::new(
        "books".to_string(),
        "BTC-USDT".to_string(),
    )];
    let len_before = client.engine.outbound.len();
    client.unsubscribe(&ghost_topics).unwrap();
    assert_eq!(client.engine.outbound.len(), len_before);
}

#[test]
fn candlestick_channels_cover_the_documented_intervals() {
    let mut client = BitgetSwapWSClient::new(None);
    client
        .subscribe_candlestick(&vec![("BTC-USDT".to_string(), 60u64)])
        .unwrap();
    assert!(client.engine.outbound.last().unwrap().contains("candle1m"));
    client
        .subscribe_candlestick(&vec![("ETH-USDT".to_string(), 604800u64)])
        .unwrap();
    assert!(client.engine.outbound.last().unwrap().contains("candle1W"));
}

#[test]
fn unsupported_candlestick_interval_is_refused_before_subscribing() {
    let mut client = BitgetSwapWSClient::new(None);
    let r = client.subscribe_candlestick(&vec![("BTC-USDT".to_string(), 61u64)]);
    assert!(matches!(r, Err(SubscribeError::NotSupported)));
    assert_eq!(client.engine.outbound.len(), 0);
    assert_eq!(client.engine.topics.len(), 0);
}

#[test]
fn bbo_and_l3_orderbook_are_not_supported() {
    let mut client = BitgetSwapWSClient::new(None);
    assert!(matches!(
        client.subscribe_bbo(&vec!["BTC-USDT".to_string()]),
        Err(SubscribeError::NotSupported)
    ));
    assert!(matches!(
        client.subscribe_l3_orderbook(&vec!["BTC-USDT".to_string()]),
        Err(SubscribeError::NotSupported)
    ));
}

#[test]
fn login_command_carries_the_hmac_signature() {
    let mut client = BitgetSwapWSClient::new(None);
    client.set_api_keys(
        Some("my-key".to_string()),
        Some("my-secret".to_string()),
        Some("my-pass".to_string()),
    );
    let cmd = client.login_command("1700000000").unwrap();
    let sign = expected_sign("my-secret", "1700000000GET/user/verify");
    let expected = format!(
        "{{\"op\":\"login\",\"args\":[{{\"apiKey\":\"my-key\",\"passphrase\":\"my-pass\",\"timestamp\":\"1700000000\",\"sign\":\"{sign}\"}}]}}"
    );
    assert_eq!(cmd, expected);
}

#[test]
fn login_reports_the_first_missing_credential() {
    let mut client = BitgetSwapWSClient::new(None);
    assert!(client.login_command("1").is_err());
    client.set_api_keys(Some("k".to_string()), None, None);
    assert!(client.login_command("1").is_err());
    client.set_api_keys(Some("k".to_string()), Some("s".to_string()), Some("p".to_string()));
    assert!(client.login_command("1").is_ok());
    // The full login path enqueues exactly one command.
    client.login().unwrap();
    assert_eq!(client.engine.outbound.len(), 1);
    assert!(client.engine.outbound[0].contains("\"op\":\"login\""));
}

#[test]
fn pong_is_heartbeat_and_error_events_are_protocol_errors() {
    let mut client = BitgetSwapWSClient::new(None);
    assert!(matches!(
        client.engine.on_frame("pong", 1),
        Classification::Heartbeat
    ));
    assert!(matches!(
        client.engine.on_frame("{\"event\":\"error\",\"code\":30001}", 2),
        Classification::ProtocolError { .. }
    ));
    assert!(matches!(
        client.engine.on_frame("{\"event\":\"subscribe\"}", 3),
        Classification::Ignore
    ));
}

#[test]
fn endpoint_override_is_kept() {
    let client = BitgetSwapWSClient::new(Some("wss://example.invalid/stream".to_string()));
    assert_eq!(client.url, "wss://example.invalid/stream");
    let default_client = BitgetSwapWSClient::new(None);
    assert_eq!(default_client.url, "wss://ws.bitget.com/mix/v1/stream");
}

#[test]
fn error_events_win_over_embedded_instrument_ids() {
    let mut client = BitgetSwapWSClient::new(None);
    let frame = "{\"event\":\"error\",\"arg\":{\"instId\":\"BTC-USDT\"}}";
    assert!(matches!(
        client.engine.on_frame(frame, 1),
        Classification::ProtocolError { .. }
    ));
}

#[test]
fn an_unterminated_instrument_id_is_noise() {
    let mut client = BitgetSwapWSClient::new(None);
    let frame = "{\"arg\":{\"instId\":\"BTC-USDT";
    assert!(matches!(
        client.engine.on_frame(frame, 1),
        Classification::Ignore
    ));
}
