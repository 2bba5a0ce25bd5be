//! The REST client: signed headers, query-string construction and
//! endpoint URLs.

use crypto_crawler::{u64_to_dec, BitgetSwapRestClient};
use hmac::{Hmac, Mac};
use sha2::Sha256;

fn expected_sign(secret: &str, message: &str) -> String {
    let mut mac = Hmac::<Sha256>::new_from_slice(secret.as_bytes()).unwrap();
    mac.update(message.as_bytes());
    base64::encode(mac.finalize().into_bytes())
}

fn client_with_keys() -> BitgetSwapRestClient {
    BitgetSwapRestClient::new(
        Some("rest-key".to_string()),
        Some("rest-secret".to_string()),
        Some("rest-pass".to_string()),
    )
}

#[test]
fn signature_headers_carry_key_passphrase_timestamp_and_signature() {
    let client = client_with_keys();
    let hs = client
        .create_signature_headers("GET", "/api/mix/v1/account", &None, "1700000001")
        .unwrap();
    assert_eq!(hs.len(), 5);
    assert_eq!(hs[0], ("ACCESS-KEY".to_string(), "rest-key".to_string()));
    assert_eq!(hs[1], ("ACCESS-PASSPHRASE".to_string(), "rest-pass".to_string()));
    assert_eq!(hs[2], ("locale".to_string(), "en-US".to_string()));
    assert_eq!(hs[3], ("ACCESS-TIMESTAMP".to_string(), "1700000001".to_string()));
    assert_eq!(hs[4].0, "ACCESS-SIGN");
    assert_eq!(
        hs[4].1,
        expected_sign("rest-secret", "1700000001GET/api/mix/v1/account")
    );
}

#[test]
fn the_body_is_part_of_what_is_signed() {
    let client = client_with_keys();
    let body = Some("{\"symbol\":\"BTCUSDT_UMCBL\"}".to_string());
    let hs = client
        .create_signature_headers("POST", "/api/mix/v1/order", &body, "99")
        .unwrap();
    assert_eq!(
        hs[4].1,
        expected_sign(
            "rest-secret",
            "99POST/api/mix/v1/order{\"symbol\":\"BTCUSDT_UMCBL\"}"
        )
    );
}

#[test]
fn missing_credentials_are_reported_not_panicked() {
    let client = BitgetSwapRestClient::new(None, None, None);
    assert!(client
        .create_signature_headers("GET", "/api", &None, "1")
        .is_err());
}

#[test]
fn prepared_requests_join_base_url_path_and_query() {
    let client = client_with_keys();
    let params = vec![
        ("limit".to_string(), "100".to_string()),
        ("symbol".to_string(), "BTCUSDT_UMCBL".to_string()),
    ];
    let pr = client
        .prepare_request("GET", "/api/mix/v1/market/depth", &params, &None, false, "5")
        .unwrap();
    assert_eq!(
        pr.url,
        "https://api.bitget.com/api/mix/v1/market/depth?limit=100&symbol=BTCUSDT_UMCBL"
    );
    assert!(pr.headers.is_empty());
    let signed = client
        .prepare_request("GET", "/api/mix/v1/market/depth", &params, &None, true, "5")
        .unwrap();
    assert_eq!(signed.headers.len(), 5);
}

#[test]
fn open_interest_url_names_the_symbol() {
    let client = client_with_keys();
    assert_eq!(
        client.open_interest_url("BTCUSDT_UMCBL"),
        "https://api.bitget.com/api/mix/v1/market/open-interest?symbol=BTCUSDT_UMCBL"
    );
}

#[test]
fn decimal_rendering_matches_std() {
    for n in [0u64, 7, 10, 1234567890, u64::MAX] {
        assert_eq!(u64_to_dec(n), n.to_string());
    }
}
