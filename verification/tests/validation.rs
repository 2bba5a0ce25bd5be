//! Argument validation: unsupported market types and unknown symbols are
//! rejected before any network call, with the valid alternatives listed.

use crypto_crawler::{check_args, MarketType, ValidationError};

fn spot_registry() -> Vec<String> {
    vec!["BTC-USDT".to_string(), "ETH-USDT".to_string()]
}

fn supported() -> Vec<MarketType> {
    vec![MarketType::Spot, MarketType::LinearSwap]
}

#[test]
fn unknown_symbol_fails_validation_and_lists_the_valid_ones() {
    let symbols = vec!["XXXX-INVALID".to_string()];
    let r = check_args(MarketType::Spot, &symbols, &supported(), &spot_registry());
    match r {
        Err(ValidationError::InvalidSymbols { invalid, valid }) => {
            assert_eq!(invalid, vec!["XXXX-INVALID".to_string()]);
            assert_eq!(valid, spot_registry());
        },
        _ => panic!("an unknown symbol must fail validation"),
    }
}

#[test]
fn unsupported_market_type_fails_validation() {
    let symbols = vec!["BTC-USDT".to_string()];
    let r = check_args(
        MarketType::EuropeanOption,
        &symbols,
        &supported(),
        &spot_registry(),
    );
    match r {
        Err(ValidationError::UnsupportedMarketType { market_type, supported: sup }) => {
            assert!(matches!(market_type, MarketType::EuropeanOption));
            assert_eq!(sup, supported());
        },
        _ => panic!("an unsupported market type must fail validation"),
    }
}

#[test]
fn known_symbols_pass_validation() {
    let symbols = vec!["BTC-USDT".to_string(), "ETH-USDT".to_string()];
    assert!(check_args(MarketType::Spot, &symbols, &supported(), &spot_registry()).is_ok());
}

#[test]
fn mixed_requests_report_only_the_unknown_symbols() {
    let symbols = vec![
        "BTC-USDT".to_string(),
        "XXXX-INVALID".to_string(),
        "YYYY-INVALID".to_string(),
    ];
    let r = check_args(MarketType::Spot, &symbols, &supported(), &spot_registry());
    match r {
        Err(ValidationError::InvalidSymbols { invalid, .. }) => {
            assert_eq!(
                invalid,
                vec!["XXXX-INVALID".to_string(), "YYYY-INVALID".to_string()]
            );
        },
        _ => panic!("unknown symbols must fail validation"),
    }
}
