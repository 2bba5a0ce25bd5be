//! Typed errors: argument validation, engine lifecycle, and
//! authentication failures are reported to the caller, never as
//! process aborts.

use vstd::prelude::*;
use crate::messages::MarketType;

verus! {

/// Rejected before any network call: the requested market type or a
/// requested symbol is not in the registry, and the error carries the
/// valid alternatives.
#[derive(Debug)]
pub enum ValidationError {
    UnsupportedMarketType { market_type: MarketType, supported: Vec<MarketType> },
    InvalidSymbols { invalid: Vec<String>, valid: Vec<String> },
}

/// Raised by subscribe/unsubscribe/send on an engine whose connection is
/// terminally closed.
#[derive(Debug)]
pub enum EngineError {
    Closed,
}

/// Why a capability subscription was refused: the exchange does not
/// offer the capability (or the requested bar interval), or the engine
/// is terminally closed.
#[derive(Debug)]
pub enum SubscribeError {
    NotSupported,
    Closed,
}

/// Login cannot even be attempted: a credential was never supplied.
#[derive(Debug)]
pub enum AuthError {
    MissingApiKey,
    MissingApiSecret,
    MissingApiPassphrase,
}

} // verus!
