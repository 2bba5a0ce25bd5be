//! The normalized message model: market types, message kinds, and the
//! immutable record handed to the consumer.

use vstd::prelude::*;

verus! {

/// The trading instrument category of a market.
#[derive(Clone, Copy, Debug, PartialEq, Eq, Structural)]
pub enum MarketType {
    Spot,
    LinearSwap,
    InverseSwap,
    LinearFuture,
    InverseFuture,
    EuropeanOption,
}

/// The coarse kind tag of a normalized record. Payload semantics are not
/// interpreted beyond this tag and the routing symbol.
#[derive(Clone, Copy, Debug, PartialEq, Eq, Structural)]
pub enum MessageKind {
    Trade,
    L2Snapshot,
    L2Event,
    L3Snapshot,
    L3Event,
    Ticker,
    Bbo,
    /// An OHLC bar; the field is the bar interval in seconds.
    Candlestick(u64),
    /// The top levels of an order book; the field is the depth.
    OrderBookTopK(u64),
}

/// One normalized record: produced by the engine or the snapshot crawler,
/// consumed read-only by the caller. No mutation after construction.
pub struct Message {
    pub exchange: String,
    pub market_type: MarketType,
    pub symbol: String,
    pub kind: MessageKind,
    pub payload: String,
    pub received_at: u64,
}

impl Message {
    pub fn new(
        exchange: String,
        market_type: MarketType,
        symbol: String,
        kind: MessageKind,
        payload: String,
        received_at: u64,
    ) -> (m: Message)
        ensures
            m.exchange@ == exchange@,
            m.market_type == market_type,
            m.symbol@ == symbol@,
            m.kind == kind,
            m.payload@ == payload@,
            m.received_at == received_at,
    {
        Message { exchange, market_type, symbol, kind, payload, received_at }
    }
}

} // verus!
