//! The kinds of markets, messages and trade sides.
use vstd::prelude::*;

verus! {

#[derive(Clone, Copy, Debug, PartialEq, Eq, Structural)]
pub enum MarketType {
    Spot,
    LinearFuture,
    InverseFuture,
    LinearSwap,
    InverseSwap,
    QuantoFuture,
    QuantoSwap,
    EuropeanOption,
    Unknown,
}

#[derive(Clone, Copy, Debug, PartialEq, Eq, Structural)]
pub enum MessageType {
    Trade,
    L2Event,
    L2Snapshot,
    L2TopK,
    L3Event,
    L3Snapshot,
    BBO,
    Ticker,
    FundingRate,
    Candlestick,
    OpenInterest,
}

#[derive(Clone, Copy, Debug, PartialEq, Eq, Structural)]
pub enum TradeSide {
    Buy,
    Sell,
}

} // verus!
