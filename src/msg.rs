//! The normalized records, and what their parsers share.
use vstd::prelude::*;
use crate::decimal::{parse_decimal, parsed_decimal, product, multiply, Decimal};
use crate::market::{MarketType, MessageType, TradeSide};
use crate::order::Order;
use crate::quantity::{is_inverse, lemma_quote_is_price_times_base, quantities};

verus! {

/// A trade.
pub struct TradeMsg {
    pub exchange: String,
    pub market_type: MarketType,
    /// The exchange's symbol.
    pub symbol: String,
    /// The normalized pair, `BASE/QUOTE`.
    pub pair: String,
    pub msg_type: MessageType,
    /// Milliseconds since the Unix epoch.
    pub timestamp: i64,
    pub price: Decimal,
    pub quantity_base: Decimal,
    pub quantity_quote: Decimal,
    pub quantity_contract: Option<Decimal>,
    pub side: TradeSide,
    pub trade_id: String,
    /// The raw message.
    pub json: String,
}

/// An order-book update or snapshot.
pub struct OrderBookMsg {
    pub exchange: String,
    pub market_type: MarketType,
    pub symbol: String,
    pub pair: String,
    pub msg_type: MessageType,
    pub timestamp: i64,
    pub seq_id: Option<u64>,
    pub prev_seq_id: Option<u64>,
    pub asks: Vec<Order>,
    pub bids: Vec<Order>,
    pub snapshot: bool,
    pub json: String,
}

/// A signed decimal.
#[derive(Clone, Copy, Debug, PartialEq, Eq, Structural)]
pub struct Rate {
    pub negative: bool,
    pub magnitude: Decimal,
}

/// A funding rate.
pub struct FundingRateMsg {
    pub exchange: String,
    pub market_type: MarketType,
    pub symbol: String,
    pub pair: String,
    pub msg_type: MessageType,
    pub timestamp: i64,
    pub funding_rate: Rate,
    pub funding_time: i64,
    pub estimated_rate: Option<Rate>,
    pub json: String,
}

/// Why a message did not parse.
#[derive(Clone, Copy, Debug, PartialEq, Eq, Structural)]
pub enum ParseError {
    /// A snapshot that carries no timestamp, and none was given.
    NoTimestamp,
    /// A number that does not read as one, or does not fit; or a level whose price is
    /// zero.
    BadNumber,
    /// A time that does not read as RFC 3339, or has not 13 digits in milliseconds.
    BadTime,
    /// Sizes that cannot be computed for the market.
    NoQuantities,
    /// A trade whose price or size is zero.
    NotPositive,
    /// A funding rate outside (-1, 1), or a funding time off the exchange's cadence.
    OutOfRange,
    /// A field that does not have the shape the exchange documents.
    BadField,
}

/// The signed number that `s` writes: a decimal with an optional leading `-`.
pub open spec fn parsed_rate(s: Seq<char>) -> Option<Rate> {
    if s.len() > 0 && s[0] == '-' {
        match parsed_decimal(s.subrange(1, s.len() as int)) {
            Some(d) => Some(Rate { negative: true, magnitude: d }),
            None => None,
        }
    } else {
        match parsed_decimal(s) {
            Some(d) => Some(Rate { negative: false, magnitude: d }),
            None => None,
        }
    }
}

pub fn parse_rate(s: &str) -> (r: Option<Rate>)
    ensures
        r == parsed_rate(s@),
{
    let n = s.unicode_len();
    if n > 0 && s.get_char(0) == '-' {
        match parse_decimal(s.substring_char(1, n)) {
            Some(d) => Some(Rate { negative: true, magnitude: d }),
            None => None,
        }
    } else {
        match parse_decimal(s) {
            Some(d) => Some(Rate { negative: false, magnitude: d }),
            None => None,
        }
    }
}

/// A time in milliseconds since the epoch with exactly 13 digits.
pub open spec fn is_ms_timestamp(t: i64) -> bool {
    1000000000000 <= t < 10000000000000
}

pub fn check_ms_timestamp(t: i64) -> (r: bool)
    ensures
        r == is_ms_timestamp(t),
{
    1000000000000 <= t && t < 10000000000000
}

/// The magnitude of `r` is below one.
pub open spec fn below_one(r: Rate) -> bool {
    r.magnitude.num() < r.magnitude.den()
}

/// The quote is within `10^-10` of itself from the price times the base.
pub open spec fn quote_matches(price: Decimal, base: Decimal, quote: Decimal) -> bool {
    let pb = price.num() * base.num();
    let pb_den = price.den() * base.den();
    let diff = quote.num() * pb_den - pb * quote.den();
    let gap = if diff >= 0 { diff } else { -diff };
    gap * 10000000000 < quote.num() * pb_den
}

/// What every trade satisfies: a 13-digit time, and a positive price, base and quote.
pub open spec fn trade_ok(t: TradeMsg) -> bool {
    is_ms_timestamp(t.timestamp) && t.price.mantissa > 0 && t.quantity_base.mantissa > 0
        && t.quantity_quote.mantissa > 0
}

/// What every order-book message satisfies: a 13-digit time, and positive prices.
pub open spec fn book_ok(b: OrderBookMsg) -> bool {
    &&& is_ms_timestamp(b.timestamp)
    &&& forall|i: int| 0 <= i < b.asks@.len() ==> (#[trigger] b.asks@[i]).price.mantissa > 0
    &&& forall|i: int| 0 <= i < b.bids@.len() ==> (#[trigger] b.bids@[i]).price.mantissa > 0
}

/// A time that reads as RFC 3339 and has 13 digits in milliseconds.
pub open spec fn time_ok(s: Seq<char>) -> bool {
    rfc3339_ms(s) matches Some(t) && is_ms_timestamp(t)
}

/// The millisecond time of `s`, where it reads and has 13 digits.
pub fn parse_time(s: &str) -> (r: Option<i64>)
    ensures
        match r {
            Some(t) => rfc3339_ms(s@) == Some(t) && is_ms_timestamp(t),
            None => !time_ok(s@),
        },
{
    match rfc3339_millis(s) {
        Some(t) => if check_ms_timestamp(t) {
            Some(t)
        } else {
            None
        },
        None => None,
    }
}

pub proof fn lemma_exact_quote_matches(price: Decimal, base: Decimal, quote: Decimal)
    requires
        quote.mantissa > 0,
        quote.num() * (price.den() * base.den()) == (price.num() * base.num()) * quote.den(),
    ensures
        quote_matches(price, base, quote),
{
    crate::decimal::lemma_pow10_positive(price.scale as nat);
    crate::decimal::lemma_pow10_positive(base.scale as nat);
    let pb_den = price.den() * base.den();
    assert(pb_den >= 1) by (nonlinear_arith)
        requires
            price.den() >= 1,
            base.den() >= 1,
            pb_den == price.den() * base.den(),
    ;
    assert(quote.num() * pb_den > 0) by (nonlinear_arith)
        requires
            quote.num() > 0,
            pb_den >= 1,
    ;
}

/// Sizes computed from a positive price and size are positive, and their quote matches
/// the price times the base.
pub proof fn lemma_quantities_match(market_type: MarketType, contract_value: Option<Decimal>, price: Decimal, size: Decimal)
    requires
        price.mantissa > 0,
        size.mantissa > 0,
    ensures
        quantities(market_type, contract_value, price, size) matches Some(q) ==> q.base.mantissa > 0
            && q.quote.mantissa > 0 && quote_matches(price, q.base, q.quote),
{
    lemma_quote_is_price_times_base(market_type, contract_value, price, size);
    if let Some(q) = quantities(market_type, contract_value, price, size) {
        if !is_inverse(market_type) {
            lemma_exact_quote_matches(price, q.base, q.quote);
        }
    }
}

/// Milliseconds since the epoch of an RFC 3339 time, as chrono reads it.
pub uninterp spec fn rfc3339_ms(s: Seq<char>) -> Option<i64>;

/// Relies on `chrono::DateTime::parse_from_rfc3339` and `timestamp_millis`.
#[verifier::external_body]
pub(crate) fn rfc3339_millis(s: &str) -> (r: Option<i64>)
    ensures
        r == rfc3339_ms(s@),
{
    chrono::DateTime::parse_from_rfc3339(s).ok().map(|t| t.timestamp_millis())
}

/// A spot level of `size` base coins at a positive `price`, both as text.
pub open spec fn spot_level(price: Seq<char>, size: Seq<char>) -> Option<Order> {
    match (parsed_decimal(price), parsed_decimal(size)) {
        (Some(p), Some(b)) => if p.mantissa == 0 {
            None
        } else {
            match product(p, b) {
                Some(q) => Some(Order { price: p, quantity_base: b, quantity_quote: q, quantity_contract: None }),
                None => None,
            }
        },
        _ => None,
    }
}

pub fn parse_spot_level(price: &str, size: &str) -> (r: Option<Order>)
    ensures
        r == spot_level(price@, size@),
{
    match (parse_decimal(price), parse_decimal(size)) {
        (Some(p), Some(b)) => if p.mantissa == 0 {
            None
        } else {
            match multiply(p, b) {
                Some(q) => Some(Order { price: p, quantity_base: b, quantity_quote: q, quantity_contract: None }),
                None => None,
            }
        },
        _ => None,
    }
}

} // verus!
