//! Kucoin futures: trades and level-2 changes.
use vstd::prelude::*;
use crate::decimal::{parse_decimal, parsed_decimal, Decimal};
use crate::market::{MarketType, MessageType, TradeSide};
use crate::msg::{
    book_ok, check_ms_timestamp, is_ms_timestamp, lemma_quantities_match, quote_matches, trade_ok,
    OrderBookMsg, ParseError, TradeMsg,
};
use crate::order::Order;
use crate::quantity::{calc_quantity_and_volume, quantities};
use crate::text::{find_char, first_index, i64_text, int_text, is_prefix, owned, starts_with, str_eq};

verus! {

/// An execution: one trade.
pub struct ContractTrade {
    pub symbol: String,
    /// The trade's sequence number, which serves as its id.
    pub sequence: i64,
    /// `buy` or `sell`.
    pub side: String,
    pub size: String,
    pub price: String,
    /// Nanoseconds since the epoch.
    pub ts: i64,
}

/// Nanoseconds in whole milliseconds, cut toward zero.
pub open spec fn ms_of_ns(ns: i64) -> int {
    if ns >= 0 {
        ns / 1000000
    } else {
        -((-ns) / 1000000)
    }
}

pub fn ns_to_ms(ns: i64) -> (r: i64)
    ensures
        r == ms_of_ns(ns),
{
    if ns >= 0 {
        ns / 1000000
    } else {
        let m: u64 = if ns == i64::MIN {
            9223372036854775808
        } else {
            (-ns) as u64
        };
        -((m / 1000000) as i64)
    }
}

/// The side of a trade: `sell`, or else a buy.
pub open spec fn side_of(s: Seq<char>) -> TradeSide {
    if s == "sell"@ {
        TradeSide::Sell
    } else {
        TradeSide::Buy
    }
}

/// Reads an execution of the raw text `json`, of the pair `pair` whose contracts are
/// worth `contract_value`.
pub fn parse_trade(
    market_type: MarketType,
    raw: ContractTrade,
    pair: &str,
    contract_value: Option<Decimal>,
    json: &str,
) -> (r: Result<Vec<TradeMsg>, ParseError>)
    ensures
        match r {
            Ok(v) => v@.len() == 1 && {
                let t = v@[0];
                &&& trade_ok(t)
                &&& quote_matches(t.price, t.quantity_base, t.quantity_quote)
                &&& parsed_decimal(raw.size@) is Some
                &&& t.exchange@ == "kucoin"@
                &&& t.market_type == market_type
                &&& t.symbol@ == raw.symbol@
                &&& t.pair@ == pair@
                &&& t.msg_type == MessageType::Trade
                &&& t.timestamp == ms_of_ns(raw.ts)
                &&& parsed_decimal(raw.price@) == Some(t.price)
                &&& quantities(market_type, contract_value, t.price, parsed_decimal(raw.size@)->0)
                    == Some(crate::quantity::Quantities { base: t.quantity_base, quote: t.quantity_quote, contract: t.quantity_contract })
                &&& t.side == side_of(raw.side@)
                &&& t.trade_id@ == int_text(raw.sequence as int)
                &&& t.json@ == json@
            },
            Err(ParseError::BadTime) => !(0 <= ms_of_ns(raw.ts) && is_ms_timestamp(ms_of_ns(raw.ts) as i64)),
            Err(ParseError::BadNumber) => parsed_decimal(raw.price@) is None || parsed_decimal(raw.size@) is None,
            Err(ParseError::NotPositive) => parsed_decimal(raw.price@) is Some && parsed_decimal(raw.size@) is Some
                && (parsed_decimal(raw.price@)->0.mantissa == 0 || parsed_decimal(raw.size@)->0.mantissa == 0),
            Err(ParseError::NoQuantities) => quantities(market_type, contract_value, parsed_decimal(raw.price@)->0, parsed_decimal(raw.size@)->0) is None,
            Err(_) => false,
        },
{
    let timestamp = ns_to_ms(raw.ts);
    if !check_ms_timestamp(timestamp) {
        return Err(ParseError::BadTime);
    }
    let price = match parse_decimal(raw.price.as_str()) {
        None => return Err(ParseError::BadNumber),
        Some(p) => p,
    };
    let size = match parse_decimal(raw.size.as_str()) {
        None => return Err(ParseError::BadNumber),
        Some(s) => s,
    };
    if price.mantissa == 0 || size.mantissa == 0 {
        return Err(ParseError::NotPositive);
    }
    let q = match calc_quantity_and_volume(market_type, contract_value, price, size) {
        None => return Err(ParseError::NoQuantities),
        Some(q) => q,
    };
    proof {
        lemma_quantities_match(market_type, contract_value, price, size);
    }
    let side = if str_eq(raw.side.as_str(), "sell") {
        TradeSide::Sell
    } else {
        TradeSide::Buy
    };
    let mut out: Vec<TradeMsg> = Vec::new();
    out.push(
        TradeMsg {
            exchange: owned("kucoin"),
            market_type,
            symbol: raw.symbol,
            pair: owned(pair),
            msg_type: MessageType::Trade,
            timestamp,
            price,
            quantity_base: q.base,
            quantity_quote: q.quote,
            quantity_contract: q.contract,
            side,
            trade_id: i64_text(raw.sequence),
            json: owned(json),
        },
    );
    Ok(out)
}

/// The prefix of a level-2 topic, before the symbol.
pub open spec fn level2_prefix() -> Seq<char> {
    "/contractMarket/level2:"@
}

/// The symbol of a level-2 topic: what follows its prefix.
pub fn level2_symbol(topic: &str) -> (r: Option<String>)
    ensures
        match r {
            Some(s) => is_prefix(topic@, level2_prefix()) && s@ == topic@.subrange(level2_prefix().len() as int, topic@.len() as int),
            None => !is_prefix(topic@, level2_prefix()),
        },
{
    proof {
        reveal_strlit("/contractMarket/level2:");
    }
    if !starts_with(topic, "/contractMarket/level2:") {
        return None;
    }
    let n = topic.unicode_len();
    Some(owned(topic.substring_char(23, n)))
}

/// The three fields of a change `price,side,size`; none for another shape.
pub open spec fn change_fields(c: Seq<char>) -> Option<(Seq<char>, Seq<char>, Seq<char>)> {
    let i = first_index(c, ',');
    let rest = c.subrange(i + 1, c.len() as int);
    let j = first_index(rest, ',');
    let last = rest.subrange(j + 1, rest.len() as int);
    if i < 0 || j < 0 || last.contains(',') {
        None
    } else {
        Some((c.subrange(0, i), rest.subrange(0, j), last))
    }
}

fn split_change(c: &str) -> (r: Option<(String, String, String)>)
    ensures
        match r {
            Some((a, b, d)) => change_fields(c@) == Some((a@, b@, d@)),
            None => change_fields(c@) is None,
        },
{
    let n = c.unicode_len();
    let i = match find_char(c, ',') {
        None => return None,
        Some(i) => i,
    };
    let rest = c.substring_char(i + 1, n);
    let m = rest.unicode_len();
    let j = match find_char(rest, ',') {
        None => return None,
        Some(j) => j,
    };
    let last = rest.substring_char(j + 1, m);
    if find_char(last, ',').is_some() {
        return None;
    }
    Some((owned(c.substring_char(0, i)), owned(rest.substring_char(0, j)), owned(last)))
}

/// One level-2 change.
pub struct Level2Change {
    /// `/contractMarket/level2:{symbol}`.
    pub topic: String,
    pub sequence: i64,
    /// `price,side,size`.
    pub change: String,
    /// Milliseconds since the epoch.
    pub timestamp: i64,
}

/// Reads a level-2 change of the raw text `json` into one order, an ask where its side
/// is `sell` and a bid otherwise.
pub fn parse_l2(
    market_type: MarketType,
    raw: Level2Change,
    pair: &str,
    contract_value: Option<Decimal>,
    json: &str,
) -> (r: Result<Vec<OrderBookMsg>, ParseError>)
    ensures
        match r {
            Ok(v) => v@.len() == 1 && {
                let b = v@[0];
                let f = change_fields(raw.change@)->0;
                &&& book_ok(b)
                &&& parsed_decimal(f.2) is Some
                &&& is_prefix(raw.topic@, level2_prefix())
                &&& b.exchange@ == "kucoin"@
                &&& b.market_type == market_type
                &&& b.symbol@ == raw.topic@.subrange(level2_prefix().len() as int, raw.topic@.len() as int)
                &&& b.pair@ == pair@
                &&& b.msg_type == MessageType::L2Event
                &&& b.timestamp == raw.timestamp
                &&& b.seq_id == Some(raw.sequence as u64)
                &&& b.prev_seq_id is None
                &&& !b.snapshot
                &&& change_fields(raw.change@) is Some
                &&& b.asks@.len() + b.bids@.len() == 1
                &&& (b.asks@.len() == 1 <==> f.1 == "sell"@)
                &&& {
                    let o = if f.1 == "sell"@ { b.asks@[0] } else { b.bids@[0] };
                    &&& parsed_decimal(f.0) == Some(o.price)
                    &&& quantities(market_type, contract_value, o.price, parsed_decimal(f.2)->0)
                        == Some(crate::quantity::Quantities { base: o.quantity_base, quote: o.quantity_quote, contract: o.quantity_contract })
                }
                &&& b.json@ == json@
            },
            Err(ParseError::BadTime) => !is_ms_timestamp(raw.timestamp),
            Err(ParseError::BadField) => !is_prefix(raw.topic@, level2_prefix()) || change_fields(raw.change@) is None,
            Err(ParseError::BadNumber) => {
                let f = change_fields(raw.change@)->0;
                parsed_decimal(f.0) is None || parsed_decimal(f.2) is None || parsed_decimal(f.0)->0.mantissa == 0
            },
            Err(ParseError::NoQuantities) => {
                let f = change_fields(raw.change@)->0;
                quantities(market_type, contract_value, parsed_decimal(f.0)->0, parsed_decimal(f.2)->0) is None
            },
            Err(_) => false,
        },
{
    proof {
        reveal_strlit("/contractMarket/level2:");
    }
    if !check_ms_timestamp(raw.timestamp) {
        return Err(ParseError::BadTime);
    }
    if !starts_with(raw.topic.as_str(), "/contractMarket/level2:") {
        return Err(ParseError::BadField);
    }
    let n = raw.topic.as_str().unicode_len();
    let symbol = owned(raw.topic.as_str().substring_char(23, n));
    let (p, side, s) = match split_change(raw.change.as_str()) {
        None => return Err(ParseError::BadField),
        Some(f) => f,
    };
    let price = match parse_decimal(p.as_str()) {
        None => return Err(ParseError::BadNumber),
        Some(x) => x,
    };
    let size = match parse_decimal(s.as_str()) {
        None => return Err(ParseError::BadNumber),
        Some(x) => x,
    };
    if price.mantissa == 0 {
        return Err(ParseError::BadNumber);
    }
    let q = match calc_quantity_and_volume(market_type, contract_value, price, size) {
        None => return Err(ParseError::NoQuantities),
        Some(q) => q,
    };
    let order = Order { price, quantity_base: q.base, quantity_quote: q.quote, quantity_contract: q.contract };
    let mut asks: Vec<Order> = Vec::new();
    let mut bids: Vec<Order> = Vec::new();
    if str_eq(side.as_str(), "sell") {
        asks.push(order);
    } else {
        bids.push(order);
    }
    let mut out: Vec<OrderBookMsg> = Vec::new();
    out.push(
        OrderBookMsg {
            exchange: owned("kucoin"),
            market_type,
            symbol,
            pair: owned(pair),
            msg_type: MessageType::L2Event,
            timestamp: raw.timestamp,
            seq_id: Some(raw.sequence as u64),
            prev_seq_id: None,
            asks,
            bids,
            snapshot: false,
            json: owned(json),
        },
    );
    Ok(out)
}

} // verus!
