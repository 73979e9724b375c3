//! Coinbase Pro: trades and level-2 order books.
use vstd::prelude::*;
use crate::decimal::{parse_decimal, parsed_decimal, product, multiply};
use crate::market::{MarketType, MessageType, TradeSide};
use crate::msg::{
    book_ok, check_ms_timestamp, is_ms_timestamp, parse_spot_level, parse_time, rfc3339_millis, quote_matches, rfc3339_ms, spot_level,
    time_ok, trade_ok, OrderBookMsg, ParseError, TradeMsg,
};
use crate::order::Order;
use crate::json::{find_field, json_object_fields, lookup, object_fields};
use crate::text::{i64_text, int_text, owned, push_char, str_eq};

verus! {

/// The pair of a product: `BTC-USD` is `BTC/USD`.
pub open spec fn coinbase_pair(s: Seq<char>) -> Seq<char> {
    s.map_values(|c: char| if c == '-' { '/' } else { c })
}

pub fn normalize_pair(symbol: &str) -> (r: String)
    ensures
        r@ == coinbase_pair(symbol@),
{
    let n = symbol.unicode_len();
    let mut r = String::new();
    let mut i: usize = 0;
    while i < n
        invariant
            n == symbol@.len(),
            i <= n,
            r@ =~= coinbase_pair(symbol@.subrange(0, i as int)),
        decreases n - i,
    {
        let c = symbol.get_char(i);
        push_char(&mut r, if c == '-' { '/' } else { c });
        assert(coinbase_pair(symbol@.subrange(0, i + 1)) =~= coinbase_pair(symbol@.subrange(0, i as int)).push(
            if c == '-' { '/' } else { c },
        ));
        i += 1;
    }
    assert(symbol@.subrange(0, n as int) =~= symbol@);
    r
}

/// A match: one trade.
pub struct SpotTrade {
    pub trade_id: i64,
    pub time: String,
    pub product_id: String,
    pub size: String,
    pub price: String,
    /// `buy` or `sell`.
    pub side: String,
}

/// One price level, as `[price, size]`.
pub struct Level {
    pub price: String,
    pub size: String,
}

/// One change, as `[side, price, size]`.
pub struct Change {
    pub side: String,
    pub price: String,
    pub size: String,
}

/// A level-2 message: a snapshot of the book, or an update with its changes.
pub enum L2Message {
    Snapshot { product_id: String, asks: Vec<Level>, bids: Vec<Level> },
    Update { product_id: String, time: String, changes: Vec<Change> },
}

/// The orders of levels, where every level reads.
pub open spec fn levels_orders(levels: Seq<Level>) -> Option<Seq<Order>>
    decreases levels.len(),
{
    if levels.len() == 0 {
        Some(Seq::empty())
    } else {
        match (levels_orders(levels.drop_last()), spot_level(levels.last().price@, levels.last().size@)) {
            (Some(os), Some(o)) => Some(os.push(o)),
            _ => None,
        }
    }
}

/// The orders of the changes on `side`, where every such change reads.
pub open spec fn changes_orders(changes: Seq<Change>, side: Seq<char>) -> Option<Seq<Order>>
    decreases changes.len(),
{
    if changes.len() == 0 {
        Some(Seq::empty())
    } else {
        let c = changes.last();
        match changes_orders(changes.drop_last(), side) {
            None => None,
            Some(os) => if c.side@ == side {
                match spot_level(c.price@, c.size@) {
                    Some(o) => Some(os.push(o)),
                    None => None,
                }
            } else {
                Some(os)
            },
        }
    }
}

fn parse_levels(levels: &Vec<Level>) -> (r: Option<Vec<Order>>)
    ensures
        match r {
            Some(v) => levels_orders(levels@) == Some(v@),
            None => levels_orders(levels@) is None,
        },
{
    let mut out: Vec<Order> = Vec::new();
    let mut i: usize = 0;
    while i < levels.len()
        invariant
            i <= levels@.len(),
            levels_orders(levels@.subrange(0, i as int)) == Some(out@),
        decreases levels@.len() - i,
    {
        assert(levels@.subrange(0, i + 1).drop_last() =~= levels@.subrange(0, i as int));
        match parse_spot_level(levels[i].price.as_str(), levels[i].size.as_str()) {
            Some(o) => out.push(o),
            None => {
                proof {
                    lemma_levels_prefix_none(levels@, i as int + 1);
                }
                return None;
            },
        }
        i += 1;
    }
    assert(levels@.subrange(0, i as int) =~= levels@);
    Some(out)
}

proof fn lemma_levels_prefix_none(levels: Seq<Level>, k: int)
    requires
        0 <= k <= levels.len(),
        levels_orders(levels.subrange(0, k)) is None,
    ensures
        levels_orders(levels) is None,
    decreases levels.len() - k,
{
    if k < levels.len() {
        assert(levels.subrange(0, k + 1).drop_last() =~= levels.subrange(0, k));
        lemma_levels_prefix_none(levels, k + 1);
    } else {
        assert(levels.subrange(0, k) =~= levels);
    }
}

proof fn lemma_changes_prefix_none(changes: Seq<Change>, side: Seq<char>, k: int)
    requires
        0 <= k <= changes.len(),
        changes_orders(changes.subrange(0, k), side) is None,
    ensures
        changes_orders(changes, side) is None,
    decreases changes.len() - k,
{
    if k < changes.len() {
        assert(changes.subrange(0, k + 1).drop_last() =~= changes.subrange(0, k));
        lemma_changes_prefix_none(changes, side, k + 1);
    } else {
        assert(changes.subrange(0, k) =~= changes);
    }
}

fn parse_changes(changes: &Vec<Change>, side: &str) -> (r: Option<Vec<Order>>)
    ensures
        match r {
            Some(v) => changes_orders(changes@, side@) == Some(v@),
            None => changes_orders(changes@, side@) is None,
        },
{
    let mut out: Vec<Order> = Vec::new();
    let mut i: usize = 0;
    while i < changes.len()
        invariant
            i <= changes@.len(),
            changes_orders(changes@.subrange(0, i as int), side@) == Some(out@),
        decreases changes@.len() - i,
    {
        assert(changes@.subrange(0, i + 1).drop_last() =~= changes@.subrange(0, i as int));
        assert(changes@.subrange(0, i + 1).last() == changes@[i as int]);
        if str_eq(changes[i].side.as_str(), side) {
            match parse_spot_level(changes[i].price.as_str(), changes[i].size.as_str()) {
                Some(o) => out.push(o),
                None => {
                    proof {
                        lemma_changes_prefix_none(changes@, side@, i as int + 1);
                    }
                    return None;
                },
            }
        }
        i += 1;
    }
    assert(changes@.subrange(0, i as int) =~= changes@);
    Some(out)
}

/// What a level-2 message gives: `(snapshot, timestamp, asks, bids)`. A snapshot takes
/// the timestamp that the caller gives, and fails without one; an update takes its own
/// time, and its `sell` changes are asks, its `buy` changes bids.
pub open spec fn l2_parts(msg: L2Message, timestamp: Option<i64>) -> Result<(bool, i64, Seq<Order>, Seq<Order>), ParseError> {
    match msg {
        L2Message::Snapshot { asks, bids, .. } => match timestamp {
            None => Err(ParseError::NoTimestamp),
            Some(t) => if !is_ms_timestamp(t) {
                Err(ParseError::BadTime)
            } else {
                match (levels_orders(asks@), levels_orders(bids@)) {
                    (Some(a), Some(b)) => Ok((true, t, a, b)),
                    _ => Err(ParseError::BadNumber),
                }
            },
        },
        L2Message::Update { time, changes, .. } => match rfc3339_ms(time@) {
            None => Err(ParseError::BadTime),
            Some(t) => if !is_ms_timestamp(t) {
                Err(ParseError::BadTime)
            } else {
                match (changes_orders(changes@, "sell"@), changes_orders(changes@, "buy"@)) {
                    (Some(a), Some(b)) => Ok((false, t, a, b)),
                    _ => Err(ParseError::BadNumber),
                }
            },
        },
    }
}

/// Every order of levels that read has a positive price.
proof fn lemma_levels_positive(levels: Seq<Level>)
    ensures
        levels_orders(levels) matches Some(os) ==> forall|i: int| 0 <= i < os.len() ==> (#[trigger] os[i]).price.mantissa > 0,
    decreases levels.len(),
{
    if levels.len() > 0 {
        lemma_levels_positive(levels.drop_last());
    }
}

/// Every order of changes that read has a positive price.
proof fn lemma_changes_positive(changes: Seq<Change>, side: Seq<char>)
    ensures
        changes_orders(changes, side) matches Some(os) ==> forall|i: int| 0 <= i < os.len() ==> (#[trigger] os[i]).price.mantissa > 0,
    decreases changes.len(),
{
    if changes.len() > 0 {
        lemma_changes_positive(changes.drop_last(), side);
    }
}

pub open spec fn product_of(msg: L2Message) -> Seq<char> {
    match msg {
        L2Message::Snapshot { product_id, .. } => product_id@,
        L2Message::Update { product_id, .. } => product_id@,
    }
}

/// Reads a level-2 message of the raw text `json`; `timestamp` is when it arrived.
pub fn parse_l2(market_type: MarketType, msg: L2Message, json: &str, timestamp: Option<i64>) -> (r: Result<Vec<OrderBookMsg>, ParseError>)
    ensures
        match (r, l2_parts(msg, timestamp)) {
            (Ok(v), Ok((snapshot, t, asks, bids))) => v@.len() == 1 && book_ok(v@[0]) && v@[0].exchange@ == "coinbase_pro"@
                && v@[0].market_type == market_type && v@[0].symbol@ == product_of(msg)
                && v@[0].pair@ == coinbase_pair(product_of(msg)) && v@[0].msg_type
                == MessageType::L2Event && v@[0].timestamp == t && v@[0].asks@ == asks
                && v@[0].bids@ == bids && v@[0].snapshot == snapshot && v@[0].seq_id is None
                && v@[0].prev_seq_id is None && v@[0].json@ == json@,
            (Err(e), Err(e2)) => e == e2,
            _ => false,
        },
{
    let ghost m0 = msg;
    let (symbol, snapshot, t, asks, bids) = match msg {
        L2Message::Snapshot { product_id, asks, bids } => {
            let t = match timestamp {
                None => return Err(ParseError::NoTimestamp),
                Some(t) => t,
            };
            if !check_ms_timestamp(t) {
                return Err(ParseError::BadTime);
            }
            let a = parse_levels(&asks);
            proof {
                lemma_levels_positive(asks@);
                lemma_levels_positive(bids@);
            }
            let b = parse_levels(&bids);
            match (a, b) {
                (Some(a), Some(b)) => (product_id, true, t, a, b),
                _ => return Err(ParseError::BadNumber),
            }
        },
        L2Message::Update { product_id, time, changes } => {
            let t = match rfc3339_millis(time.as_str()) {
                None => return Err(ParseError::BadTime),
                Some(t) => t,
            };
            if !check_ms_timestamp(t) {
                return Err(ParseError::BadTime);
            }
            let a = parse_changes(&changes, "sell");
            proof {
                lemma_changes_positive(changes@, "sell"@);
                lemma_changes_positive(changes@, "buy"@);
            }
            let b = parse_changes(&changes, "buy");
            match (a, b) {
                (Some(a), Some(b)) => (product_id, false, t, a, b),
                _ => return Err(ParseError::BadNumber),
            }
        },
    };
    let pair = normalize_pair(symbol.as_str());
    let mut out: Vec<OrderBookMsg> = Vec::new();
    out.push(
        OrderBookMsg {
            exchange: owned("coinbase_pro"),
            market_type,
            symbol,
            pair,
            msg_type: MessageType::L2Event,
            timestamp: t,
            seq_id: None,
            prev_seq_id: None,
            asks,
            bids,
            snapshot,
            json: owned(json),
        },
    );
    Ok(out)
}

/// Reads a match of the raw text `json`: a spot trade, `sell` for sells and anything else
/// for buys.
pub fn parse_trade(market_type: MarketType, raw: SpotTrade, json: &str) -> (r: Result<Vec<TradeMsg>, ParseError>)
    ensures
        match r {
            Ok(v) => v@.len() == 1 && trade_ok(v@[0]) && quote_matches(v@[0].price, v@[0].quantity_base, v@[0].quantity_quote)
                && v@[0].exchange@ == "coinbase_pro"@ && v@[0].market_type
                == market_type && v@[0].symbol@ == raw.product_id@ && v@[0].pair@ == coinbase_pair(
                raw.product_id@) && v@[0].msg_type == MessageType::Trade && rfc3339_ms(raw.time@)
                == Some(v@[0].timestamp) && parsed_decimal(raw.price@) == Some(v@[0].price)
                && parsed_decimal(raw.size@) == Some(v@[0].quantity_base) && product(v@[0].price, v@[0].quantity_base)
                == Some(v@[0].quantity_quote) && v@[0].quantity_contract is None && v@[0].side == (if raw.side@
                == "sell"@ {
                TradeSide::Sell
            } else {
                TradeSide::Buy
            }) && v@[0].trade_id@ == int_text(raw.trade_id as int) && v@[0].json@ == json@,
            Err(ParseError::BadTime) => !time_ok(raw.time@),
            Err(ParseError::BadNumber) => time_ok(raw.time@) && (parsed_decimal(raw.price@) is None
                || parsed_decimal(raw.size@) is None || product(parsed_decimal(raw.price@)->0, parsed_decimal(raw.size@)->0) is None),
            Err(ParseError::NotPositive) => time_ok(raw.time@) && parsed_decimal(raw.price@) is Some
                && parsed_decimal(raw.size@) is Some && (parsed_decimal(raw.price@)->0.mantissa == 0
                || parsed_decimal(raw.size@)->0.mantissa == 0),
            Err(_) => false,
        },
{
    let t = match parse_time(raw.time.as_str()) {
        None => return Err(ParseError::BadTime),
        Some(t) => t,
    };
    let price = match parse_decimal(raw.price.as_str()) {
        None => return Err(ParseError::BadNumber),
        Some(p) => p,
    };
    let size = match parse_decimal(raw.size.as_str()) {
        None => return Err(ParseError::BadNumber),
        Some(s) => s,
    };
    if price.mantissa == 0 || size.mantissa == 0 {
        return Err(ParseError::NotPositive);
    }
    let quote = match multiply(price, size) {
        None => return Err(ParseError::BadNumber),
        Some(q) => q,
    };
    proof {
        crate::quantity::lemma_quote_is_price_times_base(MarketType::Spot, None, price, size);
        assert(crate::quantity::quantities(MarketType::Spot, None, price, size) == Some(
            crate::quantity::Quantities { base: size, quote, contract: None }));
        crate::msg::lemma_exact_quote_matches(price, size, quote);
    }
    let side = if str_eq(raw.side.as_str(), "sell") {
        TradeSide::Sell
    } else {
        TradeSide::Buy
    };
    let pair = normalize_pair(raw.product_id.as_str());
    let trade_id = i64_text(raw.trade_id);
    let mut out: Vec<TradeMsg> = Vec::new();
    out.push(
        TradeMsg {
            exchange: owned("coinbase_pro"),
            market_type,
            symbol: raw.product_id,
            pair,
            msg_type: MessageType::Trade,
            timestamp: t,
            price,
            quantity_base: size,
            quantity_quote: quote,
            quantity_contract: None,
            side,
            trade_id,
            json: owned(json),
        },
    );
    Ok(out)
}

/// A level-2 message is a snapshot where its `type` is `snapshot`.
pub open spec fn is_snapshot_text(msg: Seq<char>) -> bool {
    match json_object_fields(msg) {
        Some(fields) => lookup(fields, "type"@) == Some(Some("snapshot"@)),
        None => false,
    }
}

pub fn is_snapshot(msg: &str) -> (r: bool)
    ensures
        r == is_snapshot_text(msg@),
{
    match object_fields(msg) {
        Some(fields) => match find_field(&fields, "type") {
            Some(Some(t)) => str_eq(t.as_str(), "snapshot"),
            _ => false,
        },
        None => false,
    }
}

/// The product of a message: its `product_id`, where that is a string.
pub fn extract_symbol(msg: &str) -> (r: Option<String>)
    ensures
        match r {
            Some(s) => json_object_fields(msg@) matches Some(fields) && lookup(fields, "product_id"@)
                == Some(Some(s@)),
            None => match json_object_fields(msg@) {
                Some(fields) => !(lookup(fields, "product_id"@) matches Some(Some(_))),
                None => true,
            },
        },
{
    match object_fields(msg) {
        Some(fields) => match find_field(&fields, "product_id") {
            Some(Some(t)) => Some(t),
            _ => None,
        },
        None => None,
    }
}

/// A product's pair is a pair of itself: normalizing twice is normalizing once.
pub proof fn lemma_normalize_pair_idempotent(symbol: Seq<char>)
    ensures
        coinbase_pair(coinbase_pair(symbol)) == coinbase_pair(symbol),
{
    assert(coinbase_pair(coinbase_pair(symbol)) =~= coinbase_pair(symbol));
}

} // verus!
