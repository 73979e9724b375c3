use crypto_crawler::coinbase_pro::{self, Change, L2Message, Level, SpotTrade};
use crypto_crawler::decimal::{parse_decimal, Decimal};
use crypto_crawler::kucoin_swap::{self, ContractTrade, Level2Change};
use crypto_crawler::market::{MarketType, MessageType, TradeSide};
use crypto_crawler::msg::ParseError;
use crypto_crawler::text::i64_text;

fn dec(s: &str) -> Decimal {
    parse_decimal(s).unwrap()
}

fn snapshot() -> L2Message {
    L2Message::Snapshot {
        product_id: "BTC-USD".to_string(),
        asks: vec![Level { price: "38930".to_string(), size: "3.84264467".to_string() }],
        bids: vec![
            Level { price: "38929.9".to_string(), size: "0.05005381".to_string() },
            Level { price: "38925.7".to_string(), size: "0.00062109".to_string() },
        ],
    }
}

#[test]
fn coinbase_snapshot_needs_a_timestamp() {
    let r = coinbase_pro::parse_l2(MarketType::Spot, snapshot(), "{}", None);
    assert!(matches!(r, Err(ParseError::NoTimestamp)));
    let books = coinbase_pro::parse_l2(MarketType::Spot, snapshot(), "{}", Some(1622723951253)).unwrap();
    assert_eq!(1, books.len());
    let b = &books[0];
    assert!(b.snapshot);
    assert_eq!(1622723951253, b.timestamp);
    assert_eq!("BTC/USD", b.pair);
    assert_eq!("BTC-USD", b.symbol);
    assert_eq!(MessageType::L2Event, b.msg_type);
    assert_eq!(1, b.asks.len());
    assert_eq!(2, b.bids.len());
    assert_eq!(dec("38930"), b.asks[0].price);
    assert!(b.asks[0].quantity_quote.same_value(&Decimal::new(38930 * 384264467, 8)));
    assert_eq!(None, b.asks[0].quantity_contract);
}

#[test]
fn coinbase_update() {
    let msg = L2Message::Update {
        product_id: "BTC-USD".to_string(),
        time: "2021-06-03T12:40:09.962Z".to_string(),
        changes: vec![
            Change { side: "buy".to_string(), price: "38886.1".to_string(), size: "0".to_string() },
            Change { side: "sell".to_string(), price: "38888".to_string(), size: "0.5".to_string() },
        ],
    };
    let books = coinbase_pro::parse_l2(MarketType::Spot, msg, "{}", None).unwrap();
    let b = &books[0];
    assert!(!b.snapshot);
    assert_eq!(1622724009962, b.timestamp);
    assert_eq!(1, b.asks.len());
    assert_eq!(1, b.bids.len());
    assert_eq!(dec("0"), b.bids[0].quantity_base);
    let bad = L2Message::Update { product_id: "BTC-USD".to_string(), time: "noon".to_string(), changes: Vec::new() };
    assert!(matches!(coinbase_pro::parse_l2(MarketType::Spot, bad, "{}", None), Err(ParseError::BadTime)));
    let bad = L2Message::Snapshot {
        product_id: "BTC-USD".to_string(),
        asks: vec![Level { price: "x".to_string(), size: "1".to_string() }],
        bids: Vec::new(),
    };
    assert!(matches!(coinbase_pro::parse_l2(MarketType::Spot, bad, "{}", Some(1622723951253)), Err(ParseError::BadNumber)));
    let zero = L2Message::Snapshot {
        product_id: "BTC-USD".to_string(),
        asks: vec![Level { price: "0".to_string(), size: "1".to_string() }],
        bids: Vec::new(),
    };
    assert!(matches!(coinbase_pro::parse_l2(MarketType::Spot, zero, "{}", Some(1622723951253)), Err(ParseError::BadNumber)));
    assert!(matches!(coinbase_pro::parse_l2(MarketType::Spot, snapshot(), "{}", Some(1)), Err(ParseError::BadTime)));
}

#[test]
fn coinbase_trade() {
    let raw = SpotTrade {
        trade_id: 161659503,
        time: "2021-03-22T01:16:28.687Z".to_string(),
        product_id: "BTC-USD".to_string(),
        size: "0.00020621".to_string(),
        price: "56593.6".to_string(),
        side: "sell".to_string(),
    };
    let zero = SpotTrade {
        trade_id: 1,
        time: "2021-03-22T01:16:28.687Z".to_string(),
        product_id: "BTC-USD".to_string(),
        size: "0".to_string(),
        price: "56593.6".to_string(),
        side: "sell".to_string(),
    };
    assert!(matches!(coinbase_pro::parse_trade(MarketType::Spot, zero, "raw"), Err(ParseError::NotPositive)));
    let trades = coinbase_pro::parse_trade(MarketType::Spot, raw, "raw").unwrap();
    let t = &trades[0];
    assert_eq!("161659503", t.trade_id);
    assert_eq!(1616375788687, t.timestamp);
    assert_eq!(TradeSide::Sell, t.side);
    assert_eq!(dec("0.00020621"), t.quantity_base);
    assert!(t.quantity_quote.same_value(&Decimal::new(565936 * 20621, 9)));
    assert_eq!("raw", t.json);
    assert_eq!("-42", i64_text(-42));
    assert_eq!("0", i64_text(0));
    assert_eq!("-9223372036854775808", i64_text(i64::MIN));
}

#[test]
fn kucoin_trade() {
    let raw = ContractTrade {
        symbol: "XBTUSDTM".to_string(),
        sequence: 1620,
        side: "buy".to_string(),
        size: "3".to_string(),
        price: "56480.1".to_string(),
        ts: 1616376738087123456,
    };
    let trades = kucoin_swap::parse_trade(MarketType::LinearSwap, raw, "BTC/USDT", Some(dec("0.001")), "raw").unwrap();
    let t = &trades[0];
    assert_eq!(1616376738087, t.timestamp);
    assert_eq!("1620", t.trade_id);
    assert_eq!(TradeSide::Buy, t.side);
    assert!(t.quantity_base.same_value(&dec("0.003")));
    assert_eq!(Some(dec("3")), t.quantity_contract);
    assert_eq!(-1, kucoin_swap::ns_to_ms(-1_000_000));
}

#[test]
fn kucoin_trade_without_contract_value() {
    let raw = ContractTrade {
        symbol: "XBTUSDTM".to_string(),
        sequence: 1,
        side: "sell".to_string(),
        size: "3".to_string(),
        price: "56480.1".to_string(),
        ts: 1616376738087000000,
    };
    let r = kucoin_swap::parse_trade(MarketType::LinearSwap, raw, "BTC/USDT", None, "raw");
    assert!(matches!(r, Err(ParseError::NoQuantities)));
    let raw = ContractTrade {
        symbol: "XBTUSDTM".to_string(),
        sequence: 1,
        side: "sell".to_string(),
        size: "three".to_string(),
        price: "56480.1".to_string(),
        ts: 1616376738087000000,
    };
    let r = kucoin_swap::parse_trade(MarketType::LinearSwap, raw, "BTC/USDT", Some(dec("0.001")), "raw");
    assert!(matches!(r, Err(ParseError::BadNumber)));
    let zero = ContractTrade {
        symbol: "XBTUSDTM".to_string(),
        sequence: 1,
        side: "sell".to_string(),
        size: "0".to_string(),
        price: "1".to_string(),
        ts: 1616376738087000000,
    };
    let r = kucoin_swap::parse_trade(MarketType::LinearSwap, zero, "BTC/USDT", Some(dec("1")), "raw");
    assert!(matches!(r, Err(ParseError::NotPositive)));
    let early = ContractTrade {
        symbol: "XBTUSDTM".to_string(),
        sequence: 1,
        side: "sell".to_string(),
        size: "1".to_string(),
        price: "1".to_string(),
        ts: 0,
    };
    let r = kucoin_swap::parse_trade(MarketType::LinearSwap, early, "BTC/USDT", Some(dec("1")), "raw");
    assert!(matches!(r, Err(ParseError::BadTime)));
}

#[test]
fn kucoin_l2_change() {
    let raw = Level2Change {
        topic: "/contractMarket/level2:XBTUSDM".to_string(),
        sequence: 18,
        change: "5000.0,sell,83".to_string(),
        timestamp: 1551770400000,
    };
    let books = kucoin_swap::parse_l2(MarketType::InverseSwap, raw, "BTC/USD", Some(Decimal::new(1, 0)), "raw").unwrap();
    let b = &books[0];
    assert_eq!("XBTUSDM", b.symbol);
    assert_eq!(Some("XBTUSDM".to_string()), kucoin_swap::level2_symbol("/contractMarket/level2:XBTUSDM"));
    assert_eq!(None, kucoin_swap::level2_symbol("/contractMarket/execution:XBTUSDM"));
    assert_eq!(Some(18), b.seq_id);
    assert_eq!(1, b.asks.len());
    assert!(b.bids.is_empty());
    assert!(b.asks[0].quantity_quote.same_value(&dec("83")));
    let bad = Level2Change { topic: "/other:XBTUSDM".to_string(), sequence: 1, change: "1,buy,1".to_string(), timestamp: 1551770400000 };
    assert!(matches!(kucoin_swap::parse_l2(MarketType::InverseSwap, bad, "BTC/USD", None, "raw"), Err(ParseError::BadField)));
    let bad = Level2Change { topic: "/contractMarket/level2:X".to_string(), sequence: 1, change: "1,buy".to_string(), timestamp: 1551770400000 };
    assert!(matches!(kucoin_swap::parse_l2(MarketType::InverseSwap, bad, "BTC/USD", None, "raw"), Err(ParseError::BadField)));
    let early = Level2Change { topic: "/contractMarket/level2:X".to_string(), sequence: 1, change: "1,buy,1".to_string(), timestamp: 0 };
    assert!(matches!(kucoin_swap::parse_l2(MarketType::InverseSwap, early, "BTC/USD", Some(Decimal::new(1, 0)), "raw"), Err(ParseError::BadTime)));
    let zero = Level2Change { topic: "/contractMarket/level2:X".to_string(), sequence: 1, change: "0,buy,1".to_string(), timestamp: 1551770400000 };
    assert!(matches!(kucoin_swap::parse_l2(MarketType::InverseSwap, zero, "BTC/USD", Some(Decimal::new(1, 0)), "raw"), Err(ParseError::BadNumber)));
}

#[test]
fn coinbase_message_kinds_and_symbols() {
    assert!(coinbase_pro::is_snapshot(r#"{"type":"snapshot","product_id":"BTC-USD","asks":[],"bids":[]}"#));
    assert!(!coinbase_pro::is_snapshot(r#"{"type":"l2update","product_id":"BTC-USD","changes":[]}"#));
    assert!(!coinbase_pro::is_snapshot("[]"));
    assert_eq!(Some("BTC-USD".to_string()), coinbase_pro::extract_symbol(r#"{"type":"match","product_id":"BTC-USD"}"#));
    assert_eq!(None, coinbase_pro::extract_symbol(r#"{"type":"match"}"#));
}
