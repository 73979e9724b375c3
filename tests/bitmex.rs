use crypto_crawler::bitmex::{
    self, get_market_type_from_symbol, id_to_price, price_to_id, tick_entries_from_page, ListedInstrument,
    RawFundingRate, RawOrder, RawTrade, TickEntry, TickTable,
};
use crypto_crawler::decimal::{parse_decimal, Decimal};
use crypto_crawler::market::{MarketType, TradeSide};
use crypto_crawler::msg::{ParseError, Rate};

fn value(d: Decimal) -> f64 {
    d.mantissa as f64 / 10f64.powi(d.scale as i32)
}

fn dec(s: &str) -> Decimal {
    parse_decimal(s).unwrap()
}

#[test]
fn test_id_to_price() {
    let t = TickTable::offline();
    assert_eq!(51366.5, value(id_to_price(&t, "XBTUSD", 8794863350).unwrap()));
    assert_eq!(51306.0, value(id_to_price(&t, "XBTUSD", 8794869400).unwrap()));

    assert_eq!(3460.0, value(id_to_price(&t, "ETHUSD", 29699930800).unwrap()));
    assert_eq!(3451.0, value(id_to_price(&t, "ETHUSD", 29699930980).unwrap()));

    assert_eq!(0.07369, value(id_to_price(&t, "ETHZ21", 63399992631).unwrap()));
    assert_eq!(0.07216, value(id_to_price(&t, "ETHZ21", 63399992784).unwrap()));
}

#[test]
fn test_price_to_id() {
    let t = TickTable::offline();
    assert_eq!(8794863350, price_to_id(&t, "XBTUSD", dec("51366.5")).unwrap());
    assert_eq!(8794869400, price_to_id(&t, "XBTUSD", dec("51306.0")).unwrap());

    assert_eq!(29699930800, price_to_id(&t, "ETHUSD", dec("3460.0")).unwrap());
    assert_eq!(29699930980, price_to_id(&t, "ETHUSD", dec("3451.0")).unwrap());

    assert_eq!(63399992631, price_to_id(&t, "ETHZ21", dec("0.07369")).unwrap());
    assert_eq!(63399992784, price_to_id(&t, "ETHZ21", dec("0.07216")).unwrap());
}

#[test]
fn id_price_round_trip_on_and_off_ticks() {
    let t = TickTable::offline();
    for (symbol, price) in [("XBTUSD", "51366.5"), ("ETHUSD", "3451.05"), ("ETHZ21", "0.07369")] {
        let p = dec(price);
        let back = id_to_price(&t, symbol, price_to_id(&t, symbol, p).unwrap()).unwrap();
        assert!(back.same_value(&p));
    }
    // 3451.02 is not on ETHUSD's tick of 0.05: it comes back as the tick above
    let back = id_to_price(&t, "ETHUSD", price_to_id(&t, "ETHUSD", dec("3451.02")).unwrap()).unwrap();
    assert!(back.same_value(&dec("3451.05")));
}

#[test]
fn unknown_symbols_and_ids_beyond_range() {
    let t = TickTable::offline();
    assert_eq!(None, id_to_price(&t, "NOSUCH", 1));
    assert_eq!(None, price_to_id(&t, "NOSUCH", dec("1")));
    assert_eq!(None, id_to_price(&t, "XBTUSD", 8800000001));
    assert_eq!(Some(Decimal::new(0, 2)), id_to_price(&t, "XBTUSD", 8800000000));
}

#[test]
fn tick_table_insert_replaces() {
    let mut t = TickTable::new();
    t.insert(TickEntry { symbol: "ABC".to_string(), index: 1, tick_size: dec("0.5") });
    t.insert(TickEntry { symbol: "ABC".to_string(), index: 2, tick_size: dec("0.1") });
    assert_eq!(Some((2, dec("0.1"))), t.lookup("ABC"));
    let parsed = TickTable::parse("AAA 3 0.01\nbad line\nBBB x 1\nCCC 4 0");
    assert_eq!(Some((3, dec("0.01"))), parsed.lookup("AAA"));
    assert_eq!(None, parsed.lookup("BBB"));
    assert_eq!(None, parsed.lookup("CCC"));
}

#[test]
fn listing_pages() {
    let page = vec![
        ListedInstrument { symbol: ".BXBT".to_string(), tick_size: dec("0.01") },
        ListedInstrument { symbol: "XBTUSD".to_string(), tick_size: dec("0.5") },
        ListedInstrument { symbol: "ETHUSD".to_string(), tick_size: dec("0.05") },
    ];
    let entries = tick_entries_from_page(500, &page);
    assert_eq!(2, entries.len());
    assert_eq!("XBTUSD", entries[0].symbol);
    assert_eq!(501, entries[0].index);
    assert_eq!(Decimal::new(1, 2), entries[0].tick_size);
    assert_eq!(502, entries[1].index);
    assert_eq!(dec("0.05"), entries[1].tick_size);
    assert!(bitmex::page_continues(500));
    assert!(!bitmex::page_continues(499));
}

#[test]
fn market_types_of_symbols() {
    assert_eq!(MarketType::InverseSwap, get_market_type_from_symbol("XBTUSD"));
    assert_eq!(MarketType::QuantoSwap, get_market_type_from_symbol("ETHUSD"));
    assert_eq!(MarketType::InverseFuture, get_market_type_from_symbol("XBTZ21"));
    assert_eq!(MarketType::QuantoFuture, get_market_type_from_symbol("ETHZ21"));
    assert_eq!(MarketType::QuantoFuture, get_market_type_from_symbol("ETHUSDZ21"));
    assert_eq!(MarketType::Unknown, get_market_type_from_symbol("X1"));
}

fn raw_trade(side: &str) -> RawTrade {
    RawTrade {
        timestamp: "2021-03-22T01:32:18.087Z".to_string(),
        symbol: "XBTUSD".to_string(),
        pair: "BTC/USD".to_string(),
        side: side.to_string(),
        size: "100".to_string(),
        price: "57000.5".to_string(),
        trd_match_id: "5e3fc2cd-8b96-5a1d-8b86-3b7f4a2c3d5e".to_string(),
        home_notional: "0.00175437".to_string(),
        foreign_notional: "100".to_string(),
        json: "{}".to_string(),
    }
}

#[test]
fn bitmex_trades() {
    let msg = r#"{"table":"trade","action":"insert","data":[]}"#;
    let trades = bitmex::parse_trade(MarketType::Unknown, &vec![raw_trade("Sell")], msg).unwrap();
    assert_eq!(1, trades.len());
    let t = &trades[0];
    assert_eq!("bitmex", t.exchange);
    assert_eq!(MarketType::InverseSwap, t.market_type);
    assert_eq!(1616376738087, t.timestamp);
    assert_eq!(13, t.timestamp.to_string().len());
    assert_eq!(TradeSide::Sell, t.side);
    assert_eq!(Some(dec("100")), t.quantity_contract);
    assert_eq!(dec("0.00175437"), t.quantity_base);
    assert_eq!(msg, t.json);
    let trades = bitmex::parse_trade(MarketType::InverseSwap, &vec![raw_trade("Buy"), raw_trade("Sell")], msg).unwrap();
    assert_eq!(2, trades.len());
    assert_eq!(TradeSide::Buy, trades[0].side);
    assert_eq!("{}", trades[0].json);
    let mut bad = raw_trade("Buy");
    bad.timestamp = "yesterday".to_string();
    assert!(bitmex::parse_trade(MarketType::InverseSwap, &vec![bad], msg).is_err());
    let mut zero = raw_trade("Buy");
    zero.home_notional = "0".to_string();
    assert!(bitmex::parse_trade(MarketType::InverseSwap, &vec![zero], msg).is_err());
    let mut early = raw_trade("Buy");
    early.timestamp = "1970-01-01T00:00:01.000Z".to_string();
    assert!(bitmex::parse_trade(MarketType::InverseSwap, &vec![early], msg).is_err());
}

#[test]
fn bitmex_l2_prices_from_ids() {
    let t = TickTable::offline();
    let raws = vec![
        RawOrder { symbol: "XBTUSD".to_string(), id: 8794863350, side: "Sell".to_string(), size: Some("1000".to_string()), price: None },
        RawOrder { symbol: "XBTUSD".to_string(), id: 8794869400, side: "Buy".to_string(), size: None, price: None },
        RawOrder { symbol: "XBTUSD".to_string(), id: 1, side: "Buy".to_string(), size: Some("5".to_string()), price: Some("51306.5".to_string()) },
    ];
    let one = Some(Decimal::new(1, 0));
    let books = bitmex::parse_l2(MarketType::InverseSwap, "partial", &raws, "BTC/USD", one, &t, "{}", 1622723951253).unwrap();
    assert_eq!(1, books.len());
    let b = &books[0];
    assert!(b.snapshot);
    assert_eq!(1, b.asks.len());
    assert_eq!(2, b.bids.len());
    assert!(b.asks[0].price.same_value(&dec("51366.5")));
    assert_eq!(Some(dec("1000")), b.asks[0].quantity_contract);
    assert!(b.asks[0].quantity_quote.same_value(&dec("1000")));
    assert!(b.bids[0].quantity_base.same_value(&dec("0")));
    assert!(b.bids[1].price.same_value(&dec("51306.5")));
    let empty = bitmex::parse_l2(MarketType::InverseSwap, "update", &Vec::new(), "BTC/USD", one, &t, "{}", 1).unwrap();
    assert!(empty.is_empty());
    let unknown = vec![RawOrder { symbol: "NOSUCH".to_string(), id: 1, side: "Sell".to_string(), size: None, price: None }];
    assert!(matches!(
        bitmex::parse_l2(MarketType::InverseSwap, "update", &unknown, "X/Y", one, &t, "{}", 1622723951253),
        Err(ParseError::BadField)
    ));
    assert!(matches!(
        bitmex::parse_l2(MarketType::InverseSwap, "update", &raws, "BTC/USD", one, &t, "{}", 1),
        Err(ParseError::BadTime)
    ));
    let zero = vec![RawOrder { symbol: "XBTUSD".to_string(), id: 1, side: "Buy".to_string(), size: Some("1".to_string()), price: Some("0".to_string()) }];
    assert!(matches!(
        bitmex::parse_l2(MarketType::InverseSwap, "update", &zero, "BTC/USD", one, &t, "{}", 1622723951253),
        Err(ParseError::BadField)
    ));
}

#[test]
fn bitmex_funding_rates() {
    let raws = vec![RawFundingRate {
        timestamp: "2021-04-02T04:00:00.000Z".to_string(),
        symbol: "XBTUSD".to_string(),
        pair: "BTC/USD".to_string(),
        funding_rate: "-0.000375".to_string(),
        json: "{}".to_string(),
    }];
    let rates = bitmex::parse_funding_rate(MarketType::Unknown, &raws, "msg", 1617336000123).unwrap();
    assert_eq!(1, rates.len());
    assert_eq!(Rate { negative: true, magnitude: dec("0.000375") }, rates[0].funding_rate);
    assert_eq!(1617336000000, rates[0].funding_time);
    assert_eq!(0, rates[0].funding_time % (4 * 3600000));
    assert_eq!(MarketType::InverseSwap, rates[0].market_type);
    assert_eq!("msg", rates[0].json);
    let with = |rate: &str, time: &str| {
        vec![RawFundingRate {
            timestamp: time.to_string(),
            symbol: "XBTUSD".to_string(),
            pair: "BTC/USD".to_string(),
            funding_rate: rate.to_string(),
            json: "{}".to_string(),
        }]
    };
    let aligned = "2021-04-02T04:00:00.000Z";
    assert!(matches!(bitmex::parse_funding_rate(MarketType::InverseSwap, &with("5", aligned), "m", 1617336000123), Err(ParseError::OutOfRange)));
    assert!(matches!(bitmex::parse_funding_rate(MarketType::InverseSwap, &with("-1.0", aligned), "m", 1617336000123), Err(ParseError::OutOfRange)));
    assert!(bitmex::parse_funding_rate(MarketType::InverseSwap, &with("0.99", aligned), "m", 1617336000123).is_ok());
    assert!(matches!(
        bitmex::parse_funding_rate(MarketType::InverseSwap, &with("0.0001", "2021-04-02T05:00:00.000Z"), "m", 1617336000123),
        Err(ParseError::OutOfRange)
    ));
    assert!(matches!(bitmex::parse_funding_rate(MarketType::InverseSwap, &with("0.0001", aligned), "m", 1), Err(ParseError::BadTime)));
}

#[test]
fn bitmex_symbols() {
    assert_eq!(Some("XBTUSD".to_string()), bitmex::extract_symbol(&vec!["XBTUSD".to_string(), "ETHUSD".to_string()]));
    assert_eq!(None, bitmex::extract_symbol(&Vec::new()));
}
