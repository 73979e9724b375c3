use crypto_crawler::contract_value::{gate_multiplier, get_contract_value, okex_is_linear, ContractTable};
use crypto_crawler::decimal::{parse_decimal, Decimal};
use crypto_crawler::market::MarketType;
use crypto_crawler::order::Order;
use crypto_crawler::quantity::calc_quantity_and_volume;

fn value(d: Decimal) -> f64 {
    d.mantissa as f64 / 10f64.powi(d.scale as i32)
}

fn dec(s: &str) -> Decimal {
    parse_decimal(s).unwrap()
}

fn dec_of(x: f64) -> Decimal {
    let text = x.to_string();
    parse_decimal(&text).unwrap()
}

#[test]
fn decimals_parse() {
    assert_eq!(Some(Decimal::new(565936, 1)), parse_decimal("56593.6"));
    assert_eq!(Some(Decimal::new(20, 0)), parse_decimal("20"));
    assert_eq!(Some(Decimal::new(20621, 8)), parse_decimal("0.00020621"));
    assert_eq!(None, parse_decimal(""));
    assert_eq!(None, parse_decimal(".5"));
    assert_eq!(None, parse_decimal("5."));
    assert_eq!(None, parse_decimal("1.2.3"));
    assert_eq!(None, parse_decimal("-1"));
    assert_eq!(None, parse_decimal("1e5"));
    assert_eq!(Some(Decimal::new(18446744073709551615, 0)), parse_decimal("18446744073709551615"));
    assert_eq!(None, parse_decimal("18446744073709551616"));
    assert_eq!(None, parse_decimal("0.0000000000000000001"));
    assert!(dec("3460.0").same_value(&dec("3460")));
    assert!(!dec("3460.1").same_value(&dec("3460")));
}

#[test]
fn order_serialize() {
    let order = Order {
        price: dec("59999.8"),
        quantity_base: dec("1.7"),
        quantity_quote: Decimal::new(599998 * 17, 2),
        quantity_contract: Some(dec("1.7")),
    };
    let numbers: Vec<f64> = order.serialize().into_iter().map(value).collect();
    let text = serde_json::to_string(&numbers).unwrap();
    assert_eq!(text.as_str(), "[59999.8,1.7,101999.66,1.7]");
}

#[test]
fn order_deserialize() {
    let expected = Order {
        price: dec("59999.8"),
        quantity_base: dec("1.7"),
        quantity_quote: Decimal::new(599998 * 17, 2),
        quantity_contract: Some(dec("1.7")),
    };
    let numbers = serde_json::from_str::<Vec<f64>>("[59999.8,1.7,101999.66,1.7]").unwrap();
    let wire: Vec<Decimal> = numbers.into_iter().map(dec_of).collect();
    let actual = Order::deserialize(&wire).unwrap();
    assert_eq!(expected.price, actual.price);
    assert_eq!(expected.quantity_base, actual.quantity_base);
    assert_eq!(expected.quantity_quote, actual.quantity_quote);
    assert_eq!(expected.quantity_contract, actual.quantity_contract);
}

#[test]
fn orders_round_trip_with_and_without_contracts() {
    let spot = Order { price: dec("38930"), quantity_base: dec("3.84264467"), quantity_quote: dec("149594.1569"), quantity_contract: None };
    assert_eq!(3, spot.serialize().len());
    assert_eq!(Some(spot), Order::deserialize(&spot.serialize()));
    let swap = Order { quantity_contract: Some(dec("13")), ..spot };
    assert_eq!(4, swap.serialize().len());
    assert_eq!(Some(swap), Order::deserialize(&swap.serialize()));
    assert_eq!(None, Order::deserialize(&vec![dec("1"), dec("2")]));
    assert_eq!(None, Order::deserialize(&vec![dec("1"), dec("2"), dec("3"), dec("4"), dec("5")]));
}

#[test]
fn okex_linear_future_quantities() {
    let table = ContractTable::offline("okex");
    let cv = get_contract_value("okex", MarketType::LinearFuture, "BTC/USDT", &table);
    assert_eq!(Some(dec("0.01")), cv);
    let q = calc_quantity_and_volume(MarketType::LinearFuture, cv, dec("60059.7"), dec("20")).unwrap();
    assert_eq!(Some(dec("20")), q.contract);
    assert!(q.base.same_value(&dec("0.2")));
    assert!(q.quote.same_value(&dec("12011.94")));
    assert!((value(q.quote) - 20.0 * 0.01 * 60059.7).abs() < 0.001);
}

#[test]
fn okex_inverse_swap_quantities() {
    let table = ContractTable::offline("okex");
    let cv = get_contract_value("okex", MarketType::InverseSwap, "BTC/USD", &table);
    assert_eq!(Some(Decimal::new(100, 0)), cv);
    let q = calc_quantity_and_volume(MarketType::InverseSwap, cv, dec("56535.9"), dec("1")).unwrap();
    assert!(q.quote.same_value(&dec("100")));
    assert_eq!(Some(dec("1")), q.contract);
    assert_eq!(Decimal::new(1768787619901690, 18), q.base);
    assert!((value(q.base) - 100.0 / 56535.9).abs() < 1e-15);
    let quote = value(q.quote);
    assert!((quote - value(dec("56535.9")) * value(q.base)).abs() < 1e-10 * quote);
    assert_eq!(Some(Decimal::new(10, 0)), get_contract_value("okex", MarketType::InverseFuture, "ETH/USD", &table));
}

#[test]
fn okex_option_quantities() {
    let table = ContractTable::offline("okex");
    let cv = get_contract_value("okex", MarketType::EuropeanOption, "BTC/USD", &table);
    let q = calc_quantity_and_volume(MarketType::EuropeanOption, cv, dec("0.1545"), dec("4")).unwrap();
    assert!(q.base.same_value(&dec("0.4")));
    assert!(q.quote.same_value(&dec("0.0618")));
    assert_eq!(Some(dec("4")), q.contract);
}

#[test]
fn spot_quantities_and_missing_contract_values() {
    let q = calc_quantity_and_volume(MarketType::Spot, None, dec("56593.6"), dec("0.00020621")).unwrap();
    assert_eq!(dec("0.00020621"), q.base);
    assert!(q.quote.same_value(&Decimal::new(565936 * 20621, 9)));
    assert_eq!(None, q.contract);
    assert_eq!(None, calc_quantity_and_volume(MarketType::LinearSwap, None, dec("1"), dec("1")));
    assert_eq!(None, calc_quantity_and_volume(MarketType::QuantoSwap, Some(dec("1")), dec("1"), dec("1")));
    assert_eq!(None, calc_quantity_and_volume(MarketType::InverseSwap, Some(dec("1")), dec("0"), dec("1")));
    assert_eq!(None, calc_quantity_and_volume(MarketType::LinearSwap, Some(dec("0")), dec("1"), dec("1")));
    assert_eq!(None, calc_quantity_and_volume(MarketType::InverseSwap, Some(dec("0")), dec("1"), dec("1")));
    // a price more than 10^8 times the quote cannot keep the cut base within 10^-10
    assert_eq!(None, calc_quantity_and_volume(MarketType::InverseSwap, Some(dec("1")), dec("100000001"), dec("1")));
    assert!(calc_quantity_and_volume(MarketType::InverseSwap, Some(dec("1")), dec("100000000"), dec("1")).is_some());
    // a removed level: zero size, zero quote, zero base
    let removed = calc_quantity_and_volume(MarketType::InverseSwap, Some(dec("1")), dec("56535.9"), dec("0")).unwrap();
    assert_eq!(0, removed.base.mantissa);
}

#[test]
fn contract_values_by_exchange() {
    let gate = ContractTable::offline("gate");
    assert_eq!(Some(dec("0.0001")), get_contract_value("gate", MarketType::LinearSwap, "BTC/USDT", &gate));
    assert_eq!(Some(dec("0.0001")), get_contract_value("gate", MarketType::LinearFuture, "BTC/USDT", &gate));
    assert_eq!(Some(Decimal::new(1, 0)), get_contract_value("gate", MarketType::InverseSwap, "BTC/USD", &gate));
    let kucoin = ContractTable::offline("kucoin");
    assert_eq!(Some(dec("0.001")), get_contract_value("kucoin", MarketType::LinearSwap, "BTC/USDT", &kucoin));
    assert_eq!(None, get_contract_value("kucoin", MarketType::LinearFuture, "BTC/USDT", &kucoin));
    assert_eq!(None, get_contract_value("bitstamp", MarketType::Spot, "BTC/USD", &kucoin));
    assert_eq!(Decimal::new(1, 0), gate_multiplier(Decimal::new(0, 0)));
    assert_eq!(dec("0.01"), gate_multiplier(dec("0.01")));
    assert!(okex_is_linear("false"));
    assert!(!okex_is_linear("true"));
}
