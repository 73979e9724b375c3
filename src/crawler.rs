//! Which crawler serves the streams that have no channel of their own.
use vstd::prelude::*;
use crate::text::str_eq;

verus! {

/// The exchanges with a crawler for their other streams.
#[derive(PartialEq, Eq, Structural, Clone, Copy, Debug)]
pub enum OtherCrawler {
    Binance,
    Bitmex,
    Bybit,
    CoinbasePro,
    Huobi,
}

pub open spec fn other_crawler(exchange: Seq<char>) -> Option<OtherCrawler> {
    if exchange == "binance"@ {
        Some(OtherCrawler::Binance)
    } else if exchange == "bitmex"@ {
        Some(OtherCrawler::Bitmex)
    } else if exchange == "bybit"@ {
        Some(OtherCrawler::Bybit)
    } else if exchange == "coinbase_pro"@ {
        Some(OtherCrawler::CoinbasePro)
    } else if exchange == "huobi"@ {
        Some(OtherCrawler::Huobi)
    } else {
        None
    }
}

/// The crawler for `exchange`'s other streams. `None` for an exchange without one is
/// this library's loud error for that request: the caller is to fail on it (the runner
/// in this crate's application layer panics with the exchange's name).
pub fn crawl_other(exchange: &str) -> (r: Option<OtherCrawler>)
    ensures
        r == other_crawler(exchange@),
{
    if str_eq(exchange, "binance") {
        Some(OtherCrawler::Binance)
    } else if str_eq(exchange, "bitmex") {
        Some(OtherCrawler::Bitmex)
    } else if str_eq(exchange, "bybit") {
        Some(OtherCrawler::Bybit)
    } else if str_eq(exchange, "coinbase_pro") {
        Some(OtherCrawler::CoinbasePro)
    } else if str_eq(exchange, "huobi") {
        Some(OtherCrawler::Huobi)
    } else {
        None
    }
}

} // verus!
