//! Bybit inverse perpetuals: candlestick channels.
use vstd::prelude::*;
use crate::text::owned;

verus! {

/// Bybit's name of a candlestick interval given in seconds.
pub open spec fn interval_name(interval: usize) -> Option<Seq<char>> {
    match interval {
        60 => Some("1"@),
        180 => Some("3"@),
        300 => Some("5"@),
        900 => Some("15"@),
        1800 => Some("30"@),
        3600 => Some("60"@),
        7200 => Some("120"@),
        14400 => Some("240"@),
        21600 => Some("360"@),
        86400 => Some("D"@),
        604800 => Some("W"@),
        2592000 => Some("M"@),
        _ => None,
    }
}

/// `klineV2.{interval}.{symbol}`, for an interval that Bybit offers.
pub fn to_candlestick_raw_channel(symbol: &str, interval: usize) -> (r: String)
    requires
        interval_name(interval) is Some,
    ensures
        r@ == "klineV2."@ + interval_name(interval)->0 + "."@ + symbol@,
{
    let name = match interval {
        60 => "1",
        180 => "3",
        300 => "5",
        900 => "15",
        1800 => "30",
        3600 => "60",
        7200 => "120",
        14400 => "240",
        21600 => "360",
        86400 => "D",
        604800 => "W",
        _ => "M",
    };
    let mut r = owned("klineV2.");
    r.append(name);
    r.append(".");
    r.append(symbol);
    r
}

} // verus!
