//! Gate futures: channel names.
use vstd::prelude::*;
use crate::text::owned;

verus! {

/// Gate's name of a candlestick interval given in seconds.
pub open spec fn interval_name(interval: usize) -> Option<Seq<char>> {
    match interval {
        10 => Some("10s"@),
        60 => Some("1m"@),
        300 => Some("5m"@),
        900 => Some("15m"@),
        1800 => Some("30m"@),
        3600 => Some("1h"@),
        14400 => Some("4h"@),
        28800 => Some("8h"@),
        86400 => Some("1d"@),
        604800 => Some("7d"@),
        _ => None,
    }
}

/// `{channel}:{pair}`: a channel and its payload.
pub fn to_raw_channel(channel: &str, pair: &str) -> (r: String)
    ensures
        r@ == channel@ + ":"@ + pair@,
{
    let mut r = owned(channel);
    r.append(":");
    r.append(pair);
    r
}

/// `futures.candlesticks:{interval}_{pair}`, for an interval that Gate offers.
pub fn to_candlestick_raw_channel(pair: &str, interval: usize) -> (r: String)
    requires
        interval_name(interval) is Some,
    ensures
        r@ == "futures.candlesticks:"@ + interval_name(interval)->0 + "_"@ + pair@,
{
    let name = match interval {
        10 => "10s",
        60 => "1m",
        300 => "5m",
        900 => "15m",
        1800 => "30m",
        3600 => "1h",
        14400 => "4h",
        28800 => "8h",
        86400 => "1d",
        _ => "7d",
    };
    let mut r = owned("futures.candlesticks:");
    r.append(name);
    r.append("_");
    r.append(pair);
    r
}

} // verus!
