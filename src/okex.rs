//! OKEx (v3 API): channel names, subscription commands and message classes.
use vstd::prelude::*;
use crate::engine::MiscMessage;
use crate::json::{find_field, json_object_fields, json_string_array, lookup, object_fields, to_json_strings};
use crate::text::{clone_range, ends_with, is_suffix, owned, str_eq, utf8_len, utf8_length, views};

verus! {

/// The largest frame OKEx accepts, in bytes.
pub const WS_FRAME_SIZE: usize = 65536;

pub open spec fn op_name(subscribe: bool) -> Seq<char> {
    if subscribe {
        "subscribe"@
    } else {
        "unsubscribe"@
    }
}

/// The command that subscribes to, or unsubscribes from, `topics`.
pub open spec fn topics_command(topics: Seq<Seq<char>>, subscribe: bool) -> Seq<char> {
    "{\"op\":\""@ + op_name(subscribe) + "\",\"args\":"@ + json_string_array(topics) + "}"@
}

/// Where the batch that starts at `start` ends, its end not below `end`: a batch grows
/// while the command for one channel more still fits in a frame.
pub open spec fn batch_end(channels: Seq<Seq<char>>, subscribe: bool, start: int, end: int) -> int
    decreases channels.len() - end,
{
    if end >= channels.len() {
        channels.len() as int
    } else if utf8_len(topics_command(channels.subrange(start, end + 1), subscribe)) > WS_FRAME_SIZE {
        end
    } else {
        batch_end(channels, subscribe, start, end + 1)
    }
}

/// The commands for `channels[start..]`, one per batch.
pub open spec fn batched_commands(channels: Seq<Seq<char>>, subscribe: bool, start: int) -> Seq<Seq<char>>
    decreases channels.len() - start,
{
    if start < 0 || start >= channels.len() {
        Seq::empty()
    } else {
        let end = batch_end(channels, subscribe, start, start + 1);
        if end <= start || end > channels.len() {
            Seq::empty()
        } else {
            seq![topics_command(channels.subrange(start, end), subscribe)]
                + batched_commands(channels, subscribe, end)
        }
    }
}

/// The command for one batch of topics.
pub fn topics_to_command(chunk: &Vec<String>, subscribe: bool) -> (r: String)
    ensures
        r@ == topics_command(views(chunk@), subscribe),
{
    let mut r = owned("{\"op\":\"");
    if subscribe {
        r.append("subscribe");
    } else {
        r.append("unsubscribe");
    }
    r.append("\",\"args\":");
    let args = to_json_strings(chunk);
    r.append(args.as_str());
    r.append("}");
    r
}

/// Turns channels into commands, as few as fit in OKEx's frames: each batch takes
/// channels while the command for one more stays within `WS_FRAME_SIZE` bytes.
pub fn channels_to_commands(channels: &Vec<String>, subscribe: bool) -> (r: Vec<String>)
    ensures
        views(r@) == batched_commands(views(channels@), subscribe, 0),
{
    let ghost chs = views(channels@);
    let n = channels.len();
    let mut out: Vec<String> = Vec::new();
    let mut begin: usize = 0;
    while begin < n
        invariant
            n == channels@.len(),
            chs == views(channels@),
            chs.len() == n,
            begin <= n,
            batched_commands(chs, subscribe, 0) == views(out@) + batched_commands(chs, subscribe, begin as int),
        decreases n - begin,
    {
        let mut end: usize = begin + 1;
        let mut full = false;
        while end < n && !full
            invariant
                begin < end <= n,
                n == channels@.len(),
                chs == views(channels@),
                full ==> batch_end(chs, subscribe, begin as int, begin + 1) == end,
                !full ==> batch_end(chs, subscribe, begin as int, begin + 1) == batch_end(
                    chs,
                    subscribe,
                    begin as int,
                    end as int,
                ),
            decreases n - end + (if full { 0int } else { 1int }),
        {
            let next = clone_range(channels, begin, end + 1);
            let cmd = topics_to_command(&next, subscribe);
            if utf8_length(cmd.as_str()) > WS_FRAME_SIZE as u128 {
                full = true;
            } else {
                end += 1;
            }
        }
        assert(batch_end(chs, subscribe, begin as int, begin + 1) == end);
        let chunk = clone_range(channels, begin, end);
        let cmd = topics_to_command(&chunk, subscribe);
        let ghost before = out@;
        out.push(cmd);
        assert(views(out@) =~= views(before).push(cmd@));
        assert(views(out@) + batched_commands(chs, subscribe, end as int) =~= views(before) + batched_commands(chs, subscribe, begin as int));
        begin = end;
    }
    assert(views(out@) + batched_commands(chs, subscribe, begin as int) =~= views(out@));
    out
}

/// The kind of market an OKEx instrument trades in, as its channels name it.
pub open spec fn market_of(pair: Seq<char>) -> Seq<char> {
    if is_suffix(pair, "-SWAP"@) {
        "swap"@
    } else if pair.filter(|c: char| c == '-').len() == 1 {
        "spot"@
    } else if pair.filter(|c: char| c == '-').len() == 2 {
        "futures"@
    } else {
        "option"@
    }
}

/// How many times `c` stands in `s`.
fn count_char(s: &str, c: char) -> (r: usize)
    ensures
        r == s@.filter(|x: char| x == c).len(),
{
    let n = s.unicode_len();
    let mut k: usize = 0;
    let mut i: usize = 0;
    while i < n
        invariant
            n == s@.len(),
            i <= n,
            k <= i,
            k == s@.subrange(0, i as int).filter(|x: char| x == c).len(),
        decreases n - i,
    {
        let ghost pre = s@.subrange(0, i as int);
        assert(s@.subrange(0, i + 1) =~= pre.push(s@[i as int]));
        proof {
            assert(pre.push(s@[i as int]).filter(|x: char| x == c) == if s@[i as int] == c {
                pre.filter(|x: char| x == c).push(s@[i as int])
            } else {
                pre.filter(|x: char| x == c)
            }) by {
                reveal(Seq::filter);
                assert(pre.push(s@[i as int]).drop_last() =~= pre);
            }
        }
        if s.get_char(i) == c {
            k += 1;
        }
        i += 1;
    }
    assert(s@.subrange(0, n as int) =~= s@);
    k
}

/// The market part of an instrument's channels: `BTC-USDT` trades in `spot`,
/// `BTC-USDT-210625` in `futures`, `BTC-USDT-SWAP` in `swap`, `BTC-USD-210625-72000-C` in
/// `option`.
pub fn pair_to_market_type(pair: &str) -> (r: &'static str)
    ensures
        r@ == market_of(pair@),
{
    if ends_with(pair, "-SWAP") {
        "swap"
    } else {
        let c = count_char(pair, '-');
        if c == 1 {
            "spot"
        } else if c == 2 {
            "futures"
        } else {
            "option"
        }
    }
}

/// `{market}/{channel}:{pair}`.
pub open spec fn raw_channel(channel: Seq<char>, pair: Seq<char>) -> Seq<char> {
    market_of(pair) + "/"@ + channel + ":"@ + pair
}

pub fn to_raw_channel(channel: &str, pair: &str) -> (r: String)
    ensures
        r@ == raw_channel(channel@, pair@),
{
    let mut r = owned(pair_to_market_type(pair));
    r.append("/");
    r.append(channel);
    r.append(":");
    r.append(pair);
    r
}

/// The candlestick intervals OKEx offers, in seconds, with their channel names.
pub open spec fn candle_channel(interval: usize) -> Option<Seq<char>> {
    match interval {
        60 => Some("candle60s"@),
        180 => Some("candle180s"@),
        300 => Some("candle300s"@),
        900 => Some("candle900s"@),
        1800 => Some("candle1800s"@),
        3600 => Some("candle3600s"@),
        7200 => Some("candle7200s"@),
        14400 => Some("candle14400s"@),
        21600 => Some("candle21600s"@),
        43200 => Some("candle43200s"@),
        86400 => Some("candle86400s"@),
        604800 => Some("candle604800s"@),
        _ => None,
    }
}

/// The candlestick channel of `pair` at `interval` seconds, one that OKEx offers.
pub fn to_candlestick_raw_channel(pair: &str, interval: usize) -> (r: String)
    requires
        candle_channel(interval) is Some,
    ensures
        r@ == raw_channel(candle_channel(interval)->0, pair@),
{
    let channel = match interval {
        60 => "candle60s",
        180 => "candle180s",
        300 => "candle300s",
        900 => "candle900s",
        1800 => "candle1800s",
        3600 => "candle3600s",
        7200 => "candle7200s",
        14400 => "candle14400s",
        21600 => "candle21600s",
        43200 => "candle43200s",
        86400 => "candle86400s",
        _ => "candle604800s",
    };
    to_raw_channel(channel, pair)
}

/// How OKEx's messages are classified: `pong` answers a ping; an object with an `event`
/// (a subscription result or an error), one that lacks `table` or `data`, and any text
/// that is no JSON object are dropped; the rest is market data.
pub open spec fn misc_class(msg: Seq<char>) -> MiscMessage {
    if msg == "pong"@ {
        MiscMessage::Pong
    } else {
        match json_object_fields(msg) {
            None => MiscMessage::Misc,
            Some(fields) => if lookup(fields, "event"@) is Some {
                MiscMessage::Misc
            } else if lookup(fields, "table"@) is None || lookup(fields, "data"@) is None {
                MiscMessage::Misc
            } else {
                MiscMessage::Normal
            },
        }
    }
}

pub fn on_misc_msg(msg: &str) -> (r: MiscMessage)
    ensures
        r == misc_class(msg@),
{
    if str_eq(msg, "pong") {
        return MiscMessage::Pong;
    }
    match object_fields(msg) {
        None => MiscMessage::Misc,
        Some(fields) => {
            if find_field(&fields, "event").is_some() {
                MiscMessage::Misc
            } else if find_field(&fields, "table").is_none() || find_field(&fields, "data").is_none() {
                MiscMessage::Misc
            } else {
                MiscMessage::Normal
            }
        },
    }
}

} // verus!
