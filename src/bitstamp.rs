//! Bitstamp: channel names, subscription commands and message classes.
use vstd::prelude::*;
use crate::engine::MiscMessage;
use crate::json::{find_field, json_object_fields, lookup, object_fields};
use crate::text::{is_prefix, owned, starts_with, str_eq};

verus! {

/// The command for one channel; a channel that is already a JSON object is sent as it is.
pub open spec fn channel_command(channel: Seq<char>, subscribe: bool) -> Seq<char> {
    if is_prefix(channel, "{"@) {
        channel
    } else {
        "{\"event\":\"bts:"@ + (if subscribe {
            "subscribe"@
        } else {
            "unsubscribe"@
        }) + "\",\"data\":{\"channel\":\""@ + channel + "\"}}"@
    }
}

pub fn channel_to_command(channel: &str, subscribe: bool) -> (r: String)
    ensures
        r@ == channel_command(channel@, subscribe),
{
    if starts_with(channel, "{") {
        return owned(channel);
    }
    let mut r = owned("{\"event\":\"bts:");
    if subscribe {
        r.append("subscribe");
    } else {
        r.append("unsubscribe");
    }
    r.append("\",\"data\":{\"channel\":\"");
    r.append(channel);
    r.append("\"}}");
    r
}

/// One command per channel, in order.
pub fn channels_to_commands(channels: &Vec<String>, subscribe: bool) -> (r: Vec<String>)
    ensures
        r@.len() == channels@.len(),
        forall|i: int| 0 <= i < r@.len() ==> r@[i]@ == channel_command(channels@[i]@, subscribe),
{
    let mut r: Vec<String> = Vec::new();
    let mut i: usize = 0;
    while i < channels.len()
        invariant
            i <= channels@.len(),
            r@.len() == i,
            forall|j: int| 0 <= j < i ==> r@[j]@ == channel_command(channels@[j]@, subscribe),
        decreases channels@.len() - i,
    {
        r.push(channel_to_command(channels[i].as_str(), subscribe));
        i += 1;
    }
    r
}

/// `{channel}_{pair}`.
pub fn to_raw_channel(channel: &str, pair: &str) -> (r: String)
    ensures
        r@ == channel@ + "_"@ + pair@,
{
    let mut r = owned(channel);
    r.append("_");
    r.append(pair);
    r
}

/// How Bitstamp's messages are classified by their `event`: subscription results and
/// heartbeats are dropped; an error, or a request to reconnect (maintenance), ends the
/// connection; any other event is market data. A message that is no JSON object, or
/// has no string `event`, is dropped. An error event fails loudly without a panic: as
/// `Reconnect` it makes the engine exit the process, for a supervisor to restart it.
pub open spec fn misc_class(msg: Seq<char>) -> MiscMessage {
    match json_object_fields(msg) {
        None => MiscMessage::Misc,
        Some(fields) => match lookup(fields, "event"@) {
            Some(Some(event)) => if event == "bts:subscription_succeeded"@ || event
                == "bts:unsubscription_succeeded"@ || event == "bts:heartbeat"@ {
                MiscMessage::Misc
            } else if event == "bts:error"@ || event == "bts:request_reconnect"@ {
                MiscMessage::Reconnect
            } else {
                MiscMessage::Normal
            },
            _ => MiscMessage::Misc,
        },
    }
}

pub fn on_misc_msg(msg: &str) -> (r: MiscMessage)
    ensures
        r == misc_class(msg@),
{
    match object_fields(msg) {
        None => MiscMessage::Misc,
        Some(fields) => match find_field(&fields, "event") {
            Some(Some(event)) => {
                let e = event.as_str();
                if str_eq(e, "bts:subscription_succeeded") || str_eq(e, "bts:unsubscription_succeeded")
                    || str_eq(e, "bts:heartbeat") {
                    MiscMessage::Misc
                } else if str_eq(e, "bts:error") || str_eq(e, "bts:request_reconnect") {
                    MiscMessage::Reconnect
                } else {
                    MiscMessage::Normal
                }
            },
            _ => MiscMessage::Misc,
        },
    }
}

} // verus!
