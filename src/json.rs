//! What the library reads from, and writes as, JSON text.
use vstd::prelude::*;
use crate::text::views;

verus! {

/// A lower-case hexadecimal digit.
pub open spec fn hex_digit(n: u32) -> char {
    if n < 10 {
        (('0' as u32) + n) as char
    } else {
        (('a' as u32) + n - 10) as char
    }
}

/// A character inside a JSON string, as serde_json escapes it: the quote and the
/// backslash with a backslash, five control characters by their short names, the other
/// control characters as `\u00XX`, and every other character as it is.
pub open spec fn escaped_char(c: char) -> Seq<char> {
    let v = c as u32;
    if c == '"' {
        seq!['\\', '"']
    } else if c == '\\' {
        seq!['\\', '\\']
    } else if v == 8 {
        seq!['\\', 'b']
    } else if v == 9 {
        seq!['\\', 't']
    } else if v == 10 {
        seq!['\\', 'n']
    } else if v == 12 {
        seq!['\\', 'f']
    } else if v == 13 {
        seq!['\\', 'r']
    } else if v < 32 {
        seq!['\\', 'u', '0', '0', hex_digit(v / 16), hex_digit(v % 16)]
    } else {
        seq![c]
    }
}

pub open spec fn escaped(s: Seq<char>) -> Seq<char>
    decreases s.len(),
{
    if s.len() == 0 {
        Seq::empty()
    } else {
        escaped(s.drop_last()) + escaped_char(s.last())
    }
}

/// The JSON string of `s`.
pub open spec fn quoted(s: Seq<char>) -> Seq<char> {
    seq!['"'] + escaped(s) + seq!['"']
}

/// The JSON strings of `items`, separated by commas.
pub open spec fn joined(items: Seq<Seq<char>>) -> Seq<char>
    decreases items.len(),
{
    if items.len() == 0 {
        Seq::empty()
    } else if items.len() == 1 {
        quoted(items[0])
    } else {
        joined(items.drop_last()) + seq![','] + quoted(items.last())
    }
}

/// The JSON text of an array of strings, as serde_json writes it.
pub open spec fn json_string_array(items: Seq<Seq<char>>) -> Seq<char> {
    seq!['['] + joined(items) + seq![']']
}

/// The members of the JSON object that `text` holds, in serde_json's order of keys, each
/// with its value where that value is a string; `None` where `text` is no JSON object.
pub uninterp spec fn json_object_fields(text: Seq<char>) -> Option<Seq<(Seq<char>, Option<Seq<char>>)>>;

/// One member of a JSON object: its key, and its value where that value is a string.
pub struct JsonField {
    pub key: String,
    pub text: Option<String>,
}

pub open spec fn field_view(f: JsonField) -> (Seq<char>, Option<Seq<char>>) {
    (
        f.key@,
        match f.text {
            Some(t) => Some(t@),
            None => None,
        },
    )
}

pub open spec fn fields_view(v: Seq<JsonField>) -> Seq<(Seq<char>, Option<Seq<char>>)> {
    v.map_values(|f: JsonField| field_view(f))
}

/// Relies on `serde_json::to_string` on a slice of strings, which cannot fail: a compact
/// array of escaped strings.
#[verifier::external_body]
pub(crate) fn to_json_strings(items: &Vec<String>) -> (r: String)
    ensures
        r@ == json_string_array(views(items@)),
{
    serde_json::to_string(items.as_slice()).unwrap()
}

/// Relies on `serde_json::from_str` into a `serde_json::Map`, whose keys are sorted.
#[verifier::external_body]
pub(crate) fn object_fields(text: &str) -> (r: Option<Vec<JsonField>>)
    ensures
        match r {
            Some(v) => json_object_fields(text@) == Some(fields_view(v@)),
            None => json_object_fields(text@) is None,
        },
{
    serde_json::from_str::<serde_json::Map<String, serde_json::Value>>(text).ok().map(
        |m| m.iter().map(|(k, v)| JsonField { key: k.clone(), text: v.as_str().map(|s| s.to_string()) }).collect()
    )
}

/// The member of `fields` under `key`, first one first: `Some(value)` where it stands.
pub open spec fn lookup(fields: Seq<(Seq<char>, Option<Seq<char>>)>, key: Seq<char>) -> Option<Option<Seq<char>>>
    decreases fields.len(),
{
    if fields.len() == 0 {
        None
    } else if fields[0].0 == key {
        Some(fields[0].1)
    } else {
        lookup(fields.drop_first(), key)
    }
}

/// Finds the member under `key`.
pub fn find_field(fields: &Vec<JsonField>, key: &str) -> (r: Option<Option<String>>)
    ensures
        lookup(fields_view(fields@), key@) == match r {
            Some(Some(t)) => Some(Some(t@)),
            Some(None) => Some(None::<Seq<char>>),
            None => None,
        },
{
    let ghost all = fields_view(fields@);
    let mut i: usize = 0;
    assert(all.subrange(0, all.len() as int) =~= all);
    while i < fields.len()
        invariant
            i <= fields@.len(),
            all == fields_view(fields@),
            lookup(all, key@) == lookup(all.subrange(i as int, all.len() as int), key@),
        decreases fields@.len() - i,
    {
        let f = &fields[i];
        assert(all.subrange(i as int, all.len() as int).drop_first() =~= all.subrange(i + 1, all.len() as int));
        assert(all.subrange(i as int, all.len() as int)[0] == field_view(*f));
        if crate::text::str_eq(f.key.as_str(), key) {
            return Some(
                match &f.text {
                    Some(t) => Some(t.clone()),
                    None => None,
                },
            );
        }
        i += 1;
    }
    assert(all.subrange(i as int, all.len() as int).len() == 0);
    None
}

} // verus!
