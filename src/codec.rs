//! Binary frames: which exchanges compress their messages, and how.
use vstd::prelude::*;
use std::io::Read;
use crate::text::str_eq;

verus! {

#[derive(PartialEq, Eq, Structural, Clone, Copy, Debug)]
pub enum Codec {
    Gzip,
    Deflate,
}

/// Huobi, Binance, Bitget and Bitz gzip their binary frames; OKEx deflates them; the
/// other exchanges send none.
pub open spec fn codec_of(exchange: Seq<char>) -> Option<Codec> {
    if exchange == "huobi"@ || exchange == "binance"@ || exchange == "bitget"@ || exchange == "bitz"@ {
        Some(Codec::Gzip)
    } else if exchange == "okex"@ {
        Some(Codec::Deflate)
    } else {
        None
    }
}

pub fn binary_codec(exchange: &str) -> (r: Option<Codec>)
    ensures
        r == codec_of(exchange@),
{
    if str_eq(exchange, "huobi") || str_eq(exchange, "binance") || str_eq(exchange, "bitget")
        || str_eq(exchange, "bitz") {
        Some(Codec::Gzip)
    } else if str_eq(exchange, "okex") {
        Some(Codec::Deflate)
    } else {
        None
    }
}

/// The UTF-8 text that gzip data holds; `None` where it is no gzip stream or no text.
pub uninterp spec fn gunzip_text(data: Seq<u8>) -> Option<Seq<char>>;

/// The UTF-8 text that raw deflate data holds; `None` where it is no deflate stream or no
/// text.
pub uninterp spec fn inflate_text(data: Seq<u8>) -> Option<Seq<char>>;

/// Relies on `flate2::read::GzDecoder`, read to its end as text.
#[verifier::external_body]
fn gunzip(data: &Vec<u8>) -> (r: Option<String>)
    ensures
        match r {
            Some(t) => gunzip_text(data@) == Some(t@),
            None => gunzip_text(data@) is None,
        },
{
    let mut text = String::new();
    let mut decoder = flate2::read::GzDecoder::new(data.as_slice());
    decoder.read_to_string(&mut text).ok().map(|_| text)
}

/// Relies on `flate2::read::DeflateDecoder`, read to its end as text.
#[verifier::external_body]
fn inflate(data: &Vec<u8>) -> (r: Option<String>)
    ensures
        match r {
            Some(t) => inflate_text(data@) == Some(t@),
            None => inflate_text(data@) is None,
        },
{
    let mut text = String::new();
    let mut decoder = flate2::read::DeflateDecoder::new(data.as_slice());
    decoder.read_to_string(&mut text).ok().map(|_| text)
}

/// A binary frame, decoded.
pub enum Decoded {
    Text(String),
    /// The frame did not decompress.
    Undecodable,
    /// The exchange sends no binary frames.
    UnknownFormat,
}

/// Decompresses a binary frame as `exchange` compresses them.
pub fn decode_binary(exchange: &str, data: &Vec<u8>) -> (r: Decoded)
    ensures
        match codec_of(exchange@) {
            None => r is UnknownFormat,
            Some(c) => {
                let t = if c == Codec::Gzip {
                    gunzip_text(data@)
                } else {
                    inflate_text(data@)
                };
                match r {
                    Decoded::Text(s) => t == Some(s@),
                    Decoded::Undecodable => t is None,
                    Decoded::UnknownFormat => false,
                }
            },
        },
{
    let t = match binary_codec(exchange) {
        None => return Decoded::UnknownFormat,
        Some(Codec::Gzip) => gunzip(data),
        Some(Codec::Deflate) => inflate(data),
    };
    match t {
        Some(s) => Decoded::Text(s),
        None => Decoded::Undecodable,
    }
}

} // verus!
