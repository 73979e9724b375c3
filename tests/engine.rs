use crypto_crawler::codec::{binary_codec, decode_binary, Codec, Decoded};
use crypto_crawler::engine::{Frame, Incoming, MiscMessage, WSClientInternal};
use std::io::Write;

fn strings(v: &[&str]) -> Vec<String> {
    v.iter().map(|s| s.to_string()).collect()
}

fn client_pinging() -> WSClientInternal {
    WSClientInternal::new("okex", "wss://real.okex.com:8443/ws/v3", Some((30, "ping".to_string())), None)
}

#[test]
fn subscribe_twice_sends_once() {
    let mut c = client_pinging();
    let first = c.subscribe(&strings(&["spot/trade:BTC-USDT", "spot/trade:ETH-USDT"]));
    assert_eq!(strings(&["spot/trade:BTC-USDT", "spot/trade:ETH-USDT"]), first);
    let second = c.subscribe(&strings(&["spot/trade:BTC-USDT", "spot/trade:ETH-USDT"]));
    assert!(second.is_empty());
}

#[test]
fn subscribe_keeps_only_new_channels_once() {
    let mut c = client_pinging();
    c.subscribe(&strings(&["a"]));
    let diff = c.subscribe(&strings(&["a", "b", "b", "c"]));
    assert_eq!(strings(&["b", "c"]), diff);
    let mut all = c.subscribed_channels();
    all.sort();
    assert_eq!(strings(&["a", "b", "c"]), all);
}

#[test]
fn unsubscribe_removes_only_subscribed_channels() {
    let mut c = client_pinging();
    c.subscribe(&strings(&["a", "b"]));
    let diff = c.unsubscribe(&strings(&["b", "x", "b"]));
    assert_eq!(strings(&["b"]), diff);
    assert_eq!(strings(&["a"]), c.subscribed_channels());
    assert!(c.unsubscribe(&strings(&["b"])).is_empty());
    assert_eq!(strings(&["b"]), c.subscribe(&strings(&["b"])));
}

#[test]
fn read_timeouts_and_send_intervals() {
    assert_eq!(Some(15), client_pinging().read_timeout());
    let server = WSClientInternal::new("binance", "wss://stream.binance.com:9443", None, Some(180));
    assert_eq!(Some(90), server.read_timeout());
    assert_eq!(Some(100), server.send_interval_ms());
    assert_eq!(None, client_pinging().send_interval_ms());
    assert_eq!(Some(100), WSClientInternal::new("kucoin", "wss://x", None, None).send_interval_ms());
}

#[test]
fn normal_text_is_forwarded_and_ends_a_bounded_run() {
    let mut c = client_pinging();
    c.start(1_000);
    let s = c.step(
        Incoming::Message { text: "data".to_string(), class: MiscMessage::Normal },
        2_000,
        Some(10),
    );
    assert_eq!(Some("data".to_string()), s.forward);
    assert!(!s.exit && !s.stop && s.ping.is_none() && s.reply.is_none());
    let s = c.step(
        Incoming::Message { text: "more".to_string(), class: MiscMessage::Normal },
        11_001,
        Some(10),
    );
    assert!(s.stop);
    // a misc message after the duration does not end the run
    let mut c = client_pinging();
    c.start(0);
    let s = c.step(Incoming::Message { text: "{}".to_string(), class: MiscMessage::Misc }, 60_000, Some(1));
    assert!(!s.stop && s.forward.is_none());
}

#[test]
fn pings_are_sent_every_half_interval_and_counted() {
    let mut c = client_pinging();
    c.start(0);
    let s = c.step(Incoming::WouldBlock, 14_999, None);
    assert!(s.ping.is_none());
    let s = c.step(Incoming::WouldBlock, 15_000, None);
    assert!(matches!(s.ping, Some(Frame::Text(ref t)) if t == "ping"));
    let mut now = 15_000;
    for _ in 0..5 {
        now += 15_000;
        let s = c.step(Incoming::WouldBlock, now, None);
        assert!(!s.exit);
        assert!(s.ping.is_some());
    }
    // six pings unanswered: the next read ends the process
    now += 15_000;
    let s = c.step(Incoming::WouldBlock, now, None);
    assert!(s.exit);
    assert!(s.ping.is_none());
}

#[test]
fn a_pong_resets_the_unanswered_pings() {
    let mut c = client_pinging();
    c.start(0);
    let mut now = 0;
    for _ in 0..6 {
        now += 15_000;
        c.step(Incoming::WouldBlock, now, None);
    }
    let s = c.step(Incoming::Message { text: "pong".to_string(), class: MiscMessage::Pong }, now, None);
    assert!(!s.exit);
    now += 15_000;
    let s = c.step(Incoming::Pong, now, None);
    assert!(!s.exit);
    assert!(s.ping.is_some());
}

#[test]
fn empty_ping_payload_sends_a_ping_frame() {
    let mut c = WSClientInternal::new("huobi", "wss://x", Some((10, String::new())), None);
    c.start(0);
    let s = c.step(Incoming::Interrupted, 5_000, None);
    assert!(matches!(s.ping, Some(Frame::Ping(ref p)) if p.is_empty()));
}

#[test]
fn server_ping_mode_exits_after_six_timeouts() {
    let mut c = WSClientInternal::new("binance", "wss://x", None, Some(180));
    c.start(0);
    for _ in 0..5 {
        let s = c.step(Incoming::WouldBlock, 1, None);
        assert!(!s.exit && s.ping.is_none());
    }
    let s = c.step(Incoming::Ping(vec![1, 2]), 1, None);
    assert!(matches!(s.reply, Some(Frame::Pong(ref p)) if p == &vec![1, 2]));
    for _ in 0..5 {
        assert!(!c.step(Incoming::WouldBlock, 1, None).exit);
    }
    assert!(c.step(Incoming::WouldBlock, 1, None).exit);
}

#[test]
fn fatal_reads_and_close_codes() {
    let mut c = client_pinging();
    c.start(0);
    assert!(c.step(Incoming::ConnectionLost, 0, None).exit);
    assert!(c.step(Incoming::UnknownBinary, 0, None).exit);
    assert!(c.step(Incoming::Close(Some(1006)), 0, None).exit);
    assert!(!c.step(Incoming::Close(Some(1000)), 0, None).exit);
    assert!(!c.step(Incoming::Close(Some(1001)), 0, None).exit);
    assert!(!c.step(Incoming::Close(None), 0, None).exit);
    assert!(!c.step(Incoming::ProtocolError, 0, None).exit);
    assert!(c.step(Incoming::Message { text: "x".to_string(), class: MiscMessage::Reconnect }, 0, None).exit);
    let s = c.step(
        Incoming::Message { text: "x".to_string(), class: MiscMessage::WebSocket(Frame::Text("pong".to_string())) },
        0,
        None,
    );
    assert!(matches!(s.reply, Some(Frame::Text(ref t)) if t == "pong"));
}

#[test]
fn close_stops_the_client() {
    let mut c = client_pinging();
    assert!(!c.is_stopped());
    c.close();
    assert!(c.is_stopped());
    assert_eq!("okex", c.exchange());
    assert_eq!("wss://real.okex.com:8443/ws/v3", c.url());
}

#[test]
fn binary_codecs() {
    assert_eq!(Some(Codec::Gzip), binary_codec("huobi"));
    assert_eq!(Some(Codec::Gzip), binary_codec("binance"));
    assert_eq!(Some(Codec::Deflate), binary_codec("okex"));
    assert_eq!(None, binary_codec("bitstamp"));
}

#[test]
fn binary_frames_decompress() {
    let text = r#"{"table":"spot/trade","data":[]}"#;
    let mut e = flate2::write::DeflateEncoder::new(Vec::new(), flate2::Compression::default());
    e.write_all(text.as_bytes()).unwrap();
    let deflated = e.finish().unwrap();
    assert!(matches!(decode_binary("okex", &deflated), Decoded::Text(ref t) if t == text));
    let mut g = flate2::write::GzEncoder::new(Vec::new(), flate2::Compression::default());
    g.write_all(text.as_bytes()).unwrap();
    let gzipped = g.finish().unwrap();
    assert!(matches!(decode_binary("huobi", &gzipped), Decoded::Text(ref t) if t == text));
    assert!(matches!(decode_binary("huobi", &vec![1, 2, 3]), Decoded::Undecodable));
    assert!(matches!(decode_binary("bitstamp", &gzipped), Decoded::UnknownFormat));
}
