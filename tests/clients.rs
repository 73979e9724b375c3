use crypto_crawler::bitstamp;
use crypto_crawler::bybit;
use crypto_crawler::crawler::{crawl_other, OtherCrawler};
use crypto_crawler::engine::MiscMessage;
use crypto_crawler::gate;
use crypto_crawler::okex;

#[test]
fn test_channel_to_command() {
    assert_eq!(
        r#"{"event":"bts:subscribe","data":{"channel":"live_trades_btcusd"}}"#,
        bitstamp::channel_to_command("live_trades_btcusd", true)
    );

    assert_eq!(
        r#"{"event":"bts:unsubscribe","data":{"channel":"live_trades_btcusd"}}"#,
        bitstamp::channel_to_command("live_trades_btcusd", false)
    );
}

#[test]
fn test_one_channel() {
    let commands = okex::channels_to_commands(&vec!["spot/trade:BTC-USDT".to_string()], true);
    assert_eq!(1, commands.len());
    assert_eq!(r#"{"op":"subscribe","args":["spot/trade:BTC-USDT"]}"#, commands[0]);
}

#[test]
fn test_two_channel() {
    let commands = okex::channels_to_commands(
        &vec!["spot/trade:BTC-USDT".to_string(), "ticker/trade:BTC-USDT".to_string()],
        true,
    );
    assert_eq!(1, commands.len());
    assert_eq!(
        r#"{"op":"subscribe","args":["spot/trade:BTC-USDT","ticker/trade:BTC-USDT"]}"#,
        commands[0]
    );
}

#[test]
fn test_pair_to_market_type() {
    assert_eq!("spot", okex::pair_to_market_type("BTC-USDT"));
    assert_eq!("futures", okex::pair_to_market_type("BTC-USDT-210625"));
    assert_eq!("swap", okex::pair_to_market_type("BTC-USDT-SWAP"));
    assert_eq!("option", okex::pair_to_market_type("BTC-USD-210625-72000-C"));
}

#[test]
fn okex_unsubscribe_command() {
    let commands = okex::channels_to_commands(&vec!["spot/trade:BTC-USDT".to_string()], false);
    assert_eq!(vec![r#"{"op":"unsubscribe","args":["spot/trade:BTC-USDT"]}"#.to_string()], commands);
}

#[test]
fn okex_commands_split_at_frame_size() {
    // 2000 channels of 40 characters do not fit in one frame of 65536 characters
    let channels: Vec<String> = (0..2000).map(|i| format!("spot/depth_l2_tbt:LONGSYMBOL{:010}-USDT", i)).collect();
    let commands = okex::channels_to_commands(&channels, true);
    assert!(commands.len() >= 2);
    let mut total = 0;
    for c in commands.iter() {
        assert!(c.len() <= okex::WS_FRAME_SIZE);
        total += c.matches("spot/depth_l2_tbt:").count();
    }
    assert_eq!(2000, total);
    assert!(commands[0].starts_with(r#"{"op":"subscribe","args":["spot/depth_l2_tbt:LONGSYMBOL0000000000-USDT","#));
}

#[test]
fn okex_frames_count_bytes() {
    // 1400 channels: about 60000 characters, which would fit, but 80000 bytes
    let channels: Vec<String> = (0..1400).map(|i| format!("spot/trade:{}{:010}-USDT", "é".repeat(14), i)).collect();
    let commands = okex::channels_to_commands(&channels, true);
    assert!(commands.len() >= 2);
    for c in commands.iter() {
        assert!(c.len() <= okex::WS_FRAME_SIZE);
    }
    let total: usize = commands.iter().map(|c| c.matches("spot/trade:").count()).sum();
    assert_eq!(1400, total);
}

#[test]
fn okex_commands_of_nothing() {
    assert!(okex::channels_to_commands(&Vec::new(), true).is_empty());
}

#[test]
fn okex_raw_channels() {
    assert_eq!("spot/trade:BTC-USDT", okex::to_raw_channel("trade", "BTC-USDT"));
    assert_eq!("swap/depth5:BTC-USDT-SWAP", okex::to_raw_channel("depth5", "BTC-USDT-SWAP"));
    assert_eq!("futures/candle60s:BTC-USD-210625", okex::to_candlestick_raw_channel("BTC-USD-210625", 60));
    assert_eq!("option/candle604800s:BTC-USD-210625-72000-C", okex::to_candlestick_raw_channel("BTC-USD-210625-72000-C", 604800));
}

#[test]
fn okex_message_classes() {
    assert!(matches!(okex::on_misc_msg("pong"), MiscMessage::Pong));
    assert!(matches!(okex::on_misc_msg("not json"), MiscMessage::Misc));
    assert!(matches!(
        okex::on_misc_msg(r#"{"event":"subscribe","channel":"spot/trade:BTC-USDT"}"#),
        MiscMessage::Misc
    ));
    assert!(matches!(
        okex::on_misc_msg(r#"{"event":"error","message":"x","errorCode":30040}"#),
        MiscMessage::Misc
    ));
    assert!(matches!(okex::on_misc_msg(r#"{"table":"spot/trade"}"#), MiscMessage::Misc));
    assert!(matches!(okex::on_misc_msg(r#"{"table":"spot/trade","data":[]}"#), MiscMessage::Normal));
}

#[test]
fn bitstamp_commands_and_channels() {
    let commands = bitstamp::channels_to_commands(
        &vec!["live_trades_btcusd".to_string(), r#"{"event":"bts:heartbeat"}"#.to_string()],
        true,
    );
    assert_eq!(
        vec![
            r#"{"event":"bts:subscribe","data":{"channel":"live_trades_btcusd"}}"#.to_string(),
            r#"{"event":"bts:heartbeat"}"#.to_string()
        ],
        commands
    );
    assert_eq!("diff_order_book_btcusd", bitstamp::to_raw_channel("diff_order_book", "btcusd"));
}

#[test]
fn bitstamp_message_classes() {
    assert!(matches!(
        bitstamp::on_misc_msg(r#"{"event":"bts:subscription_succeeded","channel":"live_trades_btcusd","data":{}}"#),
        MiscMessage::Misc
    ));
    assert!(matches!(bitstamp::on_misc_msg(r#"{"event":"bts:heartbeat"}"#), MiscMessage::Misc));
    assert!(matches!(bitstamp::on_misc_msg(r#"{"event":"bts:request_reconnect"}"#), MiscMessage::Reconnect));
    assert!(matches!(bitstamp::on_misc_msg(r#"{"event":"bts:error","data":{}}"#), MiscMessage::Reconnect));
    assert!(matches!(
        bitstamp::on_misc_msg(r#"{"event":"trade","channel":"live_trades_btcusd","data":{"id":1}}"#),
        MiscMessage::Normal
    ));
    assert!(matches!(bitstamp::on_misc_msg("[1,2]"), MiscMessage::Misc));
    assert!(matches!(bitstamp::on_misc_msg(r#"{"channel":"x"}"#), MiscMessage::Misc));
}

#[test]
fn bybit_candlestick_channels() {
    assert_eq!("klineV2.1.BTCUSD", bybit::to_candlestick_raw_channel("BTCUSD", 60));
    assert_eq!("klineV2.D.BTCUSD", bybit::to_candlestick_raw_channel("BTCUSD", 86400));
    assert_eq!("klineV2.M.ETHUSD", bybit::to_candlestick_raw_channel("ETHUSD", 2592000));
}

#[test]
fn gate_channels() {
    assert_eq!("futures.trades:BTC_USD_20210625", gate::to_raw_channel("futures.trades", "BTC_USD_20210625"));
    assert_eq!("futures.candlesticks:1m_BTC_USDT_20210625", gate::to_candlestick_raw_channel("BTC_USDT_20210625", 60));
    assert_eq!("futures.candlesticks:7d_BTC_USD_20210625", gate::to_candlestick_raw_channel("BTC_USD_20210625", 604800));
}

#[test]
fn other_crawlers() {
    assert_eq!(Some(OtherCrawler::Binance), crawl_other("binance"));
    assert_eq!(Some(OtherCrawler::Bitmex), crawl_other("bitmex"));
    assert_eq!(Some(OtherCrawler::Bybit), crawl_other("bybit"));
    assert_eq!(Some(OtherCrawler::CoinbasePro), crawl_other("coinbase_pro"));
    assert_eq!(Some(OtherCrawler::Huobi), crawl_other("huobi"));
    assert_eq!(None, crawl_other("okex"));
}
