use crypto_crawler::coinbase_pro;
use crypto_crawler::deribit;
use crypto_crawler::ftx;

#[test]
fn deribit_pairs() {
    assert_eq!(Some("BTC/USD".to_string()), deribit::normalize_pair("BTC-PERPETUAL"));
    assert_eq!(Some("BTC/USD".to_string()), deribit::normalize_pair("BTC-28JUN24"));
    assert_eq!(Some("BTC/BTC".to_string()), deribit::normalize_pair("BTC-28JUN24-60000-C"));
    assert_eq!(Some("ETH/ETH".to_string()), deribit::normalize_pair("ETH-25JUN21-2000-P"));
    assert_eq!(None, deribit::normalize_pair("BTC"));
    assert_eq!(None, deribit::normalize_pair("ABCDEF12"));
    assert_eq!(None, deribit::normalize_pair("ABCDEFG-5"));
    assert_eq!(None, deribit::normalize_pair("ABCDEFG+5"));
}

#[test]
fn deribit_pairs_are_not_symbols() {
    for s in ["BTC-PERPETUAL", "BTC-28JUN24", "BTC-28JUN24-60000-C"] {
        let p = deribit::normalize_pair(s).unwrap();
        assert_eq!(None, deribit::normalize_pair(&p));
    }
}

#[test]
fn ftx_pairs() {
    assert_eq!(Some("BTC/USD".to_string()), ftx::normalize_pair("BTC-PERP"));
    assert_eq!(Some("BTC/USD".to_string()), ftx::normalize_pair("BTC-MOVE-0928"));
    assert_eq!(Some("BTC/USD".to_string()), ftx::normalize_pair("BTC-MOVE-WK-0925"));
    assert_eq!(Some("BTC/USDT".to_string()), ftx::normalize_pair("BTC/USDT"));
    assert_eq!(Some("BVOL/USD".to_string()), ftx::normalize_pair("BVOL/USD"));
    assert_eq!(Some("BTC/USD".to_string()), ftx::normalize_pair("BTC-0625"));
    assert_eq!(Some("TRUMP/USD".to_string()), ftx::normalize_pair("TRUMP"));
}

#[test]
fn ftx_pairs_normalize_to_themselves() {
    for s in ["BTC-PERP", "BTC-MOVE-0928", "BTC/USDT", "BTC-0625", "TRUMP"] {
        let p = ftx::normalize_pair(s).unwrap();
        assert_eq!(Some(p.clone()), ftx::normalize_pair(&p));
    }
}

#[test]
fn coinbase_pairs() {
    assert_eq!("BTC/USD", coinbase_pro::normalize_pair("BTC-USD"));
}
