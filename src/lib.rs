//! Market-data subscription and normalization for cryptocurrency exchanges: the
//! decisions of a WebSocket engine, each exchange's channel names, commands and message
//! dialect, and parsers from raw messages to normalized trades, order books and funding
//! rates, on exact decimals.

// strings and numbers
pub mod decimal;
pub mod json;
pub mod text;

// reference data and quantities
pub mod contract_value;
pub mod deribit;
pub mod ftx;
pub mod market;
pub mod quantity;

// transport
pub mod codec;
pub mod crawler;
pub mod engine;

// exchanges
pub mod bitmex;
pub mod bitstamp;
pub mod bybit;
pub mod coinbase_pro;
pub mod gate;
pub mod kucoin_swap;
pub mod okex;

// records
pub mod msg;
pub mod order;
