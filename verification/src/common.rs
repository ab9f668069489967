//! The records of the unauthenticated convenience calls: the shorter forms of
//! ticker, currency and symbol.

use vstd::prelude::*;

verus! {

/// One entry of the all-tickers snapshot.
#[derive(Debug)]
pub struct Ticker {
    pub symbol: String,
    pub symbol_name: String,
    pub buy: Option<String>,
    pub best_bid_size: Option<String>,
    pub sell: Option<String>,
    pub best_ask_size: Option<String>,
    pub change_rate: Option<String>,
    pub change_price: Option<String>,
    pub high: Option<String>,
    pub low: Option<String>,
    pub vol: Option<String>,
    pub vol_value: String,
    pub last: Option<String>,
    pub average_price: Option<String>,
    pub taker_fee_rate: String,
    pub maker_fee_rate: String,
    pub taker_coefficient: String,
    pub maker_coefficient: String,
}

/// Payload of the all-tickers endpoint, with the server's time.
#[derive(Debug)]
pub struct TickerData {
    pub time: u128,
    pub ticker: Vec<Ticker>,
}

/// Envelope of the all-tickers endpoint.
#[derive(Debug)]
pub struct ListTickers {
    pub code: String,
    pub data: TickerData,
}

/// One currency known to the exchange.
#[derive(Debug)]
pub struct Currencies {
    pub currency: String,
    pub name: String,
    pub full_name: String,
    pub precision: u8,
    pub confirms: Option<u8>,
    pub contract_address: Option<String>,
    pub is_margin_enabled: bool,
    pub is_debit_enabled: bool,
}

/// Envelope of the currency list endpoint.
#[derive(Debug)]
pub struct ListCurrencies {
    pub code: String,
    pub data: Vec<Currencies>,
}

/// One tradable symbol, by its names.
#[derive(Debug)]
pub struct Symbol {
    pub symbol: String,
    pub name: String,
    pub base_currency: String,
}

/// Envelope of the symbol list endpoint.
#[derive(Debug)]
pub struct ListSymbols {
    pub code: String,
    pub data: Vec<Symbol>,
}

} // verus!
