//! Records carried by the exchange's REST responses.
//!
//! Numeric quantities travel as decimal strings, so every record is a flat
//! collection of strings, booleans and small integers.

use vstd::prelude::*;

verus! {

/// One entry of the all-tickers snapshot.
#[derive(Debug)]
pub struct Ticker {
    pub symbol: String,
    pub symbol_name: String,
    pub buy: Option<String>,
    pub best_bid_size: Option<String>,
    pub sell: Option<String>,
    pub best_ask_size: Option<String>,
    pub change_rate: Option<String>,
    pub change_price: Option<String>,
    pub high: Option<String>,
    pub low: Option<String>,
    pub vol: Option<String>,
    pub vol_value: String,
    pub last: Option<String>,
    pub average_price: Option<String>,
    pub taker_fee_rate: String,
    pub maker_fee_rate: String,
    pub taker_coefficient: String,
    pub maker_coefficient: String,
}

/// Payload of the all-tickers endpoint: the server's time in epoch
/// milliseconds and the snapshot taken at it.
#[derive(Debug)]
pub struct TickerData {
    pub time: u128,
    pub ticker: Vec<Ticker>,
}

/// Envelope of the all-tickers endpoint.
#[derive(Debug)]
pub struct ListTickers {
    pub code: String,
    pub data: TickerData,
}

/// One currency known to the exchange.
#[derive(Debug)]
pub struct Currencies {
    pub currency: String,
    pub name: String,
    pub full_name: String,
    pub precision: i16,
    pub confirms: Option<i16>,
    pub contract_address: Option<String>,
    pub is_margin_enabled: bool,
    pub is_debit_enabled: bool,
}

/// Envelope of the currency list endpoint.
#[derive(Debug)]
pub struct ListCurrencies {
    pub code: String,
    pub data: Vec<Currencies>,
}

/// One tradable symbol.
#[derive(Debug)]
pub struct Symbol {
    pub symbol: String,
    pub name: String,
    pub base_currency: String,
    pub quote_currency: String,
    pub fee_currency: String,
    pub market: String,
    pub base_min_size: String,
    pub quote_min_size: String,
    pub base_max_size: String,
    pub quote_max_size: String,
    pub base_increment: String,
    pub quote_increment: String,
    pub price_increment: String,
    pub price_limit_rate: String,
    pub min_funds: Option<String>,
    pub is_margin_enabled: bool,
    pub enable_trading: bool,
    pub fee_category: i16,
    pub maker_fee_coefficient: String,
    pub taker_fee_coefficient: String,
    pub st: bool,
    pub callauction_is_enabled: bool,
    pub callauction_price_floor: Option<String>,
    pub callauction_price_ceiling: Option<String>,
    pub callauction_first_stage_start_time: Option<i64>,
    pub callauction_second_stage_start_time: Option<i64>,
    pub callauction_third_stage_start_time: Option<i64>,
    pub trading_start_time: Option<i64>,
}

/// Envelope of the symbol list endpoint.
#[derive(Debug)]
pub struct ListSymbols {
    pub code: String,
    pub data: Vec<Symbol>,
}

/// One currency of the lending market.
#[derive(Debug)]
pub struct LoanMarket {
    pub currency: String,
    pub purchase_enable: bool,
    pub redeem_enable: bool,
    pub increment: String,
    pub min_purchase_size: String,
    pub max_purchase_size: String,
    pub interest_increment: String,
    pub min_interest_rate: String,
    pub market_interest_rate: String,
    pub max_interest_rate: String,
    pub auto_purchase_enable: bool,
}

/// Envelope of the lending market endpoint.
#[derive(Debug)]
pub struct ListLoanMarket {
    pub code: String,
    pub data: Vec<LoanMarket>,
}

/// Borrow rate of one currency.
#[derive(Debug)]
pub struct ApiV3MarginBorrowRateDataItem {
    pub currency: String,
    pub hourly_borrow_rate: String,
    pub annualized_borrow_rate: String,
}

/// Payload of the borrow-rate endpoint.
#[derive(Debug)]
pub struct ApiV3MarginBorrowRateData {
    pub items: Vec<ApiV3MarginBorrowRateDataItem>,
}

/// Envelope of the borrow-rate endpoint.
#[derive(Debug)]
pub struct ApiV3MarginBorrowRate {
    pub code: String,
    pub data: ApiV3MarginBorrowRateData,
}

/// Envelope of the server-time endpoint: epoch milliseconds.
#[derive(Debug)]
pub struct ServerTime {
    pub code: String,
    pub data: u64,
}

/// One OHLCV bar.
#[derive(Debug)]
pub struct Candle {
    pub timestamp: String,
    pub open: String,
    pub high: String,
    pub low: String,
    pub close: String,
    pub volume: String,
    pub quote_volume: String,
}

/// Envelope of the candles endpoint: each row is a sequence of strings.
#[derive(Debug)]
pub struct ListCandle {
    pub code: String,
    pub data: Vec<Vec<String>>,
}

/// Number of fields in a candle row.
pub const CANDLE_FIELDS: usize = 7;

impl Candle {
    /// The seven fields in wire order: timestamp, open, high, low, close,
    /// volume, quote volume.
    pub open spec fn fields(&self) -> Seq<Seq<char>> {
        seq![
            self.timestamp@,
            self.open@,
            self.high@,
            self.low@,
            self.close@,
            self.volume@,
            self.quote_volume@,
        ]
    }
}

/// The strings of one row, as a mathematical sequence.
pub open spec fn row_fields(row: Vec<String>) -> Seq<Seq<char>> {
    Seq::new(row@.len(), |j: int| row@[j]@)
}

/// Every row has exactly seven fields.
pub open spec fn rows_well_formed(rows: Seq<Vec<String>>) -> bool {
    forall|i: int| 0 <= i < rows.len() ==> (#[trigger] rows[i])@.len() == CANDLE_FIELDS
}

impl ListCandle {
    /// Converts every row into a candle, or fails as a whole: a single row
    /// whose length is not seven rejects the list and no candle is handed out.
    pub fn into_candles(self) -> (r: Result<Vec<Candle>, &'static str>)
        ensures
            r is Ok <==> rows_well_formed(self.data@),
            r matches Ok(candles) ==> {
                &&& candles@.len() == self.data@.len()
                &&& forall|i: int|
                    0 <= i < candles@.len() ==> (#[trigger] candles@[i]).fields() =~= row_fields(
                        self.data@[i],
                    )
            },
            r matches Err(e) ==> e@ == "Invalid candle data length"@,
    {
        let data = &self.data;
        let mut candles: Vec<Candle> = Vec::new();
        let mut i: usize = 0;
        while i < data.len()
            invariant
                data@ == self.data@,
                i <= data@.len(),
                candles@.len() == i,
                forall|k: int| 0 <= k < i ==> (#[trigger] data@[k])@.len() == CANDLE_FIELDS,
                forall|k: int|
                    0 <= k < i ==> (#[trigger] candles@[k]).fields() =~= row_fields(data@[k]),
            decreases data@.len() - i,
        {
            let row = &data[i];
            if row.len() != CANDLE_FIELDS {
                assert(self.data@[i as int]@.len() != CANDLE_FIELDS);
                return Err("Invalid candle data length");
            }
            let candle = Candle {
                timestamp: row[0].clone(),
                open: row[1].clone(),
                high: row[2].clone(),
                low: row[3].clone(),
                close: row[4].clone(),
                volume: row[5].clone(),
                quote_volume: row[6].clone(),
            };
            assert(candle.fields() =~= row_fields(data@[i as int]));
            candles.push(candle);
            i = i + 1;
        }
        Ok(candles)
    }
}

} // verus!
