//! Access layer for a cryptocurrency exchange API: request signing, request
//! preparation, response-envelope validation and the decisions of the
//! market-data streaming session, each stated as a contract and proved.

pub mod client;
pub mod common;
pub mod currencies;
pub mod endpoint;
pub mod loan;
pub mod models;
pub mod signer;
pub mod stream;
pub mod symbols;
pub mod text;
pub mod tickers;
