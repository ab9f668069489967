//! The ticker snapshot, asked without credentials.

use crate::endpoint::{open_envelope, success_code, ApiError};
use crate::common::{ListTickers, Ticker};
use vstd::prelude::*;

verus! {

/// The address that the call asks.
pub open spec fn get_tickers_url() -> Seq<char> {
    "https://api.kucoin.com/api/v1/market/allTickers"@
}

/// The address that the call asks.
pub fn get_tickers_address() -> (r: &'static str)
    ensures
        r@ == get_tickers_url(),
{
    "https://api.kucoin.com/api/v1/market/allTickers"
}

/// The tickers of the snapshot, from the reply. `raw` is the body text that passed the
/// status gate and `decoded` what the decoder made of it: a body that did
/// not decode is a decode error, a result code other than the success
/// sentinel an application error with that code.
pub fn get_tickers(raw: String, decoded: Result<ListTickers, String>) -> (r: Result<Vec<Ticker>, ApiError>)
    ensures
        decoded matches Err(diagnostic) ==> r == Err::<Vec<Ticker>, ApiError>(
            ApiError::Decode { raw, diagnostic },
        ),
        decoded matches Ok(envelope) ==> r == (if envelope.code@ == success_code() {
            Ok::<Vec<Ticker>, ApiError>(envelope.data.ticker)
        } else {
            Err::<Vec<Ticker>, ApiError>(ApiError::Application { code: envelope.code })
        }),
{
    match decoded {
        Err(diagnostic) => open_envelope(raw, Err(diagnostic)),
        Ok(envelope) => open_envelope(raw, Ok((envelope.code, envelope.data.ticker))),
    }
}

} // verus!
