//! The currencies, asked without credentials.

use crate::endpoint::{open_envelope, success_code, ApiError};
use crate::common::{Currencies, ListCurrencies};
use vstd::prelude::*;

verus! {

/// The address that the call asks.
pub open spec fn get_currencies_url() -> Seq<char> {
    "https://api.kucoin.com/api/v3/currencies"@
}

/// The address that the call asks.
pub fn get_currencies_address() -> (r: &'static str)
    ensures
        r@ == get_currencies_url(),
{
    "https://api.kucoin.com/api/v3/currencies"
}

/// The currency list, from the reply. `raw` is the body text that passed the
/// status gate and `decoded` what the decoder made of it: a body that did
/// not decode is a decode error, a result code other than the success
/// sentinel an application error with that code.
pub fn get_currencies(raw: String, decoded: Result<ListCurrencies, String>) -> (r: Result<Vec<Currencies>, ApiError>)
    ensures
        decoded matches Err(diagnostic) ==> r == Err::<Vec<Currencies>, ApiError>(
            ApiError::Decode { raw, diagnostic },
        ),
        decoded matches Ok(envelope) ==> r == (if envelope.code@ == success_code() {
            Ok::<Vec<Currencies>, ApiError>(envelope.data)
        } else {
            Err::<Vec<Currencies>, ApiError>(ApiError::Application { code: envelope.code })
        }),
{
    match decoded {
        Err(diagnostic) => open_envelope(raw, Err(diagnostic)),
        Ok(envelope) => open_envelope(raw, Ok((envelope.code, envelope.data))),
    }
}

} // verus!
