//! The symbol list, asked without credentials.

use crate::endpoint::{open_envelope, success_code, ApiError};
use crate::common::{ListSymbols, Symbol};
use vstd::prelude::*;

verus! {

/// The address that the call asks.
pub open spec fn get_symbols_url() -> Seq<char> {
    "https://api.kucoin.com/api/v2/symbols"@
}

/// The address that the call asks.
pub fn get_symbols_address() -> (r: &'static str)
    ensures
        r@ == get_symbols_url(),
{
    "https://api.kucoin.com/api/v2/symbols"
}

/// The tradable symbols, from the reply. `raw` is the body text that passed the
/// status gate and `decoded` what the decoder made of it: a body that did
/// not decode is a decode error, a result code other than the success
/// sentinel an application error with that code.
pub fn get_symbols(raw: String, decoded: Result<ListSymbols, String>) -> (r: Result<Vec<Symbol>, ApiError>)
    ensures
        decoded matches Err(diagnostic) ==> r == Err::<Vec<Symbol>, ApiError>(
            ApiError::Decode { raw, diagnostic },
        ),
        decoded matches Ok(envelope) ==> r == (if envelope.code@ == success_code() {
            Ok::<Vec<Symbol>, ApiError>(envelope.data)
        } else {
            Err::<Vec<Symbol>, ApiError>(ApiError::Application { code: envelope.code })
        }),
{
    match decoded {
        Err(diagnostic) => open_envelope(raw, Err(diagnostic)),
        Ok(envelope) => open_envelope(raw, Ok((envelope.code, envelope.data))),
    }
}

} // verus!
