//! The lending market. The exchange answers this call only to a request
//! that carries the authentication headers.

use crate::client::{is_prepared, HttpMethod, KuCoinClient, PreparedRequest};
use crate::endpoint::{open_envelope, success_code, ApiError, Endpoint};
use crate::models::{ListLoanMarket, LoanMarket};
use vstd::prelude::*;

verus! {

/// The path that the call asks.
pub open spec fn get_loan_market_path() -> Seq<char> {
    "/api/v3/project/list"@
}

/// Prepares the one request of the call as of `timestamp`, the call's time
/// in epoch milliseconds: a GET of the lending-market path at the client's
/// base URL, without parameters or body, with the five authentication
/// headers.
pub fn get_loan_market_request(client: &KuCoinClient, timestamp: u64) -> (r: PreparedRequest)
    ensures
        is_prepared(
            r,
            client@,
            HttpMethod::Get,
            get_loan_market_path(),
            Seq::empty(),
            true,
            timestamp,
        ),
        r.body is None,
{
    client.request_for(&Endpoint::ProjectList, timestamp)
}

/// The currencies of the lending market, from the reply. `raw` is the body
/// text that passed the status gate and `decoded` what the decoder made of
/// it: a body that did not decode is a decode error, a result code other
/// than the success sentinel an application error with that code.
pub fn get_loan_market(raw: String, decoded: Result<ListLoanMarket, String>) -> (r: Result<
    Vec<LoanMarket>,
    ApiError,
>)
    ensures
        decoded matches Err(diagnostic) ==> r == Err::<Vec<LoanMarket>, ApiError>(
            ApiError::Decode { raw, diagnostic },
        ),
        decoded matches Ok(envelope) ==> r == (if envelope.code@ == success_code() {
            Ok::<Vec<LoanMarket>, ApiError>(envelope.data)
        } else {
            Err::<Vec<LoanMarket>, ApiError>(ApiError::Application { code: envelope.code })
        }),
{
    match decoded {
        Err(diagnostic) => open_envelope(raw, Err(diagnostic)),
        Ok(envelope) => open_envelope(raw, Ok((envelope.code, envelope.data))),
    }
}

} // verus!
