//! The endpoints of the exchange and what a reply to each of them means: the
//! status gate, the envelope check and the typed payload or classified error.

use crate::client::{is_prepared, HttpMethod, KuCoinClient, PreparedRequest};
use crate::models::{
    rows_well_formed, row_fields, ApiV3MarginBorrowRate, ApiV3MarginBorrowRateData, Candle,
    Currencies, ListCandle, ListCurrencies, ListLoanMarket, ListSymbols, ListTickers, LoanMarket,
    ServerTime, Symbol, TickerData,
};
use crate::signer::{keys_unique, lemma_no_keys_are_unique, params_view};
use crate::text::{contains_text, decimal, occurs_at, text_eq, u64_to_decimal};
use vstd::prelude::*;
use vstd::string::*;

verus! {

/// How a request failed before any response arrived.
#[derive(Debug, Clone, Copy, PartialEq, Eq, Structural)]
pub enum TransportKind {
    Timeout,
    Connection,
    RequestConstruction,
    BodyTransmission,
    Other,
}

/// The class of a transport failure from what the transport reports of it.
/// The first report that applies decides, in the order of the parameters.
pub open spec fn transport_kind(
    is_timeout: bool,
    is_connect: bool,
    is_request: bool,
    is_body: bool,
) -> TransportKind {
    if is_timeout {
        TransportKind::Timeout
    } else if is_connect {
        TransportKind::Connection
    } else if is_request {
        TransportKind::RequestConstruction
    } else if is_body {
        TransportKind::BodyTransmission
    } else {
        TransportKind::Other
    }
}

/// Classifies a transport failure.
pub fn classify_transport(is_timeout: bool, is_connect: bool, is_request: bool, is_body: bool) -> (k:
    TransportKind)
    ensures
        k == transport_kind(is_timeout, is_connect, is_request, is_body),
{
    if is_timeout {
        TransportKind::Timeout
    } else if is_connect {
        TransportKind::Connection
    } else if is_request {
        TransportKind::RequestConstruction
    } else if is_body {
        TransportKind::BodyTransmission
    } else {
        TransportKind::Other
    }
}

impl TransportKind {
    /// The words that open the description of a failure of this class.
    pub open spec fn prefix(self) -> Seq<char> {
        match self {
            TransportKind::Timeout => "Timeout "@,
            TransportKind::Connection => "Error connection "@,
            TransportKind::RequestConstruction => "Error prepare request "@,
            TransportKind::BodyTransmission => "Error in body "@,
            TransportKind::Other => "Unexpected error "@,
        }
    }
}

/// A failure of the transport: its class, the URL that was asked and the
/// transport's own description of the cause.
#[derive(Debug, PartialEq, Eq)]
pub struct TransportFailure {
    pub kind: TransportKind,
    pub url: String,
    pub cause: String,
}

impl TransportFailure {
    /// The description of the failure as text.
    pub open spec fn text(&self) -> Seq<char> {
        self.kind.prefix() + self.url@ + ": "@ + self.cause@
    }

    /// Describes the failure: its class, the URL and the cause.
    pub fn message(&self) -> (r: String)
        ensures
            r@ == self.text(),
    {
        let mut s = match self.kind {
            TransportKind::Timeout => String::from_str("Timeout "),
            TransportKind::Connection => String::from_str("Error connection "),
            TransportKind::RequestConstruction => String::from_str("Error prepare request "),
            TransportKind::BodyTransmission => String::from_str("Error in body "),
            TransportKind::Other => String::from_str("Unexpected error "),
        };
        s.append(self.url.as_str());
        s.append(": ");
        s.append(self.cause.as_str());
        s
    }
}

/// What came back from one round trip: the status, and the body text or the
/// description of why the body could not be read.
#[derive(Debug, PartialEq, Eq)]
pub struct HttpReply {
    pub status: u16,
    pub body: Result<String, String>,
}

/// Why a call gave no typed value.
#[derive(Debug, PartialEq, Eq)]
pub enum ApiError {
    /// No response arrived.
    Transport(TransportFailure),
    /// The status was 200 but the body could not be read.
    BodyRead { cause: String },
    /// The status was not 200; the body text is kept where it could be read.
    HttpStatus { status: u16, body: Option<String> },
    /// The body does not have the expected shape.
    Decode { raw: String, diagnostic: String },
    /// The envelope carries a result code other than the success sentinel.
    Application { code: String },
}

/// The result code of a successful envelope.
pub open spec fn success_code() -> Seq<char> {
    "200000"@
}

/// The diagnostic of a candle list with a row that has not seven fields.
pub open spec fn candle_diagnostic() -> Seq<char> {
    "Failed to parse candles: Invalid candle data length"@
}

impl ApiError {
    /// The description of the error as text.
    pub open spec fn text(&self) -> Seq<char> {
        match *self {
            ApiError::Transport(failure) => "Error HTTP:'"@ + failure.text() + "'"@,
            ApiError::BodyRead { cause } => "Error get text response from HTTP:'"@ + cause@ + "'"@,
            ApiError::HttpStatus { status, body: Some(text) } => "Wrong HTTP status: '"@ + decimal(
                status as nat,
            ) + "' with body: '"@ + text@ + "'"@,
            ApiError::HttpStatus { status, body: None } => "Wrong HTTP status: '"@ + decimal(
                status as nat,
            ) + "'"@,
            ApiError::Decode { raw, diagnostic } => "Error JSON deserialize:'"@ + diagnostic@
                + "' with data: '"@ + raw@ + "'"@,
            ApiError::Application { code } => "API error: code "@ + code@,
        }
    }

    /// Describes the error in words, with everything it carries.
    pub fn message(&self) -> (r: String)
        ensures
            r@ == self.text(),
    {
        match self {
            ApiError::Transport(failure) => {
                let mut s = String::from_str("Error HTTP:'");
                let inner = failure.message();
                s.append(inner.as_str());
                s.append("'");
                s
            },
            ApiError::BodyRead { cause } => {
                let mut s = String::from_str("Error get text response from HTTP:'");
                s.append(cause.as_str());
                s.append("'");
                s
            },
            ApiError::HttpStatus { status, body: Some(text) } => {
                let mut s = String::from_str("Wrong HTTP status: '");
                let code = u64_to_decimal(*status as u64);
                s.append(code.as_str());
                s.append("' with body: '");
                s.append(text.as_str());
                s.append("'");
                s
            },
            ApiError::HttpStatus { status, body: None } => {
                let mut s = String::from_str("Wrong HTTP status: '");
                let code = u64_to_decimal(*status as u64);
                s.append(code.as_str());
                s.append("'");
                s
            },
            ApiError::Decode { raw, diagnostic } => {
                let mut s = String::from_str("Error JSON deserialize:'");
                s.append(diagnostic.as_str());
                s.append("' with data: '");
                s.append(raw.as_str());
                s.append("'");
                s
            },
            ApiError::Application { code } => {
                let mut s = String::from_str("API error: code ");
                s.append(code.as_str());
                s
            },
        }
    }
}

/// The status gate. Exactly status 200 with a readable body goes on, with
/// the body text. Any other status is an error that carries the status and,
/// where it could be read, the body text, whatever that text holds. A
/// transport failure is handed on with its class.
pub fn check_reply(outcome: Result<HttpReply, TransportFailure>) -> (r: Result<String, ApiError>)
    ensures
        r is Ok <==> (outcome matches Ok(reply) && reply.status == 200 && reply.body is Ok),
        r matches Ok(text) ==> outcome matches Ok(reply) && reply.body == Ok::<String, String>(text),
        outcome matches Err(failure) ==> r == Err::<String, ApiError>(ApiError::Transport(failure)),
        outcome matches Ok(reply) ==> (reply.status != 200 ==> r == Err::<String, ApiError>(
            ApiError::HttpStatus {
                status: reply.status,
                body: match reply.body {
                    Ok(text) => Some(text),
                    Err(_) => None,
                },
            },
        )),
        outcome matches Ok(reply) ==> (reply.status == 200 && reply.body is Err ==> r == Err::<
            String,
            ApiError,
        >(ApiError::BodyRead { cause: reply.body->Err_0 })),
{
    match outcome {
        Err(failure) => Err(ApiError::Transport(failure)),
        Ok(reply) => {
            let status = reply.status;
            match reply.body {
                Ok(text) => if status == 200 {
                    Ok(text)
                } else {
                    Err(ApiError::HttpStatus { status, body: Some(text) })
                },
                Err(cause) => if status == 200 {
                    Err(ApiError::BodyRead { cause })
                } else {
                    Err(ApiError::HttpStatus { status, body: None })
                },
            }
        },
    }
}

/// The description of a status error names the status and holds the body
/// text that came with it.
pub proof fn lemma_status_error_names_code_and_body(status: u16, body: String)
    ensures
        contains_text(
            (ApiError::HttpStatus { status, body: Some(body) }).text(),
            decimal(status as nat),
        ),
        contains_text((ApiError::HttpStatus { status, body: Some(body) }).text(), body@),
{
    let text = (ApiError::HttpStatus { status, body: Some(body) }).text();
    let opening = "Wrong HTTP status: '"@;
    let number = decimal(status as nat);
    let between = "' with body: '"@;
    assert(text =~= opening + number + between + body@ + "'"@);
    let at_number = opening.len() as int;
    assert(text.subrange(at_number, at_number + number.len()) =~= number);
    assert(occurs_at(text, number, at_number));
    let at_body = (opening.len() + number.len() + between.len()) as int;
    assert(text.subrange(at_body, at_body + body@.len()) =~= body@);
    assert(occurs_at(text, body@, at_body));
}

/// The diagnostic of an envelope that reports success and holds no payload.
pub open spec fn absent_payload_diagnostic() -> Seq<char> {
    "missing payload"@
}

/// What an envelope without a payload means. Under any result code but the
/// success sentinel it is the application error with that code: a refusal
/// owes no payload. Under the success sentinel the body lacks what it
/// promises, which is a decode error with the raw text.
pub fn absent_payload(raw: String, code: String) -> (e: ApiError)
    ensures
        code@ != success_code() ==> e == (ApiError::Application { code }),
        code@ == success_code() ==> {
            &&& e matches ApiError::Decode { raw: kept, diagnostic }
            &&& kept == raw
            &&& diagnostic@ == absent_payload_diagnostic()
        },
{
    if text_eq(code.as_str(), "200000") {
        ApiError::Decode { raw, diagnostic: String::from_str("missing payload") }
    } else {
        ApiError::Application { code }
    }
}

/// What an envelope means. `decoded` is the envelope's result code and
/// payload, or the diagnostic of the decoder that refused the body `raw`.
pub open spec fn envelope_outcome<T>(raw: String, decoded: Result<(String, T), String>) -> Result<
    T,
    ApiError,
> {
    match decoded {
        Err(diagnostic) => Err(ApiError::Decode { raw, diagnostic }),
        Ok((code, data)) => if code@ == success_code() {
            Ok(data)
        } else {
            Err(ApiError::Application { code })
        },
    }
}

/// The envelope check: a body that did not decode is a decode error with the
/// raw text and the diagnostic; a result code other than the success
/// sentinel is an application error with that code; otherwise the payload.
pub fn open_envelope<T>(raw: String, decoded: Result<(String, T), String>) -> (r: Result<
    T,
    ApiError,
>)
    ensures
        r == envelope_outcome(raw, decoded),
{
    match decoded {
        Err(diagnostic) => Err(ApiError::Decode { raw, diagnostic }),
        Ok((code, data)) => if text_eq(code.as_str(), "200000") {
            Ok(data)
        } else {
            Err(ApiError::Application { code })
        },
    }
}

/// The endpoints that the client consumes. Every one is a GET.
#[derive(Debug)]
pub enum Endpoint {
    /// Server time.
    Timestamp,
    /// Ticker snapshot of all symbols.
    AllTickers,
    /// Candles of one symbol at one interval.
    Candles { symbol: String, interval: String },
    /// Tradable symbols.
    Symbols,
    /// Currencies.
    Currencies,
    /// Lending market.
    ProjectList,
    /// Borrow rates by level.
    BorrowRate,
}

impl Endpoint {
    /// The endpoint's fixed path.
    pub open spec fn path(&self) -> Seq<char> {
        match self {
            Endpoint::Timestamp => "/api/v1/timestamp"@,
            Endpoint::AllTickers => "/api/v1/market/allTickers"@,
            Endpoint::Candles { .. } => "/api/v1/market/candles"@,
            Endpoint::Symbols => "/api/v2/symbols"@,
            Endpoint::Currencies => "/api/v3/currencies"@,
            Endpoint::ProjectList => "/api/v3/project/list"@,
            Endpoint::BorrowRate => "/api/v3/margin/borrowRate"@,
        }
    }

    /// Whether the endpoint wants the authentication headers: market data is
    /// public, lending and margin data is not.
    pub open spec fn authenticated(&self) -> bool {
        match self {
            Endpoint::ProjectList => true,
            Endpoint::BorrowRate => true,
            _ => false,
        }
    }

    /// The endpoint's query parameters.
    pub open spec fn query(&self) -> Seq<(Seq<char>, Seq<char>)> {
        match self {
            Endpoint::Candles { symbol, interval } => seq![
                ("symbol"@, symbol@),
                ("type"@, interval@),
            ],
            _ => Seq::empty(),
        }
    }
}

impl KuCoinClient {
    /// Prepares the request to `endpoint` as of `timestamp`, the call's time
    /// in epoch milliseconds.
    pub fn request_for(&self, endpoint: &Endpoint, timestamp: u64) -> (r: PreparedRequest)
        ensures
            is_prepared(
                r,
                self@,
                HttpMethod::Get,
                endpoint.path(),
                endpoint.query(),
                endpoint.authenticated(),
                timestamp,
            ),
            r.body is None,
    {
        proof {
            lemma_no_keys_are_unique();
        }
        match endpoint {
            Endpoint::Timestamp => self.make_request(
                HttpMethod::Get,
                "/api/v1/timestamp",
                None,
                None,
                false,
                timestamp,
            ),
            Endpoint::AllTickers => self.make_request(
                HttpMethod::Get,
                "/api/v1/market/allTickers",
                None,
                None,
                false,
                timestamp,
            ),
            Endpoint::Candles { symbol, interval } => {
                let mut query_params: Vec<(String, String)> = Vec::new();
                query_params.push((String::from_str("symbol"), symbol.clone()));
                query_params.push((String::from_str("type"), interval.clone()));
                assert(params_view(query_params@) =~= endpoint.query());
                assert(keys_unique(endpoint.query())) by {
                    reveal_strlit("symbol");
                    reveal_strlit("type");
                    assert("symbol"@.len() != "type"@.len());
                }
                self.make_request(
                    HttpMethod::Get,
                    "/api/v1/market/candles",
                    Some(query_params),
                    None,
                    false,
                    timestamp,
                )
            },
            Endpoint::Symbols => self.make_request(
                HttpMethod::Get,
                "/api/v2/symbols",
                None,
                None,
                false,
                timestamp,
            ),
            Endpoint::Currencies => self.make_request(
                HttpMethod::Get,
                "/api/v3/currencies",
                None,
                None,
                false,
                timestamp,
            ),
            Endpoint::ProjectList => self.make_request(
                HttpMethod::Get,
                "/api/v3/project/list",
                None,
                None,
                true,
                timestamp,
            ),
            Endpoint::BorrowRate => self.make_request(
                HttpMethod::Get,
                "/api/v3/margin/borrowRate",
                None,
                None,
                true,
                timestamp,
            ),
        }
    }

    /// The server's time in epoch milliseconds, from the reply to `Endpoint::Timestamp`.
    /// `raw` is the body text that passed the status gate and `decoded` what
    /// the decoder made of it.
    pub fn api_v1_timestamp(raw: String, decoded: Result<ServerTime, String>) -> (r: Result<
        u64,
        ApiError,
    >)
        ensures
            decoded matches Err(diagnostic) ==> r == Err::<u64, ApiError>(
                ApiError::Decode { raw, diagnostic },
            ),
            decoded matches Ok(envelope) ==> r == (if envelope.code@ == success_code() {
                Ok::<u64, ApiError>(envelope.data)
            } else {
                Err::<u64, ApiError>(ApiError::Application { code: envelope.code })
            }),
    {
        match decoded {
            Err(diagnostic) => open_envelope(raw, Err(diagnostic)),
            Ok(envelope) => open_envelope(raw, Ok((envelope.code, envelope.data))),
        }
    }

    /// The borrow rates, from the reply to `Endpoint::BorrowRate`.
    /// `raw` is the body text that passed the status gate and `decoded` what
    /// the decoder made of it.
    pub fn api_v3_margin_borrowrate(raw: String, decoded: Result<ApiV3MarginBorrowRate, String>) -> (r: Result<
        ApiV3MarginBorrowRateData,
        ApiError,
    >)
        ensures
            decoded matches Err(diagnostic) ==> r == Err::<ApiV3MarginBorrowRateData, ApiError>(
                ApiError::Decode { raw, diagnostic },
            ),
            decoded matches Ok(envelope) ==> r == (if envelope.code@ == success_code() {
                Ok::<ApiV3MarginBorrowRateData, ApiError>(envelope.data)
            } else {
                Err::<ApiV3MarginBorrowRateData, ApiError>(ApiError::Application { code: envelope.code })
            }),
    {
        match decoded {
            Err(diagnostic) => open_envelope(raw, Err(diagnostic)),
            Ok(envelope) => open_envelope(raw, Ok((envelope.code, envelope.data))),
        }
    }

    /// The currencies of the lending market, from the reply to `Endpoint::ProjectList`.
    /// `raw` is the body text that passed the status gate and `decoded` what
    /// the decoder made of it.
    pub fn api_v3_project_list(raw: String, decoded: Result<ListLoanMarket, String>) -> (r: Result<
        Vec<LoanMarket>,
        ApiError,
    >)
        ensures
            decoded matches Err(diagnostic) ==> r == Err::<Vec<LoanMarket>, ApiError>(
                ApiError::Decode { raw, diagnostic },
            ),
            decoded matches Ok(envelope) ==> r == (if envelope.code@ == success_code() {
                Ok::<Vec<LoanMarket>, ApiError>(envelope.data)
            } else {
                Err::<Vec<LoanMarket>, ApiError>(ApiError::Application { code: envelope.code })
            }),
    {
        match decoded {
            Err(diagnostic) => open_envelope(raw, Err(diagnostic)),
            Ok(envelope) => open_envelope(raw, Ok((envelope.code, envelope.data))),
        }
    }

    /// The currency list, from the reply to `Endpoint::Currencies`.
    /// `raw` is the body text that passed the status gate and `decoded` what
    /// the decoder made of it.
    pub fn api_v3_currencies(raw: String, decoded: Result<ListCurrencies, String>) -> (r: Result<
        Vec<Currencies>,
        ApiError,
    >)
        ensures
            decoded matches Err(diagnostic) ==> r == Err::<Vec<Currencies>, ApiError>(
                ApiError::Decode { raw, diagnostic },
            ),
            decoded matches Ok(envelope) ==> r == (if envelope.code@ == success_code() {
                Ok::<Vec<Currencies>, ApiError>(envelope.data)
            } else {
                Err::<Vec<Currencies>, ApiError>(ApiError::Application { code: envelope.code })
            }),
    {
        match decoded {
            Err(diagnostic) => open_envelope(raw, Err(diagnostic)),
            Ok(envelope) => open_envelope(raw, Ok((envelope.code, envelope.data))),
        }
    }

    /// The ticker snapshot together with the server's time, from the reply
    /// to `Endpoint::AllTickers`.
    /// `raw` is the body text that passed the status gate and `decoded` what
    /// the decoder made of it.
    pub fn api_v1_market_alltickers(raw: String, decoded: Result<ListTickers, String>) -> (r: Result<
        TickerData,
        ApiError,
    >)
        ensures
            decoded matches Err(diagnostic) ==> r == Err::<TickerData, ApiError>(
                ApiError::Decode { raw, diagnostic },
            ),
            decoded matches Ok(envelope) ==> r == (if envelope.code@ == success_code() {
                Ok::<TickerData, ApiError>(envelope.data)
            } else {
                Err::<TickerData, ApiError>(ApiError::Application { code: envelope.code })
            }),
    {
        match decoded {
            Err(diagnostic) => open_envelope(raw, Err(diagnostic)),
            Ok(envelope) => open_envelope(raw, Ok((envelope.code, envelope.data))),
        }
    }

    /// The tradable symbols, from the reply to `Endpoint::Symbols`.
    /// `raw` is the body text that passed the status gate and `decoded` what
    /// the decoder made of it.
    pub fn api_v2_symbols(raw: String, decoded: Result<ListSymbols, String>) -> (r: Result<
        Vec<Symbol>,
        ApiError,
    >)
        ensures
            decoded matches Err(diagnostic) ==> r == Err::<Vec<Symbol>, ApiError>(
                ApiError::Decode { raw, diagnostic },
            ),
            decoded matches Ok(envelope) ==> r == (if envelope.code@ == success_code() {
                Ok::<Vec<Symbol>, ApiError>(envelope.data)
            } else {
                Err::<Vec<Symbol>, ApiError>(ApiError::Application { code: envelope.code })
            }),
    {
        match decoded {
            Err(diagnostic) => open_envelope(raw, Err(diagnostic)),
            Ok(envelope) => open_envelope(raw, Ok((envelope.code, envelope.data))),
        }
    }

    /// The candles of one symbol, from the reply to `Endpoint::Candles`.
    /// Every row of the payload becomes a candle, or the call fails as a
    /// whole with a decode error: no part of the list is handed out.
    pub fn api_v1_market_candles(raw: String, decoded: Result<ListCandle, String>) -> (r: Result<
        Vec<Candle>,
        ApiError,
    >)
        ensures
            decoded matches Err(diagnostic) ==> r == Err::<Vec<Candle>, ApiError>(
                ApiError::Decode { raw, diagnostic },
            ),
            decoded matches Ok(envelope) ==> (envelope.code@ != success_code() ==> r == Err::<
                Vec<Candle>,
                ApiError,
            >(ApiError::Application { code: envelope.code })),
            decoded matches Ok(envelope) ==> (envelope.code@ == success_code() ==> {
                &&& r is Ok <==> rows_well_formed(envelope.data@)
                &&& r matches Ok(candles) ==> {
                    &&& candles@.len() == envelope.data@.len()
                    &&& forall|i: int|
                        0 <= i < candles@.len() ==> (#[trigger] candles@[i]).fields()
                            =~= row_fields(envelope.data@[i])
                }
                &&& r matches Err(e) ==> {
                    &&& e matches ApiError::Decode { raw: kept, diagnostic }
                    &&& kept == raw
                    &&& diagnostic@ == candle_diagnostic()
                }
            }),
    {
        match decoded {
            Err(diagnostic) => Err(ApiError::Decode { raw, diagnostic }),
            Ok(envelope) => {
                if !text_eq(envelope.code.as_str(), "200000") {
                    return Err(ApiError::Application { code: envelope.code });
                }
                match envelope.into_candles() {
                    Ok(candles) => Ok(candles),
                    Err(_) => Err(
                        ApiError::Decode {
                            raw,
                            diagnostic: String::from_str(
                                "Failed to parse candles: Invalid candle data length",
                            ),
                        },
                    ),
                }
            },
        }
    }
}

} // verus!
