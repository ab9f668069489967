//! The REST client's pure part: credentials, the two signatures, and the
//! request exactly as it is to be sent.

use crate::signer::{
    build_string_to_sign, canonical_query, join_query, keys_unique, lemma_sort_nothing,
    param_order,
    params_view, sign, signature_of, sorted_params, string_to_sign,
};
use crate::text::{decimal, u64_to_decimal};
use vstd::prelude::*;
use vstd::string::*;

verus! {

/// HTTP method of a request.
#[derive(Debug, Clone, Copy, PartialEq, Eq, Structural)]
pub enum HttpMethod {
    Get,
    Post,
    Put,
    Delete,
}

impl HttpMethod {
    /// The method's name as it is sent and signed.
    pub open spec fn text(self) -> Seq<char> {
        match self {
            HttpMethod::Get => "GET"@,
            HttpMethod::Post => "POST"@,
            HttpMethod::Put => "PUT"@,
            HttpMethod::Delete => "DELETE"@,
        }
    }

    /// The method's name as it is sent and signed.
    pub fn as_str(&self) -> (r: &'static str)
        ensures
            r@ == self.text(),
    {
        match self {
            HttpMethod::Get => "GET",
            HttpMethod::Post => "POST",
            HttpMethod::Put => "PUT",
            HttpMethod::Delete => "DELETE",
        }
    }
}

/// Which of the required credentials were absent at construction.
#[derive(Debug, Clone, Copy, PartialEq, Eq, Structural)]
pub struct ConfigError {
    pub missing_passphrase: bool,
    pub missing_key: bool,
    pub missing_secret: bool,
}

/// What a client holds, as mathematics.
pub ghost struct Credentials {
    pub key: Seq<char>,
    pub secret: Seq<char>,
    pub passphrase: Seq<char>,
    pub base_url: Seq<char>,
}

/// The credentials of one client. They are fixed at construction.
#[derive(Debug, Clone)]
pub struct KuCoinClient {
    api_key: String,
    api_secret: String,
    api_passphrase: String,
    base_url: String,
}

impl View for KuCoinClient {
    type V = Credentials;

    closed spec fn view(&self) -> Credentials {
        Credentials {
            key: self.api_key@,
            secret: self.api_secret@,
            passphrase: self.api_passphrase@,
            base_url: self.base_url@,
        }
    }
}

/// A request as it is to be sent.
#[derive(Debug)]
pub struct PreparedRequest {
    pub method: HttpMethod,
    /// Base URL and path.
    pub url: String,
    /// The query parameters in the order in which they were signed.
    pub query: Vec<(String, String)>,
    /// The body fields, if the request has a body.
    pub body: Option<Vec<(String, String)>>,
    /// The authentication headers; none on an unauthenticated request.
    pub headers: Vec<(String, String)>,
}

/// The query parameters of a request as mathematics; a request without
/// parameters has the empty list.
pub open spec fn query_view(query: Option<Vec<(String, String)>>) -> Seq<(Seq<char>, Seq<char>)> {
    match query {
        Some(params) => params_view(params@),
        None => Seq::empty(),
    }
}

/// The five headers of an authenticated request, in the order in which they
/// are attached.
pub open spec fn auth_headers(
    credentials: Credentials,
    timestamp: u64,
    method: Seq<char>,
    endpoint: Seq<char>,
    query: Seq<(Seq<char>, Seq<char>)>,
) -> Seq<(Seq<char>, Seq<char>)> {
    seq![
        ("KC-API-KEY"@, credentials.key),
        (
            "KC-API-SIGN"@,
            signature_of(
                credentials.secret,
                string_to_sign(timestamp, method, endpoint, canonical_query(query)),
            ),
        ),
        ("KC-API-TIMESTAMP"@, decimal(timestamp as nat)),
        ("KC-API-PASSPHRASE"@, signature_of(credentials.secret, credentials.passphrase)),
        ("KC-API-KEY-VERSION"@, "2"@),
    ]
}

/// `request` is what the dispatcher sends for the given request facts at the
/// given time.
pub open spec fn is_prepared(
    request: PreparedRequest,
    credentials: Credentials,
    method: HttpMethod,
    endpoint: Seq<char>,
    query: Seq<(Seq<char>, Seq<char>)>,
    authenticated: bool,
    timestamp: u64,
) -> bool {
    &&& request.method == method
    &&& request.url@ == credentials.base_url + endpoint
    &&& params_view(request.query@) == query.sort_by(param_order())
    &&& params_view(request.headers@) == if authenticated {
        auth_headers(credentials, timestamp, method.text(), endpoint, query)
    } else {
        Seq::empty()
    }
}

impl KuCoinClient {
    /// Builds a client from the credentials that the configuration supplies.
    /// It fails, before any request, exactly when one of passphrase, key and
    /// secret is absent, and then says which.
    pub fn new(
        base_url: String,
        api_passphrase: Option<String>,
        api_key: Option<String>,
        api_secret: Option<String>,
    ) -> (r: Result<KuCoinClient, ConfigError>)
        ensures
            r is Ok <==> api_passphrase is Some && api_key is Some && api_secret is Some,
            r matches Ok(client) ==> client@ == (Credentials {
                key: api_key->0@,
                secret: api_secret->0@,
                passphrase: api_passphrase->0@,
                base_url: base_url@,
            }),
            r matches Err(e) ==> e == (ConfigError {
                missing_passphrase: api_passphrase is None,
                missing_key: api_key is None,
                missing_secret: api_secret is None,
            }),
    {
        match (api_passphrase, api_key, api_secret) {
            (Some(passphrase), Some(key), Some(secret)) => Ok(
                KuCoinClient {
                    api_key: key,
                    api_secret: secret,
                    api_passphrase: passphrase,
                    base_url,
                },
            ),
            (passphrase, key, secret) => Err(
                ConfigError {
                    missing_passphrase: passphrase.is_none(),
                    missing_key: key.is_none(),
                    missing_secret: secret.is_none(),
                },
            ),
        }
    }

    /// The signature of a request: the canonical message signed with the
    /// secret. The body takes no part in the message.
    pub fn generate_signature(
        &self,
        timestamp: u64,
        method: &str,
        endpoint: &str,
        query_string: &str,
        body: &str,
    ) -> (r: String)
        ensures
            r@ == signature_of(
                self@.secret,
                string_to_sign(timestamp, method@, endpoint@, query_string@),
            ),
            r@.len() == 44,
    {
        let string_to_sign = build_string_to_sign(timestamp, method, endpoint, query_string);
        sign(self.api_secret.as_str(), string_to_sign.as_str())
    }

    /// The passphrase signed with the secret.
    pub fn generate_passphrase_signature(&self) -> (r: String)
        ensures
            r@ == signature_of(self@.secret, self@.passphrase),
            r@.len() == 44,
    {
        sign(self.api_secret.as_str(), self.api_passphrase.as_str())
    }

    /// Prepares one request: the URL, the query parameters in canonical order
    /// and, on an authenticated request, the five authentication headers
    /// computed for `timestamp`, the call's time in epoch milliseconds. The
    /// query parameters are a mapping: no key occurs twice, which
    /// `keys_are_unique` tests.
    pub fn make_request(
        &self,
        method: HttpMethod,
        endpoint: &str,
        query_params: Option<Vec<(String, String)>>,
        body: Option<Vec<(String, String)>>,
        authenticated: bool,
        timestamp: u64,
    ) -> (r: PreparedRequest)
        requires
            keys_unique(query_view(query_params)),
        ensures
            is_prepared(
                r,
                self@,
                method,
                endpoint@,
                query_view(query_params),
                authenticated,
                timestamp,
            ),
            r.body == body,
    {
        let mut url = self.base_url.clone();
        url.append(endpoint);
        let query = match &query_params {
            Some(params) => sorted_params(params),
            None => Vec::new(),
        };
        proof {
            if query_params is None {
                lemma_sort_nothing();
                assert(params_view(query@) =~= Seq::empty());
            }
        }
        let mut headers: Vec<(String, String)> = Vec::new();
        if authenticated {
            let query_string = join_query(&query);
            let signature = self.generate_signature(
                timestamp,
                method.as_str(),
                endpoint,
                query_string.as_str(),
                "",
            );
            let passphrase_signature = self.generate_passphrase_signature();
            headers.push((String::from_str("KC-API-KEY"), self.api_key.clone()));
            headers.push((String::from_str("KC-API-SIGN"), signature));
            headers.push((String::from_str("KC-API-TIMESTAMP"), u64_to_decimal(timestamp)));
            headers.push((String::from_str("KC-API-PASSPHRASE"), passphrase_signature));
            headers.push((String::from_str("KC-API-KEY-VERSION"), String::from_str("2")));
            assert(params_view(headers@) =~= auth_headers(
                self@,
                timestamp,
                method.text(),
                endpoint@,
                query_view(query_params),
            ));
        } else {
            assert(params_view(headers@) =~= Seq::empty());
        }
        PreparedRequest { method, url, query, body, headers }
    }
}

} // verus!
