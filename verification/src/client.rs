//! REST transport core: request plans, signing, and response classification.
//!
//! The client is transport-agnostic.  It turns an endpoint, parameters and
//! credentials into a [`RequestPlan`] (method, full URL, API-key header) for
//! the embedding program to execute, and classifies the resulting
//! [`HttpOutcome`]: a 2xx response yields the raw body for the caller's
//! decoder; a non-2xx response is first read as the exchange's business-error
//! envelope and falls back to a transport error when that fails; a failure to
//! obtain any response is a transport error with no status.

use vstd::prelude::*;
use vstd::string::StrSliceExecFns;
use vstd::string::StringExecFns;
use crate::api::{API, spec_api_path};
use crate::errors::{BinanceContentError, SdkError};
use crate::json::{JsonScalar, JsonVal, parse_flat_object, lookup_field, sp_object, sp_lookup};
use crate::params::Params;
use crate::sign::{spec_signed_query, sign_query};

verus! {

/// HTTP method of a planned request.
#[derive(Clone, Copy, Debug, PartialEq, Eq, Structural)]
pub enum Method {
    Get,
    Post,
    Put,
    Delete,
}

/// A fully assembled request for the embedding program to execute.
pub struct RequestPlan {
    pub method: Method,
    pub url: String,
    /// API key to send in the exchange's authentication header, when one is
    /// configured.
    pub api_key_header: Option<String>,
}

/// What the embedding program got back from executing a plan: either a
/// response (any status) or no response at all.
pub enum HttpOutcome {
    Response { status: u16, body: String },
    NetworkFailure { detail: String },
}

/// The transport core: immutable credentials and base URL.
#[derive(Clone)]
pub struct Client {
    pub api_key: Option<String>,
    pub secret_key: Option<String>,
    pub host: String,
}

pub open spec fn spec_url(host: Seq<char>, path: Seq<char>, query: Option<Seq<char>>) -> Seq<
    char,
> {
    match query {
        Some(q) => host + path + seq!['?'] + q,
        None => host + path,
    }
}

pub open spec fn is_success_status(status: u16) -> bool {
    200 <= status < 300
}

/// The business-error envelope denoted by a body, when it is one: a flat
/// object with an integer `code` in `i16` range and a string `msg`.
pub open spec fn spec_business_error(s: Seq<char>) -> Option<(int, Seq<char>)> {
    match sp_object(s) {
        None => None,
        Some(ps) => match sp_lookup(ps, "code"@) {
            Some(JsonVal::Int(c)) => match sp_lookup(ps, "msg"@) {
                Some(JsonVal::Str(m)) => if i16::MIN <= c <= i16::MAX {
                    Some((c, m))
                } else {
                    None
                },
                _ => None,
            },
            _ => None,
        },
    }
}

/// Reads a response body as the exchange's business-error envelope.
pub fn decode_business_error(body: &str) -> (r: Option<BinanceContentError>)
    ensures
        match spec_business_error(body@) {
            Some((c, m)) => r matches Some(e) && e.code as int == c && e.msg@ == m,
            None => r is None,
        },
{
    let fields = match parse_flat_object(body) {
        Ok(f) => f,
        Err(_) => {
            return None;
        },
    };
    let ci = match lookup_field(&fields, "code") {
        Some(i) => i,
        None => {
            return None;
        },
    };
    let code: i64 = match &fields[ci].value {
        JsonScalar::Int(n) => *n,
        _ => {
            return None;
        },
    };
    if code < i16::MIN as i64 || code > i16::MAX as i64 {
        return None;
    }
    let mi = match lookup_field(&fields, "msg") {
        Some(i) => i,
        None => {
            return None;
        },
    };
    let msg: String = match &fields[mi].value {
        JsonScalar::Str(st) => st.clone(),
        _ => {
            return None;
        },
    };
    Some(BinanceContentError { code: code as i16, msg })
}

/// Classifies an HTTP outcome per the response-envelope contract: 2xx hands
/// the raw body to the caller's decoder; a non-2xx body is read as a
/// business error first, falling back to a transport error; no response at
/// all is a transport error without a status.
pub fn handle_response(outcome: HttpOutcome) -> (r: Result<String, SdkError>)
    ensures
        outcome matches HttpOutcome::NetworkFailure { detail } ==> (r matches Err(e) && (
        e matches SdkError::TransportError { status, body } && status is None && body@
            == detail@)),
        outcome matches HttpOutcome::Response { status, body } ==> {
            &&& is_success_status(status) ==> (r matches Ok(b) && b@ == body@)
            &&& !is_success_status(status) ==> match spec_business_error(body@) {
                Some((c, m)) => r matches Err(e) && (e matches SdkError::BinanceError(be)
                    && be.code as int == c && be.msg@ == m),
                None => r matches Err(e) && (e matches SdkError::TransportError {
                    status: st,
                    body: b,
                } && st matches Some(got) && got == status && b@ == body@),
            }
        },
{
    match outcome {
        HttpOutcome::NetworkFailure { detail } => Err(
            SdkError::TransportError { status: None, body: detail },
        ),
        HttpOutcome::Response { status, body } => {
            if 200 <= status && status < 300 {
                Ok(body)
            } else {
                match decode_business_error(body.as_str()) {
                    Some(e) => Err(SdkError::BinanceError(e)),
                    None => Err(SdkError::TransportError { status: Some(status), body }),
                }
            }
        },
    }
}

/// Relies on std::time::SystemTime::now and duration_since(UNIX_EPOCH): the
/// wall clock in milliseconds; nothing is assumed of the value, and `None`
/// stands for a clock that could not be read.
#[verifier::external_body]
fn now_millis() -> (r: Option<u64>)
{
    match std::time::SystemTime::now().duration_since(std::time::UNIX_EPOCH) {
        Ok(d) => u64::try_from(d.as_millis()).ok(),
        Err(_) => None,
    }
}

impl Client {
    pub fn new(api_key: Option<String>, secret_key: Option<String>, host: String) -> (r: Client)
        ensures
            r.api_key == api_key,
            r.secret_key == secret_key,
            r.host == host,
    {
        Client { api_key, secret_key, host }
    }

    /// The API-key header value to attach: the configured key, when any.
    fn key_header(&self) -> (r: Option<String>)
        ensures
            match self.api_key {
                Some(k) => r matches Some(h) && h@ == k@,
                None => r is None,
            },
    {
        match &self.api_key {
            Some(k) => Some(k.clone()),
            None => None,
        }
    }

    fn build_url(&self, endpoint: API, query: Option<&str>) -> (r: String)
        ensures
            r@ == spec_url(
                self.host@,
                spec_api_path(endpoint),
                match query {
                    Some(q) => Some(q@),
                    None => None,
                },
            ),
    {
        let mut url = self.host.clone();
        url.append(endpoint.path());
        match query {
            Some(q) => {
                url.append("?");
                url.append(q);
                proof {
                    reveal_strlit("?");
                    assert("?"@ =~= seq!['?']);
                    assert(url@ =~= self.host@ + spec_api_path(endpoint) + seq!['?'] + q@);
                }
            },
            None => {},
        }
        url
    }

    fn plan(&self, method: Method, endpoint: API, query: Option<&str>) -> (r: RequestPlan)
        ensures
            r.method == method,
            r.url@ == spec_url(
                self.host@,
                spec_api_path(endpoint),
                match query {
                    Some(q) => Some(q@),
                    None => None,
                },
            ),
            match self.api_key {
                Some(k) => r.api_key_header matches Some(h) && h@ == k@,
                None => r.api_key_header is None,
            },
    {
        RequestPlan { method, url: self.build_url(endpoint, query), api_key_header: self.key_header() }
    }

    /// Plans an unsigned GET: no timestamp, no signature, the API-key header
    /// still attached when configured.
    pub fn get(&self, endpoint: API, query: Option<&str>) -> (r: RequestPlan)
        ensures
            r.method == Method::Get,
            r.url@ == spec_url(
                self.host@,
                spec_api_path(endpoint),
                match query {
                    Some(q) => Some(q@),
                    None => None,
                },
            ),
            match self.api_key {
                Some(k) => r.api_key_header matches Some(h) && h@ == k@,
                None => r.api_key_header is None,
            },
    {
        self.plan(Method::Get, endpoint, query)
    }

    pub fn post(&self, endpoint: API, query: Option<&str>) -> (r: RequestPlan)
        ensures
            r.method == Method::Post,
            r.url@ == spec_url(
                self.host@,
                spec_api_path(endpoint),
                match query {
                    Some(q) => Some(q@),
                    None => None,
                },
            ),
            match self.api_key {
                Some(k) => r.api_key_header matches Some(h) && h@ == k@,
                None => r.api_key_header is None,
            },
    {
        self.plan(Method::Post, endpoint, query)
    }

    pub fn put(&self, endpoint: API, query: Option<&str>) -> (r: RequestPlan)
        ensures
            r.method == Method::Put,
            r.url@ == spec_url(
                self.host@,
                spec_api_path(endpoint),
                match query {
                    Some(q) => Some(q@),
                    None => None,
                },
            ),
            match self.api_key {
                Some(k) => r.api_key_header matches Some(h) && h@ == k@,
                None => r.api_key_header is None,
            },
    {
        self.plan(Method::Put, endpoint, query)
    }

    pub fn delete(&self, endpoint: API, query: Option<&str>) -> (r: RequestPlan)
        ensures
            r.method == Method::Delete,
            r.url@ == spec_url(
                self.host@,
                spec_api_path(endpoint),
                match query {
                    Some(q) => Some(q@),
                    None => None,
                },
            ),
            match self.api_key {
                Some(k) => r.api_key_header matches Some(h) && h@ == k@,
                None => r.api_key_header is None,
            },
    {
        self.plan(Method::Delete, endpoint, query)
    }

    /// Plans a signed request with an explicit timestamp.  Fails with
    /// `ConfigurationError` exactly when no secret is configured — before any
    /// plan (and hence any network call) exists.
    pub fn signed_request_at(
        &self,
        method: Method,
        endpoint: API,
        params: &Params,
        timestamp_ms: u64,
    ) -> (r: Result<RequestPlan, SdkError>)
        ensures
            self.secret_key is None <==> (r matches Err(e) && e is ConfigurationError),
            r is Ok <==> self.secret_key is Some,
            r matches Ok(p) ==> {
                &&& p.method == method
                &&& self.secret_key matches Some(sk) && p.url@ == spec_url(
                    self.host@,
                    spec_api_path(endpoint),
                    Some(spec_signed_query(params@, sk@, timestamp_ms)),
                )
                &&& match self.api_key {
                    Some(k) => p.api_key_header matches Some(h) && h@ == k@,
                    None => p.api_key_header is None,
                }
            },
    {
        let secret = match &self.secret_key {
            Some(s) => s,
            None => {
                return Err(
                    SdkError::ConfigurationError {
                        detail: "signing requires an API secret".to_owned(),
                    },
                );
            },
        };
        let mut copied = params.clone_params();
        let query = sign_query(&mut copied, secret.as_str(), timestamp_ms);
        Ok(self.plan(method, endpoint, Some(query.as_str())))
    }

    /// Plans a signed request stamped with the current wall clock.  Fails
    /// with `ConfigurationError` exactly when no secret is configured; with a
    /// secret it fails only with `ClockError`, when the local time cannot be
    /// read.  No plan exists in either case.
    pub fn signed_request(&self, method: Method, endpoint: API, params: &Params) -> (r: Result<
        RequestPlan,
        SdkError,
    >)
        ensures
            self.secret_key is None ==> (r matches Err(e) && e is ConfigurationError),
            (r matches Err(e) && e is ConfigurationError) ==> self.secret_key is None,
            r matches Err(e) ==> e is ConfigurationError || e is ClockError,
            r matches Ok(p) ==> {
                &&& p.method == method
                &&& self.secret_key matches Some(sk) && exists|ts: u64|
                    p.url@ == spec_url(
                        self.host@,
                        spec_api_path(endpoint),
                        Some(spec_signed_query(params@, sk@, ts)),
                    )
            },
    {
        if self.secret_key.is_none() {
            return Err(
                SdkError::ConfigurationError { detail: "signing requires an API secret".to_owned() },
            );
        }
        let ts = match now_millis() {
            Some(t) => t,
            None => {
                return Err(SdkError::ClockError);
            },
        };
        match self.signed_request_at(method, endpoint, params, ts) {
            Ok(p) => {
                proof {
                    let ghost sk = self.secret_key->Some_0;
                    assert(p.url@ == spec_url(
                        self.host@,
                        spec_api_path(endpoint),
                        Some(spec_signed_query(params@, sk@, ts)),
                    ));
                }
                Ok(p)
            },
            Err(e) => Err(e),
        }
    }
}

} // verus!
