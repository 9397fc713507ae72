//! The general (market-neutral) endpoint group: connectivity, server time,
//! exchange information, symbol lookup.
//!
//! Network execution lives with the embedding program: each endpoint has a
//! request builder producing a [`RequestPlan`], and a decoder taking the
//! [`HttpOutcome`] the program got back.

use vstd::prelude::*;
use vstd::string::StrSliceExecFns;
use vstd::string::StringExecFns;
use crate::api::{API, Spot, spec_api_path};
use crate::client::{
    Client, HttpOutcome, Method, RequestPlan, handle_response, is_success_status, spec_url,
    spec_business_error,
};
use crate::errors::SdkError;
use crate::json::sp_object;
use crate::model::{ExchangeInformation, ServerTime, Symbol, spec_server_time, symbol_equiv};
use crate::model::decode_server_time;
use crate::params::Params;

verus! {

/// The uppercase folding of a string, computed by the standard library; a
/// pure function of the characters alone.
pub uninterp spec fn upper_of(s: Seq<char>) -> Seq<char>;

/// Relies on str::to_uppercase: the result depends on the characters alone.
#[verifier::external_body]
fn to_uppercase(s: &str) -> (r: String)
    ensures
        r@ == upper_of(s@),
{
    s.to_uppercase()
}

/// The general endpoint group over a transport core.
pub struct General {
    pub client: Client,
}

/// Whether `outcome` is a successful response whose body is a flat JSON
/// object (what a connectivity probe returns).
pub open spec fn spec_ping_ok(outcome: HttpOutcome) -> bool {
    outcome matches HttpOutcome::Response { status, body } && is_success_status(status)
        && sp_object(body@) is Some
}

/// Whether `outcome` is a successful response carrying a server time.
pub open spec fn spec_server_time_ok(outcome: HttpOutcome) -> Option<int> {
    match outcome {
        HttpOutcome::Response { status, body } => if is_success_status(status) {
            spec_server_time(body@)
        } else {
            None
        },
        HttpOutcome::NetworkFailure { .. } => None,
    }
}

/// The index of the first symbol in `symbols` named `name`, when any.
pub open spec fn spec_symbol_index(symbols: Seq<Symbol>, name: Seq<char>) -> Option<int> {
    if exists|i: int| 0 <= i < symbols.len() && symbols[i].symbol@ == name {
        Some(
            choose|i: int|
                0 <= i < symbols.len() && symbols[i].symbol@ == name && forall|j: int|
                    0 <= j < i ==> symbols[j].symbol@ != name,
        )
    } else {
        None
    }
}

impl General {
    pub fn new(client: Client) -> (r: General)
        ensures
            r.client == client,
    {
        General { client }
    }

    /// The request that `ping` answers: an unsigned GET of the connectivity
    /// endpoint.
    pub fn ping_request(&self) -> (r: RequestPlan)
        ensures
            r.method == Method::Get,
            r.url@ == spec_url(self.client.host@, spec_api_path(API::Spot(Spot::Ping)), None),
            match self.client.api_key {
                Some(k) => r.api_key_header matches Some(h) && h@ == k@,
                None => r.api_key_header is None,
            },
    {
        self.client.get(API::Spot(Spot::Ping), None)
    }

    /// Tests connectivity: interprets the outcome of `ping_request`.  Any
    /// successful (2xx) response whose body is a JSON object answers
    /// `"pong"`; failures classify per the response envelope.
    pub fn ping(&self, outcome: HttpOutcome) -> (r: Result<String, SdkError>)
        ensures
            r is Ok <==> spec_ping_ok(outcome),
            r matches Ok(p) ==> p@ == "pong"@,
            outcome matches HttpOutcome::NetworkFailure { .. } ==> (r matches Err(e)
                && e is TransportError),
            outcome matches HttpOutcome::Response { status, body } ==> {
                &&& (is_success_status(status) && sp_object(body@) is None) ==> (r matches Err(e)
                    && e is DecodeError)
                &&& !is_success_status(status) ==> (r matches Err(e) && (
                match spec_business_error(body@) {
                    Some((c, m)) => e matches SdkError::BinanceError(be) && be.code as int == c
                        && be.msg@ == m,
                    None => e is TransportError,
                }))
            },
    {
        let body = match handle_response(outcome) {
            Ok(b) => b,
            Err(e) => {
                return Err(e);
            },
        };
        match crate::json::parse_flat_object(body.as_str()) {
            Ok(_) => Ok("pong".to_owned()),
            Err(e) => Err(e),
        }
    }

    /// The request that `get_server_time` answers.
    pub fn server_time_request(&self) -> (r: RequestPlan)
        ensures
            r.method == Method::Get,
            r.url@ == spec_url(self.client.host@, spec_api_path(API::Spot(Spot::Time)), None),
            match self.client.api_key {
                Some(k) => r.api_key_header matches Some(h) && h@ == k@,
                None => r.api_key_header is None,
            },
    {
        self.client.get(API::Spot(Spot::Time), None)
    }

    /// Checks server time: interprets the outcome of `server_time_request`.
    pub fn get_server_time(&self, outcome: HttpOutcome) -> (r: Result<ServerTime, SdkError>)
        ensures
            r is Ok <==> spec_server_time_ok(outcome) is Some,
            r matches Ok(t) ==> spec_server_time_ok(outcome) == Some(t.server_time as int),
            outcome matches HttpOutcome::NetworkFailure { .. } ==> (r matches Err(e)
                && e is TransportError),
            outcome matches HttpOutcome::Response { status, body } ==> {
                &&& (is_success_status(status) && spec_server_time(body@) is None) ==> (
                r matches Err(e) && e is DecodeError)
                &&& !is_success_status(status) ==> (r matches Err(e) && (
                match spec_business_error(body@) {
                    Some((c, m)) => e matches SdkError::BinanceError(be) && be.code as int == c
                        && be.msg@ == m,
                    None => e is TransportError,
                }))
            },
    {
        let body = match handle_response(outcome) {
            Ok(b) => b,
            Err(e) => {
                return Err(e);
            },
        };
        decode_server_time(body.as_str())
    }

    /// The request for current exchange trading rules and symbol information;
    /// the embedding program decodes the (nested) body.
    pub fn exchange_info(&self) -> (r: RequestPlan)
        ensures
            r.method == Method::Get,
            r.url@ == spec_url(
                self.client.host@,
                spec_api_path(API::Spot(Spot::ExchangeInfo)),
                None,
            ),
            match self.client.api_key {
                Some(k) => r.api_key_header matches Some(h) && h@ == k@,
                None => r.api_key_header is None,
            },
    {
        self.client.get(API::Spot(Spot::ExchangeInfo), None)
    }

    /// The exchange-information request restricted to one permission set.
    pub fn exchange_info_permission(&self, permission: &str) -> (r: RequestPlan)
        ensures
            r.method == Method::Get,
            r.url@ == spec_url(
                self.client.host@,
                spec_api_path(API::Spot(Spot::ExchangeInfo)),
                Some("permissions"@ + seq!['='] + permission@),
            ),
            match self.client.api_key {
                Some(k) => r.api_key_header matches Some(h) && h@ == k@,
                None => r.api_key_header is None,
            },
    {
        let mut parameters = Params::new();
        parameters.insert("permissions", permission);
        let request = parameters.to_query_string();
        proof {
            assert(crate::params::spec_remove_key(
                Seq::<(Seq<char>, Seq<char>)>::empty(),
                "permissions"@,
            ) =~= Seq::<(Seq<char>, Seq<char>)>::empty());
            assert(parameters@ =~= seq![("permissions"@, permission@)]);
            assert(request@ =~= "permissions"@ + seq!['='] + permission@);
        }
        self.client.get(API::Spot(Spot::ExchangeInfo), Some(request.as_str()))
    }

    /// Finds a symbol by (case-folded) name in already-fetched exchange
    /// information: the first entry whose name equals the uppercase folding
    /// of `symbol`, or `Other("Symbol not found")`.
    pub fn get_symbol_info(&self, info: &ExchangeInformation, symbol: &str) -> (r: Result<
        Symbol,
        SdkError,
    >)
        ensures
            r is Ok <==> spec_symbol_index(info.symbols@, upper_of(symbol@)) is Some,
            r matches Ok(sym) ==> (spec_symbol_index(info.symbols@, upper_of(symbol@))
                matches Some(i) && 0 <= i < info.symbols@.len() && symbol_equiv(
                sym,
                info.symbols@[i],
            )),
            r matches Err(e) ==> (e matches SdkError::Other(m) && m@ == "Symbol not found"@),
    {
        let upper_symbol = to_uppercase(symbol);
        let ghost name = upper_of(symbol@);
        let mut i: usize = 0;
        while i < info.symbols.len()
            invariant
                0 <= i <= info.symbols@.len(),
                upper_symbol@ == name,
                name == upper_of(symbol@),
                forall|j: int| 0 <= j < i ==> info.symbols@[j].symbol@ != name,
            decreases info.symbols@.len() - i,
        {
            if info.symbols[i].symbol == upper_symbol {
                proof {
                    let ghost w = i as int;
                    assert(0 <= w < info.symbols@.len() && info.symbols@[w].symbol@ == name
                        && forall|j: int| 0 <= j < w ==> info.symbols@[j].symbol@ != name);
                    let ghost c = choose|k: int|
                        0 <= k < info.symbols@.len() && info.symbols@[k].symbol@ == name
                            && forall|j: int| 0 <= j < k ==> info.symbols@[j].symbol@ != name;
                    assert(c == w);
                }
                return Ok(info.symbols[i].duplicate());
            }
            i += 1;
        }
        Err(SdkError::Other("Symbol not found".to_owned()))
    }
}

} // verus!
