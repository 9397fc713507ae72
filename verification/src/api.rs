//! Endpoint identifiers and their request paths.

use vstd::prelude::*;

verus! {

/// Spot-market endpoints used by the general endpoint group.
#[derive(Clone, Copy, PartialEq, Eq, Structural)]
pub enum Spot {
    Ping,
    Time,
    ExchangeInfo,
}

/// An endpoint identifier, qualified by market.
#[derive(Clone, Copy, PartialEq, Eq, Structural)]
pub enum API {
    Spot(Spot),
}

pub open spec fn spec_api_path(a: API) -> Seq<char> {
    match a {
        API::Spot(Spot::Ping) => "/api/v3/ping"@,
        API::Spot(Spot::Time) => "/api/v3/time"@,
        API::Spot(Spot::ExchangeInfo) => "/api/v3/exchangeInfo"@,
    }
}

impl API {
    /// The request path of the endpoint, relative to the host.
    pub fn path(&self) -> (r: &'static str)
        ensures
            r@ == spec_api_path(*self),
    {
        match self {
            API::Spot(Spot::Ping) => "/api/v3/ping",
            API::Spot(Spot::Time) => "/api/v3/time",
            API::Spot(Spot::ExchangeInfo) => "/api/v3/exchangeInfo",
        }
    }
}

} // verus!
