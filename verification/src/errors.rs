//! The closed error taxonomy shared by every operation of the crate.
//!
//! Every fallible operation returns exactly one of these kinds; none of the
//! verified functions panic on an expected failure path.

use vstd::prelude::*;

verus! {

/// A structured rejection reported by the exchange itself: a numeric code and
/// a human-readable message, as opposed to a transport-level failure.
#[derive(Debug, Clone)]
pub struct BinanceContentError {
    pub code: i16,
    pub msg: String,
}

/// The failure kinds of the crate.
///
/// - `BinanceError`: the exchange explicitly rejected the request; never
///   retried automatically.
/// - `TransportError`: an HTTP-layer failure; `status` is `None` when no
///   response was received at all (network, TLS, timeout), and carries the
///   raw status otherwise, with the raw body for diagnosis.
/// - `StreamError`: a WebSocket-layer failure; drives the stream client's
///   reconnect policy rather than surfacing per message.
/// - `DecodeError`: a response body did not match the expected shape, or a
///   codec conversion failed; `field` names the offending field or context.
/// - `ConfigurationError`: signing was attempted without a secret, or a
///   request could not be assembled from the configured values.
/// - `ClockError`: the local time could not be read while stamping a signed
///   request.
/// - `Other`: a residual application-level failure with a free-form message.
#[derive(Debug)]
pub enum SdkError {
    BinanceError(BinanceContentError),
    TransportError { status: Option<u16>, body: String },
    StreamError { detail: String },
    DecodeError { field: String },
    ConfigurationError { detail: String },
    ClockError,
    Other(String),
}

impl SdkError {
    /// True for the kinds a caller may sensibly retry (transport and stream
    /// failures); business rejections, decode mismatches and configuration
    /// faults are never retried.
    pub fn is_retryable(&self) -> (r: bool)
        ensures
            r == (self is TransportError || self is StreamError),
    {
        match self {
            SdkError::TransportError { .. } => true,
            SdkError::StreamError { .. } => true,
            _ => false,
        }
    }
}

} // verus!
