//! Typed client core for a cryptocurrency exchange's REST and WebSocket APIs.
//!
//! The crate is transport-agnostic: it builds and signs requests, classifies
//! HTTP responses into a closed error taxonomy, decodes the exchange's
//! string-encoded wire scalars, and drives the WebSocket stream lifecycle as
//! an explicit state machine.  An embedding program performs the actual
//! network I/O and feeds the outcomes back into this crate.

mod api;
mod client;
mod codec;
mod digits;
mod errors;
mod general;
mod json;
mod model;
mod params;
mod sign;
mod stream;

pub use api::API;
pub use api::Spot;
pub use client::Client;
pub use client::HttpOutcome;
pub use client::Method;
pub use client::RequestPlan;
pub use client::decode_business_error;
pub use client::handle_response;
pub use general::General;
pub use model::ExchangeInformation;
pub use model::MarkPrice;
pub use model::RateLimit;
pub use model::ServerTime;
pub use model::Symbol;
pub use model::decode_mark_price;
pub use model::decode_server_time;
pub use params::Params;
pub use sign::sign_query;
pub use sign::to_hex_lower;
pub use stream::StreamAction;
pub use stream::StreamEvent;
pub use stream::StreamState;
pub use stream::backoff_ms;
pub use stream::step;

pub use codec::MAX_DECIMAL_DIGITS;
pub use codec::WireDecimal;
pub use codec::bool_from_wire;
pub use codec::bool_to_wire;
pub use codec::decimal_from_wire;
pub use codec::decimal_from_wire_optional;
pub use codec::decimal_to_wire;

pub use errors::BinanceContentError;
pub use errors::SdkError;
