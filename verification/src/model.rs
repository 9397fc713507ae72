//! Typed response shapes decoded by this crate's own envelope parser.
//!
//! Only the shapes the core itself must read are defined here; the wider
//! catalogue of per-endpoint response types is mechanical mapping done by the
//! embedding program with a general-purpose JSON decoder.

use vstd::prelude::*;
use vstd::string::StrSliceExecFns;
use crate::codec::{
    WireDecimal, decimal_from_wire, valid_decimal_wire, spec_negative, spec_mantissa, spec_scale,
};
use crate::errors::SdkError;
use crate::json::{
    JsonField, JsonScalar, JsonVal, parse_flat_object, lookup_field, sp_object, sp_lookup,
    fields_view,
};

verus! {

/// The server-time response: `{"serverTime": <millis>}`.
#[derive(Clone, Copy, Debug, PartialEq, Eq, Structural)]
pub struct ServerTime {
    pub server_time: u64,
}

/// One rate-limit rule of the exchange-information response.
pub struct RateLimit {
    pub rate_limit_type: String,
    pub interval: String,
    pub interval_num: u64,
    pub limit: u64,
}

/// One tradable symbol of the exchange-information response.
#[verifier::ext_equal]
pub struct Symbol {
    pub symbol: String,
    pub status: String,
    pub maint_margin_percent: String,
    pub required_margin_percent: String,
    pub base_asset: String,
    pub quote_asset: String,
    pub onboard_date: u128,
    pub price_precision: u16,
    pub quantity_precision: u16,
    pub base_asset_precision: u64,
    pub quote_precision: u64,
    pub order_types: Vec<String>,
    pub time_in_force: Vec<String>,
}

/// Exchange trading rules and symbol catalogue.
pub struct ExchangeInformation {
    pub timezone: String,
    pub server_time: u64,
    pub rate_limits: Vec<RateLimit>,
    pub exchange_filters: Vec<String>,
    pub symbols: Vec<Symbol>,
}

/// A mark-price event: decimal fields arrive as strings on the wire.
pub struct MarkPrice {
    pub symbol: String,
    pub mark_price: WireDecimal,
    pub last_funding_rate: WireDecimal,
    pub next_funding_time: u64,
    pub time: u64,
}

fn clone_string_vec(v: &Vec<String>) -> (r: Vec<String>)
    ensures
        r@ == v@,
{
    let mut out: Vec<String> = Vec::new();
    proof {
        assert(out@ =~= v@.take(0));
    }
    let mut i: usize = 0;
    while i < v.len()
        invariant
            0 <= i <= v@.len(),
            out@ == v@.take(i as int),
        decreases v@.len() - i,
    {
        out.push(v[i].clone());
        proof {
            assert(out@ =~= v@.take(i + 1));
        }
        i += 1;
    }
    proof {
        assert(v@.take(i as int) =~= v@);
    }
    out
}

/// Field-for-field agreement of two symbols (list fields by contents).
pub open spec fn symbol_equiv(a: Symbol, b: Symbol) -> bool {
    &&& a.symbol == b.symbol
    &&& a.status == b.status
    &&& a.maint_margin_percent == b.maint_margin_percent
    &&& a.required_margin_percent == b.required_margin_percent
    &&& a.base_asset == b.base_asset
    &&& a.quote_asset == b.quote_asset
    &&& a.onboard_date == b.onboard_date
    &&& a.price_precision == b.price_precision
    &&& a.quantity_precision == b.quantity_precision
    &&& a.base_asset_precision == b.base_asset_precision
    &&& a.quote_precision == b.quote_precision
    &&& a.order_types@ == b.order_types@
    &&& a.time_in_force@ == b.time_in_force@
}

impl Symbol {
    /// A field-for-field copy, agreeing with the original on every field.
    pub fn duplicate(&self) -> (r: Symbol)
        ensures
            symbol_equiv(r, *self),
    {
        let r = Symbol {
            symbol: self.symbol.clone(),
            status: self.status.clone(),
            maint_margin_percent: self.maint_margin_percent.clone(),
            required_margin_percent: self.required_margin_percent.clone(),
            base_asset: self.base_asset.clone(),
            quote_asset: self.quote_asset.clone(),
            onboard_date: self.onboard_date,
            price_precision: self.price_precision,
            quantity_precision: self.quantity_precision,
            base_asset_precision: self.base_asset_precision,
            quote_precision: self.quote_precision,
            order_types: clone_string_vec(&self.order_types),
            time_in_force: clone_string_vec(&self.time_in_force),
        };
        r
    }
}

/// The server time denoted by a body, when it carries one: a flat object
/// whose `serverTime` member is a non-negative integer.
pub open spec fn spec_server_time(s: Seq<char>) -> Option<int> {
    match sp_object(s) {
        None => None,
        Some(ps) => match sp_lookup(ps, "serverTime"@) {
            Some(JsonVal::Int(v)) => if 0 <= v {
                Some(v)
            } else {
                None
            },
            _ => None,
        },
    }
}

/// Decodes a server-time body.
pub fn decode_server_time(body: &str) -> (r: Result<ServerTime, SdkError>)
    ensures
        r is Ok <==> spec_server_time(body@) is Some,
        r matches Ok(t) ==> spec_server_time(body@) == Some(t.server_time as int),
        r matches Err(e) ==> e is DecodeError,
{
    let fields = match parse_flat_object(body) {
        Ok(f) => f,
        Err(e) => {
            return Err(e);
        },
    };
    let idx = match lookup_field(&fields, "serverTime") {
        Some(i) => i,
        None => {
            return Err(SdkError::DecodeError { field: "serverTime".to_owned() });
        },
    };
    let v: i64 = match &fields[idx].value {
        JsonScalar::Int(n) => *n,
        _ => {
            return Err(SdkError::DecodeError { field: "serverTime".to_owned() });
        },
    };
    if v < 0 {
        return Err(SdkError::DecodeError { field: "serverTime".to_owned() });
    }
    Ok(ServerTime { server_time: v as u64 })
}

/// The string value of a member, when the member exists and is a string.
pub open spec fn spec_str_member(ps: Seq<(Seq<char>, JsonVal)>, k: Seq<char>) -> Option<Seq<char>> {
    match sp_lookup(ps, k) {
        Some(JsonVal::Str(m)) => Some(m),
        _ => None,
    }
}

/// The integer value of a member, when the member exists and is a
/// non-negative integer.
pub open spec fn spec_u64_member(ps: Seq<(Seq<char>, JsonVal)>, k: Seq<char>) -> Option<int> {
    match sp_lookup(ps, k) {
        Some(JsonVal::Int(v)) => if 0 <= v {
            Some(v)
        } else {
            None
        },
        _ => None,
    }
}

fn get_str_member(fields: &Vec<JsonField>, key: &str) -> (r: Option<String>)
    ensures
        match spec_str_member(fields_view(fields@), key@) {
            Some(m) => r matches Some(out) && out@ == m,
            None => r is None,
        },
{
    let idx = match lookup_field(fields, key) {
        Some(i) => i,
        None => {
            return None;
        },
    };
    match &fields[idx].value {
        JsonScalar::Str(st) => Some(st.clone()),
        _ => None,
    }
}

fn get_u64_member(fields: &Vec<JsonField>, key: &str) -> (r: Option<u64>)
    ensures
        match spec_u64_member(fields_view(fields@), key@) {
            Some(v) => r matches Some(out) && out as int == v,
            None => r is None,
        },
{
    let idx = match lookup_field(fields, key) {
        Some(i) => i,
        None => {
            return None;
        },
    };
    match &fields[idx].value {
        JsonScalar::Int(n) => {
            if *n < 0 {
                None
            } else {
                Some(*n as u64)
            }
        },
        _ => None,
    }
}

/// A decoded decimal member: present as a string and in the canonical
/// decimal grammar.
pub open spec fn spec_decimal_member_ok(ps: Seq<(Seq<char>, JsonVal)>, k: Seq<char>) -> bool {
    match spec_str_member(ps, k) {
        Some(m) => valid_decimal_wire(m),
        None => false,
    }
}

/// Whether a body decodes into a complete mark-price event.
pub open spec fn spec_mark_price_ok(s: Seq<char>) -> bool {
    match sp_object(s) {
        None => false,
        Some(ps) => {
            &&& spec_str_member(ps, "symbol"@) is Some
            &&& spec_decimal_member_ok(ps, "markPrice"@)
            &&& spec_decimal_member_ok(ps, "lastFundingRate"@)
            &&& spec_u64_member(ps, "nextFundingTime"@) is Some
            &&& spec_u64_member(ps, "time"@) is Some
        },
    }
}

/// Decodes a mark-price body.  Fails with a `DecodeError` naming the first
/// offending field; no partial value is ever returned.  In particular, a
/// present-but-malformed decimal member fails naming that member.
pub fn decode_mark_price(body: &str) -> (r: Result<MarkPrice, SdkError>)
    ensures
        r is Ok <==> spec_mark_price_ok(body@),
        r matches Ok(mp) ==> (sp_object(body@) matches Some(ps) && {
            &&& spec_str_member(ps, "symbol"@) == Some(mp.symbol@)
            &&& spec_str_member(ps, "markPrice"@) matches Some(m) && mp.mark_price.wf()
                && mp.mark_price.negative == spec_negative(m) && mp.mark_price.mantissa as int
                == spec_mantissa(m) && mp.mark_price.scale as nat == spec_scale(m)
            &&& spec_str_member(ps, "lastFundingRate"@) matches Some(m2)
                && mp.last_funding_rate.wf() && mp.last_funding_rate.negative == spec_negative(m2)
                && mp.last_funding_rate.mantissa as int == spec_mantissa(m2)
                && mp.last_funding_rate.scale as nat == spec_scale(m2)
            &&& spec_u64_member(ps, "nextFundingTime"@) == Some(mp.next_funding_time as int)
            &&& spec_u64_member(ps, "time"@) == Some(mp.time as int)
        }),
        r matches Err(e) ==> e is DecodeError,
        sp_object(body@) matches Some(ps) && ((spec_str_member(ps, "symbol"@) is Some)
            && (spec_str_member(ps, "markPrice"@) matches Some(m) && !valid_decimal_wire(m))) ==> (
        r matches Err(e) && (e matches SdkError::DecodeError { field } && field@
            == "markPrice"@)),
{
    let fields = match parse_flat_object(body) {
        Ok(f) => f,
        Err(e) => {
            return Err(e);
        },
    };
    let symbol = match get_str_member(&fields, "symbol") {
        Some(s) => s,
        None => {
            return Err(SdkError::DecodeError { field: "symbol".to_owned() });
        },
    };
    let mark_price = match get_str_member(&fields, "markPrice") {
        Some(s) => match decimal_from_wire(s.as_str()) {
            Ok(d) => d,
            Err(_) => {
                return Err(SdkError::DecodeError { field: "markPrice".to_owned() });
            },
        },
        None => {
            return Err(SdkError::DecodeError { field: "markPrice".to_owned() });
        },
    };
    let last_funding_rate = match get_str_member(&fields, "lastFundingRate") {
        Some(s) => match decimal_from_wire(s.as_str()) {
            Ok(d) => d,
            Err(_) => {
                return Err(SdkError::DecodeError { field: "lastFundingRate".to_owned() });
            },
        },
        None => {
            return Err(SdkError::DecodeError { field: "lastFundingRate".to_owned() });
        },
    };
    let next_funding_time = match get_u64_member(&fields, "nextFundingTime") {
        Some(v) => v,
        None => {
            return Err(SdkError::DecodeError { field: "nextFundingTime".to_owned() });
        },
    };
    let time = match get_u64_member(&fields, "time") {
        Some(v) => v,
        None => {
            return Err(SdkError::DecodeError { field: "time".to_owned() });
        },
    };
    Ok(MarkPrice { symbol, mark_price, last_funding_rate, next_funding_time, time })
}

} // verus!
