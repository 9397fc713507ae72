//! Request signing: HMAC-SHA256 over the serialized query string.
//!
//! A signed query is the caller's parameters, then a `timestamp` parameter
//! (milliseconds since epoch, captured at send time), serialized in insertion
//! order, with a final `signature` parameter holding the lowercase hex
//! HMAC-SHA256 of that exact string keyed by the API secret.  Signing is a
//! pure function of the parameters, the secret and the timestamp, so two
//! calls over the same inputs produce the same signature
//! (`lemma_sign_deterministic`).

use vstd::prelude::*;
use vstd::string::StrSliceExecFns;
use vstd::string::StringExecFns;
use vstd::utf8::encode_utf8;
use crate::codec::u64_to_wire;
use crate::digits::digits_of;
use crate::params::{Params, spec_query};
use hmac::Mac;

verus! {

/// The HMAC-SHA256 digest of `msg` keyed by `key`: a pure function of its
/// arguments, computed by an outside implementation.
pub uninterp spec fn hmac_sha256_of(key: Seq<u8>, msg: Seq<u8>) -> Seq<u8>;

/// Relies on hmac::Hmac with sha2::Sha256: the digest is a function of key
/// and message alone, 32 bytes long; any key length is accepted.
#[verifier::external_body]
fn hmac_sha256(key: &[u8], msg: &[u8]) -> (r: Vec<u8>)
    ensures
        r@ == hmac_sha256_of(key@, msg@),
        r@.len() == 32,
{
    let mut mac = <hmac::Hmac<sha2::Sha256> as Mac>::new_from_slice(key)
        .expect("HMAC accepts keys of any length");
    mac.update(msg);
    mac.finalize().into_bytes().to_vec()
}

pub open spec fn hex_char(d: int) -> char {
    if d == 0 { '0' } else if d == 1 { '1' } else if d == 2 { '2' } else if d == 3 { '3' }
    else if d == 4 { '4' } else if d == 5 { '5' } else if d == 6 { '6' } else if d == 7 { '7' }
    else if d == 8 { '8' } else if d == 9 { '9' } else if d == 10 { 'a' } else if d == 11 { 'b' }
    else if d == 12 { 'c' } else if d == 13 { 'd' } else if d == 14 { 'e' } else { 'f' }
}

/// Lowercase hex rendering of a byte string, two digits per byte.
pub open spec fn hex_of(bs: Seq<u8>) -> Seq<char>
    decreases bs.len(),
{
    if bs.len() == 0 {
        Seq::<char>::empty()
    } else {
        hex_of(bs.drop_last()) + seq![
            hex_char(bs.last() as int / 16),
            hex_char(bs.last() as int % 16),
        ]
    }
}

/// Single lowercase hex digit as a string slice.
fn hex_digit_str(d: u8) -> (r: &'static str)
    requires
        d < 16,
    ensures
        r@ == seq![hex_char(d as int)],
{
    let t: &'static str = match d {
        0 => "0",
        1 => "1",
        2 => "2",
        3 => "3",
        4 => "4",
        5 => "5",
        6 => "6",
        7 => "7",
        8 => "8",
        9 => "9",
        10 => "a",
        11 => "b",
        12 => "c",
        13 => "d",
        14 => "e",
        _ => "f",
    };
    proof {
        reveal_strlit("0");
        reveal_strlit("1");
        reveal_strlit("2");
        reveal_strlit("3");
        reveal_strlit("4");
        reveal_strlit("5");
        reveal_strlit("6");
        reveal_strlit("7");
        reveal_strlit("8");
        reveal_strlit("9");
        reveal_strlit("a");
        reveal_strlit("b");
        reveal_strlit("c");
        reveal_strlit("d");
        reveal_strlit("e");
        reveal_strlit("f");
        assert(t@ =~= seq![hex_char(d as int)]);
    }
    t
}

/// Renders bytes as lowercase hex.
pub fn to_hex_lower(bs: &Vec<u8>) -> (r: String)
    ensures
        r@ == hex_of(bs@),
{
    let mut out = String::new();
    proof {
        assert(bs@.take(0) =~= Seq::<u8>::empty());
        assert(out@ =~= hex_of(bs@.take(0)));
    }
    let mut i: usize = 0;
    while i < bs.len()
        invariant
            0 <= i <= bs@.len(),
            out@ == hex_of(bs@.take(i as int)),
        decreases bs@.len() - i,
    {
        let b = bs[i];
        out.append(hex_digit_str(b / 16));
        out.append(hex_digit_str(b % 16));
        proof {
            assert(bs@.take(i + 1).drop_last() =~= bs@.take(i as int));
            assert(bs@.take(i + 1).last() == bs@[i as int]);
            assert(out@ =~= hex_of(bs@.take(i + 1)));
        }
        i += 1;
    }
    proof {
        assert(bs@.take(i as int) =~= bs@);
    }
    out
}

/// The parameters with the timestamp appended, as serialized for signing.
pub open spec fn spec_timestamped(
    ps: Seq<(Seq<char>, Seq<char>)>,
    timestamp_ms: u64,
) -> Seq<(Seq<char>, Seq<char>)> {
    ps.push(("timestamp"@, digits_of(timestamp_ms as int)))
}

/// The signature of a query string under a secret.
pub open spec fn spec_signature(secret: Seq<char>, query: Seq<char>) -> Seq<char> {
    hex_of(hmac_sha256_of(encode_utf8(secret), encode_utf8(query)))
}

/// The full signed query: timestamped parameters, then the signature as the
/// final parameter.
pub open spec fn spec_signed_query(
    ps: Seq<(Seq<char>, Seq<char>)>,
    secret: Seq<char>,
    timestamp_ms: u64,
) -> Seq<char> {
    let q = spec_query(spec_timestamped(ps, timestamp_ms));
    q + seq!['&'] + "signature"@ + seq!['='] + spec_signature(secret, q)
}

/// Appends the timestamp, serializes, signs with the secret, and appends the
/// signature as the final parameter.
pub fn sign_query(params: &mut Params, secret: &str, timestamp_ms: u64) -> (r: String)
    ensures
        r@ == spec_signed_query(old(params)@, secret@, timestamp_ms),
        final(params)@ == spec_timestamped(old(params)@, timestamp_ms).push(
            ("signature"@, spec_signature(secret@, spec_query(spec_timestamped(
                old(params)@,
                timestamp_ms,
            )))),
        ),
{
    let ts = u64_to_wire(timestamp_ms);
    params.push("timestamp", ts.as_str());
    let query = params.to_query_string();
    let digest = hmac_sha256(secret.as_bytes(), query.as_str().as_bytes());
    let signature = to_hex_lower(&digest);
    params.push("signature", signature.as_str());
    let mut out = query;
    out.append("&");
    out.append("signature");
    out.append("=");
    out.append(signature.as_str());
    proof {
        reveal_strlit("&");
        reveal_strlit("=");
        assert("&"@ =~= seq!['&']);
        assert("="@ =~= seq!['=']);
        assert(out@ =~= spec_signed_query(old(params)@, secret@, timestamp_ms));
    }
    out
}

/// Signing is deterministic: over equal parameter sequences, the same secret
/// and the same timestamp, the signed query (signature included) is
/// identical, so signing twice yields the same signature.
pub proof fn lemma_sign_deterministic(
    p1: Seq<(Seq<char>, Seq<char>)>,
    p2: Seq<(Seq<char>, Seq<char>)>,
    secret: Seq<char>,
    timestamp_ms: u64,
)
    requires
        p1 == p2,
    ensures
        spec_signed_query(p1, secret, timestamp_ms) == spec_signed_query(
            p2,
            secret,
            timestamp_ms,
        ),
{
}

} // verus!
