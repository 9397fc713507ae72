//! Parser for the exchange's flat JSON envelopes.
//!
//! The response shapes this crate must read on its own — the business-error
//! envelope `{"code": ..., "msg": ...}`, the server-time body and the empty
//! object — are flat JSON objects whose values are strings and integers.
//! This module parses exactly that subset: one object, string keys, string or
//! integer values, arbitrary interstitial whitespace, no escape sequences,
//! integers in `i64` range written without superfluous leading zeros.
//! The grammar is specified by a total spec-level parser (`sp_object`), and
//! the executable parser is proved to agree with it exactly.

use vstd::prelude::*;
use vstd::string::StrSliceExecFns;
use crate::digits::{
    is_digit, digits_val, pow10, lemma_pow10_mono, lemma_digits_val_bounds,
    lemma_digits_val_lower,
};
use crate::errors::SdkError;

verus! {

/// A scalar JSON value of the supported subset, at the specification level.
pub enum JsonVal {
    Int(int),
    Str(Seq<char>),
}

/// A scalar JSON value of the supported subset, as decoded.
pub enum JsonScalar {
    Int(i64),
    Str(String),
}

/// One `key: value` member of a decoded flat object.
pub struct JsonField {
    pub key: String,
    pub value: JsonScalar,
}

pub open spec fn scalar_view(v: JsonScalar) -> JsonVal {
    match v {
        JsonScalar::Int(n) => JsonVal::Int(n as int),
        JsonScalar::Str(s) => JsonVal::Str(s@),
    }
}

pub open spec fn fields_view(fs: Seq<JsonField>) -> Seq<(Seq<char>, JsonVal)> {
    fs.map_values(|f: JsonField| (f.key@, scalar_view(f.value)))
}

pub open spec fn is_ws(c: char) -> bool {
    c == ' ' || c == '\t' || c == '\n' || c == '\r'
}

/// Index of the first non-whitespace character at or after `i`.
pub open spec fn sp_ws(s: Seq<char>, i: int) -> int
    decreases s.len() - i,
{
    if 0 <= i < s.len() && is_ws(s[i]) {
        sp_ws(s, i + 1)
    } else {
        i
    }
}

/// String body after an opening quote: the characters up to the closing
/// quote, which must appear, with no escape sequences.
pub open spec fn sp_string_body(s: Seq<char>, i: int) -> Option<(Seq<char>, int)>
    decreases s.len() - i,
{
    if i < 0 || i >= s.len() {
        None
    } else if s[i] == '"' {
        Some((Seq::<char>::empty(), i + 1))
    } else if s[i] == '\\' {
        None
    } else {
        match sp_string_body(s, i + 1) {
            None => None,
            Some((t, j)) => Some((seq![s[i]] + t, j)),
        }
    }
}

/// End of the run of ASCII digits starting at `i`.
pub open spec fn sp_digits_end(s: Seq<char>, i: int) -> int
    decreases s.len() - i,
{
    if 0 <= i < s.len() && is_digit(s[i]) {
        sp_digits_end(s, i + 1)
    } else {
        i
    }
}

/// An integer: optional minus, at least one digit, no superfluous leading
/// zero, value within `i64` range.
pub open spec fn sp_int(s: Seq<char>, i: int) -> Option<(int, int)> {
    let neg = 0 <= i < s.len() && s[i] == '-';
    let d0 = if neg { i + 1 } else { i };
    let end = sp_digits_end(s, d0);
    if end == d0 {
        None
    } else if end - d0 > 1 && s[d0] == '0' {
        None
    } else {
        let v = digits_val(s.subrange(d0, end));
        let sv = if neg { -v } else { v };
        if i64::MIN <= sv <= i64::MAX {
            Some((sv, end))
        } else {
            None
        }
    }
}

/// A scalar value: a quoted string or an integer.
pub open spec fn sp_value(s: Seq<char>, i: int) -> Option<(JsonVal, int)> {
    if 0 <= i < s.len() && s[i] == '"' {
        match sp_string_body(s, i + 1) {
            None => None,
            Some((t, j)) => Some((JsonVal::Str(t), j)),
        }
    } else {
        match sp_int(s, i) {
            None => None,
            Some((v, j)) => Some((JsonVal::Int(v), j)),
        }
    }
}

/// A non-empty member list starting at a key, up to and including the
/// closing brace.
pub open spec fn sp_members(s: Seq<char>, i: int) -> Option<(Seq<(Seq<char>, JsonVal)>, int)>
    decreases s.len() - i,
{
    if i < 0 || i >= s.len() || s[i] != '"' {
        None
    } else {
        match sp_string_body(s, i + 1) {
            None => None,
            Some((key, j)) => {
                let j2 = sp_ws(s, j);
                if j2 < s.len() && s[j2] == ':' {
                    let j3 = sp_ws(s, j2 + 1);
                    match sp_value(s, j3) {
                        None => None,
                        Some((v, j4)) => {
                            let j5 = sp_ws(s, j4);
                            if j5 < s.len() && s[j5] == ',' {
                                let j6 = sp_ws(s, j5 + 1);
                                if j6 <= i || j6 > s.len() {
                                    None
                                } else {
                                    match sp_members(s, j6) {
                                        None => None,
                                        Some((rest, k)) => Some((seq![(key, v)] + rest, k)),
                                    }
                                }
                            } else if j5 < s.len() && s[j5] == '}' {
                                Some((seq![(key, v)], j5 + 1))
                            } else {
                                None
                            }
                        },
                    }
                } else {
                    None
                }
            },
        }
    }
}

/// A whole body: one flat object with nothing but whitespace around it.
pub open spec fn sp_object(s: Seq<char>) -> Option<Seq<(Seq<char>, JsonVal)>> {
    let i = sp_ws(s, 0);
    if 0 <= i < s.len() && s[i] == '{' {
        let j = sp_ws(s, i + 1);
        if j < s.len() && s[j] == '}' {
            if sp_ws(s, j + 1) == s.len() {
                Some(Seq::<(Seq<char>, JsonVal)>::empty())
            } else {
                None
            }
        } else {
            match sp_members(s, j) {
                None => None,
                Some((ps, k)) => {
                    if sp_ws(s, k) == s.len() {
                        Some(ps)
                    } else {
                        None
                    }
                },
            }
        }
    } else {
        None
    }
}

/// The value of the first member with the given key.
pub open spec fn sp_lookup(ps: Seq<(Seq<char>, JsonVal)>, k: Seq<char>) -> Option<JsonVal>
    decreases ps.len(),
{
    if ps.len() == 0 {
        None
    } else if ps[0].0 == k {
        Some(ps[0].1)
    } else {
        sp_lookup(ps.skip(1), k)
    }
}

fn is_ws_exec(c: char) -> (r: bool)
    ensures
        r == is_ws(c),
{
    match c {
        ' ' | '\t' | '\n' | '\r' => true,
        _ => false,
    }
}

/// First non-whitespace position at or after `i`.
fn ws_end(s: &str, i: usize, n: usize) -> (r: usize)
    requires
        n == s@.len(),
        i <= n,
    ensures
        r as int == sp_ws(s@, i as int),
        i <= r <= n,
{
    let mut cur: usize = i;
    while cur < n
        invariant
            i <= cur <= n,
            n == s@.len(),
            sp_ws(s@, i as int) == sp_ws(s@, cur as int),
        decreases n - cur,
    {
        if !is_ws_exec(s.get_char(cur)) {
            return cur;
        }
        cur += 1;
    }
    cur
}

proof fn lemma_sp_string_body_run(s: Seq<char>, i: int, q: int)
    requires
        0 <= i <= q < s.len(),
        s[q] == '"',
        forall|j: int| i <= j < q ==> s[j] != '"' && s[j] != '\\',
    ensures
        sp_string_body(s, i) == Some((s.subrange(i, q), q + 1)),
    decreases q - i,
{
    if i == q {
        assert(s.subrange(i, q) =~= Seq::<char>::empty());
    } else {
        lemma_sp_string_body_run(s, i + 1, q);
        assert(seq![s[i]] + s.subrange(i + 1, q) =~= s.subrange(i, q));
    }
}

/// String body after the opening quote at `i - 1`: scans to the closing
/// quote and extracts the characters between.
fn parse_string_body(s: &str, i: usize, n: usize) -> (r: Option<(String, usize)>)
    requires
        n == s@.len(),
        i <= n,
    ensures
        match sp_string_body(s@, i as int) {
            Some((t, j)) => r matches Some((out, jr)) && out@ == t && jr as int == j && jr <= n,
            None => r is None,
        },
{
    let mut q: usize = i;
    while q < n
        invariant
            i <= q <= n,
            n == s@.len(),
            forall|j: int| i <= j < q ==> s@[j] != '"' && s@[j] != '\\',
        decreases n - q,
    {
        let c = s.get_char(q);
        if c == '"' {
            proof {
                lemma_sp_string_body_run(s@, i as int, q as int);
            }
            let out = s.substring_char(i, q).to_owned();
            return Some((out, q + 1));
        }
        if c == '\\' {
            proof {
                lemma_sp_string_body_none(s@, i as int, q as int);
            }
            return None;
        }
        q += 1;
    }
    proof {
        lemma_sp_string_body_none(s@, i as int, n as int);
    }
    None
}

proof fn lemma_sp_string_body_none(s: Seq<char>, i: int, q: int)
    requires
        0 <= i <= q <= s.len(),
        q < s.len() ==> s[q] == '\\',
        forall|j: int| i <= j < q ==> s[j] != '"' && s[j] != '\\',
    ensures
        sp_string_body(s, i) is None,
    decreases q - i,
{
    if i < q {
        lemma_sp_string_body_none(s, i + 1, q);
    }
}

/// End of the digit run starting at `i`.
fn digits_end(s: &str, i: usize, n: usize) -> (r: usize)
    requires
        n == s@.len(),
        i <= n,
    ensures
        r as int == sp_digits_end(s@, i as int),
        i <= r <= n,
        forall|j: int| i <= j < r ==> is_digit(s@[j]),
{
    let mut cur: usize = i;
    while cur < n
        invariant
            i <= cur <= n,
            n == s@.len(),
            sp_digits_end(s@, i as int) == sp_digits_end(s@, cur as int),
            forall|j: int| i <= j < cur ==> is_digit(s@[j]),
        decreases n - cur,
    {
        match crate::codec::char_digit(s.get_char(cur)) {
            None => {
                return cur;
            },
            Some(_) => {
                cur += 1;
            },
        }
    }
    cur
}

proof fn lemma_pow10_19_large()
    ensures
        pow10(19) == 10000000000000000000,
{
    reveal_with_fuel(pow10, 20);
}

/// An integer scalar at `i`.
fn parse_int(s: &str, i: usize, n: usize) -> (r: Option<(i64, usize)>)
    requires
        n == s@.len(),
        i <= n,
    ensures
        match sp_int(s@, i as int) {
            Some((v, j)) => r matches Some((out, jr)) && out as int == v && jr as int == j && jr
                <= n,
            None => r is None,
        },
{
    let neg = i < n && s.get_char(i) == '-';
    let d0: usize = if neg { i + 1 } else { i };
    if d0 > n {
        return None;
    }
    let end = digits_end(s, d0, n);
    if end == d0 {
        return None;
    }
    if end - d0 > 1 && s.get_char(d0) == '0' {
        return None;
    }
    let ghost run = s@.subrange(d0 as int, end as int);
    proof {
        assert(crate::digits::all_digits(run));
        lemma_digits_val_bounds(run);
    }
    if end - d0 > 19 {
        proof {
            assert(run[0] == s@[d0 as int]);
            assert(run[0] != '0');
            lemma_digits_val_lower(run);
            lemma_pow10_mono(19, (run.len() - 1) as nat);
            lemma_pow10_19_large();
        }
        return None;
    }
    let mut m: u128 = 0;
    let mut cur: usize = d0;
    while cur < end
        invariant
            d0 <= cur <= end <= n,
            n == s@.len(),
            end - d0 <= 19,
            run == s@.subrange(d0 as int, end as int),
            forall|j: int| d0 <= j < end ==> is_digit(s@[j]),
            m as int == digits_val(s@.subrange(d0 as int, cur as int)),
            (m as int) < pow10((cur - d0) as nat),
        decreases end - cur,
    {
        let c = s.get_char(cur);
        let d = match crate::codec::char_digit(c) {
            Some(d) => d,
            None => {
                proof {
                    assert(is_digit(s@[cur as int]));
                }
                // unreachable: the run was validated above
                return None;
            },
        };
        proof {
            lemma_pow10_mono((cur - d0 + 1) as nat, 19);
            lemma_pow10_19_large();
            assert(s@.subrange(d0 as int, cur + 1).drop_last() =~= s@.subrange(
                d0 as int,
                cur as int,
            ));
            assert(s@.subrange(d0 as int, cur + 1).last() == s@[cur as int]);
        }
        m = m * 10 + (d as u128);
        cur += 1;
    }
    proof {
        assert(s@.subrange(d0 as int, cur as int) == run);
    }
    if neg {
        if m > 0x8000000000000000u128 {
            return None;
        }
        if m == 0x8000000000000000u128 {
            return Some((i64::MIN, end));
        }
        let v: i64 = -(m as i64);
        Some((v, end))
    } else {
        if m > i64::MAX as u128 {
            return None;
        }
        Some((m as i64, end))
    }
}

/// A scalar value at `i`.
fn parse_value(s: &str, i: usize, n: usize) -> (r: Option<(JsonScalar, usize)>)
    requires
        n == s@.len(),
        i <= n,
    ensures
        match sp_value(s@, i as int) {
            Some((v, j)) => r matches Some((out, jr)) && scalar_view(out) == v && jr as int == j
                && jr <= n,
            None => r is None,
        },
{
    if i < n && s.get_char(i) == '"' {
        match parse_string_body(s, i + 1, n) {
            None => None,
            Some((t, j)) => Some((JsonScalar::Str(t), j)),
        }
    } else {
        match parse_int(s, i, n) {
            None => None,
            Some((v, j)) => Some((JsonScalar::Int(v), j)),
        }
    }
}

/// A member list at `i` (a key is expected here), through the closing brace.
fn parse_members(s: &str, i: usize, n: usize) -> (r: Option<(Vec<JsonField>, usize)>)
    requires
        n == s@.len(),
        i <= n,
    ensures
        match sp_members(s@, i as int) {
            Some((ps, k)) => r matches Some((v, jr)) && fields_view(v@) == ps && jr as int == k
                && jr <= n,
            None => r is None,
        },
    decreases n - i,
{
    if i >= n || s.get_char(i) != '"' {
        return None;
    }
    let (key, j) = match parse_string_body(s, i + 1, n) {
        None => {
            return None;
        },
        Some(p) => p,
    };
    let j2 = ws_end(s, j, n);
    if !(j2 < n && s.get_char(j2) == ':') {
        return None;
    }
    let j3 = ws_end(s, j2 + 1, n);
    let (v, j4) = match parse_value(s, j3, n) {
        None => {
            return None;
        },
        Some(p) => p,
    };
    let ghost kview = key@;
    let ghost vview = scalar_view(v);
    let j5 = ws_end(s, j4, n);
    if j5 < n && s.get_char(j5) == ',' {
        let j6 = ws_end(s, j5 + 1, n);
        if j6 <= i {
            // cannot happen: the scan advanced past `i`
            return None;
        }
        match parse_members(s, j6, n) {
            None => None,
            Some((mut rest, k)) => {
                let ghost prev = rest@;
                rest.insert(0, JsonField { key, value: v });
                proof {
                    assert(fields_view(rest@) =~= seq![(kview, vview)] + fields_view(prev));
                }
                Some((rest, k))
            },
        }
    } else if j5 < n && s.get_char(j5) == '}' {
        let mut out: Vec<JsonField> = Vec::new();
        out.push(JsonField { key, value: v });
        proof {
            assert(fields_view(out@) =~= seq![(kview, vview)]);
        }
        Some((out, j5 + 1))
    } else {
        None
    }
}

/// Parses a whole response body as one flat JSON object.
///
/// Succeeds exactly when the body matches the supported subset; any other
/// body is rejected with a `DecodeError`.
pub fn parse_flat_object(s: &str) -> (r: Result<Vec<JsonField>, SdkError>)
    ensures
        r is Ok <==> sp_object(s@) is Some,
        r matches Ok(v) ==> sp_object(s@) == Some(fields_view(v@)),
        r matches Err(e) ==> (e matches SdkError::DecodeError { field } && field@ == "body"@),
{
    let n = s.unicode_len();
    let i = ws_end(s, 0, n);
    if !(i < n && s.get_char(i) == '{') {
        return Err(SdkError::DecodeError { field: "body".to_owned() });
    }
    let j = ws_end(s, i + 1, n);
    if j < n && s.get_char(j) == '}' {
        if ws_end(s, j + 1, n) == n {
            let out: Vec<JsonField> = Vec::new();
            proof {
                assert(fields_view(out@) =~= Seq::<(Seq<char>, JsonVal)>::empty());
            }
            Ok(out)
        } else {
            Err(SdkError::DecodeError { field: "body".to_owned() })
        }
    } else {
        match parse_members(s, j, n) {
            None => Err(SdkError::DecodeError { field: "body".to_owned() }),
            Some((v, k)) => {
                if ws_end(s, k, n) == n {
                    Ok(v)
                } else {
                    Err(SdkError::DecodeError { field: "body".to_owned() })
                }
            },
        }
    }
}

/// Index of the first member with the given key, if any.
pub fn lookup_field(fields: &Vec<JsonField>, key: &str) -> (r: Option<usize>)
    ensures
        match sp_lookup(fields_view(fields@), key@) {
            Some(v) => r matches Some(idx) && idx < fields@.len() && fields@[idx as int].key@
                == key@ && scalar_view(fields@[idx as int].value) == v,
            None => r is None,
        },
{
    let owned = key.to_owned();
    let ghost full = fields_view(fields@);
    proof {
        assert(full.skip(0) =~= full);
    }
    let mut i: usize = 0;
    while i < fields.len()
        invariant
            0 <= i <= fields@.len(),
            owned@ == key@,
            full == fields_view(fields@),
            sp_lookup(full, key@) == sp_lookup(full.skip(i as int), key@),
        decreases fields@.len() - i,
    {
        proof {
            assert(full[i as int] == (fields@[i as int].key@, scalar_view(
                fields@[i as int].value,
            )));
            assert(full.skip(i as int)[0] == full[i as int]);
            assert(full.skip(i as int).skip(1) =~= full.skip(i + 1));
        }
        if fields[i].key == owned {
            return Some(i);
        }
        i += 1;
    }
    proof {
        assert(full.skip(i as int) =~= Seq::<(Seq<char>, JsonVal)>::empty());
    }
    None
}

} // verus!
