//! Codec for the exchange's string-encoded wire scalars.
//!
//! Numeric response fields arrive as JSON strings (to preserve precision
//! across client languages) and decode here into an exact fixed-point
//! [`WireDecimal`]; booleans arrive as the literal strings `"true"`/`"false"`.
//! The accepted decimal grammar is the exchange's canonical form: an optional
//! leading minus, an integer part without superfluous leading zeros, and an
//! optional fraction part, with at most [`MAX_DECIMAL_DIGITS`] digits in all.
//! Rendering preserves the source precision exactly (no trailing-zero
//! normalization, no scientific notation), and `lemma_decimal_round_trip`
//! proves that encode after decode reproduces the input verbatim.

use vstd::prelude::*;
use vstd::string::StrSliceExecFns;
use vstd::string::StringExecFns;
use crate::digits::{
    is_digit, digit_val, digit_char, all_digits, digits_val, pow10, digits_of, padded,
    lemma_pow10_pos, lemma_pow10_mono, lemma_digits_val_bounds, lemma_digits_val_concat,
    lemma_padded_of_digits, lemma_digits_of_val,
};
use crate::errors::SdkError;
use vstd::arithmetic::div_mod::lemma_fundamental_div_mod_converse;

verus! {

/// Total number of significant digits a wire decimal may carry.
pub const MAX_DECIMAL_DIGITS: u32 = 28;

/// An exact fixed-point number: `(-1)^negative * mantissa * 10^(-scale)`.
///
/// The scale records the number of fraction digits as written on the wire,
/// so `"1.10"` and `"1.1"` decode to distinct values and re-encode exactly.
#[derive(Clone, Copy, Debug, PartialEq, Eq, Structural)]
pub struct WireDecimal {
    pub negative: bool,
    pub mantissa: u128,
    pub scale: u32,
}

impl WireDecimal {
    /// Well-formedness: the mantissa and scale stay within the wire format's
    /// digit budget, so rendering cannot overflow.
    pub open spec fn wf(&self) -> bool {
        &&& self.scale <= MAX_DECIMAL_DIGITS
        &&& (self.mantissa as int) < pow10(MAX_DECIMAL_DIGITS as nat)
    }

    /// The zero value used for absent-by-default numeric fields.
    pub fn zero() -> (r: WireDecimal)
        ensures
            r.wf(),
            !r.negative,
            r.mantissa == 0,
            r.scale == 0,
    {
        proof {
            lemma_pow10_pos(MAX_DECIMAL_DIGITS as nat);
        }
        WireDecimal { negative: false, mantissa: 0, scale: 0 }
    }
}

/// True when the wire string starts with a minus sign.
pub open spec fn spec_negative(s: Seq<char>) -> bool {
    s.len() > 0 && s[0] == '-'
}

pub open spec fn spec_unsigned(s: Seq<char>) -> Seq<char> {
    if spec_negative(s) { s.skip(1) } else { s }
}

/// Index of the first `'.'` in `s`, or `s.len()` when there is none.
pub open spec fn spec_dot_pos(s: Seq<char>) -> int
    decreases s.len(),
{
    if s.len() == 0 {
        0
    } else if s[0] == '.' {
        0
    } else {
        1 + spec_dot_pos(s.skip(1))
    }
}

pub open spec fn spec_int_part(s: Seq<char>) -> Seq<char> {
    let u = spec_unsigned(s);
    u.take(spec_dot_pos(u))
}

pub open spec fn spec_has_frac(s: Seq<char>) -> bool {
    let u = spec_unsigned(s);
    spec_dot_pos(u) < u.len()
}

pub open spec fn spec_frac(s: Seq<char>) -> Seq<char> {
    let u = spec_unsigned(s);
    if spec_has_frac(s) { u.skip(spec_dot_pos(u) + 1) } else { Seq::<char>::empty() }
}

/// The canonical decimal grammar accepted by the codec.
pub open spec fn valid_decimal_wire(s: Seq<char>) -> bool {
    let ip = spec_int_part(s);
    let f = spec_frac(s);
    &&& ip.len() >= 1
    &&& all_digits(ip)
    &&& (ip.len() == 1 || ip[0] != '0')
    &&& (spec_has_frac(s) ==> f.len() >= 1)
    &&& all_digits(f)
    &&& ip.len() + f.len() <= MAX_DECIMAL_DIGITS as int
}

/// The mantissa denoted by a valid wire string: all its digits read as one
/// number.
pub open spec fn spec_mantissa(s: Seq<char>) -> int {
    digits_val(spec_int_part(s) + spec_frac(s))
}

pub open spec fn spec_scale(s: Seq<char>) -> nat {
    spec_frac(s).len()
}

/// The canonical rendering of a decimal given by sign, mantissa and scale.
pub open spec fn spec_decimal_wire(negative: bool, m: int, scale: nat) -> Seq<char> {
    let sign = if negative { seq!['-'] } else { Seq::<char>::empty() };
    let int_digits = digits_of(m / pow10(scale));
    let frac = if scale == 0 { Seq::<char>::empty() } else {
        seq!['.'] + padded(m % pow10(scale), scale)
    };
    sign + int_digits + frac
}

proof fn lemma_dot_pos_unique(u: Seq<char>, k: int)
    requires
        0 <= k <= u.len(),
        k < u.len() ==> u[k] == '.',
        forall|j: int| 0 <= j < k ==> u[j] != '.',
    ensures
        spec_dot_pos(u) == k,
    decreases u.len(),
{
    if u.len() == 0 {
    } else if u[0] == '.' {
        assert(k == 0);
    } else {
        assert(k >= 1);
        assert(forall|j: int| 0 <= j < k - 1 ==> u.skip(1)[j] == u[j + 1]);
        lemma_dot_pos_unique(u.skip(1), k - 1);
    }
}

proof fn lemma_dot_pos_props(u: Seq<char>)
    ensures
        0 <= spec_dot_pos(u) <= u.len(),
        spec_dot_pos(u) < u.len() ==> u[spec_dot_pos(u)] == '.',
    decreases u.len(),
{
    if u.len() > 0 && u[0] != '.' {
        lemma_dot_pos_props(u.skip(1));
    }
}

proof fn lemma_pow10_cap()
    ensures
        pow10(MAX_DECIMAL_DIGITS as nat) == 10000000000000000000000000000,
{
    reveal_with_fuel(pow10, 30);
}

/// The digit value of a character, or `None` when it is not an ASCII digit.
pub(crate) fn char_digit(c: char) -> (r: Option<u8>)
    ensures
        r is Some <==> is_digit(c),
        r matches Some(d) ==> d < 10 && d as int == digit_val(c),
{
    match c {
        '0' => Some(0u8),
        '1' => Some(1u8),
        '2' => Some(2u8),
        '3' => Some(3u8),
        '4' => Some(4u8),
        '5' => Some(5u8),
        '6' => Some(6u8),
        '7' => Some(7u8),
        '8' => Some(8u8),
        '9' => Some(9u8),
        _ => None,
    }
}

/// Index of the first `'.'` at or after `start`, or `n` when there is none.
fn find_dot(s: &str, start: usize, n: usize) -> (dot: usize)
    requires
        s@.len() == n,
        start <= n,
    ensures
        start <= dot <= n,
        dot < n ==> s@[dot as int] == '.',
        forall|j: int| start <= j < dot ==> s@[j] != '.',
{
    let mut i: usize = start;
    while i < n
        invariant
            start <= i <= n,
            s@.len() == n,
            forall|j: int| start <= j < i ==> s@[j] != '.',
        decreases n - i,
    {
        if s.get_char(i) == '.' {
            return i;
        }
        i += 1;
    }
    i
}

fn decode_err(context: &str) -> (e: SdkError)
    ensures
        e matches SdkError::DecodeError { field } && field@ == context@,
{
    SdkError::DecodeError { field: context.to_owned() }
}

/// Parses an exact fixed-point number from its wire string.
///
/// Succeeds exactly on the canonical grammar; any other input is rejected
/// with a `DecodeError`, never approximated.
pub fn decimal_from_wire(s: &str) -> (r: Result<WireDecimal, SdkError>)
    ensures
        r is Ok <==> valid_decimal_wire(s@),
        r matches Ok(d) ==> {
            &&& d.wf()
            &&& d.negative == spec_negative(s@)
            &&& d.mantissa as int == spec_mantissa(s@)
            &&& d.scale as nat == spec_scale(s@)
        },
        r matches Err(e) ==> (e matches SdkError::DecodeError { field } && field@ == "decimal"@),
{
    let n = s.unicode_len();
    let start: usize = if n > 0 && s.get_char(0) == '-' { 1 } else { 0 };
    let ghost u = spec_unsigned(s@);
    proof {
        assert(u =~= s@.subrange(start as int, n as int));
    }
    let dot = find_dot(s, start, n);
    let ghost k = dot - start;
    proof {
        assert(forall|j: int| 0 <= j < k ==> u[j] == s@[j + start]);
        assert(k < u.len() ==> u[k] == s@[dot as int]);
        lemma_dot_pos_unique(u, k as int);
        assert(spec_int_part(s@) =~= s@.subrange(start as int, dot as int));
    }
    if dot == start {
        // empty integer part
        return Err(decode_err("decimal"));
    }
    if dot - start > 1 && s.get_char(start) == '0' {
        // superfluous leading zero
        proof {
            assert(spec_int_part(s@)[0] == '0');
        }
        return Err(decode_err("decimal"));
    }
    let ghost ip = spec_int_part(s@);
    let mut m: u128 = 0;
    let mut i: usize = start;
    while i < dot
        invariant
            start <= i <= dot <= n,
            n == s@.len(),
            i - start <= MAX_DECIMAL_DIGITS,
            all_digits(s@.subrange(start as int, i as int)),
            m as int == digits_val(s@.subrange(start as int, i as int)),
            (m as int) < pow10((i - start) as nat),
            ip == s@.subrange(start as int, dot as int),
            ip == spec_int_part(s@),
        decreases dot - i,
    {
        let c = s.get_char(i);
        match char_digit(c) {
            None => {
                proof {
                    assert(ip[i - start] == c);
                }
                return Err(decode_err("decimal"));
            },
            Some(d) => {
                if i - start >= MAX_DECIMAL_DIGITS as usize {
                    proof {
                        assert(ip.len() > MAX_DECIMAL_DIGITS as int);
                    }
                    return Err(decode_err("decimal"));
                }
                proof {
                    lemma_pow10_mono((i - start + 1) as nat, MAX_DECIMAL_DIGITS as nat);
                    lemma_pow10_cap();
                    assert(s@.subrange(start as int, i + 1).drop_last() =~= s@.subrange(
                        start as int,
                        i as int,
                    ));
                    assert(s@.subrange(start as int, i + 1).last() == s@[i as int]);
                }
                m = m * 10 + (d as u128);
            },
        }
        i += 1;
    }
    proof {
        assert(all_digits(ip));
    }
    let mut scale: u32 = 0;
    if dot < n {
        if dot + 1 == n {
            // empty fraction part
            proof {
                assert(spec_frac(s@) =~= Seq::<char>::empty());
            }
            return Err(decode_err("decimal"));
        }
        let ghost f = spec_frac(s@);
        proof {
            assert(f =~= s@.subrange(dot + 1, n as int));
        }
        let mut j: usize = dot + 1;
        while j < n
            invariant
                start < dot < dot + 1 <= j <= n,
                n == s@.len(),
                (dot - start) + (j - dot - 1) <= MAX_DECIMAL_DIGITS,
                all_digits(s@.subrange(dot + 1, j as int)),
                all_digits(ip),
                m as int == digits_val(ip + s@.subrange(dot + 1, j as int)),
                (m as int) < pow10(((dot - start) + (j - dot - 1)) as nat),
                ip == s@.subrange(start as int, dot as int),
                ip == spec_int_part(s@),
                ip.len() == dot - start,
                f == s@.subrange(dot + 1, n as int),
                f == spec_frac(s@),
            decreases n - j,
        {
            let c = s.get_char(j);
            match char_digit(c) {
                None => {
                    proof {
                        assert(f[j - dot - 1] == c);
                    }
                    return Err(decode_err("decimal"));
                },
                Some(d) => {
                    if (dot - start) + (j - dot - 1) >= MAX_DECIMAL_DIGITS as usize {
                        proof {
                            assert(f.len() >= (j - dot - 1) + 1);
                            assert(ip.len() + f.len() > MAX_DECIMAL_DIGITS as int);
                        }
                        return Err(decode_err("decimal"));
                    }
                    proof {
                        lemma_pow10_mono(
                            ((dot - start) + (j - dot - 1) + 1) as nat,
                            MAX_DECIMAL_DIGITS as nat,
                        );
                        lemma_pow10_cap();
                        assert((ip + s@.subrange(dot + 1, j + 1)).drop_last() =~= ip + s@.subrange(
                            dot + 1,
                            j as int,
                        ));
                        assert((ip + s@.subrange(dot + 1, j + 1)).last() == s@[j as int]);
                    }
                    m = m * 10 + (d as u128);
                },
            }
            j += 1;
        }
        scale = (n - dot - 1) as u32;
    } else {
        proof {
            assert(spec_frac(s@) =~= Seq::<char>::empty());
            assert(ip + spec_frac(s@) =~= ip);
        }
    }
    proof {
        lemma_pow10_mono((scale as nat), MAX_DECIMAL_DIGITS as nat);
        lemma_pow10_mono(((dot - start) + (scale as int)) as nat, MAX_DECIMAL_DIGITS as nat);
    }
    Ok(WireDecimal { negative: start == 1, mantissa: m, scale })
}

/// Decodes an optional decimal field: absent yields `None`, present but
/// unparseable fails.
pub fn decimal_from_wire_optional(text: Option<&str>) -> (r: Result<Option<WireDecimal>, SdkError>)
    ensures
        text is None ==> (r matches Ok(o) && o is None),
        text matches Some(s) ==> {
            &&& r is Ok <==> valid_decimal_wire(s@)
            &&& (r matches Ok(o) ==> o matches Some(d) && d.wf() && d.negative == spec_negative(s@)
                && d.mantissa as int == spec_mantissa(s@) && d.scale as nat == spec_scale(s@))
            &&& (r matches Err(e) ==> e is DecodeError)
        },
{
    match text {
        None => Ok(None),
        Some(s) => match decimal_from_wire(s) {
            Ok(d) => Ok(Some(d)),
            Err(e) => Err(e),
        },
    }
}

/// Single ASCII digit as a string slice.
fn digit_str(d: u8) -> (r: &'static str)
    requires
        d < 10,
    ensures
        r@ == seq![digit_char(d as int)],
{
    let t: &'static str = match d {
        0 => "0",
        1 => "1",
        2 => "2",
        3 => "3",
        4 => "4",
        5 => "5",
        6 => "6",
        7 => "7",
        8 => "8",
        _ => "9",
    };
    proof {
        reveal_strlit("0");
        reveal_strlit("1");
        reveal_strlit("2");
        reveal_strlit("3");
        reveal_strlit("4");
        reveal_strlit("5");
        reveal_strlit("6");
        reveal_strlit("7");
        reveal_strlit("8");
        reveal_strlit("9");
        assert(t@ =~= seq![digit_char(d as int)]);
    }
    t
}

fn push_digits(out: &mut String, n: u128)
    ensures
        final(out)@ == old(out)@ + digits_of(n as int),
    decreases n,
{
    if n < 10 {
        out.append(digit_str(n as u8));
        proof {
            assert(old(out)@ + seq![digit_char(n as int)] =~= old(out)@ + digits_of(n as int));
        }
    } else {
        push_digits(out, n / 10);
        out.append(digit_str((n % 10) as u8));
        proof {
            assert((old(out)@ + digits_of((n / 10) as int)) + seq![digit_char((n % 10) as int)]
                =~= old(out)@ + digits_of(n as int));
        }
    }
}

fn push_padded(out: &mut String, n: u128, w: u32)
    ensures
        final(out)@ == old(out)@ + padded(n as int, w as nat),
    decreases w,
{
    if w == 0 {
        proof {
            assert(old(out)@ + padded(n as int, 0) =~= old(out)@);
        }
    } else {
        push_padded(out, n / 10, w - 1);
        out.append(digit_str((n % 10) as u8));
        proof {
            assert((old(out)@ + padded((n / 10) as int, (w - 1) as nat)) + seq![
                digit_char((n % 10) as int),
            ] =~= old(out)@ + padded(n as int, w as nat));
        }
    }
}

fn pow10_u128(n: u32) -> (r: u128)
    requires
        n <= MAX_DECIMAL_DIGITS,
    ensures
        r as int == pow10(n as nat),
        r >= 1,
{
    proof {
        lemma_pow10_pos(n as nat);
    }
    let mut r: u128 = 1;
    let mut i: u32 = 0;
    while i < n
        invariant
            i <= n <= MAX_DECIMAL_DIGITS,
            r as int == pow10(i as nat),
        decreases n - i,
    {
        proof {
            lemma_pow10_mono((i + 1) as nat, MAX_DECIMAL_DIGITS as nat);
            lemma_pow10_cap();
        }
        r = r * 10;
        i += 1;
    }
    r
}

/// Renders a decimal back to its canonical wire form, preserving the source
/// precision exactly.
pub fn decimal_to_wire(d: &WireDecimal) -> (r: String)
    requires
        d.wf(),
    ensures
        r@ == spec_decimal_wire(d.negative, d.mantissa as int, d.scale as nat),
{
    let mut out = String::new();
    if d.negative {
        out.append("-");
        proof {
            reveal_strlit("-");
            assert(out@ =~= seq!['-']);
        }
    }
    let ghost sign = if d.negative { seq!['-'] } else { Seq::<char>::empty() };
    proof {
        assert(out@ =~= sign);
    }
    let p = pow10_u128(d.scale);
    let int_val = d.mantissa / p;
    push_digits(&mut out, int_val);
    if d.scale > 0 {
        out.append(".");
        push_padded(&mut out, d.mantissa % p, d.scale);
        proof {
            reveal_strlit(".");
            assert(out@ =~= spec_decimal_wire(d.negative, d.mantissa as int, d.scale as nat));
        }
    } else {
        proof {
            assert(out@ =~= spec_decimal_wire(d.negative, d.mantissa as int, d.scale as nat));
        }
    }
    out
}

/// No precision drift: rendering the parsed components of any valid wire
/// string reproduces that string verbatim, so
/// `decimal_to_wire(decimal_from_wire(s)) == s`.
pub proof fn lemma_decimal_round_trip(s: Seq<char>)
    requires
        valid_decimal_wire(s),
    ensures
        spec_decimal_wire(spec_negative(s), spec_mantissa(s), spec_scale(s)) == s,
{
    let u = spec_unsigned(s);
    let k = spec_dot_pos(u);
    let ip = spec_int_part(s);
    let f = spec_frac(s);
    let m = spec_mantissa(s);
    let scale = spec_scale(s);
    let sign = if spec_negative(s) { seq!['-'] } else { Seq::<char>::empty() };
    lemma_dot_pos_props(u);
    lemma_digits_val_concat(ip, f);
    lemma_digits_val_bounds(f);
    lemma_digits_val_bounds(ip);
    lemma_pow10_pos(f.len());
    lemma_fundamental_div_mod_converse(m, pow10(f.len()), digits_val(ip), digits_val(f));
    assert(m / pow10(scale) == digits_val(ip));
    assert(m % pow10(scale) == digits_val(f));
    lemma_digits_of_val(ip);
    if spec_has_frac(s) {
        lemma_padded_of_digits(f);
        assert(u[k] == '.');
        assert(u =~= ip + seq![u[k]] + f);
        assert(spec_decimal_wire(spec_negative(s), m, scale) =~= sign + ip + seq!['.'] + f);
        assert(s =~= sign + u);
        assert(sign + ip + seq!['.'] + f =~= sign + u);
    } else {
        assert(f =~= Seq::<char>::empty());
        assert(u =~= ip);
        assert(spec_decimal_wire(spec_negative(s), m, scale) =~= sign + ip);
        assert(s =~= sign + u);
    }
}

/// Renders an unsigned integer in its canonical decimal form (used for
/// timestamps and other plain numeric parameters).
pub fn u64_to_wire(n: u64) -> (r: String)
    ensures
        r@ == digits_of(n as int),
{
    let mut out = String::new();
    push_digits(&mut out, n as u128);
    proof {
        assert(Seq::<char>::empty() + digits_of(n as int) =~= digits_of(n as int));
    }
    out
}

/// Decodes a wire boolean: exactly the literal strings `"true"` and
/// `"false"`, case-sensitively.
pub fn bool_from_wire(s: &str) -> (r: Result<bool, SdkError>)
    ensures
        r is Ok <==> (s@ == "true"@ || s@ == "false"@),
        r matches Ok(b) ==> b == (s@ == "true"@),
        r matches Err(e) ==> (e matches SdkError::DecodeError { field } && field@ == "bool"@),
{
    let owned = s.to_owned();
    if owned == String::from_str("true") {
        Ok(true)
    } else if owned == String::from_str("false") {
        proof {
            reveal_strlit("true");
            reveal_strlit("false");
        }
        Ok(false)
    } else {
        Err(decode_err("bool"))
    }
}

/// Encodes a boolean symmetrically with `bool_from_wire`.
pub fn bool_to_wire(b: bool) -> (r: String)
    ensures
        r@ == (if b { "true"@ } else { "false"@ }),
        bool_from_wire_spec_inverse(b, r@),
{
    if b {
        let r = String::from_str("true");
        proof {
            reveal_strlit("true");
            reveal_strlit("false");
            assert(r@ == "true"@);
        }
        r
    } else {
        let r = String::from_str("false");
        proof {
            reveal_strlit("true");
            reveal_strlit("false");
            assert(r@ == "false"@);
            assert("false"@.len() != "true"@.len());
            assert(r@ != "true"@);
        }
        r
    }
}

/// The boolean codec round-trips: the rendering of `b` is accepted by
/// `bool_from_wire` and decodes back to `b`.
pub open spec fn bool_from_wire_spec_inverse(b: bool, s: Seq<char>) -> bool {
    (s == "true"@ || s == "false"@) && b == (s == "true"@)
}

} // verus!
