//! Decimal digit sequences and their numeric values.
//!
//! These spec functions and lemmas relate strings of ASCII digits to the
//! natural numbers they denote, in both directions: `digits_val` reads a
//! digit string, `digits_of` renders a number without leading zeros, and
//! `padded` renders it left-padded with zeros to a fixed width.  The
//! round-trip lemmas are what the decimal codec's no-precision-loss
//! guarantee rests on.

use vstd::prelude::*;
use vstd::arithmetic::div_mod::lemma_fundamental_div_mod_converse;

verus! {

pub open spec fn is_digit(c: char) -> bool {
    c == '0' || c == '1' || c == '2' || c == '3' || c == '4' || c == '5' || c == '6' || c == '7'
        || c == '8' || c == '9'
}

pub open spec fn digit_val(c: char) -> int {
    if c == '0' { 0 } else if c == '1' { 1 } else if c == '2' { 2 } else if c == '3' { 3 }
    else if c == '4' { 4 } else if c == '5' { 5 } else if c == '6' { 6 } else if c == '7' { 7 }
    else if c == '8' { 8 } else { 9 }
}

pub open spec fn digit_char(d: int) -> char {
    if d == 0 { '0' } else if d == 1 { '1' } else if d == 2 { '2' } else if d == 3 { '3' }
    else if d == 4 { '4' } else if d == 5 { '5' } else if d == 6 { '6' } else if d == 7 { '7' }
    else if d == 8 { '8' } else { '9' }
}

pub open spec fn all_digits(s: Seq<char>) -> bool {
    forall|i: int| 0 <= i < s.len() ==> is_digit(#[trigger] s[i])
}

/// The natural number denoted by a digit string, read most significant first.
pub open spec fn digits_val(s: Seq<char>) -> int
    decreases s.len(),
{
    if s.len() == 0 {
        0
    } else {
        digits_val(s.drop_last()) * 10 + digit_val(s.last())
    }
}

pub open spec fn pow10(n: nat) -> int
    decreases n,
{
    if n == 0 { 1 } else { 10 * pow10((n - 1) as nat) }
}

/// The canonical rendering of `n >= 0`: no leading zeros, at least one digit.
pub open spec fn digits_of(n: int) -> Seq<char>
    decreases n,
{
    if n < 10 {
        seq![digit_char(n)]
    } else {
        digits_of(n / 10).push(digit_char(n % 10))
    }
}

/// The rendering of `n` as exactly `w` digits, left-padded with zeros.
pub open spec fn padded(n: int, w: nat) -> Seq<char>
    decreases w,
{
    if w == 0 {
        Seq::<char>::empty()
    } else {
        padded(n / 10, (w - 1) as nat).push(digit_char(n % 10))
    }
}

pub proof fn lemma_pow10_pos(n: nat)
    ensures
        pow10(n) >= 1,
    decreases n,
{
    if n > 0 {
        lemma_pow10_pos((n - 1) as nat);
    }
}

pub proof fn lemma_pow10_mono(a: nat, b: nat)
    requires
        a <= b,
    ensures
        pow10(a) <= pow10(b),
    decreases b,
{
    if a < b {
        lemma_pow10_mono(a, (b - 1) as nat);
        lemma_pow10_pos((b - 1) as nat);
    }
}

pub proof fn lemma_digits_val_bounds(s: Seq<char>)
    requires
        all_digits(s),
    ensures
        0 <= digits_val(s) < pow10(s.len()),
    decreases s.len(),
{
    if s.len() > 0 {
        lemma_digits_val_bounds(s.drop_last());
    }
}

/// A digit string whose first digit is not zero denotes at least
/// `pow10(len - 1)`.
pub proof fn lemma_digits_val_lower(s: Seq<char>)
    requires
        all_digits(s),
        s.len() >= 1,
        s[0] != '0',
    ensures
        digits_val(s) >= pow10((s.len() - 1) as nat),
    decreases s.len(),
{
    if s.len() == 1 {
        assert(digits_val(s.drop_last()) == 0);
        assert(digits_val(s) == digit_val(s[0]));
    } else {
        lemma_digits_val_lower(s.drop_last());
        assert(digits_val(s) == digits_val(s.drop_last()) * 10 + digit_val(s.last()));
        assert(digit_val(s.last()) >= 0);
        assert(pow10((s.len() - 1) as nat) == 10 * pow10((s.len() - 2) as nat));
    }
}

/// Reading a concatenation: the left part is shifted by the width of the
/// right part.
pub proof fn lemma_digits_val_concat(a: Seq<char>, b: Seq<char>)
    ensures
        digits_val(a + b) == digits_val(a) * pow10(b.len()) + digits_val(b),
    decreases b.len(),
{
    if b.len() == 0 {
        assert(a + b =~= a);
    } else {
        let b0 = b.drop_last();
        lemma_digits_val_concat(a, b0);
        assert(a + b =~= (a + b0).push(b.last()));
        assert((a + b0).push(b.last()).drop_last() =~= a + b0);
        assert(digits_val(a + b) == (digits_val(a) * pow10(b0.len()) + digits_val(b0)) * 10
            + digit_val(b.last()));
        assert((digits_val(a) * pow10(b0.len())) * 10 == digits_val(a) * (10 * pow10(b0.len())))
            by (nonlinear_arith);
    }
}

/// Fixed-width rendering inverts reading, for every digit string.
pub proof fn lemma_padded_of_digits(s: Seq<char>)
    requires
        all_digits(s),
    ensures
        padded(digits_val(s), s.len()) == s,
    decreases s.len(),
{
    if s.len() == 0 {
        assert(padded(0, 0) =~= s);
    } else {
        let front = s.drop_last();
        let d = digit_val(s.last());
        let n = digits_val(s);
        lemma_digits_val_bounds(front);
        lemma_fundamental_div_mod_converse(n, 10, digits_val(front), d);
        lemma_padded_of_digits(front);
        assert(padded(n, s.len()) =~= s);
    }
}

/// Canonical rendering inverts reading on strings without leading zeros.
pub proof fn lemma_digits_of_val(s: Seq<char>)
    requires
        all_digits(s),
        s.len() >= 1,
        s.len() == 1 || s[0] != '0',
    ensures
        digits_of(digits_val(s)) == s,
    decreases s.len(),
{
    let n = digits_val(s);
    lemma_digits_val_bounds(s);
    if s.len() == 1 {
        assert(is_digit(s[0]));
        assert(s.last() == s[0]);
        assert(digits_val(s.drop_last()) == 0);
        assert(n == digit_val(s[0]));
        assert(digit_char(digit_val(s[0])) == s[0]);
        assert(digits_of(n) =~= s);
    } else {
        let front = s.drop_last();
        let d = digit_val(s.last());
        lemma_digits_val_lower(front);
        lemma_pow10_pos((front.len() - 1) as nat);
        assert(digits_val(front) >= 1);
        assert(n >= 10);
        lemma_fundamental_div_mod_converse(n, 10, digits_val(front), d);
        lemma_digits_of_val(front);
        assert(is_digit(s[s.len() - 1]));
        assert(digit_char(digit_val(s.last())) == s.last());
        assert(n / 10 == digits_val(front));
        assert(n % 10 == d);
        assert(digits_of(n) == digits_of(n / 10).push(digit_char(n % 10)));
        assert(digits_of(n) == front.push(s.last()));
        assert(front.push(s.last()) =~= s);
    }
}


} // verus!
