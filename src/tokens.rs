//! White-space separated tokens of a report line, the shapes the parsers look
//! for, and the values those shapes carry.
use vstd::prelude::*;
use crate::text::{
    all_digits, all_digits_x, digits_val, is_digit, is_ws, lemma_digits_val_grows, lemma_skip_non_ws_bounds,
    lemma_skip_ws_bounds, lemma_skip_ws_stops, parse_nat, parse_nat_x, skip_non_ws, skip_non_ws_x, skip_ws, skip_ws_x,
};
use vstd::string::StrSliceExecFns;

verus! {

/// The shape of a token that a report field is read from.
#[derive(Clone, Copy, Debug, PartialEq, Eq, Structural)]
pub enum TokenRule {
    /// Digits only, read as a `u32`.
    Digits,
    /// Digits followed by any number of `%`, read as a `u32` (a lone `%`
    /// fits and reads as nothing).
    DigitsPercent,
    /// Digits and dots, read as a decimal in thousandths, saturating at the
    /// largest `u32`.
    Decimal,
    /// Ends with the two-letter unit `(c1, c2)`; what precedes the repeated
    /// unit must be digits and is read as a `u32`.
    DigitsUnit(char, char),
}

/// `b` moved back over the `c` characters that end `[a, b)`.
pub open spec fn strip_char(s: Seq<char>, a: int, b: int, c: char) -> int
    decreases b - a,
{
    if b > a && s[b - 1] == c { strip_char(s, a, b - 1, c) } else { b }
}

/// `b` moved back over the repeated two-letter unit `(c1, c2)` that ends `[a, b)`.
pub open spec fn strip_unit(s: Seq<char>, a: int, b: int, c1: char, c2: char) -> int
    decreases b - a,
{
    if b - a >= 2 && s[b - 2] == c1 && s[b - 1] == c2 { strip_unit(s, a, b - 2, c1, c2) } else { b }
}

/// Whether every character of `[a, b)` is a digit or a dot.
pub open spec fn digits_or_dots(s: Seq<char>, a: int, b: int) -> bool {
    forall|k: int| a <= k < b ==> is_digit(#[trigger] s[k]) || s[k] == '.'
}

/// Whether the token `[a, b)` has the shape `rule` asks for.
pub open spec fn token_fits(s: Seq<char>, a: int, b: int, rule: TokenRule) -> bool {
    match rule {
        TokenRule::Digits => all_digits(s, a, b),
        TokenRule::DigitsPercent => all_digits(s, a, strip_char(s, a, b, '%')),
        TokenRule::Decimal => digits_or_dots(s, a, b),
        TokenRule::DigitsUnit(c1, c2) => b - a >= 2 && s[b - 2] == c1 && s[b - 1] == c2 && all_digits(
            s,
            a,
            strip_unit(s, a, b, c1, c2),
        ),
    }
}

/// The first token of `[i, hi)` that fits `rule`.
pub open spec fn first_token(s: Seq<char>, i: int, hi: int, rule: TokenRule) -> Option<(int, int)>
    decreases hi - i,
{
    let a = skip_ws(s, i, hi);
    if a >= hi || i >= hi {
        None
    } else {
        let b = skip_non_ws(s, a, hi);
        if token_fits(s, a, b, rule) {
            Some((a, b))
        } else if b <= i || b > hi {
            None
        } else {
            first_token(s, b, hi, rule)
        }
    }
}

/// The first dot in `[a, b)`, or `b`.
pub open spec fn dot_at(s: Seq<char>, a: int, b: int) -> int
    decreases b - a,
{
    if a < b && s[a] != '.' { dot_at(s, a + 1, b) } else { a }
}

/// The first three digits of `[a, b)` as thousandths (`5` is 500).
pub open spec fn thousandths(s: Seq<char>, a: int, b: int) -> int {
    let k = if b - a > 3 { 3 } else { b - a };
    digits_val(s, a, a + k) * (if k == 0 { 1000int } else if k == 1 { 100int } else if k == 2 { 10int } else { 1int })
}

/// The decimal `[a, b)` (digits, at most one dot, at least one digit) in
/// thousandths, truncated past the third decimal and capped at the largest
/// `u32`.
pub open spec fn parse_milli(s: Seq<char>, a: int, b: int) -> Option<int> {
    let d = dot_at(s, a, b);
    let frac_start = if d < b { d + 1 } else { b };
    if all_digits(s, a, d) && all_digits(s, frac_start, b) && (d > a || b > frac_start) {
        let v = digits_val(s, a, d) * 1000 + thousandths(s, frac_start, b);
        Some(if v > 0xffff_ffff { 0xffff_ffff } else { v })
    } else {
        None
    }
}

/// The value that a token fitting `rule` carries, if it reads.
pub open spec fn token_value(s: Seq<char>, a: int, b: int, rule: TokenRule) -> Option<int> {
    match rule {
        TokenRule::Digits => parse_nat(s, a, b, 0xffff_ffff),
        TokenRule::DigitsPercent => parse_nat(s, a, strip_char(s, a, b, '%'), 0xffff_ffff),
        TokenRule::Decimal => parse_milli(s, a, b),
        TokenRule::DigitsUnit(c1, c2) => parse_nat(s, a, strip_unit(s, a, b, c1, c2), 0xffff_ffff),
    }
}

proof fn lemma_dot_at_bounds(s: Seq<char>, a: int, b: int)
    requires
        a <= b,
    ensures
        a <= dot_at(s, a, b) <= b,
        dot_at(s, a, b) < b ==> s[dot_at(s, a, b)] == '.',
        forall|k: int| a <= k < dot_at(s, a, b) ==> s[k] != '.',
    decreases b - a,
{
    if a < b && s[a] != '.' {
        lemma_dot_at_bounds(s, a + 1, b);
    }
}

pub proof fn lemma_first_token_bounds(s: Seq<char>, i: int, hi: int, rule: TokenRule)
    requires
        i <= hi,
    ensures
        first_token(s, i, hi, rule) matches Some((a, b)) ==> i <= a <= b <= hi,
    decreases hi - i,
{
    let a = skip_ws(s, i, hi);
    lemma_skip_ws_bounds(s, i, hi);
    if a < hi && i < hi {
        let b = skip_non_ws(s, a, hi);
        lemma_skip_non_ws_bounds(s, a, hi);
        if !token_fits(s, a, b, rule) && b > i && b <= hi {
            lemma_first_token_bounds(s, b, hi, rule);
        }
    }
}

fn strip_char_x(s: &str, a: usize, b: usize, c: char) -> (r: usize)
    requires
        a <= b <= s@.len(),
    ensures
        r == strip_char(s@, a as int, b as int, c),
        a <= r <= b,
{
    let mut k = b;
    while k > a && s.get_char(k - 1) == c
        invariant
            a <= k <= b <= s@.len(),
            strip_char(s@, a as int, b as int, c) == strip_char(s@, a as int, k as int, c),
        decreases k - a,
    {
        k = k - 1;
    }
    k
}

fn strip_unit_x(s: &str, a: usize, b: usize, c1: char, c2: char) -> (r: usize)
    requires
        a <= b <= s@.len(),
    ensures
        r == strip_unit(s@, a as int, b as int, c1, c2),
        a <= r <= b,
{
    let mut k = b;
    while k - a >= 2 && s.get_char(k - 2) == c1 && s.get_char(k - 1) == c2
        invariant
            a <= k <= b <= s@.len(),
            strip_unit(s@, a as int, b as int, c1, c2) == strip_unit(s@, a as int, k as int, c1, c2),
        decreases k - a,
    {
        k = k - 2;
    }
    k
}

fn digits_or_dots_x(s: &str, a: usize, b: usize) -> (r: bool)
    requires
        a <= b <= s@.len(),
    ensures
        r == digits_or_dots(s@, a as int, b as int),
{
    let mut k = a;
    while k < b
        invariant
            a <= k <= b <= s@.len(),
            digits_or_dots(s@, a as int, k as int),
        decreases b - k,
    {
        let c = s.get_char(k);
        if !(('0' <= c && c <= '9') || c == '.') {
            return false;
        }
        k = k + 1;
    }
    true
}

fn token_fits_x(s: &str, a: usize, b: usize, rule: TokenRule) -> (r: bool)
    requires
        a <= b <= s@.len(),
    ensures
        r == token_fits(s@, a as int, b as int, rule),
{
    match rule {
        TokenRule::Digits => all_digits_x(s, a, b),
        TokenRule::DigitsPercent => {
            let e = strip_char_x(s, a, b, '%');
            all_digits_x(s, a, e)
        },
        TokenRule::Decimal => digits_or_dots_x(s, a, b),
        TokenRule::DigitsUnit(c1, c2) => {
            if b - a >= 2 && s.get_char(b - 2) == c1 && s.get_char(b - 1) == c2 {
                let e = strip_unit_x(s, a, b, c1, c2);
                all_digits_x(s, a, e)
            } else {
                false
            }
        },
    }
}

/// The first token of `[i, hi)` that fits `rule`.
pub fn first_token_x(s: &str, i: usize, hi: usize, rule: TokenRule) -> (r: Option<(usize, usize)>)
    requires
        i <= hi <= s@.len(),
    ensures
        match r {
            Some((a, b)) => first_token(s@, i as int, hi as int, rule) == Some((a as int, b as int)),
            None => first_token(s@, i as int, hi as int, rule) is None,
        },
{
    let mut k = i;
    while k < hi
        invariant
            i <= k <= hi <= s@.len(),
            first_token(s@, i as int, hi as int, rule) == first_token(s@, k as int, hi as int, rule),
        decreases hi - k,
    {
        let a = skip_ws_x(s, k, hi);
        if a >= hi {
            return None;
        }
        let b = skip_non_ws_x(s, a, hi);
        if token_fits_x(s, a, b, rule) {
            return Some((a, b));
        }
        proof {
            assert(b > a) by {
                reveal_with_fuel(skip_non_ws, 2);
                assert(!is_ws(s@[a as int])) by {
                    assert(skip_ws(s@, k as int, hi as int) == a);
                    lemma_skip_ws_stops(s@, k as int, hi as int);
                }
                lemma_skip_non_ws_bounds(s@, a + 1, hi as int);
            }
        }
        k = b;
    }
    None
}

fn dot_at_x(s: &str, a: usize, b: usize) -> (r: usize)
    requires
        a <= b <= s@.len(),
    ensures
        r == dot_at(s@, a as int, b as int),
{
    let mut k = a;
    while k < b && s.get_char(k) != '.'
        invariant
            a <= k <= b <= s@.len(),
            dot_at(s@, a as int, b as int) == dot_at(s@, k as int, b as int),
        decreases b - k,
    {
        k = k + 1;
    }
    k
}

/// Cap for the integer part: at or above it the thousandths exceed any `u32`.
const MILLI_CAP: u64 = 4_294_968;

fn capped_digits_x(s: &str, a: usize, b: usize) -> (r: u64)
    requires
        a <= b <= s@.len(),
        all_digits(s@, a as int, b as int),
    ensures
        r as int == (if digits_val(s@, a as int, b as int) > MILLI_CAP { MILLI_CAP as int } else { digits_val(s@, a as int, b as int) }),
{
    let mut v: u64 = 0;
    let mut k = a;
    while k < b
        invariant
            a <= k <= b <= s@.len(),
            all_digits(s@, a as int, b as int),
            v as int == (if digits_val(s@, a as int, k as int) > MILLI_CAP { MILLI_CAP as int } else { digits_val(s@, a as int, k as int) }),
        decreases b - k,
    {
        let c = s.get_char(k);
        assert(is_digit(s@[k as int]));
        let d = (c as u32 - '0' as u32) as u64;
        proof {
            lemma_digits_val_grows(s@, a as int, k as int, k as int);
        }
        let w = v * 10 + d;
        v = if w > MILLI_CAP { MILLI_CAP } else { w };
        k = k + 1;
    }
    v
}

fn parse_milli_x(s: &str, a: usize, b: usize) -> (r: Option<u32>)
    requires
        a <= b <= s@.len(),
    ensures
        match r {
            Some(v) => parse_milli(s@, a as int, b as int) == Some(v as int),
            None => parse_milli(s@, a as int, b as int) is None,
        },
{
    let d = dot_at_x(s, a, b);
    proof {
        lemma_dot_at_bounds(s@, a as int, b as int);
    }
    let frac_start = if d < b { d + 1 } else { b };
    if !(all_digits_x(s, a, d) && all_digits_x(s, frac_start, b) && (d > a || b > frac_start)) {
        return None;
    }
    let int_part = capped_digits_x(s, a, d);
    let k = if b - frac_start > 3 { 3 } else { b - frac_start };
    let fv = capped_digits_x(s, frac_start, frac_start + k);
    proof {
        lemma_digits_val_grows(s@, frac_start as int, frac_start + k, frac_start + k);
        lemma_digits_below(s@, frac_start as int, frac_start + k);
    }
    let scale: u64 = if k == 0 { 1000 } else if k == 1 { 100 } else if k == 2 { 10 } else { 1 };
    let frac = fv * scale;
    let v = int_part * 1000 + frac;
    proof {
        let iv = digits_val(s@, a as int, d as int);
        lemma_digits_val_grows(s@, a as int, d as int, d as int);
        assert(frac as int == thousandths(s@, frac_start as int, b as int));
        assert(frac < 1000) by (nonlinear_arith)
            requires frac == fv * scale, fv < 1000, k == 0 ==> fv == 0 && scale == 1000, k == 1 ==> fv < 10 && scale == 100, k == 2 ==> fv < 100 && scale == 10, k == 3 ==> scale == 1, k <= 3;
        if iv > MILLI_CAP {
            assert(iv * 1000 + frac as int > 0xffff_ffff) by (nonlinear_arith)
                requires iv > 4_294_968, frac >= 0;
        }
    }
    if v > 0xffff_ffff {
        Some(0xffff_ffffu32)
    } else {
        Some(v as u32)
    }
}

proof fn lemma_digits_below(s: Seq<char>, a: int, b: int)
    requires
        a <= b <= a + 3,
        all_digits(s, a, b),
    ensures
        digits_val(s, a, b) < 1000,
        b - a <= 2 ==> digits_val(s, a, b) < 100,
        b - a <= 1 ==> digits_val(s, a, b) < 10,
        b == a ==> digits_val(s, a, b) == 0,
    decreases b - a,
{
    if b > a {
        lemma_digits_below(s, a, b - 1);
        assert(is_digit(s[b - 1]));
    }
}

/// The value that the token `[a, b)`, fitting `rule`, carries.
pub fn token_value_x(s: &str, a: usize, b: usize, rule: TokenRule) -> (r: Option<u32>)
    requires
        a <= b <= s@.len(),
    ensures
        match r {
            Some(v) => token_value(s@, a as int, b as int, rule) == Some(v as int),
            None => token_value(s@, a as int, b as int, rule) is None,
        },
{
    match rule {
        TokenRule::Digits => match parse_nat_x(s, a, b, 0xffff_ffff) {
            Some(v) => Some(v as u32),
            None => None,
        },
        TokenRule::DigitsPercent => {
            let e = strip_char_x(s, a, b, '%');
            match parse_nat_x(s, a, e, 0xffff_ffff) {
                Some(v) => Some(v as u32),
                None => None,
            }
        },
        TokenRule::Decimal => parse_milli_x(s, a, b),
        TokenRule::DigitsUnit(c1, c2) => {
            let e = strip_unit_x(s, a, b, c1, c2);
            match parse_nat_x(s, a, e, 0xffff_ffff) {
                Some(v) => Some(v as u32),
                None => None,
            }
        },
    }
}

} // verus!
