//! Character-level helpers over `str` views, shared by the parsers.
use vstd::prelude::*;
use vstd::string::StrSliceExecFns;

verus! {

/// Whether `a` and `b` hold the same characters.
pub fn str_eq(a: &str, b: &str) -> (r: bool)
    ensures
        r == (a@ == b@),
{
    let n = a.unicode_len();
    if n != b.unicode_len() {
        return false;
    }
    let mut i: usize = 0;
    while i < n
        invariant
            n == a@.len(),
            n == b@.len(),
            0 <= i <= n,
            forall|k: int| 0 <= k < i ==> a@[k] == b@[k],
        decreases n - i,
    {
        if a.get_char(i) != b.get_char(i) {
            return false;
        }
        i = i + 1;
    }
    assert(a@ =~= b@);
    true
}


/// Unicode white space, as `char::is_whitespace` and `str::trim` use it.
pub open spec fn is_ws(c: char) -> bool {
    ||| c == ' '
    ||| ('\t' <= c && c <= '\r')
    ||| c == '\u{85}'
    ||| c == '\u{a0}'
    ||| c == '\u{1680}'
    ||| ('\u{2000}' <= c && c <= '\u{200a}')
    ||| c == '\u{2028}'
    ||| c == '\u{2029}'
    ||| c == '\u{202f}'
    ||| c == '\u{205f}'
    ||| c == '\u{3000}'
}

pub open spec fn is_digit(c: char) -> bool {
    '0' <= c && c <= '9'
}

pub fn ws(c: char) -> (r: bool)
    ensures
        r == is_ws(c),
{
    c == ' ' || ('\t' <= c && c <= '\r') || c == '\u{85}' || c == '\u{a0}' || c == '\u{1680}' || ('\u{2000}' <= c && c
        <= '\u{200a}') || c == '\u{2028}' || c == '\u{2029}' || c == '\u{202f}' || c == '\u{205f}' || c == '\u{3000}'
}

/// First index in `[i, hi)` that is not white space, or `hi`.
pub open spec fn skip_ws(s: Seq<char>, i: int, hi: int) -> int
    decreases hi - i,
{
    if i < hi && is_ws(s[i]) { skip_ws(s, i + 1, hi) } else { i }
}

/// First index in `[i, hi)` that is white space, or `hi`.
pub open spec fn skip_non_ws(s: Seq<char>, i: int, hi: int) -> int
    decreases hi - i,
{
    if i < hi && !is_ws(s[i]) { skip_non_ws(s, i + 1, hi) } else { i }
}

/// `j` moved back over the white space that ends `[lo, j)`.
pub open spec fn back_ws(s: Seq<char>, lo: int, j: int) -> int
    decreases j - lo,
{
    if j > lo && is_ws(s[j - 1]) { back_ws(s, lo, j - 1) } else { j }
}

/// `j` moved back over the non-space characters that end `[lo, j)`.
pub open spec fn back_non_ws(s: Seq<char>, lo: int, j: int) -> int
    decreases j - lo,
{
    if j > lo && !is_ws(s[j - 1]) { back_non_ws(s, lo, j - 1) } else { j }
}

/// First index of `c` in `[i, hi)`, or `hi`.
pub open spec fn find_char(s: Seq<char>, c: char, i: int, hi: int) -> int
    decreases hi - i,
{
    if i < hi && s[i] != c { find_char(s, c, i + 1, hi) } else { i }
}

/// Last index of `c` in `[lo, j)`, if any.
pub open spec fn rfind_char(s: Seq<char>, c: char, lo: int, j: int) -> Option<int>
    decreases j - lo,
{
    if j <= lo {
        None
    } else if s[j - 1] == c {
        Some(j - 1)
    } else {
        rfind_char(s, c, lo, j - 1)
    }
}

/// First index in `[i, hi)` where `pat` occurs whole within `[i, hi)`, if any.
pub open spec fn find_str(s: Seq<char>, pat: Seq<char>, i: int, hi: int) -> Option<int>
    decreases hi + 1 - i,
{
    if i + pat.len() > hi {
        None
    } else if s.subrange(i, i + pat.len()) == pat {
        Some(i)
    } else {
        find_str(s, pat, i + 1, hi)
    }
}

/// Whether every character of `[a, b)` is an ASCII digit.
pub open spec fn all_digits(s: Seq<char>, a: int, b: int) -> bool {
    forall|k: int| a <= k < b ==> is_digit(#[trigger] s[k])
}

/// The decimal value of the digits `[a, b)`.
pub open spec fn digits_val(s: Seq<char>, a: int, b: int) -> int
    decreases b - a,
{
    if b <= a { 0 } else { digits_val(s, a, b - 1) * 10 + (s[b - 1] as int - '0' as int) }
}

/// `[a, b)` read as a non-empty run of digits worth at most `limit`.
pub open spec fn parse_digits(s: Seq<char>, a: int, b: int, limit: int) -> Option<int> {
    if a < b && all_digits(s, a, b) && digits_val(s, a, b) <= limit { Some(digits_val(s, a, b)) } else { None }
}

/// `[a, b)` read as an unsigned integer up to `limit`, as `str::parse` reads
/// one: an optional `+`, then digits.
pub open spec fn parse_nat(s: Seq<char>, a: int, b: int, limit: int) -> Option<int> {
    if a < b && s[a] == '+' { parse_digits(s, a + 1, b, limit) } else { parse_digits(s, a, b, limit) }
}

/// `[a, b)` read as an `i32`, as `str::parse` reads one: an optional sign,
/// then digits.
pub open spec fn parse_i32(s: Seq<char>, a: int, b: int) -> Option<int> {
    if a < b && s[a] == '-' {
        match parse_digits(s, a + 1, b, 0x8000_0000) {
            Some(v) => Some(-v),
            None => None,
        }
    } else {
        parse_nat(s, a, b, 0x7fff_ffff)
    }
}

/// End of the line that starts at `i`: the next line feed, or the end.
pub open spec fn line_end(s: Seq<char>, i: int) -> int {
    find_char(s, '\n', i, s.len() as int)
}

/// The lines from `pos` on, as index ranges, the way `str::lines` yields them:
/// split at line feeds, a carriage return just before a line feed dropped, and
/// no empty line after a final line feed.
pub open spec fn lines_from(s: Seq<char>, pos: int) -> Seq<(int, int)>
    decreases s.len() + 1 - pos,
{
    if pos >= s.len() || pos < 0 {
        seq![]
    } else {
        let e = line_end(s, pos);
        if e < pos || e > s.len() {
            seq![]
        } else {
            let hi = if e > pos && e < s.len() && s[e - 1] == '\r' { e - 1 } else { e };
            seq![(pos, hi)] + lines_from(s, e + 1)
        }
    }
}

pub proof fn lemma_skip_ws_bounds(s: Seq<char>, i: int, hi: int)
    requires
        i <= hi,
    ensures
        i <= skip_ws(s, i, hi) <= hi,
    decreases hi - i,
{
    if i < hi && is_ws(s[i]) {
        lemma_skip_ws_bounds(s, i + 1, hi);
    }
}

pub proof fn lemma_skip_non_ws_bounds(s: Seq<char>, i: int, hi: int)
    requires
        i <= hi,
    ensures
        i <= skip_non_ws(s, i, hi) <= hi,
    decreases hi - i,
{
    if i < hi && !is_ws(s[i]) {
        lemma_skip_non_ws_bounds(s, i + 1, hi);
    }
}

pub proof fn lemma_rfind_char_bounds(s: Seq<char>, c: char, lo: int, j: int)
    ensures
        rfind_char(s, c, lo, j) matches Some(k) ==> lo <= k < j && s[k] == c,
    decreases j - lo,
{
    if j > lo && s[j - 1] != c {
        lemma_rfind_char_bounds(s, c, lo, j - 1);
    }
}

pub proof fn lemma_find_char_reaches(s: Seq<char>, c: char, i: int, hi: int, k: int)
    requires
        i <= k < hi,
        s[k] == c,
    ensures
        find_char(s, c, i, hi) <= k,
    decreases hi - i,
{
    if i < hi && s[i] != c {
        lemma_find_char_reaches(s, c, i + 1, hi, k);
    }
}

pub proof fn lemma_find_str_bounds(s: Seq<char>, pat: Seq<char>, i: int, hi: int)
    ensures
        find_str(s, pat, i, hi) matches Some(k) ==> i <= k && k + pat.len() <= hi,
    decreases hi + 1 - i,
{
    if i + pat.len() <= hi && s.subrange(i, i + pat.len()) != pat {
        lemma_find_str_bounds(s, pat, i + 1, hi);
    }
}

pub fn skip_ws_x(s: &str, i: usize, hi: usize) -> (r: usize)
    requires
        i <= hi <= s@.len(),
    ensures
        r == skip_ws(s@, i as int, hi as int),
        i <= r <= hi,
{
    let mut k = i;
    while k < hi && ws(s.get_char(k))
        invariant
            i <= k <= hi <= s@.len(),
            skip_ws(s@, i as int, hi as int) == skip_ws(s@, k as int, hi as int),
        decreases hi - k,
    {
        k = k + 1;
    }
    k
}

pub fn skip_non_ws_x(s: &str, i: usize, hi: usize) -> (r: usize)
    requires
        i <= hi <= s@.len(),
    ensures
        r == skip_non_ws(s@, i as int, hi as int),
        i <= r <= hi,
{
    let mut k = i;
    while k < hi && !ws(s.get_char(k))
        invariant
            i <= k <= hi <= s@.len(),
            skip_non_ws(s@, i as int, hi as int) == skip_non_ws(s@, k as int, hi as int),
        decreases hi - k,
    {
        k = k + 1;
    }
    k
}

pub fn back_ws_x(s: &str, lo: usize, j: usize) -> (r: usize)
    requires
        lo <= j <= s@.len(),
    ensures
        r == back_ws(s@, lo as int, j as int),
        lo <= r <= j,
{
    let mut k = j;
    while k > lo && ws(s.get_char(k - 1))
        invariant
            lo <= k <= j <= s@.len(),
            back_ws(s@, lo as int, j as int) == back_ws(s@, lo as int, k as int),
        decreases k - lo,
    {
        k = k - 1;
    }
    k
}

pub fn back_non_ws_x(s: &str, lo: usize, j: usize) -> (r: usize)
    requires
        lo <= j <= s@.len(),
    ensures
        r == back_non_ws(s@, lo as int, j as int),
        lo <= r <= j,
{
    let mut k = j;
    while k > lo && !ws(s.get_char(k - 1))
        invariant
            lo <= k <= j <= s@.len(),
            back_non_ws(s@, lo as int, j as int) == back_non_ws(s@, lo as int, k as int),
        decreases k - lo,
    {
        k = k - 1;
    }
    k
}

pub fn find_char_x(s: &str, c: char, i: usize, hi: usize) -> (r: usize)
    requires
        i <= hi <= s@.len(),
    ensures
        r == find_char(s@, c, i as int, hi as int),
        i <= r <= hi,
{
    let mut k = i;
    while k < hi && s.get_char(k) != c
        invariant
            i <= k <= hi <= s@.len(),
            find_char(s@, c, i as int, hi as int) == find_char(s@, c, k as int, hi as int),
        decreases hi - k,
    {
        k = k + 1;
    }
    k
}

pub fn rfind_char_x(s: &str, c: char, lo: usize, j: usize) -> (r: Option<usize>)
    requires
        lo <= j <= s@.len(),
    ensures
        match r {
            Some(k) => rfind_char(s@, c, lo as int, j as int) == Some(k as int),
            None => rfind_char(s@, c, lo as int, j as int) is None,
        },
{
    let mut k = j;
    while k > lo
        invariant
            lo <= k <= j <= s@.len(),
            rfind_char(s@, c, lo as int, j as int) == rfind_char(s@, c, lo as int, k as int),
        decreases k - lo,
    {
        if s.get_char(k - 1) == c {
            return Some(k - 1);
        }
        k = k - 1;
    }
    None
}

fn matches_at(s: &str, pat: &str, i: usize, hi: usize) -> (r: bool)
    requires
        i + pat@.len() <= hi <= s@.len(),
    ensures
        r == (s@.subrange(i as int, i + pat@.len()) == pat@),
{
    let n = pat.unicode_len();
    let mut j: usize = 0;
    while j < n
        invariant
            n == pat@.len(),
            i + n <= hi <= s@.len(),
            0 <= j <= n,
            forall|k: int| 0 <= k < j ==> s@[i + k] == pat@[k],
        decreases n - j,
    {
        if s.get_char(i + j) != pat.get_char(j) {
            assert(s@.subrange(i as int, i + pat@.len())[j as int] != pat@[j as int]);
            return false;
        }
        j = j + 1;
    }
    assert(s@.subrange(i as int, i + pat@.len()) =~= pat@);
    true
}

pub fn find_str_x(s: &str, pat: &str, i: usize, hi: usize) -> (r: Option<usize>)
    requires
        i <= hi <= s@.len(),
    ensures
        match r {
            Some(k) => find_str(s@, pat@, i as int, hi as int) == Some(k as int),
            None => find_str(s@, pat@, i as int, hi as int) is None,
        },
{
    let n = pat.unicode_len();
    if n > hi {
        return None;
    }
    if n == 0 {
        assert(s@.subrange(i as int, i as int) =~= pat@);
        return Some(i);
    }
    let mut k = i;
    while k <= hi - n
        invariant
            n == pat@.len(),
            1 <= n <= hi,
            i <= k,
            hi <= s@.len(),
            find_str(s@, pat@, i as int, hi as int) == find_str(s@, pat@, k as int, hi as int),
        decreases hi + 1 - k,
    {
        if matches_at(s, pat, k, hi) {
            return Some(k);
        }
        k = k + 1;
    }
    None
}

pub proof fn lemma_digits_val_grows(s: Seq<char>, a: int, b: int, c: int)
    requires
        a <= b <= c,
        all_digits(s, a, c),
    ensures
        digits_val(s, a, b) <= digits_val(s, a, c),
        0 <= digits_val(s, a, b),
    decreases c - a,
{
    if c > b {
        lemma_digits_val_grows(s, a, b, c - 1);
    } else if b > a {
        lemma_digits_val_grows(s, a, b - 1, b - 1);
    }
}

pub fn parse_digits_x(s: &str, a: usize, b: usize, limit: u64) -> (r: Option<u64>)
    requires
        a <= b <= s@.len(),
        limit < 0x1_0000_0000,
    ensures
        match r {
            Some(v) => parse_digits(s@, a as int, b as int, limit as int) == Some(v as int),
            None => parse_digits(s@, a as int, b as int, limit as int) is None,
        },
{
    if a >= b {
        return None;
    }
    let mut val: u64 = 0;
    let mut k = a;
    while k < b
        invariant
            a <= k <= b <= s@.len(),
            limit < 0x1_0000_0000,
            all_digits(s@, a as int, k as int),
            val as int == digits_val(s@, a as int, k as int),
            val <= limit,
        decreases b - k,
    {
        let c = s.get_char(k);
        if !('0' <= c && c <= '9') {
            assert(!all_digits(s@, a as int, b as int));
            return None;
        }
        let d = (c as u32 - '0' as u32) as u64;
        val = val * 10 + d;
        k = k + 1;
        if val > limit {
            proof {
                if all_digits(s@, a as int, b as int) {
                    lemma_digits_val_grows(s@, a as int, k as int, b as int);
                }
            }
            return None;
        }
    }
    Some(val)
}

pub fn parse_nat_x(s: &str, a: usize, b: usize, limit: u64) -> (r: Option<u64>)
    requires
        a <= b <= s@.len(),
        limit < 0x1_0000_0000,
    ensures
        match r {
            Some(v) => parse_nat(s@, a as int, b as int, limit as int) == Some(v as int),
            None => parse_nat(s@, a as int, b as int, limit as int) is None,
        },
{
    if a < b && s.get_char(a) == '+' {
        parse_digits_x(s, a + 1, b, limit)
    } else {
        parse_digits_x(s, a, b, limit)
    }
}

pub fn parse_i32_x(s: &str, a: usize, b: usize) -> (r: Option<i32>)
    requires
        a <= b <= s@.len(),
    ensures
        match r {
            Some(v) => parse_i32(s@, a as int, b as int) == Some(v as int),
            None => parse_i32(s@, a as int, b as int) is None,
        },
{
    if a < b && s.get_char(a) == '-' {
        match parse_digits_x(s, a + 1, b, 0x8000_0000) {
            Some(v) => Some((0 - (v as i64)) as i32),
            None => None,
        }
    } else {
        match parse_nat_x(s, a, b, 0x7fff_ffff) {
            Some(v) => Some(v as i32),
            None => None,
        }
    }
}

pub fn all_digits_x(s: &str, a: usize, b: usize) -> (r: bool)
    requires
        a <= b <= s@.len(),
    ensures
        r == all_digits(s@, a as int, b as int),
{
    let mut k = a;
    while k < b
        invariant
            a <= k <= b <= s@.len(),
            all_digits(s@, a as int, k as int),
        decreases b - k,
    {
        let c = s.get_char(k);
        if !('0' <= c && c <= '9') {
            return false;
        }
        k = k + 1;
    }
    true
}

pub proof fn lemma_skip_ws_stops(s: Seq<char>, i: int, hi: int)
    requires
        i <= hi,
    ensures
        skip_ws(s, i, hi) < hi ==> !is_ws(s[skip_ws(s, i, hi)]),
    decreases hi - i,
{
    if i < hi && is_ws(s[i]) {
        lemma_skip_ws_stops(s, i + 1, hi);
    }
}


/// The code of `c` with ASCII capitals made small.
pub open spec fn lower_code(c: char) -> int {
    if 'A' <= c && c <= 'Z' { (c as int) + 32 } else { c as int }
}

/// Whether `pat` occurs at `i`, ignoring ASCII case.
pub open spec fn matches_ci_at(s: Seq<char>, pat: Seq<char>, i: int) -> bool {
    forall|k: int| 0 <= k < pat.len() ==> lower_code(#[trigger] s[i + k]) == lower_code(pat[k])
}

/// Whether `pat` occurs within `[i, hi)`, ignoring ASCII case.
pub open spec fn contains_ci(s: Seq<char>, pat: Seq<char>, i: int, hi: int) -> bool
    decreases hi + 1 - i,
{
    if i + pat.len() > hi {
        false
    } else {
        matches_ci_at(s, pat, i) || contains_ci(s, pat, i + 1, hi)
    }
}

/// Whether `[la, lb)` begins with `pat`.
pub open spec fn starts_with(s: Seq<char>, pat: Seq<char>, la: int, lb: int) -> bool {
    la + pat.len() <= lb && s.subrange(la, la + pat.len()) == pat
}

/// Whether `[la, lb)` equals `pat`, ignoring ASCII case.
pub open spec fn eq_ci(s: Seq<char>, pat: Seq<char>, la: int, lb: int) -> bool {
    lb - la == pat.len() && matches_ci_at(s, pat, la)
}

fn lower_code_x(c: char) -> (r: u32)
    ensures
        r as int == lower_code(c),
{
    if 'A' <= c && c <= 'Z' { (c as u32) + 32 } else { c as u32 }
}

pub fn matches_ci_at_x(s: &str, pat: &str, i: usize, hi: usize) -> (r: bool)
    requires
        i + pat@.len() <= hi <= s@.len(),
    ensures
        r == matches_ci_at(s@, pat@, i as int),
{
    let n = pat.unicode_len();
    let mut j: usize = 0;
    while j < n
        invariant
            n == pat@.len(),
            i + n <= hi <= s@.len(),
            0 <= j <= n,
            forall|k: int| 0 <= k < j ==> lower_code(#[trigger] s@[i + k]) == lower_code(pat@[k]),
        decreases n - j,
    {
        if lower_code_x(s.get_char(i + j)) != lower_code_x(pat.get_char(j)) {
            return false;
        }
        j = j + 1;
    }
    true
}

pub fn contains_ci_x(s: &str, pat: &str, i: usize, hi: usize) -> (r: bool)
    requires
        i <= hi <= s@.len(),
    ensures
        r == contains_ci(s@, pat@, i as int, hi as int),
{
    let n = pat.unicode_len();
    if n > hi {
        return false;
    }
    if n == 0 {
        return true;
    }
    let mut k = i;
    while k <= hi - n
        invariant
            n == pat@.len(),
            1 <= n <= hi,
            i <= k,
            hi <= s@.len(),
            contains_ci(s@, pat@, i as int, hi as int) == contains_ci(s@, pat@, k as int, hi as int),
        decreases hi + 1 - k,
    {
        if matches_ci_at_x(s, pat, k, hi) {
            return true;
        }
        k = k + 1;
    }
    false
}

pub fn starts_with_x(s: &str, pat: &str, la: usize, lb: usize) -> (r: bool)
    requires
        la <= lb <= s@.len(),
    ensures
        r == starts_with(s@, pat@, la as int, lb as int),
{
    let n = pat.unicode_len();
    if n > lb - la {
        return false;
    }
    let mut j: usize = 0;
    while j < n
        invariant
            n == pat@.len(),
            la + n <= lb <= s@.len(),
            0 <= j <= n,
            forall|k: int| 0 <= k < j ==> s@[la + k] == pat@[k],
        decreases n - j,
    {
        if s.get_char(la + j) != pat.get_char(j) {
            assert(s@.subrange(la as int, la + pat@.len())[j as int] != pat@[j as int]);
            return false;
        }
        j = j + 1;
    }
    assert(s@.subrange(la as int, la + pat@.len()) =~= pat@);
    true
}

pub fn eq_ci_x(s: &str, pat: &str, la: usize, lb: usize) -> (r: bool)
    requires
        la <= lb <= s@.len(),
    ensures
        r == eq_ci(s@, pat@, la as int, lb as int),
{
    lb - la == pat.unicode_len() && matches_ci_at_x(s, pat, la, lb)
}

/// First index in `[i, hi)` where `pat` occurs, ignoring ASCII case.
pub open spec fn find_ci(s: Seq<char>, pat: Seq<char>, i: int, hi: int) -> Option<int>
    decreases hi + 1 - i,
{
    if i + pat.len() > hi {
        None
    } else if matches_ci_at(s, pat, i) {
        Some(i)
    } else {
        find_ci(s, pat, i + 1, hi)
    }
}

pub proof fn lemma_find_ci_bounds(s: Seq<char>, pat: Seq<char>, i: int, hi: int)
    ensures
        find_ci(s, pat, i, hi) matches Some(k) ==> i <= k && k + pat.len() <= hi,
    decreases hi + 1 - i,
{
    if i + pat.len() <= hi && !matches_ci_at(s, pat, i) {
        lemma_find_ci_bounds(s, pat, i + 1, hi);
    }
}

pub fn find_ci_x(s: &str, pat: &str, i: usize, hi: usize) -> (r: Option<usize>)
    requires
        i <= hi <= s@.len(),
    ensures
        match r {
            Some(k) => find_ci(s@, pat@, i as int, hi as int) == Some(k as int),
            None => find_ci(s@, pat@, i as int, hi as int) is None,
        },
{
    let n = pat.unicode_len();
    if n > hi {
        return None;
    }
    if n == 0 {
        return Some(i);
    }
    let mut k = i;
    while k <= hi - n
        invariant
            n == pat@.len(),
            1 <= n <= hi,
            i <= k,
            hi <= s@.len(),
            find_ci(s@, pat@, i as int, hi as int) == find_ci(s@, pat@, k as int, hi as int),
        decreases hi + 1 - k,
    {
        if matches_ci_at_x(s, pat, k, hi) {
            return Some(k);
        }
        k = k + 1;
    }
    None
}

pub fn digit_char(c: char) -> (r: bool)
    ensures
        r == is_digit(c),
{
    '0' <= c && c <= '9'
}

/// First index in `[i, hi)` holding a digit, or `hi`.
pub open spec fn find_digit(s: Seq<char>, i: int, hi: int) -> int
    decreases hi - i,
{
    if i < hi && !is_digit(s[i]) { find_digit(s, i + 1, hi) } else { i }
}

/// End of the run of digits that starts at `a` within `[a, hi)`.
pub open spec fn digit_run_end(s: Seq<char>, a: int, hi: int) -> int
    decreases hi - a,
{
    if a < hi && is_digit(s[a]) { digit_run_end(s, a + 1, hi) } else { a }
}

pub fn find_digit_x(s: &str, i: usize, hi: usize) -> (r: usize)
    requires
        i <= hi <= s@.len(),
    ensures
        r == find_digit(s@, i as int, hi as int),
        i <= r <= hi,
        r < hi ==> is_digit(s@[r as int]),
{
    let mut k = i;
    while k < hi && !digit_char(s.get_char(k))
        invariant
            i <= k <= hi <= s@.len(),
            find_digit(s@, i as int, hi as int) == find_digit(s@, k as int, hi as int),
        decreases hi - k,
    {
        k = k + 1;
    }
    k
}

pub fn digit_run_end_x(s: &str, a: usize, hi: usize) -> (r: usize)
    requires
        a <= hi <= s@.len(),
    ensures
        r == digit_run_end(s@, a as int, hi as int),
        a <= r <= hi,
        all_digits(s@, a as int, r as int),
        a < hi && is_digit(s@[a as int]) ==> a < r,
{
    let mut k = a;
    while k < hi && digit_char(s.get_char(k))
        invariant
            a <= k <= hi <= s@.len(),
            digit_run_end(s@, a as int, hi as int) == digit_run_end(s@, k as int, hi as int),
            all_digits(s@, a as int, k as int),
        decreases hi - k,
    {
        k = k + 1;
    }
    k
}

} // verus!
