//! Reading the vendor power tool's table dump: rows `| NAME | value | param |`
//! whose names give the power limits and the temperature limit.
use vstd::prelude::*;
use vstd::string::StrSliceExecFns;
use crate::text::{
    all_digits, all_digits_x, back_ws, back_ws_x, contains_ci, contains_ci_x, digits_val, find_char, find_char_x, is_digit,
    lemma_digits_val_grows, lines_from, skip_ws, skip_ws_x,
};

verus! {

/// Power limit (W) and temperature limit (°C) read from the table.
#[derive(Clone, Copy, Debug, PartialEq, Eq, Structural)]
pub struct RyzenAdjInfo {
    pub tdp_watts: Option<u32>,
    pub thermal_limit_c: Option<u32>,
}

/// The power status reply: battery details when read, and the vendor tool's
/// presence and limits.
#[derive(Clone, Copy, Debug)]
pub struct PowerResponse {
    pub battery: Option<crate::battery_report::BatteryInfo>,
    pub ryzenadj_installed: bool,
    pub ryzenadj: Option<RyzenAdjInfo>,
}

/// Magnitudes are capped here; any value this large saturates a `u32`.
pub const MAG_CAP: u64 = 0x1_0000_0000;

/// `v` capped at [`MAG_CAP`].
pub open spec fn cap(v: int) -> int {
    if v > MAG_CAP { MAG_CAP as int } else { v }
}

/// The number `[a, b)` (an optional sign, digits, and optionally a dot and
/// more digits) rounded to the nearest integer, halves away from zero, its
/// magnitude capped.
pub open spec fn rounded_number(s: Seq<char>, a: int, b: int) -> Option<int> {
    let signed = a < b && (s[a] == '+' || s[a] == '-');
    let start = if signed { a + 1 } else { a };
    let dot = find_char(s, '.', start, b);
    let int_ok = start < dot && all_digits(s, start, dot);
    let frac_ok = dot == b || (dot + 1 < b && all_digits(s, dot + 1, b));
    if int_ok && frac_ok {
        let up = dot < b && s[dot + 1] >= '5';
        let mag = cap(digits_val(s, start, dot) + (if up { 1int } else { 0int }));
        Some(if signed && s[a] == '-' { -mag } else { mag })
    } else {
        None
    }
}

/// A table row on the trimmed line `[la, lb)`: exactly four `|`, the first at
/// the start and the last at the end, a non-empty first cell, and a number in
/// the second. Gives the name cell, trimmed, and the rounded number.
pub open spec fn table_row(s: Seq<char>, la: int, lb: int) -> Option<(int, int, int)> {
    if la < lb && s[la] == '|' && !(la + 1 < lb && s[la + 1] == '-') {
        let sep1 = find_char(s, '|', la + 1, lb);
        let sep2 = find_char(s, '|', sep1 + 1, lb);
        let sep3 = find_char(s, '|', sep2 + 1, lb);
        if sep1 < lb && sep2 < lb && sep3 == lb - 1 && sep1 > la + 1 {
            let na = skip_ws(s, la + 1, sep1);
            let nb = back_ws(s, na, sep1);
            let va = skip_ws(s, sep1 + 1, sep2);
            let vb = back_ws(s, va, sep2);
            match rounded_number(s, va, vb) {
                Some(v) => Some((na, nb, v)),
                None => None,
            }
        } else {
            None
        }
    } else {
        None
    }
}

/// Whether the row name `[na, nb)` is one of the power limits.
pub open spec fn is_power_limit(s: Seq<char>, na: int, nb: int) -> bool {
    contains_ci(s, "STAPM LIMIT"@, na, nb) || contains_ci(s, "PPT LIMIT FAST"@, na, nb) || contains_ci(
        s,
        "PPT LIMIT SLOW"@,
        na,
        nb,
    )
}

/// Whether the row name `[na, nb)` is the temperature limit.
pub open spec fn is_thermal_limit(s: Seq<char>, na: int, nb: int) -> bool {
    contains_ci(s, "THM LIMIT CORE"@, na, nb) || contains_ci(s, "TCTL"@, na, nb)
}

/// A rounded value as a `u32`, saturating at both ends.
pub open spec fn saturate(v: int) -> u32 {
    if v < 0 { 0 } else if v > 0xffff_ffff { 0xffff_ffff } else { v as u32 }
}

/// Reading state: the lowest power limit so far, and the temperature limit.
pub struct InfoState {
    pub min_limit: Option<int>,
    pub thermal: Option<u32>,
}

pub open spec fn info_line(s: Seq<char>, lo: int, hi: int, st: InfoState) -> InfoState {
    let la = skip_ws(s, lo, hi);
    let lb = back_ws(s, la, hi);
    match table_row(s, la, lb) {
        None => st,
        Some((na, nb, v)) => InfoState {
            min_limit: if is_power_limit(s, na, nb) {
                match st.min_limit {
                    Some(m) => Some(if v < m { v } else { m }),
                    None => Some(v),
                }
            } else {
                st.min_limit
            },
            thermal: if is_thermal_limit(s, na, nb) { Some(saturate(v)) } else { st.thermal },
        },
    }
}

pub open spec fn info_fold(s: Seq<char>, ls: Seq<(int, int)>) -> InfoState
    decreases ls.len(),
{
    if ls.len() == 0 {
        InfoState { min_limit: None, thermal: None }
    } else {
        info_line(s, ls.last().0, ls.last().1, info_fold(s, ls.drop_last()))
    }
}

/// What the table dump `s` says: the temperature limit from the last row
/// naming it, and the power limit as the lowest of the limit rows, at least 1.
pub open spec fn info_of(s: Seq<char>) -> RyzenAdjInfo {
    let st = info_fold(s, lines_from(s, 0));
    RyzenAdjInfo {
        tdp_watts: match st.min_limit {
            Some(m) => Some(saturate(if m < 1 { 1 } else { m })),
            None => None,
        },
        thermal_limit_c: st.thermal,
    }
}

fn capped_val_x(s: &str, a: usize, b: usize) -> (r: u64)
    requires
        a <= b <= s@.len(),
        all_digits(s@, a as int, b as int),
    ensures
        r as int == cap(digits_val(s@, a as int, b as int)),
{
    let mut v: u64 = 0;
    let mut k = a;
    while k < b
        invariant
            a <= k <= b <= s@.len(),
            all_digits(s@, a as int, b as int),
            v as int == cap(digits_val(s@, a as int, k as int)),
        decreases b - k,
    {
        let c = s.get_char(k);
        assert(is_digit(s@[k as int]));
        let d = (c as u32 - '0' as u32) as u64;
        proof {
            lemma_digits_val_grows(s@, a as int, k as int, k as int);
        }
        let w = v * 10 + d;
        v = if w > MAG_CAP { MAG_CAP } else { w };
        k = k + 1;
    }
    v
}

fn rounded_number_x(s: &str, a: usize, b: usize) -> (r: Option<i64>)
    requires
        a <= b <= s@.len(),
    ensures
        match r {
            Some(v) => rounded_number(s@, a as int, b as int) == Some(v as int) && -(MAG_CAP as int) <= v <= MAG_CAP,
            None => rounded_number(s@, a as int, b as int) is None,
        },
{
    let signed = a < b && (s.get_char(a) == '+' || s.get_char(a) == '-');
    let start = if signed { a + 1 } else { a };
    let dot = find_char_x(s, '.', start, b);
    let int_ok = start < dot && all_digits_x(s, start, dot);
    let frac_ok = dot == b || (dot + 1 < b && all_digits_x(s, dot + 1, b));
    if !(int_ok && frac_ok) {
        return None;
    }
    let up = dot < b && s.get_char(dot + 1) >= '5';
    let base = capped_val_x(s, start, dot);
    let raw = base + if up { 1 } else { 0 };
    let mag: i64 = if raw > MAG_CAP { MAG_CAP as i64 } else { raw as i64 };
    proof {
        lemma_digits_val_grows(s@, start as int, dot as int, dot as int);
    }
    if signed && s.get_char(a) == '-' {
        Some(-mag)
    } else {
        Some(mag)
    }
}

fn table_row_x(s: &str, la: usize, lb: usize) -> (r: Option<(usize, usize, i64)>)
    requires
        la <= lb <= s@.len(),
    ensures
        match r {
            Some((na, nb, v)) => table_row(s@, la as int, lb as int) == Some((na as int, nb as int, v as int)) && na
                <= nb <= lb && -(MAG_CAP as int) <= v <= MAG_CAP,
            None => table_row(s@, la as int, lb as int) is None,
        },
{
    if !(la < lb && s.get_char(la) == '|') {
        return None;
    }
    if la + 1 < lb && s.get_char(la + 1) == '-' {
        return None;
    }
    let sep1 = find_char_x(s, '|', la + 1, lb);
    if sep1 >= lb {
        return None;
    }
    let sep2 = find_char_x(s, '|', sep1 + 1, lb);
    if sep2 >= lb {
        return None;
    }
    let sep3 = find_char_x(s, '|', sep2 + 1, lb);
    if !(sep3 == lb - 1 && sep1 > la + 1) {
        return None;
    }
    let na = skip_ws_x(s, la + 1, sep1);
    let nb = back_ws_x(s, na, sep1);
    let va = skip_ws_x(s, sep1 + 1, sep2);
    let vb = back_ws_x(s, va, sep2);
    match rounded_number_x(s, va, vb) {
        Some(v) => Some((na, nb, v)),
        None => None,
    }
}

/// Read the vendor tool's table dump.
pub fn parse_info(text: &str) -> (r: RyzenAdjInfo)
    ensures
        r == info_of(text@),
{
    let s = text;
    let n = s.unicode_len();
    let mut min_limit: Option<i64> = None;
    let mut thermal: Option<u32> = None;
    let mut pos: usize = 0;
    let ghost mut done: Seq<(int, int)> = seq![];
    while pos < n
        invariant
            n == s@.len(),
            pos <= n,
            lines_from(s@, 0) == done + lines_from(s@, pos as int),
            info_fold(s@, done).thermal == thermal,
            info_fold(s@, done).min_limit == match min_limit {
                Some(m) => Some(m as int),
                None => None::<int>,
            },
            min_limit matches Some(m) ==> -(MAG_CAP as int) <= m <= MAG_CAP,
        decreases n - pos,
    {
        let e = find_char_x(s, '\n', pos, n);
        let hi = if e > pos && e < n && s.get_char(e - 1) == '\r' { e - 1 } else { e };
        let ghost line = (pos as int, hi as int);
        proof {
            assert(lines_from(s@, pos as int) == seq![line] + lines_from(s@, e + 1));
            assert(done.push(line).drop_last() == done);
        }
        let la = skip_ws_x(s, pos, hi);
        let lb = back_ws_x(s, la, hi);
        if let Some((na, nb, v)) = table_row_x(s, la, lb) {
            if contains_ci_x(s, "STAPM LIMIT", na, nb) || contains_ci_x(s, "PPT LIMIT FAST", na, nb) || contains_ci_x(
                s,
                "PPT LIMIT SLOW",
                na,
                nb,
            ) {
                min_limit = match min_limit {
                    Some(m) => Some(if v < m { v } else { m }),
                    None => Some(v),
                };
            }
            if contains_ci_x(s, "THM LIMIT CORE", na, nb) || contains_ci_x(s, "TCTL", na, nb) {
                thermal = Some(if v < 0 { 0 } else if v > 0xffff_ffff { 0xffff_ffff } else { v as u32 });
            }
        }
        proof {
            assert(lines_from(s@, 0) == done.push(line) + lines_from(s@, e + 1));
            done = done.push(line);
        }
        if e >= n {
            pos = n;
        } else {
            pos = e + 1;
        }
    }
    assert(done + lines_from(s@, pos as int) == done);
    let tdp_watts = match min_limit {
        Some(m) => {
            let w = if m < 1 { 1 } else { m };
            Some(if w > 0xffff_ffff { 0xffff_ffff } else { w as u32 })
        },
        None => None,
    };
    RyzenAdjInfo { tdp_watts, thermal_limit_c: thermal }
}

} // verus!
