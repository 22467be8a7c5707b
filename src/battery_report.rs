//! Reading the hardware tool's power and charge-limit reports.
use vstd::prelude::*;
use vstd::string::StrSliceExecFns;
use crate::text::{
    back_ws, back_ws_x, contains_ci, contains_ci_x, digit_run_end, digit_run_end_x, eq_ci, eq_ci_x, find_char_x, find_ci,
    find_ci_x, find_digit, find_digit_x, find_str, find_str_x, lemma_find_ci_bounds, lemma_find_str_bounds, lines_from,
    parse_digits, parse_digits_x, parse_nat, parse_nat_x, skip_ws, skip_ws_x, starts_with, starts_with_x,
};
use crate::tokens::{first_token, first_token_x, lemma_first_token_bounds, token_value, token_value_x, TokenRule};

verus! {

/// The charge limits reported, in percent.
#[derive(Clone, Copy, Debug, PartialEq, Eq, Structural)]
pub struct BatteryChargeLimitInfo {
    pub charge_limit_min_pct: Option<u8>,
    pub charge_limit_max_pct: Option<u8>,
}

/// The first run of digits in `[i, hi)` directly followed by `%`.
pub open spec fn percent_number(s: Seq<char>, i: int, hi: int) -> Option<(int, int)>
    decreases hi + 1 - i,
{
    let a = find_digit(s, i, hi);
    if a >= hi || a < i {
        None
    } else {
        let b = digit_run_end(s, a, hi);
        if b < hi && s[b] == '%' {
            Some((a, b))
        } else if b <= i || b > hi {
            None
        } else {
            percent_number(s, b, hi)
        }
    }
}

/// The first run of digits in `[i, hi)`.
pub open spec fn first_number(s: Seq<char>, i: int, hi: int) -> Option<(int, int)> {
    let a = find_digit(s, i, hi);
    if a >= hi || a < i { None } else { Some((a, digit_run_end(s, a, hi))) }
}

/// A limit on the trimmed line `[la, lb)`: where the line names `word`
/// (ignoring case), the first number followed by `%` after the word gives the
/// value if it fits a `u8`, else the value stays. With no such number, the
/// first number after the word sets the value, or clears it if it does not fit
/// a `u8`; with no number at all the value stays.
pub open spec fn limit_update(s: Seq<char>, la: int, lb: int, word: Seq<char>, cur: Option<u8>) -> Option<u8> {
    match find_ci(s, word, la, lb) {
        None => cur,
        Some(p) => {
            let start = p + word.len();
            match percent_number(s, start, lb) {
                Some((a, b)) => match parse_digits(s, a, b, 0xff) {
                    Some(v) => Some(v as u8),
                    None => cur,
                },
                None => match first_number(s, start, lb) {
                    Some((a, b)) => match parse_digits(s, a, b, 0xff) {
                        Some(v) => Some(v as u8),
                        None => None,
                    },
                    None => cur,
                },
            }
        },
    }
}

/// The limits read from the lines `ls` of `s`.
pub open spec fn charge_fold(s: Seq<char>, ls: Seq<(int, int)>) -> BatteryChargeLimitInfo
    decreases ls.len(),
{
    if ls.len() == 0 {
        BatteryChargeLimitInfo { charge_limit_min_pct: None, charge_limit_max_pct: None }
    } else {
        let m = charge_fold(s, ls.drop_last());
        let (lo, hi) = ls.last();
        let la = skip_ws(s, lo, hi);
        let lb = back_ws(s, la, hi);
        BatteryChargeLimitInfo {
            charge_limit_min_pct: limit_update(s, la, lb, "minimum"@, m.charge_limit_min_pct),
            charge_limit_max_pct: limit_update(s, la, lb, "maximum"@, m.charge_limit_max_pct),
        }
    }
}

/// What the charge-limit report `s` says.
pub open spec fn charge_limit_of(s: Seq<char>) -> BatteryChargeLimitInfo {
    charge_fold(s, lines_from(s, 0))
}

fn percent_number_x(s: &str, i: usize, hi: usize) -> (r: Option<(usize, usize)>)
    requires
        i <= hi <= s@.len(),
    ensures
        match r {
            Some((a, b)) => percent_number(s@, i as int, hi as int) == Some((a as int, b as int)) && i <= a <= b <= hi,
            None => percent_number(s@, i as int, hi as int) is None,
        },
{
    let mut k = i;
    while k < hi
        invariant
            i <= k <= hi <= s@.len(),
            percent_number(s@, i as int, hi as int) == percent_number(s@, k as int, hi as int),
        decreases hi - k,
    {
        let a = find_digit_x(s, k, hi);
        if a >= hi {
            return None;
        }
        let b = digit_run_end_x(s, a, hi);
        if b < hi && s.get_char(b) == '%' {
            return Some((a, b));
        }
        k = b;
    }
    None
}

fn limit_update_x(s: &str, la: usize, lb: usize, word: &str, cur: Option<u8>) -> (r: Option<u8>)
    requires
        la <= lb <= s@.len(),
    ensures
        r == limit_update(s@, la as int, lb as int, word@, cur),
{
    let p = match find_ci_x(s, word, la, lb) {
        None => return cur,
        Some(p) => p,
    };
    proof {
        lemma_find_ci_bounds(s@, word@, la as int, lb as int);
    }
    let start = p + word.unicode_len();
    match percent_number_x(s, start, lb) {
        Some((a, b)) => match parse_digits_x(s, a, b, 0xff) {
            Some(v) => Some(v as u8),
            None => cur,
        },
        None => {
            let a = find_digit_x(s, start, lb);
            if a >= lb {
                return cur;
            }
            let b = digit_run_end_x(s, a, lb);
            match parse_digits_x(s, a, b, 0xff) {
                Some(v) => Some(v as u8),
                None => None,
            }
        },
    }
}

/// Read the charge-limit report (`Minimum 0%, Maximum 80%`, on one line or
/// two).
pub fn parse_charge_limit(stdout: &str) -> (r: BatteryChargeLimitInfo)
    ensures
        r == charge_limit_of(stdout@),
{
    let s = stdout;
    let n = s.unicode_len();
    let mut info = BatteryChargeLimitInfo { charge_limit_min_pct: None, charge_limit_max_pct: None };
    let mut pos: usize = 0;
    let ghost mut done: Seq<(int, int)> = seq![];
    while pos < n
        invariant
            n == s@.len(),
            pos <= n,
            lines_from(s@, 0) == done + lines_from(s@, pos as int),
            info == charge_fold(s@, done),
        decreases n - pos,
    {
        let e = find_char_x(s, '\n', pos, n);
        let hi = if e > pos && e < n && s.get_char(e - 1) == '\r' { e - 1 } else { e };
        let la = skip_ws_x(s, pos, hi);
        let lb = back_ws_x(s, la, hi);
        let ghost line = (pos as int, hi as int);
        proof {
            assert(lines_from(s@, pos as int) == seq![line] + lines_from(s@, e + 1));
            assert(done.push(line).drop_last() == done);
        }
        info = BatteryChargeLimitInfo {
            charge_limit_min_pct: limit_update_x(s, la, lb, "minimum", info.charge_limit_min_pct),
            charge_limit_max_pct: limit_update_x(s, la, lb, "maximum", info.charge_limit_max_pct),
        };
        proof {
            assert(lines_from(s@, 0) == done.push(line) + lines_from(s@, e + 1));
            done = done.push(line);
        }
        if e >= n {
            pos = n;
        } else {
            pos = e + 1;
        }
    }
    assert(done + lines_from(s@, pos as int) == done);
    info
}

/// The battery report together with the charge limits.
#[derive(Clone, Copy, Debug, PartialEq, Eq, Structural)]
pub struct BatteryInfo {
    pub power_info: PowerBatteryInfo,
    pub limits: BatteryChargeLimitInfo,
}

/// The battery and charger report. Voltages are in millivolts.
#[derive(Clone, Copy, Debug, PartialEq, Eq, Structural)]
pub struct PowerBatteryInfo {
    pub ac_present: Option<bool>,
    pub battery_present: Option<bool>,
    pub last_full_charge_capacity_mah: Option<u32>,
    pub remaining_capacity_mah: Option<u32>,
    pub percentage: Option<u32>,
    pub soc_pct: Option<u32>,
    pub present_voltage_mv: Option<u32>,
    pub present_rate_ma: Option<u32>,
    pub charger_voltage_mv: Option<u32>,
    pub charger_current_ma: Option<u32>,
    pub charge_input_current_ma: Option<u32>,
    pub design_capacity_mah: Option<u32>,
    pub design_voltage_mv: Option<u32>,
    pub cycle_count: Option<u32>,
    pub charging: Option<bool>,
    pub discharging: Option<bool>,
}

/// A report with nothing read.
pub open spec fn empty_power_info() -> PowerBatteryInfo {
    PowerBatteryInfo {
        ac_present: None,
        battery_present: None,
        last_full_charge_capacity_mah: None,
        remaining_capacity_mah: None,
        percentage: None,
        soc_pct: None,
        present_voltage_mv: None,
        present_rate_ma: None,
        charger_voltage_mv: None,
        charger_current_ma: None,
        charge_input_current_ma: None,
        design_capacity_mah: None,
        design_voltage_mv: None,
        cycle_count: None,
        charging: None,
        discharging: None,
    }
}

/// Number of labelled numeric fields.
pub const N_FIELDS: usize = 11;

/// The label of numeric field `i`, in the order lines are tried.
pub open spec fn field_label(i: int) -> Seq<char> {
    if i == 0 {
        "Battery LFCC:"@
    } else if i == 1 {
        "Battery Capacity:"@
    } else if i == 2 {
        "Charge level:"@
    } else if i == 3 {
        "Battery SoC:"@
    } else if i == 4 {
        "Present Voltage:"@
    } else if i == 5 {
        "Charger Voltage:"@
    } else if i == 6 {
        "Present Rate:"@
    } else if i == 7 {
        "Charger Current:"@
    } else if i == 8 {
        "Chg Input Current:"@
    } else if i == 9 {
        "Design Capacity:"@
    } else {
        "Design Voltage:"@
    }
}

/// The token shape of numeric field `i`.
pub open spec fn field_rule(i: int) -> TokenRule {
    if i == 2 || i == 3 {
        TokenRule::DigitsPercent
    } else if i == 4 || i == 10 {
        TokenRule::Decimal
    } else if i == 5 {
        TokenRule::DigitsUnit('m', 'V')
    } else if i == 7 || i == 8 {
        TokenRule::DigitsUnit('m', 'A')
    } else {
        TokenRule::Digits
    }
}

/// `m` with numeric field `i` set to `v`.
pub open spec fn set_field(m: PowerBatteryInfo, i: int, v: Option<u32>) -> PowerBatteryInfo {
    if i == 0 {
        PowerBatteryInfo { last_full_charge_capacity_mah: v, ..m }
    } else if i == 1 {
        PowerBatteryInfo { remaining_capacity_mah: v, ..m }
    } else if i == 2 {
        PowerBatteryInfo { percentage: v, ..m }
    } else if i == 3 {
        PowerBatteryInfo { soc_pct: v, ..m }
    } else if i == 4 {
        PowerBatteryInfo { present_voltage_mv: v, ..m }
    } else if i == 5 {
        PowerBatteryInfo { charger_voltage_mv: v, ..m }
    } else if i == 6 {
        PowerBatteryInfo { present_rate_ma: v, ..m }
    } else if i == 7 {
        PowerBatteryInfo { charger_current_ma: v, ..m }
    } else if i == 8 {
        PowerBatteryInfo { charge_input_current_ma: v, ..m }
    } else if i == 9 {
        PowerBatteryInfo { design_capacity_mah: v, ..m }
    } else {
        PowerBatteryInfo { design_voltage_mv: v, ..m }
    }
}

/// What a labelled line gives: the label is absent, or present with no token of
/// the field's shape, or present with such a token and what it reads as.
pub enum LabelRead {
    Absent,
    NoToken,
    Read(Option<int>),
}

/// Look for the label of field `i` in `[la, lb)` and read the first fitting
/// token after it.
pub open spec fn label_read(s: Seq<char>, la: int, lb: int, i: int) -> LabelRead {
    match find_str(s, field_label(i), la, lb) {
        None => LabelRead::Absent,
        Some(p) => match first_token(s, p + field_label(i).len(), lb, field_rule(i)) {
            None => LabelRead::NoToken,
            Some((a, b)) => LabelRead::Read(token_value(s, a, b, field_rule(i))),
        },
    }
}

/// Whether a presence line reads as connected: it mentions `connected` and not
/// `not connected`, ignoring case.
pub open spec fn connected(s: Seq<char>, la: int, lb: int) -> bool {
    contains_ci(s, "connected"@, la, lb) && !contains_ci(s, "not connected"@, la, lb)
}

/// The trimmed line `[la, lb)` applied to `m` through the labelled fields from
/// `i` on, then the cycle count and the charging flags. The first field whose
/// label occurs decides the line: a token that reads sets the field, one that
/// does not clears it (the decimal voltages keep their value instead), and no
/// fitting token leaves the report as it was.
pub open spec fn fields_from(s: Seq<char>, la: int, lb: int, m: PowerBatteryInfo, i: int) -> PowerBatteryInfo
    decreases N_FIELDS - i,
{
    if i < 0 {
        m
    } else if i < N_FIELDS {
        match label_read(s, la, lb, i) {
            LabelRead::Absent => fields_from(s, la, lb, m, i + 1),
            LabelRead::NoToken => m,
            LabelRead::Read(v) => match v {
                Some(x) => set_field(m, i, Some(x as u32)),
                None => if field_rule(i) == TokenRule::Decimal { m } else { set_field(m, i, None) },
            },
        }
    } else if starts_with(s, "Cycle Count:"@, la, lb) {
        match first_token(s, la, lb, TokenRule::Digits) {
            Some((a, b)) => PowerBatteryInfo {
                cycle_count: match parse_nat(s, a, b, 0xffff_ffff) {
                    Some(x) => Some(x as u32),
                    None => None,
                },
                ..m
            },
            None => m,
        }
    } else if eq_ci(s, "Battery charging"@, la, lb) {
        PowerBatteryInfo { charging: Some(true), ..m }
    } else if eq_ci(s, "Battery discharging"@, la, lb) {
        PowerBatteryInfo { discharging: Some(true), ..m }
    } else {
        m
    }
}

/// One line `[lo, hi)` of the power report applied to `m`.
pub open spec fn power_line(s: Seq<char>, lo: int, hi: int, m: PowerBatteryInfo) -> PowerBatteryInfo {
    let la = skip_ws(s, lo, hi);
    let lb = back_ws(s, la, hi);
    if starts_with(s, "AC is:"@, la, lb) {
        PowerBatteryInfo { ac_present: Some(connected(s, la, lb)), ..m }
    } else if starts_with(s, "Battery is:"@, la, lb) {
        PowerBatteryInfo { battery_present: Some(connected(s, la, lb)), ..m }
    } else {
        fields_from(s, la, lb, m, 0)
    }
}

/// The report read from the lines `ls` of `s`.
pub open spec fn power_fold(s: Seq<char>, ls: Seq<(int, int)>) -> PowerBatteryInfo
    decreases ls.len(),
{
    if ls.len() == 0 {
        empty_power_info()
    } else {
        power_line(s, ls.last().0, ls.last().1, power_fold(s, ls.drop_last()))
    }
}

/// What the power report `s` says.
pub open spec fn power_info_of(s: Seq<char>) -> PowerBatteryInfo {
    power_fold(s, lines_from(s, 0))
}

fn field_label_x(i: usize) -> (r: &'static str)
    requires
        i < N_FIELDS,
    ensures
        r@ == field_label(i as int),
{
    if i == 0 {
        "Battery LFCC:"
    } else if i == 1 {
        "Battery Capacity:"
    } else if i == 2 {
        "Charge level:"
    } else if i == 3 {
        "Battery SoC:"
    } else if i == 4 {
        "Present Voltage:"
    } else if i == 5 {
        "Charger Voltage:"
    } else if i == 6 {
        "Present Rate:"
    } else if i == 7 {
        "Charger Current:"
    } else if i == 8 {
        "Chg Input Current:"
    } else if i == 9 {
        "Design Capacity:"
    } else {
        "Design Voltage:"
    }
}

fn field_rule_x(i: usize) -> (r: TokenRule)
    ensures
        r == field_rule(i as int),
{
    if i == 2 || i == 3 {
        TokenRule::DigitsPercent
    } else if i == 4 || i == 10 {
        TokenRule::Decimal
    } else if i == 5 {
        TokenRule::DigitsUnit('m', 'V')
    } else if i == 7 || i == 8 {
        TokenRule::DigitsUnit('m', 'A')
    } else {
        TokenRule::Digits
    }
}

fn set_field_x(m: &mut PowerBatteryInfo, i: usize, v: Option<u32>)
    ensures
        *final(m) == set_field(*old(m), i as int, v),
{
    if i == 0 {
        m.last_full_charge_capacity_mah = v;
    } else if i == 1 {
        m.remaining_capacity_mah = v;
    } else if i == 2 {
        m.percentage = v;
    } else if i == 3 {
        m.soc_pct = v;
    } else if i == 4 {
        m.present_voltage_mv = v;
    } else if i == 5 {
        m.charger_voltage_mv = v;
    } else if i == 6 {
        m.present_rate_ma = v;
    } else if i == 7 {
        m.charger_current_ma = v;
    } else if i == 8 {
        m.charge_input_current_ma = v;
    } else if i == 9 {
        m.design_capacity_mah = v;
    } else {
        m.design_voltage_mv = v;
    }
}

fn connected_x(s: &str, la: usize, lb: usize) -> (r: bool)
    requires
        la <= lb <= s@.len(),
    ensures
        r == connected(s@, la as int, lb as int),
{
    contains_ci_x(s, "connected", la, lb) && !contains_ci_x(s, "not connected", la, lb)
}

fn power_line_x(s: &str, lo: usize, hi: usize, m: &mut PowerBatteryInfo)
    requires
        lo <= hi <= s@.len(),
    ensures
        *final(m) == power_line(s@, lo as int, hi as int, *old(m)),
{
    let la = skip_ws_x(s, lo, hi);
    let lb = back_ws_x(s, la, hi);
    if starts_with_x(s, "AC is:", la, lb) {
        m.ac_present = Some(connected_x(s, la, lb));
        return;
    }
    if starts_with_x(s, "Battery is:", la, lb) {
        m.battery_present = Some(connected_x(s, la, lb));
        return;
    }
    let mut i: usize = 0;
    while i < N_FIELDS
        invariant
            la <= lb <= s@.len(),
            i <= N_FIELDS,
            *m == *old(m),
            power_line(s@, lo as int, hi as int, *old(m)) == fields_from(s@, la as int, lb as int, *old(m), 0),
            fields_from(s@, la as int, lb as int, *old(m), 0) == fields_from(s@, la as int, lb as int, *old(m), i as int),
        decreases N_FIELDS - i,
    {
        let label = field_label_x(i);
        let rule = field_rule_x(i);
        if let Some(p) = find_str_x(s, label, la, lb) {
            proof {
                lemma_find_str_bounds(s@, label@, la as int, lb as int);
            }
            match first_token_x(s, p + label.unicode_len(), lb, rule) {
                None => return,
                Some((a, b)) => {
                    proof {
                        lemma_first_token_bounds(s@, p + label@.len(), lb as int, rule);
                    }
                    match token_value_x(s, a, b, rule) {
                        Some(x) => set_field_x(m, i, Some(x)),
                        None => {
                            if rule != TokenRule::Decimal {
                                set_field_x(m, i, None);
                            }
                        },
                    }
                    return;
                },
            }
        }
        i = i + 1;
    }
    if starts_with_x(s, "Cycle Count:", la, lb) {
        if let Some((a, b)) = first_token_x(s, la, lb, TokenRule::Digits) {
            proof {
                lemma_first_token_bounds(s@, la as int, lb as int, TokenRule::Digits);
            }
            m.cycle_count = match parse_nat_x(s, a, b, 0xffff_ffff) {
                Some(x) => Some(x as u32),
                None => None,
            };
        }
    } else if eq_ci_x(s, "Battery charging", la, lb) {
        m.charging = Some(true);
    } else if eq_ci_x(s, "Battery discharging", la, lb) {
        m.discharging = Some(true);
    }
}

/// Read the battery and charger report printed by the hardware tool.
pub fn parse_power(stdout: &str) -> (r: PowerBatteryInfo)
    ensures
        r == power_info_of(stdout@),
{
    let s = stdout;
    let n = s.unicode_len();
    let mut info = PowerBatteryInfo {
        ac_present: None,
        battery_present: None,
        last_full_charge_capacity_mah: None,
        remaining_capacity_mah: None,
        percentage: None,
        soc_pct: None,
        present_voltage_mv: None,
        present_rate_ma: None,
        charger_voltage_mv: None,
        charger_current_ma: None,
        charge_input_current_ma: None,
        design_capacity_mah: None,
        design_voltage_mv: None,
        cycle_count: None,
        charging: None,
        discharging: None,
    };
    let mut pos: usize = 0;
    let ghost mut done: Seq<(int, int)> = seq![];
    while pos < n
        invariant
            n == s@.len(),
            pos <= n,
            lines_from(s@, 0) == done + lines_from(s@, pos as int),
            info == power_fold(s@, done),
        decreases n - pos,
    {
        let e = find_char_x(s, '\n', pos, n);
        let hi = if e > pos && e < n && s.get_char(e - 1) == '\r' { e - 1 } else { e };
        let ghost line = (pos as int, hi as int);
        proof {
            assert(lines_from(s@, pos as int) == seq![line] + lines_from(s@, e + 1));
            assert(done.push(line).drop_last() == done);
        }
        power_line_x(s, pos, hi, &mut info);
        proof {
            assert(lines_from(s@, 0) == done.push(line) + lines_from(s@, e + 1));
            done = done.push(line);
        }
        if e >= n {
            pos = n;
        } else {
            pos = e + 1;
        }
    }
    assert(done + lines_from(s@, pos as int) == done);
    info
}

} // verus!
