//! Reading the hardware tool's thermal report: temperatures by sensor name
//! (`name: 45 C`) and fan speeds (`Fan Speed: 3171 RPM`).
use vstd::prelude::*;
use vstd::string::StrSliceExecFns;
use crate::readings::{get_reading, keys_unique, pairs_map, set_reading};
use crate::text::{
    back_non_ws, back_non_ws_x, back_ws, back_ws_x, eq_ci, eq_ci_x, find_char, find_char_x, find_str, find_str_x,
    lemma_find_str_bounds, lemma_rfind_char_bounds, lines_from, parse_i32, parse_i32_x, parse_nat, parse_nat_x,
    rfind_char, rfind_char_x, skip_ws, skip_ws_x,
};
use crate::tokens::{first_token, first_token_x, lemma_first_token_bounds, TokenRule};

verus! {

/// Temperatures by sensor name, in °C, and the fan speeds above zero, in RPM,
/// in the order reported.
#[derive(Clone, Debug)]
pub struct ThermalParsed {
    pub temps: Vec<(String, i32)>,
    pub rpms: Vec<u32>,
}

/// The mathematical value of a thermal report.
pub struct ThermalModel {
    pub temps: Map<Seq<char>, i32>,
    pub rpms: Seq<u32>,
}

impl View for ThermalParsed {
    type V = ThermalModel;

    open spec fn view(&self) -> ThermalModel {
        ThermalModel { temps: pairs_map(self.temps@), rpms: self.rpms@ }
    }
}

/// What one line of the report says.
pub enum ThermalLine {
    Temp(Seq<char>, i32),
    Rpm(u32),
    Other,
}

/// A temperature line `name: ... <n> C`: the text before the first colon,
/// trimmed, names the sensor; the value is the last token before the last `C`
/// after the colon, read as an `i32`.
pub open spec fn temp_of_line(s: Seq<char>, la: int, lb: int) -> Option<(Seq<char>, i32)> {
    let colon = find_char(s, ':', la, lb);
    if colon < lb {
        let ka = skip_ws(s, la, colon);
        let kb = back_ws(s, ka, colon);
        match rfind_char(s, 'C', colon + 1, lb) {
            Some(cp) => {
                let te = back_ws(s, colon + 1, cp);
                let ts = back_non_ws(s, colon + 1, te);
                if ts < te {
                    match parse_i32(s, ts, te) {
                        Some(v) => Some((s.subrange(ka, kb), v as i32)),
                        None => None,
                    }
                } else {
                    None
                }
            },
            None => None,
        }
    } else {
        None
    }
}

/// A fan line: after `Fan Speed:`, the first all-digit token, if above zero.
pub open spec fn rpm_of_line(s: Seq<char>, la: int, lb: int) -> Option<u32> {
    match find_str(s, "Fan Speed:"@, la, lb) {
        Some(p) => match first_token(s, p + "Fan Speed:"@.len(), lb, TokenRule::Digits) {
            Some((a, b)) => match parse_nat(s, a, b, 0xffff_ffff) {
                Some(v) => if v > 0 { Some(v as u32) } else { None },
                None => None,
            },
            None => None,
        },
        None => None,
    }
}

/// The line `[lo, hi)` of `s`, trimmed, read as a temperature, else as a fan
/// speed.
pub open spec fn thermal_line(s: Seq<char>, lo: int, hi: int) -> ThermalLine {
    let la = skip_ws(s, lo, hi);
    let lb = back_ws(s, la, hi);
    match temp_of_line(s, la, lb) {
        Some((k, v)) => ThermalLine::Temp(k, v),
        None => match rpm_of_line(s, la, lb) {
            Some(v) => ThermalLine::Rpm(v),
            None => ThermalLine::Other,
        },
    }
}

/// The report read from the lines `ls` of `s`: a later temperature for a
/// sensor replaces an earlier one; fan speeds are kept in order.
pub open spec fn thermal_fold(s: Seq<char>, ls: Seq<(int, int)>) -> ThermalModel
    decreases ls.len(),
{
    if ls.len() == 0 {
        ThermalModel { temps: Map::empty(), rpms: seq![] }
    } else {
        let m = thermal_fold(s, ls.drop_last());
        match thermal_line(s, ls.last().0, ls.last().1) {
            ThermalLine::Temp(k, v) => ThermalModel { temps: m.temps.insert(k, v), rpms: m.rpms },
            ThermalLine::Rpm(v) => ThermalModel { temps: m.temps, rpms: m.rpms.push(v) },
            ThermalLine::Other => m,
        }
    }
}

/// What the thermal report `s` says.
pub open spec fn thermal_of(s: Seq<char>) -> ThermalModel {
    thermal_fold(s, lines_from(s, 0))
}

fn temp_of_line_x(s: &str, la: usize, lb: usize) -> (r: Option<(String, i32)>)
    requires
        la <= lb <= s@.len(),
    ensures
        match r {
            Some((k, v)) => temp_of_line(s@, la as int, lb as int) == Some((k@, v)),
            None => temp_of_line(s@, la as int, lb as int) is None,
        },
{
    let colon = find_char_x(s, ':', la, lb);
    if colon >= lb {
        return None;
    }
    let ka = skip_ws_x(s, la, colon);
    let kb = back_ws_x(s, ka, colon);
    let cp = match rfind_char_x(s, 'C', colon + 1, lb) {
        Some(cp) => cp,
        None => return None,
    };
    proof {
        lemma_rfind_char_bounds(s@, 'C', colon + 1, lb as int);
    }
    let te = back_ws_x(s, colon + 1, cp);
    let ts = back_non_ws_x(s, colon + 1, te);
    if ts >= te {
        return None;
    }
    match parse_i32_x(s, ts, te) {
        Some(v) => {
            let key = String::from_str(s.substring_char(ka, kb));
            Some((key, v))
        },
        None => None,
    }
}

fn rpm_of_line_x(s: &str, la: usize, lb: usize) -> (r: Option<u32>)
    requires
        la <= lb <= s@.len(),
    ensures
        match r {
            Some(v) => rpm_of_line(s@, la as int, lb as int) == Some(v),
            None => rpm_of_line(s@, la as int, lb as int) is None,
        },
{
    let label = "Fan Speed:";
    let p = match find_str_x(s, label, la, lb) {
        Some(p) => p,
        None => return None,
    };
    proof {
        lemma_find_str_bounds(s@, label@, la as int, lb as int);
    }
    let (a, b) = match first_token_x(s, p + label.unicode_len(), lb, TokenRule::Digits) {
        Some(t) => t,
        None => return None,
    };
    proof {
        lemma_first_token_bounds(s@, p + label@.len(), lb as int, TokenRule::Digits);
    }
    match parse_nat_x(s, a, b, 0xffff_ffff) {
        Some(v) => if v > 0 { Some(v as u32) } else { None },
        None => None,
    }
}

/// Read the thermal report printed by the hardware tool.
pub fn parse_thermal(stdout: &str) -> (r: ThermalParsed)
    ensures
        r@ == thermal_of(stdout@),
        keys_unique(r.temps@),
{
    let s = stdout;
    let n = s.unicode_len();
    let mut temps: Vec<(String, i32)> = Vec::new();
    let mut rpms: Vec<u32> = Vec::new();
    let mut pos: usize = 0;
    let ghost mut done: Seq<(int, int)> = seq![];
    while pos < n
        invariant
            n == s@.len(),
            pos <= n,
            lines_from(s@, 0) == done + lines_from(s@, pos as int),
            keys_unique(temps@),
            (ThermalModel { temps: pairs_map(temps@), rpms: rpms@ }) == thermal_fold(s@, done),
        decreases n - pos,
    {
        let e = find_char_x(s, '\n', pos, n);
        let hi = if e > pos && e < n && s.get_char(e - 1) == '\r' { e - 1 } else { e };
        let la = skip_ws_x(s, pos, hi);
        let lb = back_ws_x(s, la, hi);
        let ghost line = (pos as int, hi as int);
        proof {
            assert(lines_from(s@, pos as int) == seq![line] + lines_from(s@, e + 1));
            assert(done.push(line).drop_last() == done);
        }
        match temp_of_line_x(s, la, lb) {
            Some((k, v)) => {
                set_reading(&mut temps, k, v);
            },
            None => {
                if let Some(v) = rpm_of_line_x(s, la, lb) {
                    rpms.push(v);
                }
            },
        }
        proof {
            assert(lines_from(s@, 0) == done.push(line) + lines_from(s@, e + 1));
            done = done.push(line);
        }
        if e >= n {
            pos = n;
        } else {
            pos = e + 1;
        }
    }
    assert(done + lines_from(s@, pos as int) == done);
    ThermalParsed { temps, rpms }
}

/// The first reading, in list order, whose name equals `name` ignoring ASCII case.
pub open spec fn first_ci_match(v: Seq<(String, i32)>, name: Seq<char>, i: int) -> Option<i32>
    decreases v.len() - i,
{
    if i >= v.len() || i < 0 {
        None
    } else if eq_ci(v[i].0@, name, 0, v[i].0@.len() as int) {
        Some(v[i].1)
    } else {
        first_ci_match(v, name, i + 1)
    }
}

/// The temperature of sensor `name`: the exact name if reported, else the
/// first reading whose name matches ignoring ASCII case.
pub open spec fn sensor_temp(v: Seq<(String, i32)>, name: Seq<char>) -> Option<i32> {
    if pairs_map(v).dom().contains(name) { Some(pairs_map(v)[name]) } else { first_ci_match(v, name, 0) }
}

/// The highest temperature among the first `k` of `sensors`, if any reads.
pub open spec fn max_sensor_from(v: Seq<(String, i32)>, sensors: Seq<String>, k: int) -> Option<i32>
    decreases k,
{
    if k <= 0 {
        None
    } else {
        let best = max_sensor_from(v, sensors, k - 1);
        match sensor_temp(v, sensors[k - 1]@) {
            None => best,
            Some(t) => match best {
                None => Some(t),
                Some(b) => Some(if b > t { b } else { t }),
            },
        }
    }
}

fn first_ci_match_x(v: &Vec<(String, i32)>, name: &str) -> (r: Option<i32>)
    ensures
        r == first_ci_match(v@, name@, 0),
{
    let mut i: usize = 0;
    while i < v.len()
        invariant
            0 <= i <= v@.len(),
            first_ci_match(v@, name@, 0) == first_ci_match(v@, name@, i as int),
        decreases v@.len() - i,
    {
        let k = v[i].0.as_str();
        if eq_ci_x(k, name, 0, k.unicode_len()) {
            return Some(v[i].1);
        }
        i = i + 1;
    }
    None
}

/// The highest temperature among the named sensors; a sensor missing under its
/// exact name is looked up ignoring ASCII case. `None` when none is reported.
pub fn max_sensor_temperature(t: &ThermalParsed, sensors: &Vec<String>) -> (r: Option<i32>)
    requires
        keys_unique(t.temps@),
    ensures
        r == max_sensor_from(t.temps@, sensors@, sensors@.len() as int),
{
    let mut best: Option<i32> = None;
    let mut k: usize = 0;
    while k < sensors.len()
        invariant
            0 <= k <= sensors@.len(),
            keys_unique(t.temps@),
            best == max_sensor_from(t.temps@, sensors@, k as int),
        decreases sensors@.len() - k,
    {
        let name = sensors[k].as_str();
        let found = match get_reading(&t.temps, name) {
            Some(v) => Some(v),
            None => first_ci_match_x(&t.temps, name),
        };
        if let Some(v) = found {
            best = match best {
                None => Some(v),
                Some(b) => Some(if b > v { b } else { v }),
            };
        }
        k = k + 1;
    }
    best
}

impl ThermalParsed {
    /// The temperature of sensor `name`, if reported.
    pub fn temp(&self, name: &str) -> (r: Option<i32>)
        requires
            keys_unique(self.temps@),
        ensures
            r == (if self@.temps.dom().contains(name@) { Some(self@.temps[name@]) } else { None }),
    {
        get_reading(&self.temps, name)
    }
}

} // verus!
