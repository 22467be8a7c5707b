//! Reading the hardware tool's firmware versions report: section headers at the
//! margin, indented `key: value` lines under them.
use vstd::prelude::*;
use vstd::string::StrSliceExecFns;
use crate::text::{
    back_ws, back_ws_x, eq_ci, eq_ci_x, find_char, find_char_x, lines_from, matches_ci_at, skip_ws, skip_ws_x,
};

verus! {

/// Firmware and board versions.
#[derive(Clone, Debug)]
pub struct VersionsParsed {
    pub mainboard_type: Option<String>,
    pub mainboard_revision: Option<String>,
    pub uefi_version: Option<String>,
    pub uefi_release_date: Option<String>,
    pub ec_build_version: Option<String>,
    pub ec_current_image: Option<String>,
}

/// The mathematical value of a versions report.
pub struct VersionsModel {
    pub mainboard_type: Option<Seq<char>>,
    pub mainboard_revision: Option<Seq<char>>,
    pub uefi_version: Option<Seq<char>>,
    pub uefi_release_date: Option<Seq<char>>,
    pub ec_build_version: Option<Seq<char>>,
    pub ec_current_image: Option<Seq<char>>,
}

pub open spec fn opt_view(s: Option<String>) -> Option<Seq<char>> {
    match s {
        Some(v) => Some(v@),
        None => None,
    }
}

impl View for VersionsParsed {
    type V = VersionsModel;

    open spec fn view(&self) -> VersionsModel {
        VersionsModel {
            mainboard_type: opt_view(self.mainboard_type),
            mainboard_revision: opt_view(self.mainboard_revision),
            uefi_version: opt_view(self.uefi_version),
            uefi_release_date: opt_view(self.uefi_release_date),
            ec_build_version: opt_view(self.ec_build_version),
            ec_current_image: opt_view(self.ec_current_image),
        }
    }
}

/// The characters of `[a, b)` with each tab read as four spaces.
pub open spec fn expand_tabs(s: Seq<char>, a: int, b: int) -> Seq<char>
    decreases b - a,
{
    if b <= a {
        seq![]
    } else {
        expand_tabs(s, a, b - 1) + (if s[b - 1] == '\t' { "    "@ } else { seq![s[b - 1]] })
    }
}

/// Whether `[a, b)` begins with `pat`, ignoring ASCII case.
pub open spec fn starts_with_ci(s: Seq<char>, pat: Seq<char>, a: int, b: int) -> bool {
    a + pat.len() <= b && matches_ci_at(s, pat, a)
}

/// Which of the six versions the key `[ka, kb)` names under the section
/// `[sa, sb)`, numbered as the fields of [`VersionsParsed`].
pub open spec fn version_slot(s: Seq<char>, sa: int, sb: int, ka: int, kb: int) -> Option<int> {
    if starts_with_ci(s, "mainboard hardware"@, sa, sb) {
        if eq_ci(s, "type"@, ka, kb) {
            Some(0)
        } else if eq_ci(s, "revision"@, ka, kb) {
            Some(1)
        } else {
            None
        }
    } else if starts_with_ci(s, "uefi bios"@, sa, sb) {
        if eq_ci(s, "version"@, ka, kb) {
            Some(2)
        } else if eq_ci(s, "release date"@, ka, kb) {
            Some(3)
        } else {
            None
        }
    } else if starts_with_ci(s, "ec firmware"@, sa, sb) {
        if eq_ci(s, "build version"@, ka, kb) {
            Some(4)
        } else if eq_ci(s, "current image"@, ka, kb) {
            Some(5)
        } else {
            None
        }
    } else {
        None
    }
}

pub open spec fn set_version(m: VersionsModel, slot: int, v: Seq<char>) -> VersionsModel {
    if slot == 0 {
        VersionsModel { mainboard_type: Some(v), ..m }
    } else if slot == 1 {
        VersionsModel { mainboard_revision: Some(v), ..m }
    } else if slot == 2 {
        VersionsModel { uefi_version: Some(v), ..m }
    } else if slot == 3 {
        VersionsModel { uefi_release_date: Some(v), ..m }
    } else if slot == 4 {
        VersionsModel { ec_build_version: Some(v), ..m }
    } else {
        VersionsModel { ec_current_image: Some(v), ..m }
    }
}

/// Reading state: the current section header, as a range of the report, and
/// the versions so far.
pub struct VersionsState {
    pub section: (int, int),
    pub out: VersionsModel,
}

/// One line `[lo, hi)` applied to the state. Blank lines are skipped; a line
/// that does not start with a space or tab is a section header (trimmed); an
/// indented line with a colon is `key: value`, both trimmed, the key compared
/// ignoring ASCII case.
pub open spec fn versions_line(s: Seq<char>, lo: int, hi: int, st: VersionsState) -> VersionsState {
    let la = skip_ws(s, lo, hi);
    let lb = back_ws(s, la, hi);
    if la >= lb {
        st
    } else if s[lo] != ' ' && s[lo] != '\t' {
        VersionsState { section: (la, lb), out: st.out }
    } else {
        let colon = find_char(s, ':', lo, hi);
        if colon >= hi {
            st
        } else {
            let ka = skip_ws(s, lo, colon);
            let kb = back_ws(s, ka, colon);
            let va = skip_ws(s, colon + 1, hi);
            let vb = back_ws(s, va, hi);
            match version_slot(s, st.section.0, st.section.1, ka, kb) {
                Some(slot) => VersionsState { section: st.section, out: set_version(st.out, slot, expand_tabs(s, va, vb)) },
                None => st,
            }
        }
    }
}

/// The state after the lines `ls` of `s`.
pub open spec fn versions_fold(s: Seq<char>, ls: Seq<(int, int)>) -> VersionsState
    decreases ls.len(),
{
    if ls.len() == 0 {
        VersionsState {
            section: (0, 0),
            out: VersionsModel {
                mainboard_type: None,
                mainboard_revision: None,
                uefi_version: None,
                uefi_release_date: None,
                ec_build_version: None,
                ec_current_image: None,
            },
        }
    } else {
        versions_line(s, ls.last().0, ls.last().1, versions_fold(s, ls.drop_last()))
    }
}

/// What the versions report `s` says.
pub open spec fn versions_of(s: Seq<char>) -> VersionsModel {
    versions_fold(s, lines_from(s, 0)).out
}

fn expand_tabs_x(s: &str, a: usize, b: usize) -> (r: String)
    requires
        a <= b <= s@.len(),
    ensures
        r@ == expand_tabs(s@, a as int, b as int),
{
    let mut out = String::new();
    let mut k = a;
    while k < b
        invariant
            a <= k <= b <= s@.len(),
            out@ == expand_tabs(s@, a as int, k as int),
        decreases b - k,
    {
        if s.get_char(k) == '\t' {
            out.append("    ");
        } else {
            let one = s.substring_char(k, k + 1);
            assert(one@ =~= seq![s@[k as int]]);
            out.append(one);
        }
        k = k + 1;
    }
    out
}

fn starts_with_ci_x(s: &str, pat: &str, a: usize, b: usize) -> (r: bool)
    requires
        a <= b <= s@.len(),
    ensures
        r == starts_with_ci(s@, pat@, a as int, b as int),
{
    let n = pat.unicode_len();
    if n > b - a {
        return false;
    }
    eq_ci_x(s, pat, a, a + n)
}

fn version_slot_x(s: &str, sa: usize, sb: usize, ka: usize, kb: usize) -> (r: Option<usize>)
    requires
        sa <= sb <= s@.len(),
        ka <= kb <= s@.len(),
    ensures
        match r {
            Some(k) => version_slot(s@, sa as int, sb as int, ka as int, kb as int) == Some(k as int),
            None => version_slot(s@, sa as int, sb as int, ka as int, kb as int) is None,
        },
{
    if starts_with_ci_x(s, "mainboard hardware", sa, sb) {
        if eq_ci_x(s, "type", ka, kb) {
            Some(0)
        } else if eq_ci_x(s, "revision", ka, kb) {
            Some(1)
        } else {
            None
        }
    } else if starts_with_ci_x(s, "uefi bios", sa, sb) {
        if eq_ci_x(s, "version", ka, kb) {
            Some(2)
        } else if eq_ci_x(s, "release date", ka, kb) {
            Some(3)
        } else {
            None
        }
    } else if starts_with_ci_x(s, "ec firmware", sa, sb) {
        if eq_ci_x(s, "build version", ka, kb) {
            Some(4)
        } else if eq_ci_x(s, "current image", ka, kb) {
            Some(5)
        } else {
            None
        }
    } else {
        None
    }
}

fn set_version_x(m: &mut VersionsParsed, slot: usize, v: String)
    ensures
        final(m)@ == set_version(old(m)@, slot as int, v@),
{
    if slot == 0 {
        m.mainboard_type = Some(v);
    } else if slot == 1 {
        m.mainboard_revision = Some(v);
    } else if slot == 2 {
        m.uefi_version = Some(v);
    } else if slot == 3 {
        m.uefi_release_date = Some(v);
    } else if slot == 4 {
        m.ec_build_version = Some(v);
    } else {
        m.ec_current_image = Some(v);
    }
}

/// Read the firmware versions report printed by the hardware tool.
pub fn parse_versions(text: &str) -> (r: VersionsParsed)
    ensures
        r@ == versions_of(text@),
{
    let s = text;
    let n = s.unicode_len();
    let mut out = VersionsParsed {
        mainboard_type: None,
        mainboard_revision: None,
        uefi_version: None,
        uefi_release_date: None,
        ec_build_version: None,
        ec_current_image: None,
    };
    let mut sa: usize = 0;
    let mut sb: usize = 0;
    let mut pos: usize = 0;
    let ghost mut done: Seq<(int, int)> = seq![];
    while pos < n
        invariant
            n == s@.len(),
            pos <= n,
            sa <= sb <= n,
            lines_from(s@, 0) == done + lines_from(s@, pos as int),
            versions_fold(s@, done).section == (sa as int, sb as int),
            versions_fold(s@, done).out == out@,
        decreases n - pos,
    {
        let e = find_char_x(s, '\n', pos, n);
        let hi = if e > pos && e < n && s.get_char(e - 1) == '\r' { e - 1 } else { e };
        let ghost line = (pos as int, hi as int);
        proof {
            assert(lines_from(s@, pos as int) == seq![line] + lines_from(s@, e + 1));
            assert(done.push(line).drop_last() == done);
        }
        let la = skip_ws_x(s, pos, hi);
        let lb = back_ws_x(s, la, hi);
        if la < lb {
            let first = s.get_char(pos);
            if first != ' ' && first != '\t' {
                sa = la;
                sb = lb;
            } else {
                let colon = find_char_x(s, ':', pos, hi);
                if colon < hi {
                    let ka = skip_ws_x(s, pos, colon);
                    let kb = back_ws_x(s, ka, colon);
                    let va = skip_ws_x(s, colon + 1, hi);
                    let vb = back_ws_x(s, va, hi);
                    if let Some(slot) = version_slot_x(s, sa, sb, ka, kb) {
                        let v = expand_tabs_x(s, va, vb);
                        set_version_x(&mut out, slot, v);
                    }
                }
            }
        }
        proof {
            assert(lines_from(s@, 0) == done.push(line) + lines_from(s@, e + 1));
            done = done.push(line);
        }
        if e >= n {
            pos = n;
        } else {
            pos = e + 1;
        }
    }
    assert(done + lines_from(s@, pos as int) == done);
    out
}

} // verus!
