//! The power backends: the Linux kernel mechanisms (power capping, energy
//! preference, frequency and governor control), each present or not, and the
//! vendor adjustment tool, selected as a whole. Applying a profile is planned
//! here as an ordered list of writes that the caller performs in turn.
use vstd::prelude::*;
use crate::power::{ProfileTargets, TargetsView};
use crate::text::{all_digits, parse_nat, starts_with, str_eq};
use vstd::string::StrSliceExecFns;

verus! {

/// Handle to the hardware query tool: the path of its binary.
#[derive(Clone, Debug)]
pub struct FrameworkTool {
    pub path: String,
}

/// Handle to the vendor power adjustment tool: the path of its binary.
#[derive(Clone, Debug)]
pub struct RyzenAdj {
    pub path: String,
}

/// Which kernel power mechanisms are present, found once at detection; the
/// frequency range (MHz) is the one that frequency control reported then.
#[derive(Clone, Copy, Debug)]
pub struct LinuxPower {
    pub rapl: bool,
    pub amd_pstate: bool,
    pub cpufreq: bool,
    pub frequency_range: Option<(u32, u32)>,
}

/// What the present mechanisms can do.
#[derive(Clone, Debug)]
pub struct PowerCapabilities {
    pub supports_tdp: bool,
    pub tdp_min_watts: Option<u32>,
    pub tdp_max_watts: Option<u32>,
    pub supports_epp: bool,
    pub available_epp_preferences: Option<Vec<String>>,
    pub supports_governor: bool,
    pub supports_frequency_limits: bool,
    pub available_governors: Option<Vec<String>>,
    pub frequency_min_mhz: Option<u32>,
    pub frequency_max_mhz: Option<u32>,
}

/// One write to a power mechanism.
#[derive(Clone, Debug)]
pub enum PowerWrite {
    /// Sustained power limit, in watts.
    SetTdp(u32),
    /// Temperature limit, in °C.
    SetThermalLimit(u32),
    /// Frequency governor for every CPU.
    SetGovernor(String),
    /// Energy preference for every CPU, written only if the governor now in
    /// place lists it as available.
    SetEppIfAvailable(String),
    /// Frequency bounds for every CPU, in MHz.
    SetFrequencyLimits(u32, u32),
}

/// The mathematical value of a [`PowerWrite`].
pub enum WriteView {
    SetTdp(u32),
    SetThermalLimit(u32),
    SetGovernor(Seq<char>),
    SetEppIfAvailable(Seq<char>),
    SetFrequencyLimits(u32, u32),
}

pub open spec fn write_view(w: PowerWrite) -> WriteView {
    match w {
        PowerWrite::SetTdp(v) => WriteView::SetTdp(v),
        PowerWrite::SetThermalLimit(v) => WriteView::SetThermalLimit(v),
        PowerWrite::SetGovernor(s) => WriteView::SetGovernor(s@),
        PowerWrite::SetEppIfAvailable(s) => WriteView::SetEppIfAvailable(s@),
        PowerWrite::SetFrequencyLimits(a, b) => WriteView::SetFrequencyLimits(a, b),
    }
}

pub open spec fn writes_view(v: Seq<PowerWrite>) -> Seq<WriteView> {
    v.map_values(|w: PowerWrite| write_view(w))
}

/// The writes for targets `t` on the kernel mechanisms of `lp`, in this order:
/// power limit first; governor before energy preference, since a performance
/// governor can lock preferences out; frequency bounds last, and only when
/// both bounds are asked for. The kernel has no temperature limit here.
pub open spec fn linux_plan(lp: LinuxPower, t: TargetsView) -> Seq<WriteView> {
    (if lp.rapl && t.tdp_watts is Some { seq![WriteView::SetTdp(t.tdp_watts.unwrap())] } else { seq![] })
        + (if lp.cpufreq && t.governor is Some { seq![WriteView::SetGovernor(t.governor.unwrap())] } else { seq![] })
        + (if lp.amd_pstate && t.epp_preference is Some {
            seq![WriteView::SetEppIfAvailable(t.epp_preference.unwrap())]
        } else {
            seq![]
        }) + (if lp.cpufreq && t.min_freq_mhz is Some && t.max_freq_mhz is Some {
            seq![WriteView::SetFrequencyLimits(t.min_freq_mhz.unwrap(), t.max_freq_mhz.unwrap())]
        } else {
            seq![]
        })
}

/// The writes for targets `t` through the vendor tool: power limit, then
/// temperature limit.
pub open spec fn vendor_plan(t: TargetsView) -> Seq<WriteView> {
    (if t.tdp_watts is Some { seq![WriteView::SetTdp(t.tdp_watts.unwrap())] } else { seq![] })
        + (if t.thermal_limit_c is Some { seq![WriteView::SetThermalLimit(t.thermal_limit_c.unwrap())] } else {
        seq![]
    })
}

/// The names of the present mechanisms, in detection order.
pub open spec fn method_parts(lp: LinuxPower) -> Seq<Seq<char>> {
    (if lp.rapl { seq!["rapl"@] } else { seq![] }) + (if lp.amd_pstate { seq!["amd-pstate"@] } else { seq![] })
        + (if lp.cpufreq { seq!["cpufreq"@] } else { seq![] })
}

/// `parts` joined with `+` between them.
pub open spec fn join_plus(parts: Seq<Seq<char>>) -> Seq<char>
    decreases parts.len(),
{
    if parts.len() == 0 {
        seq![]
    } else if parts.len() == 1 {
        parts[0]
    } else {
        join_plus(parts.drop_last()) + "+"@ + parts.last()
    }
}

/// The description of `lp`: the present mechanisms joined with `+`, or `none`.
pub open spec fn method_name_of(lp: LinuxPower) -> Seq<char> {
    if method_parts(lp).len() == 0 { "none"@ } else { join_plus(method_parts(lp)) }
}

fn push_part(s: &mut String, count: &mut usize, part: &str, Ghost(parts): Ghost<Seq<Seq<char>>>)
    requires
        old(s)@ == join_plus(parts),
        *old(count) == parts.len(),
        parts.len() < 3,
    ensures
        final(s)@ == join_plus(parts.push(part@)),
        *final(count) == parts.len() + 1,
{
    let ghost np = parts.push(part@);
    assert(np.drop_last() == parts);
    if *count > 0 {
        s.append("+");
    } else {
        assert(parts.len() == 0);
        assert(s@ == Seq::<char>::empty());
        assert(s@ + part@ == part@);
    }
    s.append(part);
    *count = *count + 1;
}

/// The power limit range (W) offered with power capping.
pub fn rapl_tdp_range() -> (r: (u32, u32))
    ensures
        r == (15u32, 120u32),
{
    (15, 120)
}

impl LinuxPower {
    /// The present mechanisms joined with `+`, or `none`.
    pub fn method_name(&self) -> (r: String)
        ensures
            r@ == method_name_of(*self),
    {
        let mut s = String::new();
        let mut count: usize = 0;
        let ghost mut parts: Seq<Seq<char>> = seq![];
        if self.rapl {
            push_part(&mut s, &mut count, "rapl", Ghost(parts));
            proof { parts = parts.push("rapl"@); }
        }
        if self.amd_pstate {
            push_part(&mut s, &mut count, "amd-pstate", Ghost(parts));
            proof { parts = parts.push("amd-pstate"@); }
        }
        if self.cpufreq {
            push_part(&mut s, &mut count, "cpufreq", Ghost(parts));
            proof { parts = parts.push("cpufreq"@); }
        }
        assert(parts =~= method_parts(*self));
        if count == 0 {
            String::from_str("none")
        } else {
            s
        }
    }

    /// The capabilities of the present mechanisms, given the energy
    /// preferences and governors read from the kernel just now.
    pub fn get_capabilities(&self, epp_preferences: Option<Vec<String>>, governors: Option<Vec<String>>) -> (r: PowerCapabilities)
        ensures
            r.supports_tdp == self.rapl,
            r.tdp_min_watts == (if self.rapl { Some(15u32) } else { None }),
            r.tdp_max_watts == (if self.rapl { Some(120u32) } else { None }),
            r.supports_epp == self.amd_pstate,
            r.available_epp_preferences == (if self.amd_pstate { epp_preferences } else { None }),
            r.supports_governor == self.cpufreq,
            r.supports_frequency_limits == self.cpufreq,
            r.available_governors == (if self.cpufreq { governors } else { None }),
            r.frequency_min_mhz == (match (self.cpufreq, self.frequency_range) {
                (true, Some((lo, _))) => if lo > 0 { Some(lo) } else { None },
                _ => None,
            }),
            r.frequency_max_mhz == (match (self.cpufreq, self.frequency_range) {
                (true, Some((_, hi))) => if hi > 0 { Some(hi) } else { None },
                _ => None,
            }),
    {
        let (tdp_min_watts, tdp_max_watts) = if self.rapl {
            let (lo, hi) = rapl_tdp_range();
            (Some(lo), Some(hi))
        } else {
            (None, None)
        };
        let (frequency_min_mhz, frequency_max_mhz) = match (self.cpufreq, self.frequency_range) {
            (true, Some((lo, hi))) => (if lo > 0 { Some(lo) } else { None }, if hi > 0 { Some(hi) } else { None }),
            _ => (None, None),
        };
        PowerCapabilities {
            supports_tdp: self.rapl,
            tdp_min_watts,
            tdp_max_watts,
            supports_epp: self.amd_pstate,
            available_epp_preferences: if self.amd_pstate { epp_preferences } else { None },
            supports_governor: self.cpufreq,
            supports_frequency_limits: self.cpufreq,
            available_governors: if self.cpufreq { governors } else { None },
            frequency_min_mhz,
            frequency_max_mhz,
        }
    }

    /// The writes that apply `t` on the present mechanisms, in order.
    pub fn apply_profile(&self, t: &ProfileTargets) -> (r: Vec<PowerWrite>)
        ensures
            writes_view(r@) == linux_plan(*self, t@),
    {
        let mut v: Vec<PowerWrite> = Vec::new();
        if self.rapl {
            if let Some(w) = t.tdp_watts {
                v.push(PowerWrite::SetTdp(w));
            }
        }
        if self.cpufreq {
            if let Some(g) = &t.governor {
                v.push(PowerWrite::SetGovernor(g.clone()));
            }
        }
        if self.amd_pstate {
            if let Some(e) = &t.epp_preference {
                v.push(PowerWrite::SetEppIfAvailable(e.clone()));
            }
        }
        if self.cpufreq {
            if let (Some(lo), Some(hi)) = (t.min_freq_mhz, t.max_freq_mhz) {
                v.push(PowerWrite::SetFrequencyLimits(lo, hi));
            }
        }
        assert(writes_view(v@) =~= linux_plan(*self, t@));
        v
    }
}

impl RyzenAdj {
    /// The writes that apply `t` through the vendor tool, in order.
    pub fn apply_profile(t: &ProfileTargets) -> (r: Vec<PowerWrite>)
        ensures
            writes_view(r@) == vendor_plan(t@),
    {
        let mut v: Vec<PowerWrite> = Vec::new();
        if let Some(w) = t.tdp_watts {
            v.push(PowerWrite::SetTdp(w));
        }
        if let Some(c) = t.thermal_limit_c {
            v.push(PowerWrite::SetThermalLimit(c));
        }
        assert(writes_view(v@) =~= vendor_plan(t@));
        v
    }
}

/// Whether `value` is among the `available` choices.
pub fn is_available(available: &Vec<String>, value: &str) -> (r: bool)
    ensures
        r == exists|i: int| 0 <= i < available@.len() && #[trigger] available@[i]@ == value@,
{
    let mut i: usize = 0;
    while i < available.len()
        invariant
            0 <= i <= available@.len(),
            forall|k: int| 0 <= k < i ==> #[trigger] available@[k]@ != value@,
        decreases available@.len() - i,
    {
        if str_eq(available[i].as_str(), value) {
            return true;
        }
        i = i + 1;
    }
    false
}

/// A frequency reading in kHz as MHz.
pub open spec fn mhz_of(khz: u64) -> u32 {
    (khz / 1000) as u32
}

/// Frequency span (MHz) over per-CPU readings in kHz (`None` where a read
/// failed): the lowest and highest reading present, or `None` when no read
/// succeeded.
pub fn frequency_span(readings_khz: &Vec<Option<u64>>) -> (r: Option<(u32, u32)>)
    ensures
        r is None <==> forall|i: int| 0 <= i < readings_khz@.len() ==> #[trigger] readings_khz@[i] is None,
        r matches Some((lo, hi)) ==> {
            &&& exists|i: int| 0 <= i < readings_khz@.len() && #[trigger] readings_khz@[i] is Some && mhz_of(readings_khz@[i].unwrap()) == lo
            &&& exists|i: int| 0 <= i < readings_khz@.len() && #[trigger] readings_khz@[i] is Some && mhz_of(readings_khz@[i].unwrap()) == hi
            &&& forall|i: int| 0 <= i < readings_khz@.len() && #[trigger] readings_khz@[i] is Some ==> lo <= mhz_of(readings_khz@[i].unwrap()) <= hi
        },
{
    let mut span: Option<(u32, u32)> = None;
    let mut i: usize = 0;
    while i < readings_khz.len()
        invariant
            0 <= i <= readings_khz@.len(),
            span is None <==> forall|k: int| 0 <= k < i ==> #[trigger] readings_khz@[k] is None,
            span matches Some((lo, hi)) ==> {
                &&& exists|k: int| 0 <= k < i && #[trigger] readings_khz@[k] is Some && mhz_of(readings_khz@[k].unwrap()) == lo
                &&& exists|k: int| 0 <= k < i && #[trigger] readings_khz@[k] is Some && mhz_of(readings_khz@[k].unwrap()) == hi
                &&& forall|k: int| 0 <= k < i && #[trigger] readings_khz@[k] is Some ==> lo <= mhz_of(readings_khz@[k].unwrap()) <= hi
            },
        decreases readings_khz@.len() - i,
    {
        if let Some(khz) = readings_khz[i] {
            let mhz = (khz / 1000) as u32;
            span = match span {
                None => Some((mhz, mhz)),
                Some((lo, hi)) => Some((if mhz < lo { mhz } else { lo }, if mhz > hi { mhz } else { hi })),
            };
        }
        i = i + 1;
    }
    span
}

/// What the kernel mechanisms report now; a field is `None` when its
/// mechanism is absent or the read failed.
#[derive(Clone, Debug)]
pub struct PowerState {
    pub tdp_limit_watts: Option<u32>,
    pub epp_preference: Option<String>,
    pub governor: Option<String>,
    pub frequency_mhz: Option<u32>,
    pub min_freq_mhz: Option<u32>,
    pub max_freq_mhz: Option<u32>,
}

/// A power limit in microwatts as watts.
pub open spec fn watts_of(uw: u64) -> u32 {
    (uw / 1_000_000) as u32
}

impl LinuxPower {
    /// The state from what was just read: the power limit (µW), the energy
    /// preference and governor of the first CPU, its current frequency (kHz),
    /// and every CPU's current frequency (kHz). Reads of absent mechanisms are
    /// ignored.
    pub fn get_state(
        &self,
        limit_uw: Option<u64>,
        epp: Option<String>,
        governor: Option<String>,
        cur_khz: Option<u64>,
        all_khz: &Vec<Option<u64>>,
    ) -> (r: PowerState)
        ensures
            r.tdp_limit_watts == (if self.rapl {
                match limit_uw {
                    Some(u) => Some(watts_of(u)),
                    None => None,
                }
            } else {
                None
            }),
            r.epp_preference == (if self.amd_pstate { epp } else { None }),
            r.governor == (if self.cpufreq { governor } else { None }),
            r.frequency_mhz == (if self.cpufreq {
                match cur_khz {
                    Some(k) => Some(mhz_of(k)),
                    None => None,
                }
            } else {
                None
            }),
            !self.cpufreq ==> r.min_freq_mhz is None && r.max_freq_mhz is None,
            self.cpufreq ==> (r.min_freq_mhz is None <==> forall|i: int|
                0 <= i < all_khz@.len() ==> #[trigger] all_khz@[i] is None),
            self.cpufreq ==> (r.min_freq_mhz is None <==> r.max_freq_mhz is None),
            self.cpufreq && r.min_freq_mhz is Some ==> {
                let lo = r.min_freq_mhz.unwrap();
                let hi = r.max_freq_mhz.unwrap();
                &&& exists|i: int| 0 <= i < all_khz@.len() && #[trigger] all_khz@[i] is Some && mhz_of(all_khz@[i].unwrap()) == lo
                &&& exists|i: int| 0 <= i < all_khz@.len() && #[trigger] all_khz@[i] is Some && mhz_of(all_khz@[i].unwrap()) == hi
                &&& forall|i: int| 0 <= i < all_khz@.len() && #[trigger] all_khz@[i] is Some ==> lo <= mhz_of(all_khz@[i].unwrap()) <= hi
            },
    {
        let span = if self.cpufreq { frequency_span(all_khz) } else { None };
        PowerState {
            tdp_limit_watts: if self.rapl {
                match limit_uw {
                    Some(u) => Some((u / 1_000_000) as u32),
                    None => None,
                }
            } else {
                None
            },
            epp_preference: if self.amd_pstate { epp } else { None },
            governor: if self.cpufreq { governor } else { None },
            frequency_mhz: if self.cpufreq {
                match cur_khz {
                    Some(k) => Some((k / 1000) as u32),
                    None => None,
                }
            } else {
                None
            },
            min_freq_mhz: match span {
                Some((lo, _)) => Some(lo),
                None => None,
            },
            max_freq_mhz: match span {
                Some((_, hi)) => Some(hi),
                None => None,
            },
        }
    }
}

/// Whether a directory under the CPU tree is a CPU: `cpu` followed by digits
/// only (possibly none).
pub open spec fn is_cpu_dir_name(n: Seq<char>) -> bool {
    starts_with(n, "cpu"@, 0, n.len() as int) && all_digits(n, 3, n.len() as int)
}

/// The order of a CPU directory: its number, or 999999 when it has none that
/// fits a `u32`.
pub open spec fn cpu_order(n: Seq<char>) -> u32 {
    if starts_with(n, "cpu"@, 0, n.len() as int) {
        match parse_nat(n, 3, n.len() as int, 0xffff_ffff) {
            Some(v) => v as u32,
            None => 999999,
        }
    } else {
        999999
    }
}

/// Whether a directory name under the CPU tree names a CPU.
pub fn is_cpu_dir(name: &str) -> (r: bool)
    ensures
        r == is_cpu_dir_name(name@),
{
    let n = name.unicode_len();
    if !crate::text::starts_with_x(name, "cpu", 0, n) {
        return false;
    }
    proof {
        assert("cpu"@.len() == 3) by {
            reveal_strlit("cpu");
        }
    }
    let mut k: usize = 3;
    while k < n
        invariant
            3 <= k <= n,
            n == name@.len(),
            all_digits(name@, 3, k as int),
        decreases n - k,
    {
        let c = name.get_char(k);
        if !('0' <= c && c <= '9') {
            return false;
        }
        k = k + 1;
    }
    true
}

/// The sort key of a CPU directory name.
pub fn cpu_sort_key(name: &str) -> (r: u32)
    ensures
        r == cpu_order(name@),
{
    let n = name.unicode_len();
    if !crate::text::starts_with_x(name, "cpu", 0, n) {
        return 999999;
    }
    proof {
        assert("cpu"@.len() == 3) by {
            reveal_strlit("cpu");
        }
    }
    match crate::text::parse_nat_x(name, 3, n, 0xffff_ffff) {
        Some(v) => v as u32,
        None => 999999,
    }
}

/// The energy preferences offered when the kernel does not list them.
pub fn default_epp_preferences() -> (r: Vec<String>)
    ensures
        r@.len() == 5,
        r@[0]@ == "default"@,
        r@[1]@ == "performance"@,
        r@[2]@ == "balance_performance"@,
        r@[3]@ == "balance_power"@,
        r@[4]@ == "power"@,
{
    let mut v: Vec<String> = Vec::new();
    v.push(String::from_str("default"));
    v.push(String::from_str("performance"));
    v.push(String::from_str("balance_performance"));
    v.push(String::from_str("balance_power"));
    v.push(String::from_str("power"));
    v
}

} // verus!
