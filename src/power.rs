//! The power control loop: selects the profile for the current power source,
//! remembers what was applied field by field, and reapplies an unchanged
//! profile only after a cooldown when the hardware has drifted and settled.
use vstd::prelude::*;
use vstd::string::StrSliceExecFns;
use crate::types::{PowerConfig, PowerProfile, SettingString, SettingU32};

verus! {

/// Observed power limit within this many watts of the target counts as no drift.
pub const TDP_TOLERANCE_W: u32 = 2;

/// The observed value must have been unchanged this long (ms) before a reapply.
pub const QUIET_WINDOW_MS: u64 = 60_000;

/// An unchanged profile is not reapplied sooner than this (ms) after the last apply.
pub const REAPPLY_COOLDOWN_MS: u64 = 120_000;

/// For a drifted temperature limit the cooldown is longer (ms).
pub const THERMAL_REAPPLY_COOLDOWN_MS: u64 = 300_000;

/// The values that a profile asks to apply: each field is present exactly when
/// the setting is present and enabled and its value is not zero (or empty).
#[derive(Clone, Debug)]
pub struct ProfileTargets {
    pub tdp_watts: Option<u32>,
    pub thermal_limit_c: Option<u32>,
    pub epp_preference: Option<String>,
    pub governor: Option<String>,
    pub min_freq_mhz: Option<u32>,
    pub max_freq_mhz: Option<u32>,
}

/// The mathematical value of a [`ProfileTargets`].
pub struct TargetsView {
    pub tdp_watts: Option<u32>,
    pub thermal_limit_c: Option<u32>,
    pub epp_preference: Option<Seq<char>>,
    pub governor: Option<Seq<char>>,
    pub min_freq_mhz: Option<u32>,
    pub max_freq_mhz: Option<u32>,
}

pub open spec fn opt_str_view(s: Option<String>) -> Option<Seq<char>> {
    match s {
        Some(v) => Some(v@),
        None => None,
    }
}

impl View for ProfileTargets {
    type V = TargetsView;

    open spec fn view(&self) -> TargetsView {
        TargetsView {
            tdp_watts: self.tdp_watts,
            thermal_limit_c: self.thermal_limit_c,
            epp_preference: opt_str_view(self.epp_preference),
            governor: opt_str_view(self.governor),
            min_freq_mhz: self.min_freq_mhz,
            max_freq_mhz: self.max_freq_mhz,
        }
    }
}

/// The targets with nothing to apply.
pub open spec fn no_targets() -> TargetsView {
    TargetsView {
        tdp_watts: None,
        thermal_limit_c: None,
        epp_preference: None,
        governor: None,
        min_freq_mhz: None,
        max_freq_mhz: None,
    }
}

pub open spec fn enabled_u32(s: Option<SettingU32>) -> Option<u32> {
    match s {
        Some(v) => if v.enabled && v.value > 0 { Some(v.value) } else { None },
        None => None,
    }
}

pub open spec fn enabled_str(s: Option<SettingString>) -> Option<Seq<char>> {
    match s {
        Some(v) => if v.enabled && v.value@.len() > 0 { Some(v.value@) } else { None },
        None => None,
    }
}

/// What profile `p` asks to apply: its fingerprint.
pub open spec fn targets_of(p: PowerProfile) -> TargetsView {
    TargetsView {
        tdp_watts: enabled_u32(p.tdp_watts),
        thermal_limit_c: enabled_u32(p.thermal_limit_c),
        epp_preference: enabled_str(p.epp_preference),
        governor: enabled_str(p.governor),
        min_freq_mhz: enabled_u32(p.min_freq_mhz),
        max_freq_mhz: enabled_u32(p.max_freq_mhz),
    }
}

/// Forget what was applied for every field that `t` does not ask for.
pub open spec fn forget_disabled(last: TargetsView, t: TargetsView) -> TargetsView {
    TargetsView {
        tdp_watts: if t.tdp_watts.is_none() { None } else { last.tdp_watts },
        thermal_limit_c: if t.thermal_limit_c.is_none() { None } else { last.thermal_limit_c },
        epp_preference: if t.epp_preference.is_none() { None } else { last.epp_preference },
        governor: if t.governor.is_none() { None } else { last.governor },
        min_freq_mhz: if t.min_freq_mhz.is_none() { None } else { last.min_freq_mhz },
        max_freq_mhz: if t.max_freq_mhz.is_none() { None } else { last.max_freq_mhz },
    }
}

/// Milliseconds from `since` to `now`, zero if the clock went backwards.
pub open spec fn elapsed(now: u64, since: u64) -> int {
    if now >= since { now - since } else { 0 }
}

/// What the caller does with the power backend in this tick.
#[derive(Clone, Debug)]
pub enum PowerDecision {
    /// Nothing to write.
    Hold,
    /// Apply these targets.
    Apply(ProfileTargets),
}

/// State of the power loop between ticks.
#[derive(Clone, Debug)]
pub struct PowerLoop {
    /// What was last applied, field by field.
    pub last: ProfileTargets,
    /// When the last apply succeeded.
    pub last_apply_ms: Option<u64>,
    /// The power limit last observed on the hardware.
    pub observed_tdp: Option<u32>,
    /// When the observed power limit last changed.
    pub observed_change_ms: u64,
    /// The temperature limit last observed on the hardware.
    pub observed_thermal: Option<u32>,
    /// When the observed temperature limit last changed.
    pub observed_thermal_change_ms: u64,
}

/// The mathematical value of a [`PowerLoop`].
pub struct PowerLoopView {
    pub last: TargetsView,
    pub last_apply_ms: Option<u64>,
    pub observed_tdp: Option<u32>,
    pub observed_change_ms: u64,
    pub observed_thermal: Option<u32>,
    pub observed_thermal_change_ms: u64,
}

impl View for PowerLoop {
    type V = PowerLoopView;

    open spec fn view(&self) -> PowerLoopView {
        PowerLoopView {
            last: self.last@,
            last_apply_ms: self.last_apply_ms,
            observed_tdp: self.observed_tdp,
            observed_change_ms: self.observed_change_ms,
            observed_thermal: self.observed_thermal,
            observed_thermal_change_ms: self.observed_thermal_change_ms,
        }
    }
}

/// The decision as a value: `None` to hold, `Some(t)` to apply `t`.
pub open spec fn decision_view(d: PowerDecision) -> Option<TargetsView> {
    match d {
        PowerDecision::Hold => None,
        PowerDecision::Apply(t) => Some(t@),
    }
}

/// Whether the cooldown `span` since the last apply has passed.
pub open spec fn cooled(s: PowerLoopView, now: u64, span: u64) -> bool {
    match s.last_apply_ms {
        None => true,
        Some(at) => elapsed(now, at) >= span,
    }
}

/// The power limit drifted: the cooldown since the last apply has passed, the
/// observed limit is outside the tolerance around the target, and it has stayed
/// unchanged for the quiet window.
pub open spec fn tdp_drift(s: PowerLoopView, t: TargetsView, now: u64) -> bool {
    &&& t.tdp_watts.is_some()
    &&& s.observed_tdp.is_some()
    &&& {
        let w = t.tdp_watts.unwrap() as int;
        let o = s.observed_tdp.unwrap() as int;
        o - w > TDP_TOLERANCE_W || w - o > TDP_TOLERANCE_W
    }
    &&& elapsed(now, s.observed_change_ms) >= QUIET_WINDOW_MS
    &&& cooled(s, now, REAPPLY_COOLDOWN_MS)
}

/// The temperature limit drifted: the longer cooldown since the last apply has
/// passed, the observed limit differs from the target, and it has stayed
/// unchanged for the quiet window.
pub open spec fn thermal_drift(s: PowerLoopView, t: TargetsView, now: u64) -> bool {
    &&& t.thermal_limit_c.is_some()
    &&& s.observed_thermal.is_some()
    &&& s.observed_thermal != t.thermal_limit_c
    &&& elapsed(now, s.observed_thermal_change_ms) >= QUIET_WINDOW_MS
    &&& cooled(s, now, THERMAL_REAPPLY_COOLDOWN_MS)
}

/// An unchanged profile is reapplied only when an observed hardware value has
/// drifted from its target and settled, and the cooldown has passed.
pub open spec fn drift_reapply(s: PowerLoopView, t: TargetsView, now: u64) -> bool {
    tdp_drift(s, t, now) || thermal_drift(s, t, now)
}

/// The profile selected by the power source: mains or battery.
pub open spec fn selected(cfg: PowerConfig, ac: bool) -> Option<PowerProfile> {
    if ac { cfg.ac } else { cfg.battery }
}

/// One tick of the power loop: the new state and the decision.
pub open spec fn power_step(s: PowerLoopView, cfg: PowerConfig, ac_present: Option<bool>, now: u64) -> (
    PowerLoopView,
    Option<TargetsView>,
) {
    match ac_present {
        None => (s, None),
        Some(ac) => match selected(cfg, ac) {
            None => (PowerLoopView { last: no_targets(), last_apply_ms: None, ..s }, None),
            Some(p) => {
                let t = targets_of(p);
                let last = forget_disabled(s.last, t);
                let s2 = PowerLoopView { last, ..s };
                if t != last || drift_reapply(s2, t, now) {
                    (s2, Some(t))
                } else {
                    (s2, None)
                }
            },
        },
    }
}

/// The state after the caller reports the outcome of applying `t` at `now`.
pub open spec fn power_record(s: PowerLoopView, t: TargetsView, ok: bool, now: u64) -> PowerLoopView {
    if ok {
        PowerLoopView { last: t, last_apply_ms: Some(now), ..s }
    } else {
        s
    }
}

/// The state after observing the hardware's power limit and temperature limit
/// at `now`; a reading that differs from the last one restarts its quiet window.
pub open spec fn power_observe(s: PowerLoopView, tdp: Option<u32>, thermal: Option<u32>, now: u64) -> PowerLoopView {
    let s1 = match tdp {
        Some(cur) => if s.observed_tdp != Some(cur) {
            PowerLoopView { observed_tdp: Some(cur), observed_change_ms: now, ..s }
        } else {
            s
        },
        None => s,
    };
    match thermal {
        Some(cur) => if s1.observed_thermal != Some(cur) {
            PowerLoopView { observed_thermal: Some(cur), observed_thermal_change_ms: now, ..s1 }
        } else {
            s1
        },
        None => s1,
    }
}

/// `b` leaves out a field that `a` asks for, as when that setting is disabled.
pub open spec fn drops_a_field(a: TargetsView, b: TargetsView) -> bool {
    ||| (a.tdp_watts.is_some() && b.tdp_watts.is_none())
    ||| (a.thermal_limit_c.is_some() && b.thermal_limit_c.is_none())
    ||| (a.epp_preference.is_some() && b.epp_preference.is_none())
    ||| (a.governor.is_some() && b.governor.is_none())
    ||| (a.min_freq_mhz.is_some() && b.min_freq_mhz.is_none())
    ||| (a.max_freq_mhz.is_some() && b.max_freq_mhz.is_none())
}

/// Applying the same profile twice in a row writes once: after a tick that
/// applied it and a successful write, the next tick within the cooldown holds.
/// A loop that has applied nothing applies a profile that asks for anything.
pub proof fn lemma_same_profile_written_once(s: PowerLoopView, cfg: PowerConfig, ac: bool, now: u64, later: u64)
    requires
        selected(cfg, ac).is_some(),
        elapsed(later, now) < REAPPLY_COOLDOWN_MS,
    ensures
        ({
            let (s1, d1) = power_step(s, cfg, Some(ac), now);
            &&& (s.last == no_targets() && targets_of(selected(cfg, ac).unwrap()) != no_targets() ==> d1
                == Some(targets_of(selected(cfg, ac).unwrap())))
            &&& (d1 matches Some(t) ==> power_step(power_record(s1, t, true, now), cfg, Some(ac), later).1
                is None)
        }),
{
    let t = targets_of(selected(cfg, ac).unwrap());
    assert(forget_disabled(t, t) == t);
}

/// An unchanged profile is not written again unless an observed value has
/// drifted: when what was applied equals what the profile asks for and no
/// drift calls for a reapply, the tick holds and leaves the state as it was.
pub proof fn lemma_unchanged_profile_holds(s: PowerLoopView, cfg: PowerConfig, ac: bool, now: u64)
    requires
        selected(cfg, ac).is_some(),
        s.last == targets_of(selected(cfg, ac).unwrap()),
        !drift_reapply(s, targets_of(selected(cfg, ac).unwrap()), now),
    ensures
        power_step(s, cfg, Some(ac), now) == (s, None::<TargetsView>),
{
    let t = targets_of(selected(cfg, ac).unwrap());
    assert(forget_disabled(t, t) == t);
}

/// Disabling a field and then enabling it again with the same value forces one
/// reapply, whatever came of the tick in between: the tick that sees it enabled
/// again applies the profile, and the next one within the cooldown holds.
pub proof fn lemma_reenabled_field_reapplied_once(
    s: PowerLoopView,
    cfg_on: PowerConfig,
    cfg_off: PowerConfig,
    ac: bool,
    t1: u64,
    t2: u64,
    t3: u64,
    write_ok: bool,
)
    requires
        selected(cfg_on, ac).is_some(),
        selected(cfg_off, ac).is_some(),
        drops_a_field(targets_of(selected(cfg_on, ac).unwrap()), targets_of(selected(cfg_off, ac).unwrap())),
        elapsed(t3, t2) < REAPPLY_COOLDOWN_MS,
    ensures
        ({
            let on = targets_of(selected(cfg_on, ac).unwrap());
            let (s1, d1) = power_step(s, cfg_off, Some(ac), t1);
            let s1r = match d1 {
                Some(t) => power_record(s1, t, write_ok, t1),
                None => s1,
            };
            let (s2, d2) = power_step(s1r, cfg_on, Some(ac), t2);
            &&& d2 == Some(on)
            &&& power_step(power_record(s2, on, true, t2), cfg_on, Some(ac), t3).1 is None
        }),
{
    let on = targets_of(selected(cfg_on, ac).unwrap());
    assert(forget_disabled(on, on) == on);
}

fn enabled_value(s: &Option<SettingU32>) -> (r: Option<u32>)
    ensures
        r == enabled_u32(*s),
{
    match s {
        Some(v) => if v.enabled && v.value > 0 { Some(v.value) } else { None },
        None => None,
    }
}

fn enabled_text(s: &Option<SettingString>) -> (r: Option<String>)
    ensures
        opt_str_view(r) == enabled_str(*s),
{
    match s {
        Some(v) => {
            if v.enabled && v.value.as_str().unicode_len() > 0 {
                Some(v.value.clone())
            } else {
                None
            }
        },
        None => None,
    }
}

fn same_text(a: &Option<String>, b: &Option<String>) -> (r: bool)
    ensures
        r == (opt_str_view(*a) == opt_str_view(*b)),
{
    match (a, b) {
        (Some(x), Some(y)) => x.eq(y),
        (None, None) => true,
        _ => false,
    }
}

fn keep_if(last: &Option<u32>, wanted: &Option<u32>) -> (r: Option<u32>)
    ensures
        r == (if wanted.is_none() { None } else { *last }),
{
    if wanted.is_none() { None } else { *last }
}

fn clone_text(s: &Option<String>) -> (r: Option<String>)
    ensures
        opt_str_view(r) == opt_str_view(*s),
{
    match s {
        Some(v) => Some(v.clone()),
        None => None,
    }
}

fn keep_text_if(last: &Option<String>, wanted: &Option<String>) -> (r: Option<String>)
    ensures
        opt_str_view(r) == (if wanted.is_none() { None } else { opt_str_view(*last) }),
{
    if wanted.is_none() {
        None
    } else {
        clone_text(last)
    }
}

impl ProfileTargets {
    /// The targets of profile `p`.
    pub fn of(p: &PowerProfile) -> (r: ProfileTargets)
        ensures
            r@ == targets_of(*p),
    {
        ProfileTargets {
            tdp_watts: enabled_value(&p.tdp_watts),
            thermal_limit_c: enabled_value(&p.thermal_limit_c),
            epp_preference: enabled_text(&p.epp_preference),
            governor: enabled_text(&p.governor),
            min_freq_mhz: enabled_value(&p.min_freq_mhz),
            max_freq_mhz: enabled_value(&p.max_freq_mhz),
        }
    }

    /// Nothing to apply.
    pub fn none() -> (r: ProfileTargets)
        ensures
            r@ == no_targets(),
    {
        ProfileTargets {
            tdp_watts: None,
            thermal_limit_c: None,
            epp_preference: None,
            governor: None,
            min_freq_mhz: None,
            max_freq_mhz: None,
        }
    }

    /// Whether both ask for the same values.
    pub fn same_as(&self, o: &ProfileTargets) -> (r: bool)
        ensures
            r == (self@ == o@),
    {
        self.tdp_watts == o.tdp_watts && self.thermal_limit_c == o.thermal_limit_c && same_text(
            &self.epp_preference,
            &o.epp_preference,
        ) && same_text(&self.governor, &o.governor) && self.min_freq_mhz == o.min_freq_mhz
            && self.max_freq_mhz == o.max_freq_mhz
    }

    fn clone_targets(&self) -> (r: ProfileTargets)
        ensures
            r@ == self@,
    {
        ProfileTargets {
            tdp_watts: self.tdp_watts,
            thermal_limit_c: self.thermal_limit_c,
            epp_preference: clone_text(&self.epp_preference),
            governor: clone_text(&self.governor),
            min_freq_mhz: self.min_freq_mhz,
            max_freq_mhz: self.max_freq_mhz,
        }
    }
}

fn elapsed_ms(now: u64, since: u64) -> (r: u64)
    ensures
        r as int == elapsed(now, since),
{
    if now >= since { now - since } else { 0 }
}

impl PowerLoop {
    /// A loop that has applied nothing; `now_ms` starts the quiet window.
    pub fn new(now_ms: u64) -> (r: PowerLoop)
        ensures
            r@.last == no_targets(),
            r@.last_apply_ms.is_none(),
            r@.observed_tdp.is_none(),
            r@.observed_change_ms == now_ms,
            r@.observed_thermal.is_none(),
            r@.observed_thermal_change_ms == now_ms,
    {
        PowerLoop {
            last: ProfileTargets::none(),
            last_apply_ms: None,
            observed_tdp: None,
            observed_change_ms: now_ms,
            observed_thermal: None,
            observed_thermal_change_ms: now_ms,
        }
    }

    /// Record the power limit and temperature limit read from the hardware at
    /// `now_ms` (`None` where a read failed).
    pub fn observe(&mut self, tdp: Option<u32>, thermal: Option<u32>, now_ms: u64)
        ensures
            final(self)@ == power_observe(old(self)@, tdp, thermal, now_ms),
    {
        if let Some(cur) = tdp {
            if self.observed_tdp != Some(cur) {
                self.observed_tdp = Some(cur);
                self.observed_change_ms = now_ms;
            }
        }
        if let Some(cur) = thermal {
            if self.observed_thermal != Some(cur) {
                self.observed_thermal = Some(cur);
                self.observed_thermal_change_ms = now_ms;
            }
        }
    }

    /// One tick at `now_ms` with the power source read for it (`None` when the
    /// read failed): decide whether to apply the selected profile.
    pub fn tick(&mut self, cfg: &PowerConfig, ac_present: Option<bool>, now_ms: u64) -> (r: PowerDecision)
        ensures
            (final(self)@, decision_view(r)) == power_step(old(self)@, *cfg, ac_present, now_ms),
    {
        let ac = match ac_present {
            Some(a) => a,
            None => return PowerDecision::Hold,
        };
        let profile = if ac { &cfg.ac } else { &cfg.battery };
        let p = match profile {
            Some(p) => p,
            None => {
                self.last = ProfileTargets::none();
                self.last_apply_ms = None;
                return PowerDecision::Hold;
            },
        };
        let t = ProfileTargets::of(p);
        self.last = ProfileTargets {
            tdp_watts: keep_if(&self.last.tdp_watts, &t.tdp_watts),
            thermal_limit_c: keep_if(&self.last.thermal_limit_c, &t.thermal_limit_c),
            epp_preference: keep_text_if(&self.last.epp_preference, &t.epp_preference),
            governor: keep_text_if(&self.last.governor, &t.governor),
            min_freq_mhz: keep_if(&self.last.min_freq_mhz, &t.min_freq_mhz),
            max_freq_mhz: keep_if(&self.last.max_freq_mhz, &t.max_freq_mhz),
        };
        if !t.same_as(&self.last) || self.drifted(&t, now_ms) {
            PowerDecision::Apply(t)
        } else {
            PowerDecision::Hold
        }
    }

    fn drifted(&self, t: &ProfileTargets, now_ms: u64) -> (r: bool)
        ensures
            r == drift_reapply(self@, t@, now_ms),
    {
        let tdp = match (t.tdp_watts, self.observed_tdp) {
            (Some(w), Some(o)) => {
                let off = if o > w { o - w > TDP_TOLERANCE_W } else { w - o > TDP_TOLERANCE_W };
                off && elapsed_ms(now_ms, self.observed_change_ms) >= QUIET_WINDOW_MS && self.cooled(
                    now_ms,
                    REAPPLY_COOLDOWN_MS,
                )
            },
            _ => false,
        };
        let thermal = match (t.thermal_limit_c, self.observed_thermal) {
            (Some(c), Some(o)) => o != c && elapsed_ms(now_ms, self.observed_thermal_change_ms) >= QUIET_WINDOW_MS
                && self.cooled(now_ms, THERMAL_REAPPLY_COOLDOWN_MS),
            _ => false,
        };
        tdp || thermal
    }

    fn cooled(&self, now_ms: u64, span: u64) -> (r: bool)
        ensures
            r == cooled(self@, now_ms, span),
    {
        match self.last_apply_ms {
            None => true,
            Some(at) => elapsed_ms(now_ms, at) >= span,
        }
    }

    /// Report the outcome of applying `t` at `now_ms`.
    pub fn record(&mut self, t: &ProfileTargets, ok: bool, now_ms: u64)
        ensures
            final(self)@ == power_record(old(self)@, t@, ok, now_ms),
    {
        if ok {
            self.last = t.clone_targets();
            self.last_apply_ms = Some(now_ms);
        }
    }
}

} // verus!
