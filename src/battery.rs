//! The battery loop: periodic reconciliation of the charge limit and the
//! charge rate, applied on change and again after a fixed interval.
use vstd::prelude::*;
use crate::power::elapsed;
use crate::types::{BatteryConfig, SettingU32, SettingU8};

verus! {

/// Settings are written again after this long (ms) even when unchanged.
pub const REAPPLY_INTERVAL_MS: u64 = 1_800_000;

/// Lowest charge limit accepted, in percent.
pub const CHARGE_LIMIT_MIN_PCT: u8 = 25;

/// Highest charge limit, in percent; also the limit when the setting is off.
pub const CHARGE_LIMIT_MAX_PCT: u8 = 100;

/// Charge rate granularity, in thousandths of C.
pub const RATE_STEP_MILLI_C: u32 = 50;

/// Highest charge rate (1C), in thousandths of C; also the rate when the
/// setting is off.
pub const RATE_MAX_MILLI_C: u32 = 1000;

/// The charge limit to hold: the configured value within 25..=100 when enabled,
/// 100 when disabled.
pub open spec fn desired_limit(s: SettingU8) -> u8 {
    if !s.enabled {
        CHARGE_LIMIT_MAX_PCT
    } else if s.value < CHARGE_LIMIT_MIN_PCT {
        CHARGE_LIMIT_MIN_PCT
    } else if s.value > CHARGE_LIMIT_MAX_PCT {
        CHARGE_LIMIT_MAX_PCT
    } else {
        s.value
    }
}

/// The charge rate to hold: the configured rate (1C when disabled) rounded to
/// the nearest step, halves upward, and capped at 1C.
pub open spec fn desired_rate(s: SettingU32) -> int {
    let v = if s.enabled { s.value as int } else { RATE_MAX_MILLI_C as int };
    let snapped = ((2 * v + RATE_STEP_MILLI_C) / (2 * RATE_STEP_MILLI_C as int)) * RATE_STEP_MILLI_C;
    if snapped > RATE_MAX_MILLI_C { RATE_MAX_MILLI_C as int } else { snapped }
}

/// A timed write is due when it never happened or the interval has passed.
pub open spec fn reapply_due(at: Option<u64>, now: u64) -> bool {
    match at {
        None => true,
        Some(t) => elapsed(now, t) >= REAPPLY_INTERVAL_MS,
    }
}

/// A charge rate write: the rate in thousandths of C and the optional state of
/// charge threshold in percent.
#[derive(Clone, Copy, Debug, PartialEq, Eq, Structural)]
pub struct RateSetting {
    pub rate_milli_c: u32,
    pub threshold_pct: Option<u8>,
}

/// What the caller writes in this tick.
#[derive(Clone, Copy, Debug, PartialEq, Eq, Structural)]
pub struct BatteryPlan {
    /// Charge limit to set, in percent.
    pub set_limit_pct: Option<u8>,
    /// Charge rate to set.
    pub set_rate: Option<RateSetting>,
}

/// State of the battery loop between ticks.
#[derive(Clone, Copy, Debug)]
pub struct BatteryLoop {
    pub last_limit_pct: Option<u8>,
    pub last_limit_apply_ms: Option<u64>,
    pub last_rate_milli_c: Option<u32>,
    pub last_threshold_pct: Option<u8>,
    pub last_rate_apply_ms: Option<u64>,
}

/// The writes due at `now` for the policy `cfg`.
pub open spec fn battery_plan(s: BatteryLoop, cfg: BatteryConfig, now: u64) -> BatteryPlan {
    BatteryPlan {
        set_limit_pct: match cfg.charge_limit_max_pct {
            None => None,
            Some(l) => {
                let d = desired_limit(l);
                if s.last_limit_pct != Some(d) || reapply_due(s.last_limit_apply_ms, now) {
                    Some(d)
                } else {
                    None
                }
            },
        },
        set_rate: match cfg.charge_rate_milli_c {
            None => None,
            Some(r) => {
                let d = desired_rate(r) as u32;
                let thr = cfg.charge_rate_soc_threshold_pct;
                if s.last_rate_milli_c != Some(d) || s.last_threshold_pct != thr || reapply_due(
                    s.last_rate_apply_ms,
                    now,
                ) {
                    Some(RateSetting { rate_milli_c: d, threshold_pct: thr })
                } else {
                    None
                }
            },
        },
    }
}

fn elapsed_at_least(now: u64, at: Option<u64>, span: u64) -> (r: bool)
    ensures
        r == match at {
            None => true,
            Some(t) => elapsed(now, t) >= span,
        },
{
    match at {
        None => true,
        Some(t) => (if now >= t { now - t } else { 0 }) >= span,
    }
}

impl BatteryLoop {
    /// A loop that has written nothing.
    pub fn new() -> (r: BatteryLoop)
        ensures
            r.last_limit_pct.is_none(),
            r.last_limit_apply_ms.is_none(),
            r.last_rate_milli_c.is_none(),
            r.last_threshold_pct.is_none(),
            r.last_rate_apply_ms.is_none(),
    {
        BatteryLoop {
            last_limit_pct: None,
            last_limit_apply_ms: None,
            last_rate_milli_c: None,
            last_threshold_pct: None,
            last_rate_apply_ms: None,
        }
    }

    /// The writes due at `now_ms`.
    pub fn plan(&self, cfg: &BatteryConfig, now_ms: u64) -> (r: BatteryPlan)
        ensures
            r == battery_plan(*self, *cfg, now_ms),
    {
        let set_limit_pct = match cfg.charge_limit_max_pct {
            None => None,
            Some(l) => {
                let d = if !l.enabled {
                    CHARGE_LIMIT_MAX_PCT
                } else if l.value < CHARGE_LIMIT_MIN_PCT {
                    CHARGE_LIMIT_MIN_PCT
                } else if l.value > CHARGE_LIMIT_MAX_PCT {
                    CHARGE_LIMIT_MAX_PCT
                } else {
                    l.value
                };
                if self.last_limit_pct != Some(d) || elapsed_at_least(now_ms, self.last_limit_apply_ms, REAPPLY_INTERVAL_MS) {
                    Some(d)
                } else {
                    None
                }
            },
        };
        let set_rate = match cfg.charge_rate_milli_c {
            None => None,
            Some(r) => {
                let v: u64 = if r.enabled { r.value as u64 } else { RATE_MAX_MILLI_C as u64 };
                let snapped: u64 = ((2 * v + RATE_STEP_MILLI_C as u64) / (2 * RATE_STEP_MILLI_C as u64)) * RATE_STEP_MILLI_C as u64;
                let d: u32 = if snapped > RATE_MAX_MILLI_C as u64 { RATE_MAX_MILLI_C } else { snapped as u32 };
                let thr = cfg.charge_rate_soc_threshold_pct;
                if self.last_rate_milli_c != Some(d) || self.last_threshold_pct != thr || elapsed_at_least(
                    now_ms,
                    self.last_rate_apply_ms,
                    REAPPLY_INTERVAL_MS,
                ) {
                    Some(RateSetting { rate_milli_c: d, threshold_pct: thr })
                } else {
                    None
                }
            },
        };
        BatteryPlan { set_limit_pct, set_rate }
    }

    /// Report the outcome of setting the charge limit to `pct` at `now_ms`.
    pub fn record_limit(&mut self, pct: u8, ok: bool, now_ms: u64)
        ensures
            ok ==> *final(self) == (BatteryLoop { last_limit_pct: Some(pct), last_limit_apply_ms: Some(now_ms), ..*old(self) }),
            !ok ==> *final(self) == *old(self),
    {
        if ok {
            self.last_limit_pct = Some(pct);
            self.last_limit_apply_ms = Some(now_ms);
        }
    }

    /// Report the outcome of setting the charge rate at `now_ms`.
    pub fn record_rate(&mut self, rate_milli_c: u32, threshold_pct: Option<u8>, ok: bool, now_ms: u64)
        ensures
            ok ==> *final(self) == (BatteryLoop {
                last_rate_milli_c: Some(rate_milli_c),
                last_threshold_pct: threshold_pct,
                last_rate_apply_ms: Some(now_ms),
                ..*old(self)
            }),
            !ok ==> *final(self) == *old(self),
    {
        if ok {
            self.last_rate_milli_c = Some(rate_milli_c);
            self.last_threshold_pct = threshold_pct;
            self.last_rate_apply_ms = Some(now_ms);
        }
    }
}

} // verus!
