//! The fan control loop: mode state machine, hysteresis on the curve target and
//! rate-limited stepping. Each tick is a pure decision; the caller performs the
//! returned command and reports whether it succeeded.
use vstd::prelude::*;
use crate::curve::{
    apply_rate_limit, calculate_duty_from_curve, curve_duty, lemma_curve_monotonic, monotonic_curve, rate_step,
};
use crate::types::{CurveConfig, FanControlConfig, FanControlMode};

verus! {

/// What the caller does to the fan in this tick.
#[derive(Clone, Copy, Debug, PartialEq, Eq, Structural)]
pub enum FanCommand {
    /// Leave the fan as it is.
    Hold,
    /// Hand the fan back to firmware control.
    AutoControl,
    /// Set the fan duty to this percentage.
    SetDuty(u32),
}

/// State of the fan loop between ticks; it lives only as long as the loop.
#[derive(Clone, Copy, Debug)]
pub struct FanLoop {
    /// Duty last set successfully, if any since the last hand-back.
    pub last_duty: Option<u32>,
    /// Mode seen at the last completed tick.
    pub last_mode: Option<FanControlMode>,
    /// The accepted curve target.
    pub active_target: Option<u32>,
    /// Temperature at which the active target was last accepted.
    pub anchor_temp: i32,
}

/// Hysteresis on the curve target: an increase is taken at once; a decrease
/// only with no band, when the temperature has risen back above the anchor, or
/// when it has fallen by at least the band below it. Whenever a new target is
/// taken the anchor moves to the current temperature.
pub open spec fn accept_target(active: Option<u32>, anchor: i32, curve_target: u32, temp: i32, hys: u32) -> (
    Option<u32>,
    i32,
) {
    match active {
        None => (Some(curve_target), temp),
        Some(cur) => {
            if curve_target > cur {
                (Some(curve_target), temp)
            } else if curve_target < cur && (hys == 0 || temp > anchor || temp as int <= anchor as int
                - hys as int) {
                (Some(curve_target), temp)
            } else {
                (active, anchor)
            }
        },
    }
}

/// The duty that the next curve tick sets, stepping from the last one.
pub open spec fn next_duty(last: Option<u32>, target: u32, rate: u32) -> int {
    match last {
        Some(prev) => rate_step(prev as int, target as int, rate as int),
        None => target as int,
    }
}

/// A curve tick at temperature `temp`: the new state, and the command.
pub open spec fn curve_step(s: FanLoop, c: CurveConfig, temp: i32) -> (FanLoop, FanCommand) {
    let entering = s.last_mode != Some(FanControlMode::Curve);
    let active0 = if entering { None } else { s.active_target };
    let anchor0 = if entering { temp } else { s.anchor_temp };
    let ct = curve_duty(c.points@, temp as int) as u32;
    let (active, anchor) = accept_target(active0, anchor0, ct, temp, c.hysteresis_c);
    let tgt = active.unwrap();
    let next = next_duty(s.last_duty, tgt, c.rate_limit_pct_per_step) as u32;
    let cmd = if s.last_duty == Some(next) { FanCommand::Hold } else { FanCommand::SetDuty(next) };
    (FanLoop { last_duty: s.last_duty, last_mode: Some(FanControlMode::Curve), active_target: active, anchor_temp: anchor }, cmd)
}

/// One tick of the fan loop on the policy `cfg` and the temperature read for
/// this tick (`None` when the read failed or was not needed).
pub open spec fn fan_step(s: FanLoop, cfg: FanControlConfig, temp: Option<i32>) -> (FanLoop, FanCommand) {
    let mode = match cfg.mode { Some(m) => m, None => FanControlMode::Disabled };
    match mode {
        FanControlMode::Disabled => {
            if s.last_mode != Some(FanControlMode::Disabled) {
                (FanLoop { last_duty: None, last_mode: Some(FanControlMode::Disabled), ..s }, FanCommand::AutoControl)
            } else {
                (s, FanCommand::Hold)
            }
        },
        FanControlMode::Manual => match cfg.manual {
            Some(m) => {
                let d = if m.duty_pct > 100 { 100 } else { m.duty_pct };
                let cmd = if s.last_duty == Some(d) { FanCommand::Hold } else { FanCommand::SetDuty(d) };
                (FanLoop { last_mode: Some(FanControlMode::Manual), ..s }, cmd)
            },
            None => (FanLoop { last_duty: None, last_mode: Some(FanControlMode::Manual), ..s }, FanCommand::AutoControl),
        },
        FanControlMode::Curve => match cfg.curve {
            None => (FanLoop { last_duty: None, ..s }, FanCommand::AutoControl),
            Some(c) => match temp {
                None => (s, FanCommand::Hold),
                Some(t) => curve_step(s, c, t),
            },
        },
    }
}

/// The state after the caller reports the outcome of `cmd`: a duty counts as
/// applied only when setting it succeeded.
pub open spec fn fan_record(s: FanLoop, cmd: FanCommand, ok: bool) -> FanLoop {
    match cmd {
        FanCommand::SetDuty(d) => if ok { FanLoop { last_duty: Some(d), ..s } } else { s },
        _ => s,
    }
}

/// The loop follows the curve `c`: it is in curve mode with an accepted target
/// equal to the curve's duty at the anchor, and the last duty set is not above
/// that target.
pub open spec fn tracking(s: FanLoop, c: CurveConfig) -> bool {
    &&& s.last_mode == Some(FanControlMode::Curve)
    &&& s.active_target.is_some()
    &&& s.active_target.unwrap() as int == curve_duty(c.points@, s.anchor_temp as int)
    &&& (s.last_duty.is_some() ==> s.last_duty.unwrap() <= s.active_target.unwrap())
}

/// In curve mode a tick never moves the fan duty by more than the rate limit,
/// in either direction, from the last duty set.
pub proof fn lemma_curve_tick_rate_limited(s: FanLoop, cfg: FanControlConfig, temp: i32)
    requires
        cfg.mode == Some(FanControlMode::Curve),
        cfg.curve.is_some(),
        s.last_duty.is_some(),
    ensures
        fan_step(s, cfg, Some(temp)).1 matches FanCommand::SetDuty(d) ==> {
            let prev = s.last_duty.unwrap() as int;
            let rate = cfg.curve.unwrap().rate_limit_pct_per_step as int;
            d as int - prev <= rate && prev - d as int <= rate
        },
{
}

/// With a rising curve and a temperature that does not fall below the anchor,
/// a tick keeps the loop tracking the curve, never lowers the accepted target,
/// and never sets a duty below the last one: over a non-decreasing sequence of
/// temperatures the fan duty never decreases, whether or not each command
/// succeeds.
pub proof fn lemma_rising_temperature_never_lowers_duty(s: FanLoop, cfg: FanControlConfig, temp: i32, ok: bool)
    requires
        cfg.mode == Some(FanControlMode::Curve),
        cfg.curve.is_some(),
        monotonic_curve(cfg.curve.unwrap().points@),
        tracking(s, cfg.curve.unwrap()),
        s.anchor_temp <= temp,
    ensures
        ({
            let (s2, cmd) = fan_step(s, cfg, Some(temp));
            &&& tracking(s2, cfg.curve.unwrap())
            &&& tracking(fan_record(s2, cmd, ok), cfg.curve.unwrap())
            &&& s2.anchor_temp <= temp
            &&& s.active_target.unwrap() <= s2.active_target.unwrap()
            &&& (cmd matches FanCommand::SetDuty(d) ==> (s.last_duty.is_some() ==> s.last_duty.unwrap() <= d))
        }),
{
    let c = cfg.curve.unwrap();
    lemma_curve_monotonic(c.points@, s.anchor_temp as int, temp as int);
    lemma_curve_monotonic(c.points@, temp as int, temp as int);
}

/// The duty a command sets, if it sets one.
pub open spec fn duty_of(c: FanCommand) -> Option<u32> {
    match c {
        FanCommand::SetDuty(d) => Some(d),
        _ => None,
    }
}

/// The commands the loop issues over the temperatures `temps`, one tick each,
/// the outcome of each command taken from `oks`.
pub open spec fn curve_run(s: FanLoop, cfg: FanControlConfig, temps: Seq<i32>, oks: Seq<bool>) -> Seq<FanCommand>
    decreases temps.len(),
{
    if temps.len() == 0 || oks.len() == 0 {
        seq![]
    } else {
        let (s2, c) = fan_step(s, cfg, Some(temps[0]));
        seq![c] + curve_run(fan_record(s2, c, oks[0]), cfg, temps.drop_first(), oks.drop_first())
    }
}

/// Whether the temperatures never fall.
pub open spec fn rising(temps: Seq<i32>) -> bool {
    forall|i: int, j: int| 0 <= i < j < temps.len() ==> temps[i] <= temps[j]
}

proof fn lemma_rate_step_monotonic(p: int, a: int, b: int, r: int)
    requires
        p <= a <= b,
        r >= 0,
    ensures
        p <= rate_step(p, a, r) <= rate_step(p, b, r),
        rate_step(p, a, r) <= a,
{
}

/// What a run issues never falls below `d` while `d` is at most the duty the
/// loop would set now.
proof fn lemma_run_above(s: FanLoop, cfg: FanControlConfig, temps: Seq<i32>, oks: Seq<bool>, d: int)
    requires
        cfg.mode == Some(FanControlMode::Curve),
        cfg.curve.is_some(),
        monotonic_curve(cfg.curve.unwrap().points@),
        tracking(s, cfg.curve.unwrap()),
        rising(temps),
        temps.len() > 0 ==> s.anchor_temp <= temps[0],
        d <= next_duty(s.last_duty, s.active_target.unwrap(), cfg.curve.unwrap().rate_limit_pct_per_step),
    ensures
        forall|k: int|
            0 <= k < curve_run(s, cfg, temps, oks).len() && (#[trigger] duty_of(curve_run(s, cfg, temps, oks)[k])) is Some
                ==> d <= duty_of(curve_run(s, cfg, temps, oks)[k]).unwrap(),
    decreases temps.len(),
{
    if temps.len() > 0 && oks.len() > 0 {
        let c = cfg.curve.unwrap();
        let r = c.rate_limit_pct_per_step;
        let (s2, cmd) = fan_step(s, cfg, Some(temps[0]));
        let s3 = fan_record(s2, cmd, oks[0]);
        lemma_rising_temperature_never_lowers_duty(s, cfg, temps[0], oks[0]);
        let a = s.active_target.unwrap() as int;
        let a2 = s2.active_target.unwrap() as int;
        match s.last_duty {
            Some(p) => lemma_rate_step_monotonic(p as int, a, a2, r as int),
            None => {},
        }
        let n2 = next_duty(s2.last_duty, s2.active_target.unwrap(), r);
        assert(d <= n2);
        match s3.last_duty {
            Some(held) => lemma_rate_step_monotonic(held as int, held as int, a2, r as int),
            None => {},
        }
        assert(d <= next_duty(s3.last_duty, s3.active_target.unwrap(), r));
        let rest_t = temps.drop_first();
        let rest_o = oks.drop_first();
        assert(rest_t.len() > 0 ==> s3.anchor_temp <= rest_t[0]) by {
            if rest_t.len() > 0 {
                assert(temps[0] <= temps[1]);
            }
        }
        assert(rising(rest_t)) by {
            assert forall|i: int, j: int| 0 <= i < j < rest_t.len() implies rest_t[i] <= rest_t[j] by {
                assert(temps[i + 1] <= temps[j + 1]);
            }
        }
        lemma_run_above(s3, cfg, rest_t, rest_o, d);
        let run = curve_run(s, cfg, temps, oks);
        let rest = curve_run(s3, cfg, rest_t, rest_o);
        assert(run == seq![cmd] + rest);
        assert forall|k: int| 0 <= k < run.len() && (#[trigger] duty_of(run[k])) is Some implies d <= duty_of(run[k]).unwrap() by {
            if k > 0 {
                assert(run[k] == rest[k - 1]);
            }
        }
    }
}

/// Over any rising sequence of temperatures, on a rising curve, the duties the
/// loop sets never decrease, whichever of its writes succeed: fan duty follows
/// temperature upward only.
pub proof fn lemma_curve_run_non_decreasing(s: FanLoop, cfg: FanControlConfig, temps: Seq<i32>, oks: Seq<bool>)
    requires
        cfg.mode == Some(FanControlMode::Curve),
        cfg.curve.is_some(),
        monotonic_curve(cfg.curve.unwrap().points@),
        tracking(s, cfg.curve.unwrap()),
        rising(temps),
        temps.len() > 0 ==> s.anchor_temp <= temps[0],
    ensures
        forall|i: int, j: int|
            0 <= i < j < curve_run(s, cfg, temps, oks).len() && (#[trigger] duty_of(curve_run(s, cfg, temps, oks)[i])) is Some
                && (#[trigger] duty_of(curve_run(s, cfg, temps, oks)[j])) is Some ==> duty_of(
                curve_run(s, cfg, temps, oks)[i],
            ).unwrap() <= duty_of(curve_run(s, cfg, temps, oks)[j]).unwrap(),
    decreases temps.len(),
{
    if temps.len() > 0 && oks.len() > 0 {
        let c = cfg.curve.unwrap();
        let r = c.rate_limit_pct_per_step;
        let (s2, cmd) = fan_step(s, cfg, Some(temps[0]));
        let s3 = fan_record(s2, cmd, oks[0]);
        lemma_rising_temperature_never_lowers_duty(s, cfg, temps[0], oks[0]);
        let rest_t = temps.drop_first();
        let rest_o = oks.drop_first();
        assert(rest_t.len() > 0 ==> s3.anchor_temp <= rest_t[0]) by {
            if rest_t.len() > 0 {
                assert(temps[0] <= temps[1]);
            }
        }
        assert(rising(rest_t)) by {
            assert forall|i: int, j: int| 0 <= i < j < rest_t.len() implies rest_t[i] <= rest_t[j] by {
                assert(temps[i + 1] <= temps[j + 1]);
            }
        }
        lemma_curve_run_non_decreasing(s3, cfg, rest_t, rest_o);
        let run = curve_run(s, cfg, temps, oks);
        let rest = curve_run(s3, cfg, rest_t, rest_o);
        assert(run == seq![cmd] + rest);
        if let FanCommand::SetDuty(d0) = cmd {
            let a2 = s2.active_target.unwrap() as int;
            match s3.last_duty {
                Some(held) => lemma_rate_step_monotonic(held as int, held as int, a2, r as int),
                None => {},
            }
            assert(d0 <= next_duty(s3.last_duty, s3.active_target.unwrap(), r)) by {
                if !oks[0] {
                    match s.last_duty {
                        Some(p) => lemma_rate_step_monotonic(p as int, p as int, a2, r as int),
                        None => {},
                    }
                }
            }
            lemma_run_above(s3, cfg, rest_t, rest_o, d0 as int);
        }
        assert forall|i: int, j: int|
            0 <= i < j < run.len() && (#[trigger] duty_of(run[i])) is Some && (#[trigger] duty_of(run[j])) is Some
                implies duty_of(run[i]).unwrap() <= duty_of(run[j]).unwrap() by {
            assert(run[j] == rest[j - 1]);
            if i > 0 {
                assert(run[i] == rest[i - 1]);
            }
        }
    }
}

/// The last duty set before each tick of the run `curve_run(s, cfg, temps, oks)`.
pub open spec fn run_prev(s: FanLoop, cfg: FanControlConfig, temps: Seq<i32>, oks: Seq<bool>) -> Seq<Option<u32>>
    decreases temps.len(),
{
    if temps.len() == 0 || oks.len() == 0 {
        seq![]
    } else {
        let (s2, c) = fan_step(s, cfg, Some(temps[0]));
        seq![s.last_duty] + run_prev(fan_record(s2, c, oks[0]), cfg, temps.drop_first(), oks.drop_first())
    }
}

/// Over any run of temperatures in curve mode, every duty the loop sets differs
/// from the duty last set before it by at most the rate limit.
pub proof fn lemma_curve_run_rate_limited(s: FanLoop, cfg: FanControlConfig, temps: Seq<i32>, oks: Seq<bool>)
    requires
        cfg.mode == Some(FanControlMode::Curve),
        cfg.curve.is_some(),
    ensures
        run_prev(s, cfg, temps, oks).len() == curve_run(s, cfg, temps, oks).len(),
        forall|k: int|
            0 <= k < curve_run(s, cfg, temps, oks).len() && (#[trigger] duty_of(curve_run(s, cfg, temps, oks)[k])) is Some
                && run_prev(s, cfg, temps, oks)[k] is Some ==> {
                let d = duty_of(curve_run(s, cfg, temps, oks)[k]).unwrap() as int;
                let p = run_prev(s, cfg, temps, oks)[k].unwrap() as int;
                let r = cfg.curve.unwrap().rate_limit_pct_per_step as int;
                d - p <= r && p - d <= r
            },
    decreases temps.len(),
{
    if temps.len() > 0 && oks.len() > 0 {
        let (s2, cmd) = fan_step(s, cfg, Some(temps[0]));
        let s3 = fan_record(s2, cmd, oks[0]);
        let rest_t = temps.drop_first();
        let rest_o = oks.drop_first();
        lemma_curve_run_rate_limited(s3, cfg, rest_t, rest_o);
        if s.last_duty.is_some() {
            lemma_curve_tick_rate_limited(s, cfg, temps[0]);
        }
        let run = curve_run(s, cfg, temps, oks);
        let prev = run_prev(s, cfg, temps, oks);
        let rest = curve_run(s3, cfg, rest_t, rest_o);
        let rest_prev = run_prev(s3, cfg, rest_t, rest_o);
        assert(run == seq![cmd] + rest);
        assert(prev == seq![s.last_duty] + rest_prev);
        assert forall|k: int|
            0 <= k < run.len() && (#[trigger] duty_of(run[k])) is Some && prev[k] is Some implies {
                let d = duty_of(run[k]).unwrap() as int;
                let p = prev[k].unwrap() as int;
                let r = cfg.curve.unwrap().rate_limit_pct_per_step as int;
                d - p <= r && p - d <= r
            } by {
            if k > 0 {
                assert(run[k] == rest[k - 1]);
                assert(prev[k] == rest_prev[k - 1]);
            }
        }
    }
}

/// From a loop that is not yet following the curve (as a new loop), over any
/// rising sequence of temperatures on a rising curve, the duties the loop sets
/// never decrease, whichever of its writes succeed, provided the duty last set
/// before, if any, is not above the curve at the first temperature.
pub proof fn lemma_curve_run_from_start(s: FanLoop, cfg: FanControlConfig, temps: Seq<i32>, oks: Seq<bool>)
    requires
        cfg.mode == Some(FanControlMode::Curve),
        cfg.curve.is_some(),
        monotonic_curve(cfg.curve.unwrap().points@),
        s.last_mode != Some(FanControlMode::Curve),
        rising(temps),
        temps.len() > 0 && s.last_duty.is_some() ==> s.last_duty.unwrap() as int <= curve_duty(
            cfg.curve.unwrap().points@,
            temps[0] as int,
        ),
    ensures
        forall|i: int, j: int|
            0 <= i < j < curve_run(s, cfg, temps, oks).len() && (#[trigger] duty_of(curve_run(s, cfg, temps, oks)[i])) is Some
                && (#[trigger] duty_of(curve_run(s, cfg, temps, oks)[j])) is Some ==> duty_of(
                curve_run(s, cfg, temps, oks)[i],
            ).unwrap() <= duty_of(curve_run(s, cfg, temps, oks)[j]).unwrap(),
{
    if temps.len() > 0 && oks.len() > 0 {
        let c = cfg.curve.unwrap();
        let r = c.rate_limit_pct_per_step;
        let t0 = temps[0];
        lemma_curve_monotonic(c.points@, t0 as int, t0 as int);
        let (s2, cmd) = fan_step(s, cfg, Some(t0));
        let s3 = fan_record(s2, cmd, oks[0]);
        let ct = s2.active_target.unwrap() as int;
        assert(ct == curve_duty(c.points@, t0 as int));
        assert(s2.anchor_temp == t0);
        match s.last_duty {
            Some(p) => lemma_rate_step_monotonic(p as int, ct, ct, r as int),
            None => {},
        }
        assert(tracking(s2, c));
        assert(tracking(s3, c));
        let rest_t = temps.drop_first();
        let rest_o = oks.drop_first();
        assert(rest_t.len() > 0 ==> s3.anchor_temp <= rest_t[0]) by {
            if rest_t.len() > 0 {
                assert(temps[0] <= temps[1]);
            }
        }
        assert(rising(rest_t)) by {
            assert forall|i: int, j: int| 0 <= i < j < rest_t.len() implies rest_t[i] <= rest_t[j] by {
                assert(temps[i + 1] <= temps[j + 1]);
            }
        }
        lemma_curve_run_non_decreasing(s3, cfg, rest_t, rest_o);
        let run = curve_run(s, cfg, temps, oks);
        let rest = curve_run(s3, cfg, rest_t, rest_o);
        assert(run == seq![cmd] + rest);
        if let FanCommand::SetDuty(d0) = cmd {
            match s3.last_duty {
                Some(held) => lemma_rate_step_monotonic(held as int, held as int, ct, r as int),
                None => {},
            }
            assert(d0 <= next_duty(s3.last_duty, s3.active_target.unwrap(), r)) by {
                if !oks[0] {
                    match s.last_duty {
                        Some(p) => lemma_rate_step_monotonic(p as int, p as int, ct, r as int),
                        None => {},
                    }
                }
            }
            lemma_run_above(s3, cfg, rest_t, rest_o, d0 as int);
        }
        assert forall|i: int, j: int|
            0 <= i < j < run.len() && (#[trigger] duty_of(run[i])) is Some && (#[trigger] duty_of(run[j])) is Some
                implies duty_of(run[i]).unwrap() <= duty_of(run[j]).unwrap() by {
            assert(run[j] == rest[j - 1]);
            if i > 0 {
                assert(run[i] == rest[i - 1]);
            }
        }
    }
}

/// Hysteresis: once a target is accepted, a tick whose temperature has not
/// risen above the anchor and lies within the band never lowers the accepted
/// target.
pub proof fn lemma_hysteresis_holds_target(s: FanLoop, cfg: FanControlConfig, temp: i32)
    requires
        cfg.mode == Some(FanControlMode::Curve),
        cfg.curve.is_some(),
        s.last_mode == Some(FanControlMode::Curve),
        s.active_target.is_some(),
        (s.anchor_temp as int) - (cfg.curve.unwrap().hysteresis_c as int) < temp <= s.anchor_temp,
    ensures
        fan_step(s, cfg, Some(temp)).0.active_target.is_some(),
        s.active_target.unwrap() <= fan_step(s, cfg, Some(temp)).0.active_target.unwrap(),
{
}

impl FanLoop {
    /// A loop that has not ticked yet.
    pub fn new() -> (r: FanLoop)
        ensures
            r.last_duty.is_none(),
            r.last_mode.is_none(),
            r.active_target.is_none(),
            r.anchor_temp == 0,
    {
        FanLoop { last_duty: None, last_mode: None, active_target: None, anchor_temp: 0 }
    }

    /// Whether this tick needs a temperature reading (curve mode with a curve).
    pub fn needs_temperature(cfg: &FanControlConfig) -> (r: bool)
        ensures
            r == (cfg.mode == Some(FanControlMode::Curve) && cfg.curve.is_some()),
    {
        match (cfg.mode, &cfg.curve) {
            (Some(FanControlMode::Curve), Some(_)) => true,
            _ => false,
        }
    }

    /// Poll interval for this tick: the curve's in curve mode, else 500 ms.
    pub fn poll_interval_ms(cfg: &FanControlConfig) -> (r: u64)
        ensures
            r == (match (cfg.mode, cfg.curve) {
                (Some(FanControlMode::Curve), Some(c)) => c.poll_ms,
                _ => 500u64,
            }),
    {
        match (cfg.mode, &cfg.curve) {
            (Some(FanControlMode::Curve), Some(c)) => c.poll_ms,
            _ => 500,
        }
    }

    /// One tick: decide the fan command from the policy and the temperature
    /// read for this tick, and advance the loop state.
    pub fn tick(&mut self, cfg: &FanControlConfig, temp: Option<i32>) -> (r: FanCommand)
        ensures
            (*final(self), r) == fan_step(*old(self), *cfg, temp),
    {
        let mode = match cfg.mode {
            Some(m) => m,
            None => FanControlMode::Disabled,
        };
        match mode {
            FanControlMode::Disabled => {
                if self.last_mode != Some(FanControlMode::Disabled) {
                    self.last_duty = None;
                    self.last_mode = Some(FanControlMode::Disabled);
                    FanCommand::AutoControl
                } else {
                    FanCommand::Hold
                }
            },
            FanControlMode::Manual => {
                self.last_mode = Some(FanControlMode::Manual);
                match &cfg.manual {
                    Some(m) => {
                        let d = if m.duty_pct > 100 { 100 } else { m.duty_pct };
                        if self.last_duty == Some(d) {
                            FanCommand::Hold
                        } else {
                            FanCommand::SetDuty(d)
                        }
                    },
                    None => {
                        self.last_duty = None;
                        FanCommand::AutoControl
                    },
                }
            },
            FanControlMode::Curve => match &cfg.curve {
                None => {
                    self.last_duty = None;
                    FanCommand::AutoControl
                },
                Some(c) => match temp {
                    None => FanCommand::Hold,
                    Some(t) => self.curve_tick(c, t),
                },
            },
        }
    }

    fn curve_tick(&mut self, c: &CurveConfig, temp: i32) -> (r: FanCommand)
        ensures
            (*final(self), r) == curve_step(*old(self), *c, temp),
    {
        if self.last_mode != Some(FanControlMode::Curve) {
            self.anchor_temp = temp;
            self.active_target = None;
        }
        let ct = calculate_duty_from_curve(temp, c.points.as_slice());
        match self.active_target {
            None => {
                self.active_target = Some(ct);
                self.anchor_temp = temp;
            },
            Some(cur) => {
                if ct > cur {
                    self.active_target = Some(ct);
                    self.anchor_temp = temp;
                } else if ct < cur && (c.hysteresis_c == 0 || temp > self.anchor_temp || (temp as i64)
                    <= (self.anchor_temp as i64) - (c.hysteresis_c as i64)) {
                    self.active_target = Some(ct);
                    self.anchor_temp = temp;
                }
            },
        }
        let tgt = match self.active_target {
            Some(t) => t,
            None => ct,
        };
        let next = match self.last_duty {
            Some(prev) => apply_rate_limit(prev, tgt, c.rate_limit_pct_per_step),
            None => tgt,
        };
        self.last_mode = Some(FanControlMode::Curve);
        if self.last_duty == Some(next) {
            FanCommand::Hold
        } else {
            FanCommand::SetDuty(next)
        }
    }

    /// Report the outcome of performing `cmd`.
    pub fn record(&mut self, cmd: FanCommand, ok: bool)
        ensures
            *final(self) == fan_record(*old(self), cmd, ok),
    {
        if let FanCommand::SetDuty(d) = cmd {
            if ok {
                self.last_duty = Some(d);
            }
        }
    }
}

} // verus!
