//! The configuration document that the control loops read, its defaults, and
//! how a partial update is merged into it.
use vstd::prelude::*;
use crate::types::{
    BatteryConfig, FanControlConfig, PowerConfig, PowerProfile, TelemetryConfig, UiConfig, UpdatesConfig,
};

verus! {

/// The whole configuration.
#[derive(Clone, Debug)]
pub struct Config {
    pub fan: FanControlConfig,
    pub power: PowerConfig,
    pub battery: BatteryConfig,
    pub updates: UpdatesConfig,
    pub telemetry: TelemetryConfig,
    pub ui: UiConfig,
}

/// An update: each section present replaces or merges into the current one.
#[derive(Clone, Debug)]
pub struct PartialConfig {
    pub fan: Option<FanControlConfig>,
    pub power: Option<PowerConfig>,
    pub battery: Option<BatteryConfig>,
    pub updates: Option<UpdatesConfig>,
    pub telemetry: Option<TelemetryConfig>,
    pub ui: Option<UiConfig>,
}

impl Default for Config {
    /// Conservative defaults: fan under firmware control, no power profile, no
    /// battery override.
    fn default() -> (r: Self)
        ensures
            r.fan.mode is None && r.fan.manual is None && r.fan.curve is None && r.fan.calibration is None,
            r.power.ac is None && r.power.battery is None,
            r.battery.charge_limit_max_pct is None && r.battery.charge_rate_milli_c is None
                && r.battery.charge_rate_soc_threshold_pct is None,
            !r.updates.auto_install,
            r.telemetry.poll_ms == 1000 && r.telemetry.retain_seconds == 1800,
            r.ui.theme is None,
    {
        Config {
            fan: FanControlConfig::default(),
            power: PowerConfig { ac: None, battery: None },
            battery: BatteryConfig {
                charge_limit_max_pct: None,
                charge_rate_milli_c: None,
                charge_rate_soc_threshold_pct: None,
            },
            updates: UpdatesConfig { auto_install: false },
            telemetry: TelemetryConfig::default(),
            ui: UiConfig { theme: None },
        }
    }
}

/// `new` if present, else `cur`.
pub open spec fn or_keep<T>(new: Option<T>, cur: Option<T>) -> Option<T> {
    if new is Some { new } else { cur }
}

/// A profile update merged into the current profile (an empty one if none):
/// each setting present replaces the current one.
pub open spec fn merged_profile(cur: Option<PowerProfile>, upd: PowerProfile) -> PowerProfile {
    let base = match cur {
        Some(p) => p,
        None => PowerProfile {
            tdp_watts: None,
            thermal_limit_c: None,
            epp_preference: None,
            governor: None,
            min_freq_mhz: None,
            max_freq_mhz: None,
        },
    };
    PowerProfile {
        tdp_watts: or_keep(upd.tdp_watts, base.tdp_watts),
        thermal_limit_c: or_keep(upd.thermal_limit_c, base.thermal_limit_c),
        epp_preference: or_keep(upd.epp_preference, base.epp_preference),
        governor: or_keep(upd.governor, base.governor),
        min_freq_mhz: or_keep(upd.min_freq_mhz, base.min_freq_mhz),
        max_freq_mhz: or_keep(upd.max_freq_mhz, base.max_freq_mhz),
    }
}

/// A power update merged into the current power section.
pub open spec fn merged_power(cur: PowerConfig, upd: PowerConfig) -> PowerConfig {
    PowerConfig {
        ac: match upd.ac {
            Some(a) => Some(merged_profile(cur.ac, a)),
            None => cur.ac,
        },
        battery: match upd.battery {
            Some(b) => Some(merged_profile(cur.battery, b)),
            None => cur.battery,
        },
    }
}

/// The configuration after an update: the fan, power, battery and UI sections
/// merge setting by setting (the state-of-charge threshold is always taken from
/// the update, so that it can be cleared); updates and telemetry are replaced.
pub open spec fn merged_config(cur: Config, upd: PartialConfig) -> Config {
    Config {
        fan: match upd.fan {
            Some(f) => FanControlConfig {
                mode: or_keep(f.mode, cur.fan.mode),
                manual: or_keep(f.manual, cur.fan.manual),
                curve: or_keep(f.curve, cur.fan.curve),
                calibration: or_keep(f.calibration, cur.fan.calibration),
            },
            None => cur.fan,
        },
        power: match upd.power {
            Some(p) => merged_power(cur.power, p),
            None => cur.power,
        },
        battery: match upd.battery {
            Some(b) => BatteryConfig {
                charge_limit_max_pct: or_keep(b.charge_limit_max_pct, cur.battery.charge_limit_max_pct),
                charge_rate_milli_c: or_keep(b.charge_rate_milli_c, cur.battery.charge_rate_milli_c),
                charge_rate_soc_threshold_pct: b.charge_rate_soc_threshold_pct,
            },
            None => cur.battery,
        },
        updates: match upd.updates {
            Some(u) => u,
            None => cur.updates,
        },
        telemetry: match upd.telemetry {
            Some(t) => t,
            None => cur.telemetry,
        },
        ui: match upd.ui {
            Some(u) => UiConfig { theme: or_keep(u.theme, cur.ui.theme) },
            None => cur.ui,
        },
    }
}

fn keep<T>(new: Option<T>, cur: Option<T>) -> (r: Option<T>)
    ensures
        r == or_keep(new, cur),
{
    match new {
        Some(v) => Some(v),
        None => cur,
    }
}

fn merge_profile(cur: Option<PowerProfile>, upd: PowerProfile) -> (r: PowerProfile)
    ensures
        r == merged_profile(cur, upd),
{
    let base = match cur {
        Some(p) => p,
        None => PowerProfile {
            tdp_watts: None,
            thermal_limit_c: None,
            epp_preference: None,
            governor: None,
            min_freq_mhz: None,
            max_freq_mhz: None,
        },
    };
    PowerProfile {
        tdp_watts: keep(upd.tdp_watts, base.tdp_watts),
        thermal_limit_c: keep(upd.thermal_limit_c, base.thermal_limit_c),
        epp_preference: keep(upd.epp_preference, base.epp_preference),
        governor: keep(upd.governor, base.governor),
        min_freq_mhz: keep(upd.min_freq_mhz, base.min_freq_mhz),
        max_freq_mhz: keep(upd.max_freq_mhz, base.max_freq_mhz),
    }
}

/// Merge the update `upd` into the configuration `cur`.
pub fn merge_config(cur: Config, upd: PartialConfig) -> (r: Config)
    ensures
        r == merged_config(cur, upd),
{
    let fan = match upd.fan {
        Some(f) => FanControlConfig {
            mode: keep(f.mode, cur.fan.mode),
            manual: keep(f.manual, cur.fan.manual),
            curve: keep(f.curve, cur.fan.curve),
            calibration: keep(f.calibration, cur.fan.calibration),
        },
        None => cur.fan,
    };
    let power = match upd.power {
        Some(p) => PowerConfig {
            ac: match p.ac {
                Some(a) => Some(merge_profile(cur.power.ac, a)),
                None => cur.power.ac,
            },
            battery: match p.battery {
                Some(b) => Some(merge_profile(cur.power.battery, b)),
                None => cur.power.battery,
            },
        },
        None => cur.power,
    };
    let battery = match upd.battery {
        Some(b) => BatteryConfig {
            charge_limit_max_pct: keep(b.charge_limit_max_pct, cur.battery.charge_limit_max_pct),
            charge_rate_milli_c: keep(b.charge_rate_milli_c, cur.battery.charge_rate_milli_c),
            charge_rate_soc_threshold_pct: b.charge_rate_soc_threshold_pct,
        },
        None => cur.battery,
    };
    let updates = match upd.updates {
        Some(u) => u,
        None => cur.updates,
    };
    let telemetry = match upd.telemetry {
        Some(t) => t,
        None => cur.telemetry,
    };
    let ui = match upd.ui {
        Some(u) => UiConfig { theme: keep(u.theme, cur.ui.theme) },
        None => cur.ui,
    };
    Config { fan, power, battery, updates, telemetry, ui }
}

} // verus!
