use framework_control::backend::{frequency_span, is_available, rapl_tdp_range, LinuxPower, PowerWrite, RyzenAdj};
use framework_control::battery::{BatteryLoop, RateSetting};
use framework_control::cache::{CacheLookup, CacheSlot};
use framework_control::power::{PowerDecision, PowerLoop, ProfileTargets};
use framework_control::resolver::{Resource, ResolverAction};
use framework_control::types::{
    default_hysteresis_c, default_points, default_poll_ms, default_rate_limit_pct_per_step, default_telemetry_poll_ms,
    default_telemetry_retain_seconds, BatteryConfig, PowerConfig, PowerProfile, SettingString, SettingU32, SettingU8,
    TelemetryConfig,
};

fn profile(tdp: u32, tdp_on: bool) -> PowerProfile {
    PowerProfile {
        tdp_watts: Some(SettingU32 { enabled: tdp_on, value: tdp }),
        thermal_limit_c: Some(SettingU32 { enabled: true, value: 90 }),
        epp_preference: Some(SettingString { enabled: true, value: "balance_power".to_string() }),
        governor: Some(SettingString { enabled: true, value: "powersave".to_string() }),
        min_freq_mhz: Some(SettingU32 { enabled: true, value: 400 }),
        max_freq_mhz: Some(SettingU32 { enabled: false, value: 3000 }),
    }
}

fn on_ac(p: PowerProfile) -> PowerConfig {
    PowerConfig { ac: Some(p), battery: None }
}

#[test]
fn same_profile_written_once() {
    let cfg = on_ac(profile(25, true));
    let mut lp = PowerLoop::new(0);
    let d = lp.tick(&cfg, Some(true), 1_000);
    let t = match d {
        PowerDecision::Apply(t) => t,
        PowerDecision::Hold => panic!("first tick must apply"),
    };
    assert_eq!(t.tdp_watts, Some(25));
    assert_eq!(t.thermal_limit_c, Some(90));
    assert_eq!(t.max_freq_mhz, None);
    lp.record(&t, true, 1_000);
    assert!(matches!(lp.tick(&cfg, Some(true), 2_000), PowerDecision::Hold));
}

#[test]
fn reenabled_field_reapplied_once() {
    let on = on_ac(profile(25, true));
    let off = on_ac(profile(25, false));
    let mut lp = PowerLoop::new(0);
    if let PowerDecision::Apply(t) = lp.tick(&on, Some(true), 1_000) {
        lp.record(&t, true, 1_000);
    }
    // disabling leaves the hardware alone
    assert!(matches!(lp.tick(&off, Some(true), 2_000), PowerDecision::Hold));
    assert_eq!(lp.last.tdp_watts, None);
    let d = lp.tick(&on, Some(true), 3_000);
    let t = match d {
        PowerDecision::Apply(t) => t,
        PowerDecision::Hold => panic!("re-enabled field must be applied"),
    };
    assert_eq!(t.tdp_watts, Some(25));
    lp.record(&t, true, 3_000);
    assert!(matches!(lp.tick(&on, Some(true), 4_000), PowerDecision::Hold));
}

#[test]
fn drift_reapplied_after_quiet_and_cooldown() {
    let cfg = on_ac(profile(25, true));
    let mut lp = PowerLoop::new(0);
    if let PowerDecision::Apply(t) = lp.tick(&cfg, Some(true), 0) {
        lp.record(&t, true, 0);
    }
    lp.observe(Some(35), None, 10_000);
    // drifted, but neither quiet long enough nor past the cooldown
    assert!(matches!(lp.tick(&cfg, Some(true), 60_000), PowerDecision::Hold));
    // quiet for 60 s but the cooldown of 120 s has not passed
    assert!(matches!(lp.tick(&cfg, Some(true), 100_000), PowerDecision::Hold));
    assert!(matches!(lp.tick(&cfg, Some(true), 120_000), PowerDecision::Apply(_)));
    // within tolerance: no reapply
    lp.observe(Some(27), None, 130_000);
    assert!(matches!(lp.tick(&cfg, Some(true), 900_000), PowerDecision::Hold));
}

#[test]
fn power_source_selects_profile() {
    let cfg = PowerConfig { ac: None, battery: Some(profile(15, true)) };
    let mut lp = PowerLoop::new(0);
    assert!(matches!(lp.tick(&cfg, Some(true), 0), PowerDecision::Hold));
    assert!(matches!(lp.tick(&cfg, None, 0), PowerDecision::Hold));
    match lp.tick(&cfg, Some(false), 0) {
        PowerDecision::Apply(t) => assert_eq!(t.tdp_watts, Some(15)),
        PowerDecision::Hold => panic!("battery profile must apply"),
    }
}

#[test]
fn linux_plan_orders_writes() {
    let lp = LinuxPower { rapl: true, amd_pstate: true, cpufreq: true, frequency_range: Some((400, 5000)) };
    let mut p = profile(28, true);
    p.max_freq_mhz = Some(SettingU32 { enabled: true, value: 3000 });
    let plan = lp.apply_profile(&ProfileTargets::of(&p));
    assert_eq!(plan.len(), 4);
    assert!(matches!(plan[0], PowerWrite::SetTdp(28)));
    assert!(matches!(&plan[1], PowerWrite::SetGovernor(g) if g == "powersave"));
    assert!(matches!(&plan[2], PowerWrite::SetEppIfAvailable(e) if e == "balance_power"));
    assert!(matches!(plan[3], PowerWrite::SetFrequencyLimits(400, 3000)));
    let vendor = RyzenAdj::apply_profile(&ProfileTargets::of(&p));
    assert_eq!(vendor.len(), 2);
    assert!(matches!(vendor[1], PowerWrite::SetThermalLimit(90)));
    let none = LinuxPower { rapl: false, amd_pstate: false, cpufreq: false, frequency_range: None };
    assert!(none.apply_profile(&ProfileTargets::of(&p)).is_empty());
}

#[test]
fn method_names() {
    let all = LinuxPower { rapl: true, amd_pstate: true, cpufreq: true, frequency_range: None };
    assert_eq!(all.method_name(), "rapl+amd-pstate+cpufreq");
    let one = LinuxPower { rapl: false, amd_pstate: false, cpufreq: true, frequency_range: None };
    assert_eq!(one.method_name(), "cpufreq");
    let none = LinuxPower { rapl: false, amd_pstate: false, cpufreq: false, frequency_range: None };
    assert_eq!(none.method_name(), "none");
}

#[test]
fn capabilities_aggregate() {
    let lp = LinuxPower { rapl: true, amd_pstate: false, cpufreq: true, frequency_range: Some((0, 4800)) };
    let caps = lp.get_capabilities(Some(vec!["power".to_string()]), Some(vec!["performance".to_string()]));
    assert!(caps.supports_tdp);
    assert_eq!(caps.tdp_min_watts, Some(15));
    assert_eq!(caps.tdp_max_watts, Some(120));
    assert!(!caps.supports_epp);
    assert_eq!(caps.available_epp_preferences, None);
    assert_eq!(caps.available_governors, Some(vec!["performance".to_string()]));
    assert_eq!(caps.frequency_min_mhz, None);
    assert_eq!(caps.frequency_max_mhz, Some(4800));
    assert_eq!(rapl_tdp_range(), (15, 120));
}

#[test]
fn availability_and_frequency_span() {
    let prefs = vec!["default".to_string(), "power".to_string()];
    assert!(is_available(&prefs, "power"));
    assert!(!is_available(&prefs, "performance"));
    assert_eq!(frequency_span(&vec![Some(1_400_000), None, Some(3_999_999), Some(800_500)]), Some((800, 3999)));
    assert_eq!(frequency_span(&vec![None, None]), None);
}

#[test]
fn battery_plan_clamps_snaps_and_reapplies() {
    let cfg = BatteryConfig {
        charge_limit_max_pct: Some(SettingU8 { enabled: true, value: 10 }),
        charge_rate_milli_c: Some(SettingU32 { enabled: true, value: 333 }),
        charge_rate_soc_threshold_pct: Some(80),
    };
    let mut b = BatteryLoop::new();
    let plan = b.plan(&cfg, 0);
    assert_eq!(plan.set_limit_pct, Some(25));
    assert_eq!(plan.set_rate, Some(RateSetting { rate_milli_c: 350, threshold_pct: Some(80) }));
    b.record_limit(25, true, 0);
    b.record_rate(350, Some(80), true, 0);
    let again = b.plan(&cfg, 60_000);
    assert_eq!(again.set_limit_pct, None);
    assert_eq!(again.set_rate, None);
    let later = b.plan(&cfg, 1_800_000);
    assert_eq!(later.set_limit_pct, Some(25));
    let off = BatteryConfig {
        charge_limit_max_pct: Some(SettingU8 { enabled: false, value: 60 }),
        charge_rate_milli_c: Some(SettingU32 { enabled: false, value: 200 }),
        charge_rate_soc_threshold_pct: None,
    };
    let plan = b.plan(&off, 60_000);
    assert_eq!(plan.set_limit_pct, Some(100));
    assert_eq!(plan.set_rate, Some(RateSetting { rate_milli_c: 1000, threshold_pct: None }));
    let high = BatteryConfig {
        charge_limit_max_pct: None,
        charge_rate_milli_c: Some(SettingU32 { enabled: true, value: 4000 }),
        charge_rate_soc_threshold_pct: None,
    };
    let plan = BatteryLoop::new().plan(&high, 0);
    assert_eq!(plan.set_limit_pct, None);
    assert_eq!(plan.set_rate, Some(RateSetting { rate_milli_c: 1000, threshold_pct: None }));
}

#[test]
fn cache_single_flight_and_ttl() {
    let mut slot: CacheSlot<u32, String> = CacheSlot::new();
    assert_eq!(slot.begin(0, 2_000, true), CacheLookup::Refresh);
    for t in [1, 2, 3] {
        assert_eq!(slot.begin(t, 2_000, true), CacheLookup::Wait);
    }
    slot.finish(Ok(7), 10, true);
    assert_eq!(slot.begin(500, 2_000, true), CacheLookup::Fresh);
    assert_eq!(slot.value(), Some(&7));
    assert_eq!(slot.begin(2_010, 2_000, true), CacheLookup::Refresh);
    slot.finish(Err("timed out".to_string()), 2_020, true);
    assert_eq!(slot.value(), None);
    assert_eq!(slot.begin(3_000, 2_000, true), CacheLookup::FreshError);
    assert_eq!(slot.error(), Some(&"timed out".to_string()));
    // a caller that does not take cached errors refreshes at once
    assert_eq!(slot.begin(3_000, 2_000, false), CacheLookup::Refresh);
    slot.finish(Ok(9), 3_100, false);
    assert_eq!(slot.error(), None);
    assert_eq!(slot.begin(3_200, 2_000, true), CacheLookup::Fresh);
    assert_eq!(slot.value(), Some(&9));
}

#[test]
fn failed_probe_empties_handle() {
    let mut r: Resource<String> = Resource::new();
    assert_eq!(r.next_action(), ResolverAction::Acquire);
    r.record_acquire(None);
    assert_eq!(r.current(), None);
    r.record_acquire(Some("/usr/bin/framework_tool".to_string()));
    assert_eq!(r.next_action(), ResolverAction::Probe);
    r.record_probe(true);
    assert_eq!(r.current(), Some(&"/usr/bin/framework_tool".to_string()));
    r.record_probe(false);
    assert_eq!(r.current(), None);
    assert_eq!(r.next_action(), ResolverAction::Acquire);
}

#[test]
fn defaults() {
    assert_eq!(default_points(), vec![[40, 0], [60, 40], [75, 80], [85, 100]]);
    assert_eq!(default_poll_ms(), 2000);
    assert_eq!(default_hysteresis_c(), 2);
    assert_eq!(default_rate_limit_pct_per_step(), 100);
    assert_eq!(default_telemetry_poll_ms(), 1000);
    assert_eq!(default_telemetry_retain_seconds(), 1800);
    let t = TelemetryConfig::default();
    assert_eq!((t.poll_ms, t.retain_seconds), (1000, 1800));
}

#[test]
fn thermal_drift_reapplied_after_longer_cooldown() {
    let cfg = on_ac(profile(25, true));
    let mut lp = PowerLoop::new(0);
    if let PowerDecision::Apply(t) = lp.tick(&cfg, Some(true), 0) {
        lp.record(&t, true, 0);
    }
    // the tool reports 85 °C against a target of 90 °C
    lp.observe(None, Some(85), 10_000);
    // quiet long enough and past the power-limit cooldown, but not the 300 s one
    assert!(matches!(lp.tick(&cfg, Some(true), 200_000), PowerDecision::Hold));
    assert!(matches!(lp.tick(&cfg, Some(true), 300_000), PowerDecision::Apply(_)));
    // a matching reading is no drift
    lp.observe(None, Some(90), 310_000);
    assert!(matches!(lp.tick(&cfg, Some(true), 900_000), PowerDecision::Hold));
}
