use std::collections::VecDeque;

use framework_control::backend::{cpu_sort_key, default_epp_preferences, is_cpu_dir, LinuxPower};
use framework_control::config::{merge_config, Config, PartialConfig};
use framework_control::telemetry::{record_sample, telemetry_poll_ms};
use framework_control::types::{
    FanControlConfig, FanControlMode, PowerConfig, PowerProfile, SettingU32, TelemetryConfig, TelemetrySample,
};
use framework_control::vendor_info::parse_info;
use framework_control::versions::parse_versions;
use framework_control::web::{guess_mime, is_valid_token, parse_github_repo, pick_dedicated_gpu, sanitize_path};

#[test]
fn versions_sample() {
    let text = "Mainboard Hardware\n  Type:           Laptop 13 (AMD Ryzen 7040 Series)\n  Revision:       MassProduction\nUEFI BIOS\n  Version:        03.05\n  Release Date:   03/29/2024\nEC Firmware\n  Build version:  \"lilac-3.0.0 2024-01-10\"\n\tCurrent image:  RO\n";
    let v = parse_versions(text);
    assert_eq!(v.mainboard_type.as_deref(), Some("Laptop 13 (AMD Ryzen 7040 Series)"));
    assert_eq!(v.mainboard_revision.as_deref(), Some("MassProduction"));
    assert_eq!(v.uefi_version.as_deref(), Some("03.05"));
    assert_eq!(v.uefi_release_date.as_deref(), Some("03/29/2024"));
    assert_eq!(v.ec_build_version.as_deref(), Some("\"lilac-3.0.0 2024-01-10\""));
    assert_eq!(v.ec_current_image.as_deref(), Some("RO"));
    let empty = parse_versions("");
    assert_eq!(empty.uefi_version, None);
    let tabbed = parse_versions("UEFI BIOS\n  Version: a\tb\n");
    assert_eq!(tabbed.uefi_version.as_deref(), Some("a    b"));
}

#[test]
fn vendor_table_sample() {
    let text = "|        Name         |   Value   |     Parameter      |\n|---------------------|-----------|--------------------|\n| STAPM LIMIT         |    28.000 | stapm-limit        |\n| PPT LIMIT FAST      |    35.000 | fast-limit         |\n| PPT LIMIT SLOW      |    30.500 | slow-limit         |\n| THM LIMIT CORE      |    95.000 | tctl-temp          |\n";
    let info = parse_info(text);
    assert_eq!(info.tdp_watts, Some(28));
    assert_eq!(info.thermal_limit_c, Some(95));
    let low = parse_info("| STAPM LIMIT | 0.400 | stapm-limit |\n| TCTL | -3.5 | x |\n");
    assert_eq!(low.tdp_watts, Some(1));
    assert_eq!(low.thermal_limit_c, Some(0));
    let none = parse_info("");
    assert_eq!(none.tdp_watts, None);
    assert_eq!(none.thermal_limit_c, None);
    let rounded = parse_info("| PPT LIMIT SLOW | 30.5 | slow |\n");
    assert_eq!(rounded.tdp_watts, Some(31));
}

#[test]
fn static_paths_and_types() {
    assert_eq!(sanitize_path("/").as_deref(), Some("index.html"));
    assert_eq!(sanitize_path("").as_deref(), Some("index.html"));
    assert_eq!(sanitize_path("//docs/").as_deref(), Some("index.html"));
    assert_eq!(sanitize_path("/assets/app.js").as_deref(), Some("assets/app.js"));
    assert_eq!(sanitize_path("/../etc/passwd"), None);
    assert_eq!(guess_mime("APP.JS"), "application/javascript");
    assert_eq!(guess_mime("index.html"), "text/html; charset=utf-8");
    assert_eq!(guess_mime("font.woff2"), "font/woff2");
    assert_eq!(guess_mime("data.bin"), "application/octet-stream");
}

#[test]
fn token_check() {
    assert!(is_valid_token(Some("abc"), Some("Bearer abc")));
    assert!(is_valid_token(Some("abc"), Some("abc")));
    assert!(!is_valid_token(Some("abc"), Some("Bearer xyz")));
    assert!(!is_valid_token(None, Some("Bearer abc")));
    assert!(!is_valid_token(Some("abc"), None));
}

#[test]
fn dedicated_gpu_pick() {
    let names = vec!["AMD Radeon 780M".to_string(), "NVIDIA GeForce RTX 4060".to_string()];
    assert_eq!(pick_dedicated_gpu(&names).as_deref(), Some("NVIDIA GeForce RTX 4060"));
    let integrated = vec!["Intel UHD Graphics 620".to_string()];
    assert_eq!(pick_dedicated_gpu(&integrated), None);
    let other = vec!["Intel Iris Xe".to_string(), "Basic Display Adapter".to_string()];
    assert_eq!(pick_dedicated_gpu(&other).as_deref(), Some("Basic Display Adapter"));
}

#[test]
fn repo_setting() {
    assert_eq!(parse_github_repo("owner/name"), Some(("owner".to_string(), "name".to_string())));
    assert_eq!(parse_github_repo("a/b/c"), Some(("a".to_string(), "b/c".to_string())));
    assert_eq!(parse_github_repo("https://github.com/o/n"), Some(("o".to_string(), "n".to_string())));
    assert_eq!(parse_github_repo("https://github.com/o/"), None);
    assert_eq!(parse_github_repo("solo"), Some(("solo".to_string(), "solo".to_string())));
    assert_eq!(parse_github_repo(""), None);
}

#[test]
fn config_merge() {
    let cur = Config::default();
    assert_eq!(cur.telemetry.poll_ms, 1000);
    let upd = PartialConfig {
        fan: Some(FanControlConfig { mode: Some(FanControlMode::Curve), manual: None, curve: None, calibration: None }),
        power: Some(PowerConfig {
            ac: Some(PowerProfile {
                tdp_watts: Some(SettingU32 { enabled: true, value: 30 }),
                thermal_limit_c: None,
                epp_preference: None,
                governor: None,
                min_freq_mhz: None,
                max_freq_mhz: None,
            }),
            battery: None,
        }),
        battery: None,
        updates: None,
        telemetry: Some(TelemetryConfig { poll_ms: 500, retain_seconds: 60 }),
        ui: None,
    };
    let merged = merge_config(cur, upd);
    assert_eq!(merged.fan.mode, Some(FanControlMode::Curve));
    let ac = merged.power.ac.expect("ac profile");
    assert_eq!(ac.tdp_watts, Some(SettingU32 { enabled: true, value: 30 }));
    assert_eq!(ac.thermal_limit_c, None);
    assert!(merged.power.battery.is_none());
    assert_eq!(merged.telemetry.retain_seconds, 60);
}

fn sample(ts: i64) -> TelemetrySample {
    TelemetrySample { ts_ms: ts, temps: vec![("APU".to_string(), 50)], rpms: vec![] }
}

#[test]
fn telemetry_window() {
    let mut q: VecDeque<TelemetrySample> = VecDeque::new();
    record_sample(&mut q, sample(0), 2);
    record_sample(&mut q, sample(1_000), 2);
    record_sample(&mut q, sample(2_000), 2);
    assert_eq!(q.len(), 3);
    record_sample(&mut q, sample(3_500), 2);
    let kept: Vec<i64> = q.iter().map(|s| s.ts_ms).collect();
    assert_eq!(kept, vec![2_000, 3_500]);
    assert_eq!(telemetry_poll_ms(&TelemetryConfig { poll_ms: 50, retain_seconds: 1 }), 200);
    assert_eq!(telemetry_poll_ms(&TelemetryConfig { poll_ms: 1500, retain_seconds: 1 }), 1500);
}

#[test]
fn cpu_dirs_and_state() {
    assert!(is_cpu_dir("cpu12"));
    assert!(is_cpu_dir("cpu"));
    assert!(!is_cpu_dir("cpufreq"));
    assert!(!is_cpu_dir("node0"));
    assert_eq!(cpu_sort_key("cpu12"), 12);
    assert_eq!(cpu_sort_key("cpu"), 999999);
    assert_eq!(default_epp_preferences().len(), 5);
    let lp = LinuxPower { rapl: true, amd_pstate: false, cpufreq: true, frequency_range: None };
    let st = lp.get_state(Some(28_500_000), Some("power".to_string()), Some("powersave".to_string()), Some(1_800_000), &vec![Some(1_800_000), Some(3_200_000)]);
    assert_eq!(st.tdp_limit_watts, Some(28));
    assert_eq!(st.epp_preference, None);
    assert_eq!(st.governor.as_deref(), Some("powersave"));
    assert_eq!(st.frequency_mhz, Some(1800));
    assert_eq!((st.min_freq_mhz, st.max_freq_mhz), (Some(1800), Some(3200)));
}
