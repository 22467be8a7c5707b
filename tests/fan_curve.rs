use framework_control::curve::{apply_rate_limit, calculate_duty_from_curve};
use framework_control::fan::{FanCommand, FanLoop};
use framework_control::thermal::{max_sensor_temperature, parse_thermal};
use framework_control::types::{CurveConfig, FanControlConfig, FanControlMode, ManualConfig};

#[test]
fn test_calculate_duty_from_curve() {
    // Test with multiple points
    let points = [[40, 20], [60, 40], [75, 80]];

    // Test interpolation with anchor points
    assert_eq!(calculate_duty_from_curve(0, &points), 0); // Start anchor
    assert_eq!(calculate_duty_from_curve(20, &points), 10); // Between [0,0] and [40,20]
    assert_eq!(calculate_duty_from_curve(40, &points), 20); // Exact point
    assert_eq!(calculate_duty_from_curve(50, &points), 30); // Between [40,20] and [60,40]
    assert_eq!(calculate_duty_from_curve(60, &points), 40); // Exact point
    assert_eq!(calculate_duty_from_curve(75, &points), 80); // Exact point
    // Between [75,80] and [100,100]: 80 + 12/25 * 20 = 89.6, rounded
    assert_eq!(calculate_duty_from_curve(87, &points), 90);
    assert_eq!(calculate_duty_from_curve(100, &points), 100); // End anchor

    // Test with empty points (just anchors)
    let empty: [[u32; 2]; 0] = [];
    assert_eq!(calculate_duty_from_curve(0, &empty), 0);
    assert_eq!(calculate_duty_from_curve(50, &empty), 50); // Linear from [0,0] to [100,100]
    assert_eq!(calculate_duty_from_curve(75, &empty), 75);
    assert_eq!(calculate_duty_from_curve(100, &empty), 100);

    // Test with single point
    let single = [[50, 30]];
    assert_eq!(calculate_duty_from_curve(0, &single), 0); // Start anchor
    assert_eq!(calculate_duty_from_curve(25, &single), 15); // Between [0,0] and [50,30]
    assert_eq!(calculate_duty_from_curve(50, &single), 30); // Exact point
    assert_eq!(calculate_duty_from_curve(75, &single), 65); // Between [50,30] and [100,100]
    assert_eq!(calculate_duty_from_curve(100, &single), 100); // End anchor
}

#[test]
fn test_apply_rate_limit() {
    // Test increasing
    assert_eq!(apply_rate_limit(30, 50, 10), 40);
    assert_eq!(apply_rate_limit(30, 35, 10), 35);

    // Test decreasing
    assert_eq!(apply_rate_limit(50, 30, 10), 40);
    assert_eq!(apply_rate_limit(50, 45, 10), 45);

    // Test no limit (100%)
    assert_eq!(apply_rate_limit(30, 80, 100), 80);
}

#[test]
fn curve_exact_at_configured_points() {
    let points = [[0, 0], [40, 20], [100, 100]];
    assert_eq!(calculate_duty_from_curve(40, &points), 20);
    assert_eq!(calculate_duty_from_curve(20, &points), 10);
    // 20 + 47/60 * 80 = 82.67, rounded
    assert_eq!(calculate_duty_from_curve(87, &points), 83);
}

#[test]
fn curve_edges() {
    let points = [[40, 20], [60, 40], [75, 80]];
    assert_eq!(calculate_duty_from_curve(-15, &points), 0);
    assert_eq!(calculate_duty_from_curve(120, &points), 100);
    // unsorted points are walked as given
    let unsorted = [[60, 40], [40, 20]];
    assert_eq!(calculate_duty_from_curve(50, &unsorted), 33);
    assert_eq!(calculate_duty_from_curve(61, &unsorted), 48);
}

#[test]
fn curve_monotonic_on_rising_temperatures() {
    let points = [[40, 20], [60, 40], [75, 80]];
    let mut prev = 0;
    for t in -5..110 {
        let d = calculate_duty_from_curve(t, &points);
        assert!(d >= prev);
        assert!(d <= 100);
        prev = d;
    }
}

#[test]
fn rate_limit_saturates() {
    assert_eq!(apply_rate_limit(u32::MAX - 3, u32::MAX, 10), u32::MAX);
    assert_eq!(apply_rate_limit(3, 0, 10), 0);
    assert_eq!(apply_rate_limit(40, 40, 10), 40);
}

fn curve_config(hys: u32, rate: u32) -> FanControlConfig {
    FanControlConfig {
        mode: Some(FanControlMode::Curve),
        manual: None,
        curve: Some(CurveConfig {
            sensors: vec!["APU".to_string()],
            points: vec![[40, 20], [60, 40], [75, 80]],
            poll_ms: 2000,
            hysteresis_c: hys,
            rate_limit_pct_per_step: rate,
        }),
        calibration: None,
    }
}

#[test]
fn end_to_end_first_tick_sets_interpolated_duty() {
    let thermal = parse_thermal("APU: 62 C");
    let cfg = curve_config(2, 100);
    let sensors = cfg.curve.as_ref().unwrap().sensors.clone();
    let temp = max_sensor_temperature(&thermal, &sensors);
    assert_eq!(temp, Some(62));
    let mut fan = FanLoop::new();
    let cmd = fan.tick(&cfg, temp);
    // between (60, 40) and (75, 80): 40 + 2/15 * 40 = 45.33, rounded
    assert_eq!(cmd, FanCommand::SetDuty(45));
    fan.record(cmd, true);
    assert_eq!(fan.last_duty, Some(45));
    assert_eq!(fan.tick(&cfg, temp), FanCommand::Hold);
}

#[test]
fn rate_limit_bounds_each_tick() {
    let cfg = curve_config(0, 10);
    let mut fan = FanLoop::new();
    let first = fan.tick(&cfg, Some(40));
    assert_eq!(first, FanCommand::SetDuty(20));
    fan.record(first, true);
    let mut last = 20;
    for expected in [30, 40, 50, 60, 70, 80, 90, 100, 100] {
        let cmd = fan.tick(&cfg, Some(120));
        if expected != last {
            assert_eq!(cmd, FanCommand::SetDuty(expected));
            fan.record(cmd, true);
            last = expected;
        } else {
            assert_eq!(cmd, FanCommand::Hold);
        }
    }
    // falling: steps of at most 10 down to the curve's 20 at 40 °C
    let cmd = fan.tick(&cfg, Some(40));
    assert_eq!(cmd, FanCommand::SetDuty(90));
}

#[test]
fn hysteresis_holds_target_within_band() {
    let cfg = curve_config(5, 100);
    let mut fan = FanLoop::new();
    let cmd = fan.tick(&cfg, Some(60));
    assert_eq!(cmd, FanCommand::SetDuty(40));
    fan.record(cmd, true);
    // 57 is within 5 of the anchor 60: the target stays
    assert_eq!(fan.tick(&cfg, Some(57)), FanCommand::Hold);
    assert_eq!(fan.active_target, Some(40));
    assert_eq!(fan.tick(&cfg, Some(56)), FanCommand::Hold);
    // 55 is 5 below the anchor: the lower target is taken
    let cmd = fan.tick(&cfg, Some(55));
    assert_eq!(cmd, FanCommand::SetDuty(35));
    assert_eq!(fan.anchor_temp, 55);
}

#[test]
fn failed_read_leaves_state() {
    let cfg = curve_config(2, 100);
    let mut fan = FanLoop::new();
    assert_eq!(fan.tick(&cfg, None), FanCommand::Hold);
    assert_eq!(fan.last_mode, None);
    assert_eq!(fan.active_target, None);
}

#[test]
fn failed_write_is_retried() {
    let cfg = curve_config(2, 100);
    let mut fan = FanLoop::new();
    let cmd = fan.tick(&cfg, Some(62));
    fan.record(cmd, false);
    assert_eq!(fan.tick(&cfg, Some(62)), FanCommand::SetDuty(45));
}

#[test]
fn manual_and_disabled_modes() {
    let mut cfg = FanControlConfig {
        mode: Some(FanControlMode::Manual),
        manual: Some(ManualConfig { duty_pct: 150 }),
        curve: None,
        calibration: None,
    };
    let mut fan = FanLoop::new();
    let cmd = fan.tick(&cfg, None);
    assert_eq!(cmd, FanCommand::SetDuty(100));
    fan.record(cmd, true);
    assert_eq!(fan.tick(&cfg, None), FanCommand::Hold);
    cfg.manual = None;
    assert_eq!(fan.tick(&cfg, None), FanCommand::AutoControl);
    cfg.mode = None;
    assert_eq!(fan.tick(&cfg, None), FanCommand::AutoControl);
    assert_eq!(fan.tick(&cfg, None), FanCommand::Hold);
    assert_eq!(FanLoop::poll_interval_ms(&cfg), 500);
    assert!(!FanLoop::needs_temperature(&cfg));
    let curve = curve_config(2, 100);
    assert_eq!(FanLoop::poll_interval_ms(&curve), 2000);
    assert!(FanLoop::needs_temperature(&curve));
}

#[test]
fn curve_mode_without_curve_hands_back() {
    let cfg = FanControlConfig { mode: Some(FanControlMode::Curve), manual: None, curve: None, calibration: None };
    let mut fan = FanLoop::new();
    assert_eq!(fan.tick(&cfg, Some(50)), FanCommand::AutoControl);
    assert_eq!(fan.last_duty, None);
}

#[test]
fn hysteresis_needs_rise_above_anchor() {
    let mut fan = FanLoop::new();
    let first = curve_config(5, 100);
    let cmd = fan.tick(&first, Some(60));
    assert_eq!(cmd, FanCommand::SetDuty(40));
    fan.record(cmd, true);
    // a new curve gives 30 at the anchor temperature: no decrease at 60 °C
    let mut lower = curve_config(5, 100);
    lower.curve.as_mut().unwrap().points = vec![[60, 30]];
    assert_eq!(fan.tick(&lower, Some(60)), FanCommand::Hold);
    assert_eq!(fan.active_target, Some(40));
    // risen above the anchor: the lower target is taken
    let cmd = fan.tick(&lower, Some(61));
    assert_eq!(cmd, FanCommand::SetDuty(32));
    assert_eq!(fan.anchor_temp, 61);
}
