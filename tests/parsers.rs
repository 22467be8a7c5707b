use framework_control::battery_report::{parse_charge_limit, parse_power};
use framework_control::thermal::{max_sensor_temperature, parse_thermal};

#[test]
fn parse_thermal_basic() {
    let s = "  F75303_Local:   45 C\n  F75303_CPU:     55 C\n  APU:          62 C\n  Fan Speed:  3171 RPM\n";
    let t = parse_thermal(s);
    assert_eq!(t.temp("APU"), Some(62));
    assert_eq!(t.temp("F75303_CPU"), Some(55));
    assert_eq!(t.rpms, vec![3171]);
}

#[test]
fn parse_power_verbose_sample() {
    let s = r#"
Charger Status
  AC is:            connected
  Charger Voltage:  17800mV
  Charger Current:  3568mA
  Chg Input Current:4400mA
  Battery SoC:      52%
Battery Status
  AC is:            connected
  Battery is:       connected
  Battery LFCC:     5182 mAh (Last Full Charge Capacity)
  Battery Capacity: 2685 mAh
  Charge level:     51%
  Manufacturer:     NVT
  Model Number:     FRANDBA
  Serial Number:    0204
  Battery Type:     LION
  Present Voltage:  16.591 V
  Present Rate:     3221 mA
  Design Capacity:  5491 mAh
  Design Voltage:   15.480 V
  Cycle Count:      58
  Battery charging
        "#;
    let p = parse_power(s);
    assert_eq!(p.ac_present, Some(true));
    assert_eq!(p.battery_present, Some(true));
    assert_eq!(p.last_full_charge_capacity_mah, Some(5182));
    assert_eq!(p.remaining_capacity_mah, Some(2685));
    assert_eq!(p.percentage, Some(51));
    assert_eq!(p.soc_pct, Some(52));
    assert_eq!(p.present_voltage_mv, Some(16591));
    assert_eq!(p.present_rate_ma, Some(3221));
    assert_eq!(p.charger_voltage_mv, Some(17800));
    assert_eq!(p.charger_current_ma, Some(3568));
    assert_eq!(p.charge_input_current_ma, Some(4400));
    assert_eq!(p.design_capacity_mah, Some(5491));
    assert_eq!(p.design_voltage_mv, Some(15480));
    assert_eq!(p.cycle_count, Some(58));
    assert_eq!(p.charging, Some(true));
}

#[test]
fn parse_power_absent_and_discharging() {
    let p = parse_power("AC is: not connected\r\nBattery is: Not Connected\nBATTERY DISCHARGING\nPresent Voltage: 1.2.3 V\n");
    assert_eq!(p.ac_present, Some(false));
    assert_eq!(p.battery_present, Some(false));
    assert_eq!(p.discharging, Some(true));
    assert_eq!(p.charging, None);
    assert_eq!(p.present_voltage_mv, None);
    let empty = parse_power("");
    assert_eq!(empty.ac_present, None);
    assert_eq!(empty.cycle_count, None);
}

#[test]
fn parse_power_overflow_clears_field() {
    let p = parse_power("Battery LFCC: 5182 mAh\nBattery LFCC: 99999999999 mAh\nDesign Voltage: 7 V\n");
    assert_eq!(p.last_full_charge_capacity_mah, None);
    assert_eq!(p.design_voltage_mv, Some(7000));
}

#[test]
fn parse_thermal_later_reading_wins_and_zero_rpm_dropped() {
    let t = parse_thermal("CPU: 40 C\ncpu: 41 C\nCPU: 50 C\nFan Speed: 0 RPM\nFan Speed: 2000 RPM\nbroken line\nGPU: -3 C\n");
    assert_eq!(t.temp("CPU"), Some(50));
    assert_eq!(t.temp("cpu"), Some(41));
    assert_eq!(t.temp("GPU"), Some(-3));
    assert_eq!(t.temp("NONE"), None);
    assert_eq!(t.rpms, vec![2000]);
}

#[test]
fn max_sensor_matches_ignoring_case() {
    let t = parse_thermal("APU: 62 C\nF75303_CPU: 70 C\n");
    let sensors = vec!["apu".to_string(), "missing".to_string()];
    assert_eq!(max_sensor_temperature(&t, &sensors), Some(62));
    let both = vec!["APU".to_string(), "f75303_cpu".to_string()];
    assert_eq!(max_sensor_temperature(&t, &both), Some(70));
    let none: Vec<String> = vec![];
    assert_eq!(max_sensor_temperature(&t, &none), None);
}

#[test]
fn parse_charge_limit_sample() {
    let c = parse_charge_limit("Minimum 0%, Maximum 80%\n");
    assert_eq!(c.charge_limit_min_pct, Some(0));
    assert_eq!(c.charge_limit_max_pct, Some(80));
    let one_line = parse_charge_limit("Minimum 20%, Maximum 80%");
    assert_eq!(one_line.charge_limit_min_pct, Some(20));
    assert_eq!(one_line.charge_limit_max_pct, Some(80));
    let lines = parse_charge_limit("  Minimum: 20%\n  MAXIMUM: 90%\n");
    assert_eq!(lines.charge_limit_min_pct, Some(20));
    assert_eq!(lines.charge_limit_max_pct, Some(90));
    let fallback = parse_charge_limit("maximum 75\n");
    assert_eq!(fallback.charge_limit_max_pct, Some(75));
    assert_eq!(fallback.charge_limit_min_pct, None);
    let too_big = parse_charge_limit("maximum 300%\n");
    assert_eq!(too_big.charge_limit_max_pct, None);
}
