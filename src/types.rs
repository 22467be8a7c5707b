//! Policy and report types shared by the control loops and their callers.
use vstd::prelude::*;

verus! {

/// How the fan is driven.
#[derive(Clone, Copy, Debug, PartialEq, Eq, Structural)]
pub enum FanControlMode {
    /// Firmware decides.
    Disabled,
    /// A fixed duty.
    Manual,
    /// Duty follows temperature through the curve.
    Curve,
}

impl Default for FanControlMode {
    fn default() -> (r: Self)
        ensures
            r == FanControlMode::Disabled,
    {
        FanControlMode::Disabled
    }
}

/// Fixed fan duty for manual mode.
#[derive(Clone, Debug)]
pub struct ManualConfig {
    pub duty_pct: u32,
}

/// The curve policy: sensors whose maximum drives the curve, the points, the
/// poll interval, the hysteresis band and the per-tick rate limit.
#[derive(Clone, Debug)]
pub struct CurveConfig {
    pub sensors: Vec<String>,
    pub points: Vec<[u32; 2]>,
    pub poll_ms: u64,
    pub hysteresis_c: u32,
    pub rate_limit_pct_per_step: u32,
}

/// Measured fan response: `[duty_pct, rpm]` pairs and when they were taken.
#[derive(Clone, Debug)]
pub struct FanCalibration {
    pub points: Vec<[u32; 2]>,
    pub updated_at: i64,
}

/// The fan section of the configuration.
#[derive(Clone, Debug)]
pub struct FanControlConfig {
    pub mode: Option<FanControlMode>,
    pub manual: Option<ManualConfig>,
    pub curve: Option<CurveConfig>,
    pub calibration: Option<FanCalibration>,
}

impl Default for FanControlConfig {
    fn default() -> (r: Self)
        ensures
            r.mode.is_none(),
            r.manual.is_none(),
            r.curve.is_none(),
            r.calibration.is_none(),
    {
        FanControlConfig { mode: None, manual: None, curve: None, calibration: None }
    }
}

/// Points of a newly created curve.
pub fn default_points() -> (r: Vec<[u32; 2]>)
    ensures
        r@ == seq![[40u32, 0u32], [60u32, 40u32], [75u32, 80u32], [85u32, 100u32]],
{
    vec![[40, 0], [60, 40], [75, 80], [85, 100]]
}

/// Curve poll interval in milliseconds when none is configured.
pub fn default_poll_ms() -> (r: u64)
    ensures
        r == 2000,
{
    2000
}

/// Hysteresis band in °C when none is configured.
pub fn default_hysteresis_c() -> (r: u32)
    ensures
        r == 2,
{
    2
}

/// Rate limit in percent per tick when none is configured (no limit).
pub fn default_rate_limit_pct_per_step() -> (r: u32)
    ensures
        r == 100,
{
    100
}

/// A setting that may be switched off while keeping its last value.
#[derive(Clone, Copy, Debug, PartialEq, Eq, Structural)]
pub struct SettingU32 {
    pub enabled: bool,
    pub value: u32,
}

/// A text setting that may be switched off while keeping its last value.
#[derive(Clone, Debug)]
pub struct SettingString {
    pub enabled: bool,
    pub value: String,
}

/// A small setting that may be switched off while keeping its last value.
#[derive(Clone, Copy, Debug, PartialEq, Eq, Structural)]
pub struct SettingU8 {
    pub enabled: bool,
    pub value: u8,
}

/// The power settings for one power source. Each field is applied only while
/// present and enabled.
#[derive(Clone, Debug)]
pub struct PowerProfile {
    pub tdp_watts: Option<SettingU32>,
    pub thermal_limit_c: Option<SettingU32>,
    pub epp_preference: Option<SettingString>,
    pub governor: Option<SettingString>,
    pub min_freq_mhz: Option<SettingU32>,
    pub max_freq_mhz: Option<SettingU32>,
}

/// One profile for mains power and one for battery.
#[derive(Clone, Debug)]
pub struct PowerConfig {
    pub ac: Option<PowerProfile>,
    pub battery: Option<PowerProfile>,
}

/// Charge policy. The charge rate is held in thousandths of C (1000 is 1C).
#[derive(Clone, Copy, Debug)]
pub struct BatteryConfig {
    pub charge_limit_max_pct: Option<SettingU8>,
    pub charge_rate_milli_c: Option<SettingU32>,
    pub charge_rate_soc_threshold_pct: Option<u8>,
}

/// Update policy.
#[derive(Clone, Copy, Debug)]
pub struct UpdatesConfig {
    pub auto_install: bool,
}

/// User interface preferences.
#[derive(Clone, Debug)]
pub struct UiConfig {
    pub theme: Option<String>,
}

/// Telemetry sampling policy.
#[derive(Clone, Copy, Debug)]
pub struct TelemetryConfig {
    pub poll_ms: u64,
    pub retain_seconds: u64,
}

impl Default for TelemetryConfig {
    fn default() -> (r: Self)
        ensures
            r.poll_ms == 1000,
            r.retain_seconds == 1800,
    {
        TelemetryConfig { poll_ms: default_telemetry_poll_ms(), retain_seconds: default_telemetry_retain_seconds() }
    }
}

/// Telemetry poll interval in milliseconds when none is configured.
pub fn default_telemetry_poll_ms() -> (r: u64)
    ensures
        r == 1000,
{
    1000
}

/// How long telemetry samples are kept, in seconds, when not configured.
pub fn default_telemetry_retain_seconds() -> (r: u64)
    ensures
        r == 1800,
{
    1800
}

/// One telemetry sample: a time in milliseconds, temperatures by sensor and fan
/// speeds.
#[derive(Clone, Debug)]
pub struct TelemetrySample {
    pub ts_ms: i64,
    pub temps: Vec<(String, i32)>,
    pub rpms: Vec<u32>,
}

/// Current and newest release versions.
#[derive(Clone, Debug)]
pub struct UpdateCheck {
    pub current_version: String,
    pub latest_version: String,
}

/// Host description.
#[derive(Clone, Debug)]
pub struct SystemInfo {
    pub cpu: String,
    pub memory_total_mb: u64,
    pub os: String,
    pub dgpu: Option<String>,
}

/// Service health.
#[derive(Clone, Debug)]
pub struct Health {
    pub cli_present: bool,
    pub service_version: String,
}

/// Whether desktop shortcuts are installed.
#[derive(Clone, Copy, Debug)]
pub struct ShortcutsStatus {
    pub installed: bool,
}

/// An empty reply.
#[derive(Clone, Copy, Debug)]
pub struct Empty {}

/// An error reply: a code and a message.
#[derive(Clone, Debug)]
pub struct ErrorEnvelope {
    pub code: String,
    pub message: String,
}

/// A request to limit the charge rate, in thousandths of C, optionally only
/// above a state of charge in percent.
#[derive(Clone, Copy, Debug)]
pub struct SetRateLimitRequest {
    pub rate_milli_c: u32,
    pub battery_soc_threshold_pct: Option<u8>,
}

/// A request to set the charge limit.
#[derive(Clone, Copy, Debug)]
pub struct SetChargeLimitRequest {
    pub max_pct: u8,
}

} // verus!
