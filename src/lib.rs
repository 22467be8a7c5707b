//! Adaptive fan, power and battery control for a laptop, with the decisions of
//! each control loop stated and proved.
//!
//! - `curve`, `fan`: the fan curve, hysteresis, rate limit and mode machine.
//! - `power`, `backend`: profile selection, drift-tolerant reapplication, and
//!   the ordered writes for the kernel mechanisms or the vendor tool.
//! - `battery`: charge limit and charge rate reconciliation.
//! - `cache`, `resolver`: the single-flight TTL cache and the shared handles.
//! - `thermal`, `battery_report`, `versions`, `vendor_info`: readers of the
//!   tools' reports, over `text`, `tokens` and `readings`.
//! - `config`, `types`, `telemetry`, `web`: the configuration and its merge,
//!   the telemetry window, and helpers of the HTTP layer.
//!
//! Each loop is a function from its state and what was read to its next state
//! and a command; the caller performs the command and reports the outcome.
pub mod curve;
pub mod types;
pub mod fan;
pub mod power;
pub mod battery;
pub mod cache;
pub mod resolver;
pub mod backend;
pub mod text;
pub mod readings;
pub mod thermal;
pub mod tokens;
pub mod battery_report;
pub mod versions;
pub mod web;
pub mod vendor_info;
pub mod telemetry;
pub mod config;
