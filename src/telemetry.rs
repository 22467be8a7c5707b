//! The telemetry window: samples appended as they are read, the oldest dropped
//! once they fall out of the retention window.
use vstd::prelude::*;
use std::collections::VecDeque;
use crate::types::{TelemetryConfig, TelemetrySample};

verus! {

/// The shortest telemetry poll interval, in milliseconds.
pub const MIN_TELEMETRY_POLL_MS: u64 = 200;

/// The telemetry poll interval: the configured one, at least 200 ms.
pub fn telemetry_poll_ms(cfg: &TelemetryConfig) -> (r: u64)
    ensures
        r == (if cfg.poll_ms < MIN_TELEMETRY_POLL_MS { MIN_TELEMETRY_POLL_MS } else { cfg.poll_ms }),
{
    if cfg.poll_ms < MIN_TELEMETRY_POLL_MS { MIN_TELEMETRY_POLL_MS } else { cfg.poll_ms }
}

/// How many samples at the front of `v` are older than `cutoff` (ms).
pub open spec fn expired_prefix(v: Seq<TelemetrySample>, cutoff: int) -> int
    decreases v.len(),
{
    if v.len() > 0 && (v[0].ts_ms as int) < cutoff { 1 + expired_prefix(v.drop_first(), cutoff) } else { 0 }
}

proof fn lemma_expired_prefix_bounds(v: Seq<TelemetrySample>, cutoff: int)
    ensures
        0 <= expired_prefix(v, cutoff) <= v.len(),
    decreases v.len(),
{
    if v.len() > 0 && (v[0].ts_ms as int) < cutoff {
        lemma_expired_prefix_bounds(v.drop_first(), cutoff);
    }
}

/// Append `sample` and drop, from the front, every sample older than the
/// retention window that ends at the new sample's time.
pub fn record_sample(samples: &mut VecDeque<TelemetrySample>, sample: TelemetrySample, retain_seconds: u64)
    ensures
        ({
            let all = old(samples)@.push(sample);
            let cutoff = sample.ts_ms as int - retain_seconds as int * 1000;
            final(samples)@ == all.subrange(expired_prefix(all, cutoff), all.len() as int)
        }),
{
    let cutoff: i128 = sample.ts_ms as i128 - (retain_seconds as i128) * 1000;
    let ghost all = old(samples)@.push(sample);
    samples.push_back(sample);
    proof {
        lemma_expired_prefix_bounds(all, cutoff as int);
    }
    let ghost mut dropped: int = 0;
    while samples.len() > 0 && (samples[0].ts_ms as i128) < cutoff
        invariant
            0 <= dropped <= all.len(),
            samples@ == all.subrange(dropped, all.len() as int),
            expired_prefix(all, cutoff as int) == dropped + expired_prefix(samples@, cutoff as int),
        decreases samples@.len(),
    {
        let ghost before = samples@;
        let _ = samples.pop_front();
        proof {
            assert(before.drop_first() == samples@);
            dropped = dropped + 1;
        }
    }
}

} // verus!
