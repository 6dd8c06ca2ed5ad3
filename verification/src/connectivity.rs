//! Connectivity monitor: caches the result of the reachability probe for a
//! small interval to avoid probe storms, while callers needing freshness can
//! force a probe.
//!
//! The probe itself is a network call the shell performs; the monitor
//! decides when one is due and remembers its result.

use vstd::prelude::*;

verus! {

/// The cached state of the reachability probe.
pub struct ConnectivityMonitor {
    /// The last probe's result.
    pub online: bool,
    /// When the last probe ran (milliseconds since the epoch).
    pub last_probe_at: i64,
    /// Whether any probe has run yet.
    pub probed: bool,
    /// How long a probe result stays fresh, in milliseconds.
    pub ttl_ms: i64,
}

impl ConnectivityMonitor {
    /// The cached result is unusable at time `now`: no probe ran yet, the
    /// result has aged out, or the clock moved backwards past the probe.
    pub open spec fn stale(self, now: i64) -> bool {
        ||| !self.probed
        ||| now < self.last_probe_at
        ||| now - self.last_probe_at >= self.ttl_ms
    }

    /// A monitor that has not probed yet.
    pub fn new(ttl_ms: i64) -> (r: ConnectivityMonitor)
        ensures
            r == (ConnectivityMonitor { online: false, last_probe_at: 0, probed: false, ttl_ms }),
    {
        ConnectivityMonitor { online: false, last_probe_at: 0, probed: false, ttl_ms }
    }

    /// Whether a fresh probe is due at time `now`; `force` always asks for
    /// one.
    pub fn needs_probe(&self, now: i64, force: bool) -> (r: bool)
        ensures
            r == (force || self.stale(now)),
    {
        if force || !self.probed {
            true
        } else if now < self.last_probe_at {
            true
        } else {
            (now as i128) - (self.last_probe_at as i128) >= (self.ttl_ms as i128)
        }
    }

    /// Remembers a probe's result.
    pub fn record_probe(&mut self, now: i64, online: bool)
        ensures
            *final(self) == (ConnectivityMonitor {
                online,
                last_probe_at: now,
                probed: true,
                ttl_ms: old(self).ttl_ms,
            }),
    {
        self.online = online;
        self.last_probe_at = now;
        self.probed = true;
    }

    /// The cached answer, if still fresh at time `now`.
    pub fn cached(&self, now: i64) -> (r: Option<bool>)
        ensures
            r == if self.stale(now) {
                Option::<bool>::None
            } else {
                Option::<bool>::Some(self.online)
            },
    {
        if self.needs_probe(now, false) {
            None
        } else {
            Some(self.online)
        }
    }
}

} // verus!
