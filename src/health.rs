use vstd::prelude::*;
use vstd::string::*;
use crate::backend::{health_step, Backend, BackendView};
use crate::router::trim_slashes;

verus! {

/// Active and passive health-check settings of a route.
#[derive(Clone, Debug)]
pub struct HealthCheckConfig {
    pub enabled: bool,
    pub interval_secs: u64,
    pub timeout_secs: u64,
    pub unhealthy_threshold: usize,
    pub healthy_threshold: usize,
    /// Path probed on each backend.
    pub path: String,
    /// Status a healthy backend answers the probe with.
    pub expected_status: u16,
    pub passive_enabled: bool,
}

pub fn default_enabled() -> (r: bool)
    ensures
        r,
{
    true
}

pub fn default_interval() -> (r: u64)
    ensures
        r == 30,
{
    30
}

pub fn default_timeout() -> (r: u64)
    ensures
        r == 5,
{
    5
}

pub fn default_unhealthy_threshold() -> (r: usize)
    ensures
        r == 3,
{
    3
}

pub fn default_healthy_threshold() -> (r: usize)
    ensures
        r == 2,
{
    2
}

pub fn default_path() -> (r: String)
    ensures
        r@ == "/health"@,
{
    String::from_str("/health")
}

pub fn default_expected_status() -> (r: u16)
    ensures
        r == 200,
{
    200
}

impl Default for HealthCheckConfig {
    fn default() -> (r: HealthCheckConfig)
        ensures
            r.enabled,
            r.interval_secs == 30,
            r.timeout_secs == 5,
            r.unhealthy_threshold == 3,
            r.healthy_threshold == 2,
            r.path@ == "/health"@,
            r.expected_status == 200,
            r.passive_enabled,
    {
        HealthCheckConfig {
            enabled: default_enabled(),
            interval_secs: default_interval(),
            timeout_secs: default_timeout(),
            unhealthy_threshold: default_unhealthy_threshold(),
            healthy_threshold: default_healthy_threshold(),
            path: default_path(),
            expected_status: default_expected_status(),
            passive_enabled: default_enabled(),
        }
    }
}

/// A backend after a probe answered at `now` with `status` (`None`: no answer).
pub open spec fn probe_view(cfg: HealthCheckConfig, b: BackendView, status: Option<u16>, now: u64) -> BackendView {
    let h = health_step(b.health(), status == Some(cfg.expected_status), cfg.unhealthy_threshold, cfg.healthy_threshold);
    BackendView { healthy: h.healthy, consecutive_successes: h.successes, consecutive_failures: h.failures, last_check: now, ..b }
}

/// A backend after a proxied request's outcome was fed to passive checks.
pub open spec fn passive_view(cfg: HealthCheckConfig, b: BackendView, success: bool) -> BackendView {
    if !cfg.passive_enabled {
        b
    } else {
        let counted = if success {
            BackendView {
                total_successes: crate::backend::sat_inc_u64(b.total_successes),
                consecutive_successes: crate::backend::sat_inc_usize(b.consecutive_successes),
                consecutive_failures: 0,
                ..b
            }
        } else {
            BackendView {
                total_failures: crate::backend::sat_inc_u64(b.total_failures),
                consecutive_failures: crate::backend::sat_inc_usize(b.consecutive_failures),
                consecutive_successes: 0,
                ..b
            }
        };
        BackendView {
            healthy: if counted.consecutive_failures >= cfg.unhealthy_threshold {
                false
            } else if counted.consecutive_successes >= cfg.healthy_threshold {
                true
            } else {
                counted.healthy
            },
            ..counted
        }
    }
}

impl HealthCheckConfig {
    /// The URL probed on a backend: its base without trailing slashes, then the probe path.
    pub fn probe_url(&self, backend_url: &str) -> (r: String)
        ensures
            r@ == trim_slashes(backend_url@) + self.path@,
    {
        let base = crate::router::trim_trailing_slashes(backend_url);
        String::from_str(base).concat(self.path.as_str())
    }

    /// A probe succeeds when an answer came with the expected status; a failed
    /// connection or read (`None`) is a failure.
    pub fn probe_succeeded(&self, status: Option<u16>) -> (r: bool)
        ensures
            r == (status == Some(self.expected_status)),
    {
        match status {
            Some(s) => s == self.expected_status,
            None => false,
        }
    }

    /// Records a probe answered at `now_secs` with `status` (`None`: no answer).
    pub fn record_probe(&self, backend: &mut Backend, status: Option<u16>, now_secs: u64)
        ensures
            final(backend)@ == probe_view(*self, old(backend)@, status, now_secs),
    {
        let ok = self.probe_succeeded(status);
        backend.record_health_check(ok, self.unhealthy_threshold, self.healthy_threshold, now_secs);
    }

    /// Feeds the outcome of a proxied request into the backend's health, when passive
    /// checks are on.
    pub fn passive_check(&self, backend: &mut Backend, success: bool)
        ensures
            final(backend)@ == passive_view(*self, old(backend)@, success),
    {
        if !self.passive_enabled {
            return;
        }
        if success {
            backend.record_success();
        } else {
            backend.record_failure();
        }
        backend.update_health_from_passive_check(self.unhealthy_threshold, self.healthy_threshold);
    }
}

} // verus!
