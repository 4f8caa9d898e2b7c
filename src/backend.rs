use vstd::prelude::*;

verus! {

/// Settings of one upstream endpoint.
pub struct BackendConfig {
    /// Base URL of the upstream.
    pub url: String,
    /// Weight for weighted round-robin selection.
    pub weight: u32,
}

/// The weight a backend gets when its configuration names none.
pub fn default_weight() -> (r: u32)
    ensures
        r == 1,
{
    1
}

/// Abstract state of a backend.
pub struct BackendView {
    pub url: Seq<char>,
    pub weight: u32,
    pub healthy: bool,
    pub consecutive_successes: usize,
    pub consecutive_failures: usize,
    pub total_successes: u64,
    pub total_failures: u64,
    pub active_connections: usize,
    pub last_check: u64,
}

/// Counters stop at their largest value instead of wrapping.
pub open spec fn sat_inc_usize(n: usize) -> usize {
    if n < usize::MAX {
        (n + 1) as usize
    } else {
        n
    }
}

pub open spec fn sat_inc_u64(n: u64) -> u64 {
    if n < u64::MAX {
        (n + 1) as u64
    } else {
        n
    }
}

fn inc_usize(n: usize) -> (r: usize)
    ensures
        r == sat_inc_usize(n),
{
    if n < usize::MAX {
        n + 1
    } else {
        n
    }
}

fn inc_u64(n: u64) -> (r: u64)
    ensures
        r == sat_inc_u64(n),
{
    if n < u64::MAX {
        n + 1
    } else {
        n
    }
}

/// Health part of a backend's state: the flag and the two run counters.
pub struct HealthModel {
    pub healthy: bool,
    pub successes: usize,
    pub failures: usize,
}

/// One recorded health-check outcome: the run counter of that outcome grows,
/// the other resets, and the flag flips once the grown counter reaches its threshold.
pub open spec fn health_step(h: HealthModel, ok: bool, unhealthy_threshold: usize, healthy_threshold: usize) -> HealthModel {
    if ok {
        let s = sat_inc_usize(h.successes);
        HealthModel {
            healthy: if s >= healthy_threshold { true } else { h.healthy },
            successes: s,
            failures: 0,
        }
    } else {
        let f = sat_inc_usize(h.failures);
        HealthModel {
            healthy: if f >= unhealthy_threshold { false } else { h.healthy },
            successes: 0,
            failures: f,
        }
    }
}

/// The health state after a sequence of outcomes, applied in order.
pub open spec fn health_run(h: HealthModel, outs: Seq<bool>, unhealthy_threshold: usize, healthy_threshold: usize) -> HealthModel
    decreases outs.len(),
{
    if outs.len() == 0 {
        h
    } else {
        health_step(
            health_run(h, outs.drop_last(), unhealthy_threshold, healthy_threshold),
            outs.last(),
            unhealthy_threshold,
            healthy_threshold,
        )
    }
}

/// Length of the longest suffix of `outs` whose entries all equal `v`.
pub open spec fn trailing_run(outs: Seq<bool>, v: bool) -> nat
    decreases outs.len(),
{
    if outs.len() == 0 {
        0
    } else if outs.last() == v {
        trailing_run(outs.drop_last(), v) + 1
    } else {
        0
    }
}

pub open spec fn min_usize(n: nat) -> nat {
    if n < usize::MAX {
        n
    } else {
        usize::MAX as nat
    }
}

proof fn lemma_trailing_len(outs: Seq<bool>, v: bool)
    ensures
        trailing_run(outs, v) <= outs.len(),
    decreases outs.len(),
{
    if outs.len() > 0 {
        lemma_trailing_len(outs.drop_last(), v);
    }
}

proof fn lemma_run_counters(h: HealthModel, outs: Seq<bool>, ut: usize, ht: usize)
    requires
        h.successes == 0,
        h.failures == 0,
    ensures
        health_run(h, outs, ut, ht).successes as nat == min_usize(trailing_run(outs, true)),
        health_run(h, outs, ut, ht).failures as nat == min_usize(trailing_run(outs, false)),
    decreases outs.len(),
{
    if outs.len() > 0 {
        lemma_run_counters(h, outs.drop_last(), ut, ht);
    }
}

proof fn lemma_run_keeps_flag(h: HealthModel, outs: Seq<bool>, v: bool, ut: usize, ht: usize, k: nat)
    requires
        h.successes == 0,
        h.failures == 0,
        k <= trailing_run(outs, v),
        v ==> trailing_run(outs, v) < ht,
        !v ==> trailing_run(outs, v) < ut,
    ensures
        health_run(h, outs, ut, ht).healthy
            == health_run(h, outs.subrange(0, outs.len() - k), ut, ht).healthy,
    decreases k,
{
    lemma_trailing_len(outs, v);
    if k > 0 {
        let d = outs.drop_last();
        lemma_run_counters(h, outs, ut, ht);
        lemma_run_keeps_flag(h, d, v, ut, ht, (k - 1) as nat);
        assert(d.subrange(0, d.len() - (k - 1)) =~= outs.subrange(0, outs.len() - k));
    } else {
        assert(outs.subrange(0, outs.len() - k) =~= outs);
    }
}

/// Health follows the last run of outcomes: starting from a backend with both run
/// counters at zero, after any sequence of check outcomes the backend is unhealthy
/// when the trailing run of failures reaches the unhealthy threshold, healthy when
/// the trailing run of successes reaches the healthy threshold, and otherwise keeps
/// the flag it had just before that trailing run began.
pub proof fn lemma_health_follows_trailing_run(h: HealthModel, outs: Seq<bool>, unhealthy_threshold: usize, healthy_threshold: usize)
    requires
        h.successes == 0,
        h.failures == 0,
        unhealthy_threshold >= 1,
        healthy_threshold >= 1,
    ensures
        trailing_run(outs, false) >= unhealthy_threshold
            ==> !health_run(h, outs, unhealthy_threshold, healthy_threshold).healthy,
        trailing_run(outs, true) >= healthy_threshold
            ==> health_run(h, outs, unhealthy_threshold, healthy_threshold).healthy,
        outs.len() > 0 && outs.last() && trailing_run(outs, true) < healthy_threshold
            ==> health_run(h, outs, unhealthy_threshold, healthy_threshold).healthy
                == health_run(h, outs.subrange(0, outs.len() - trailing_run(outs, true)), unhealthy_threshold, healthy_threshold).healthy,
        outs.len() > 0 && !outs.last() && trailing_run(outs, false) < unhealthy_threshold
            ==> health_run(h, outs, unhealthy_threshold, healthy_threshold).healthy
                == health_run(h, outs.subrange(0, outs.len() - trailing_run(outs, false)), unhealthy_threshold, healthy_threshold).healthy,
{
    let ut = unhealthy_threshold;
    let ht = healthy_threshold;
    if outs.len() > 0 {
        lemma_run_counters(h, outs, ut, ht);
        lemma_run_counters(h, outs.drop_last(), ut, ht);
        if outs.last() && trailing_run(outs, true) < ht {
            lemma_run_keeps_flag(h, outs, true, ut, ht, trailing_run(outs, true));
        }
        if !outs.last() && trailing_run(outs, false) < ut {
            lemma_run_keeps_flag(h, outs, false, ut, ht, trailing_run(outs, false));
        }
    }
}

/// Snapshot of a backend's health counters.
pub struct HealthStats {
    pub is_healthy: bool,
    pub consecutive_successes: usize,
    pub consecutive_failures: usize,
    pub total_successes: u64,
    pub total_failures: u64,
    pub active_connections: usize,
}

/// One upstream endpoint with its health flag and counters.
pub struct Backend {
    pub config: BackendConfig,
    healthy: bool,
    consecutive_successes: usize,
    consecutive_failures: usize,
    last_check: u64,
    total_successes: u64,
    total_failures: u64,
    active_connections: usize,
}

impl View for Backend {
    type V = BackendView;

    closed spec fn view(&self) -> BackendView {
        BackendView {
            url: self.config.url@,
            weight: self.config.weight,
            healthy: self.healthy,
            consecutive_successes: self.consecutive_successes,
            consecutive_failures: self.consecutive_failures,
            total_successes: self.total_successes,
            total_failures: self.total_failures,
            active_connections: self.active_connections,
            last_check: self.last_check,
        }
    }
}

impl BackendView {
    pub open spec fn health(self) -> HealthModel {
        HealthModel {
            healthy: self.healthy,
            successes: self.consecutive_successes,
            failures: self.consecutive_failures,
        }
    }
}

impl Backend {
    /// A new backend starts healthy with every counter at zero.
    pub fn new(config: BackendConfig) -> (r: Backend)
        ensures
            r@ == (BackendView {
                url: config.url@,
                weight: config.weight,
                healthy: true,
                consecutive_successes: 0,
                consecutive_failures: 0,
                total_successes: 0,
                total_failures: 0,
                active_connections: 0,
                last_check: 0,
            }),
    {
        Backend {
            config,
            healthy: true,
            consecutive_successes: 0,
            consecutive_failures: 0,
            last_check: 0,
            total_successes: 0,
            total_failures: 0,
            active_connections: 0,
        }
    }

    pub fn url(&self) -> (r: &str)
        ensures
            r@ == self@.url,
    {
        self.config.url.as_str()
    }

    pub fn weight(&self) -> (r: u32)
        ensures
            r == self@.weight,
    {
        self.config.weight
    }

    pub fn is_healthy(&self) -> (r: bool)
        ensures
            r == self@.healthy,
    {
        self.healthy
    }

    pub fn active_connections(&self) -> (r: usize)
        ensures
            r == self@.active_connections,
    {
        self.active_connections
    }

    /// Counts one more request in flight to this backend.
    pub fn increment_connections(&mut self)
        ensures
            final(self)@ == (BackendView { active_connections: sat_inc_usize(old(self)@.active_connections), ..old(self)@ }),
    {
        self.active_connections = inc_usize(self.active_connections);
    }

    /// Counts one request in flight less; the count never drops below zero.
    pub fn decrement_connections(&mut self)
        ensures
            final(self)@ == (BackendView {
                active_connections: if old(self)@.active_connections > 0 {
                    (old(self)@.active_connections - 1) as usize
                } else {
                    0
                },
                ..old(self)@
            }),
    {
        if self.active_connections > 0 {
            self.active_connections = self.active_connections - 1;
        }
    }

    /// Records a successful proxied request: the success run grows, the failure run resets.
    pub fn record_success(&mut self)
        ensures
            final(self)@ == (BackendView {
                total_successes: sat_inc_u64(old(self)@.total_successes),
                consecutive_successes: sat_inc_usize(old(self)@.consecutive_successes),
                consecutive_failures: 0,
                ..old(self)@
            }),
    {
        self.total_successes = inc_u64(self.total_successes);
        self.consecutive_successes = inc_usize(self.consecutive_successes);
        self.consecutive_failures = 0;
    }

    /// Records a failed proxied request: the failure run grows, the success run resets.
    pub fn record_failure(&mut self)
        ensures
            final(self)@ == (BackendView {
                total_failures: sat_inc_u64(old(self)@.total_failures),
                consecutive_failures: sat_inc_usize(old(self)@.consecutive_failures),
                consecutive_successes: 0,
                ..old(self)@
            }),
    {
        self.total_failures = inc_u64(self.total_failures);
        self.consecutive_failures = inc_usize(self.consecutive_failures);
        self.consecutive_successes = 0;
    }

    pub fn mark_healthy(&mut self)
        ensures
            final(self)@ == (BackendView { healthy: true, ..old(self)@ }),
    {
        self.healthy = true;
    }

    pub fn mark_unhealthy(&mut self)
        ensures
            final(self)@ == (BackendView { healthy: false, ..old(self)@ }),
    {
        self.healthy = false;
    }

    /// Re-evaluates the flag from the run counters that proxied requests left.
    pub fn update_health_from_passive_check(&mut self, unhealthy_threshold: usize, healthy_threshold: usize)
        ensures
            final(self)@ == (BackendView {
                healthy: if old(self)@.consecutive_failures >= unhealthy_threshold {
                    false
                } else if old(self)@.consecutive_successes >= healthy_threshold {
                    true
                } else {
                    old(self)@.healthy
                },
                ..old(self)@
            }),
    {
        if self.consecutive_failures >= unhealthy_threshold {
            self.mark_unhealthy();
        } else if self.consecutive_successes >= healthy_threshold {
            self.mark_healthy();
        }
    }

    /// Records the outcome of an active health check made at `now_secs`
    /// (seconds since the Unix epoch).
    pub fn record_health_check(&mut self, success: bool, unhealthy_threshold: usize, healthy_threshold: usize, now_secs: u64)
        ensures
            final(self)@.health() == health_step(old(self)@.health(), success, unhealthy_threshold, healthy_threshold),
            final(self)@ == (BackendView {
                healthy: final(self)@.healthy,
                consecutive_successes: final(self)@.consecutive_successes,
                consecutive_failures: final(self)@.consecutive_failures,
                last_check: now_secs,
                ..old(self)@
            }),
    {
        self.last_check = now_secs;
        if success {
            let successes = inc_usize(self.consecutive_successes);
            self.consecutive_successes = successes;
            self.consecutive_failures = 0;
            if successes >= healthy_threshold {
                self.mark_healthy();
            }
        } else {
            let failures = inc_usize(self.consecutive_failures);
            self.consecutive_failures = failures;
            self.consecutive_successes = 0;
            if failures >= unhealthy_threshold {
                self.mark_unhealthy();
            }
        }
    }

    pub fn health_stats(&self) -> (r: HealthStats)
        ensures
            r.is_healthy == self@.healthy,
            r.consecutive_successes == self@.consecutive_successes,
            r.consecutive_failures == self@.consecutive_failures,
            r.total_successes == self@.total_successes,
            r.total_failures == self@.total_failures,
            r.active_connections == self@.active_connections,
    {
        HealthStats {
            is_healthy: self.healthy,
            consecutive_successes: self.consecutive_successes,
            consecutive_failures: self.consecutive_failures,
            total_successes: self.total_successes,
            total_failures: self.total_failures,
            active_connections: self.active_connections,
        }
    }
}

} // verus!
