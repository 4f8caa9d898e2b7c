use vstd::prelude::*;
use vstd::string::*;

verus! {

/// A `Duration` of the given number of whole seconds.
pub uninterp spec fn duration_of_secs(secs: u64) -> core::time::Duration;

/// Relies on `Duration::from_secs`: the duration of `secs` whole seconds.
pub assume_specification[ core::time::Duration::from_secs ](secs: u64) -> (r: core::time::Duration)
    ensures
        r == duration_of_secs(secs),
;

/// State of a circuit breaker.
#[derive(PartialEq, Eq, Structural, Clone, Copy, Debug)]
pub enum CircuitState {
    /// Requests flow normally.
    Closed,
    /// Requests are rejected until the open timeout has elapsed.
    Open,
    /// A limited number of probe requests are let through.
    HalfOpen,
}

impl CircuitState {
    /// The state's name.
    pub fn to_string(&self) -> (r: String)
        ensures
            r@ == match *self {
                CircuitState::Closed => "Closed"@,
                CircuitState::Open => "Open"@,
                CircuitState::HalfOpen => "HalfOpen"@,
            },
    {
        match self {
            CircuitState::Closed => String::from_str("Closed"),
            CircuitState::Open => String::from_str("Open"),
            CircuitState::HalfOpen => String::from_str("HalfOpen"),
        }
    }
}

/// Thresholds and timeouts of a circuit breaker.
#[derive(Clone, Copy, Debug)]
pub struct CircuitBreakerConfig {
    /// Consecutive failures in Closed that open the circuit.
    pub failure_threshold: u32,
    /// Consecutive successes in HalfOpen that close the circuit.
    pub success_threshold: u32,
    /// Seconds the circuit stays open before probes are let through.
    pub timeout_secs: u64,
    /// Probe requests allowed in flight while half-open.
    pub half_open_requests: u32,
    /// Timeout of each upstream request, in seconds.
    pub request_timeout_secs: u64,
}

pub fn default_failure_threshold() -> (r: u32)
    ensures
        r == 5,
{
    5
}

pub fn default_success_threshold() -> (r: u32)
    ensures
        r == 2,
{
    2
}

pub fn default_timeout_secs() -> (r: u64)
    ensures
        r == 60,
{
    60
}

pub fn default_half_open_requests() -> (r: u32)
    ensures
        r == 3,
{
    3
}

pub fn default_request_timeout_secs() -> (r: u64)
    ensures
        r == 30,
{
    30
}

impl Default for CircuitBreakerConfig {
    fn default() -> (r: CircuitBreakerConfig)
        ensures
            r.failure_threshold == 5,
            r.success_threshold == 2,
            r.timeout_secs == 60,
            r.half_open_requests == 3,
            r.request_timeout_secs == 30,
    {
        CircuitBreakerConfig {
            failure_threshold: default_failure_threshold(),
            success_threshold: default_success_threshold(),
            timeout_secs: default_timeout_secs(),
            half_open_requests: default_half_open_requests(),
            request_timeout_secs: default_request_timeout_secs(),
        }
    }
}

impl CircuitBreakerConfig {
    pub fn timeout(&self) -> (r: core::time::Duration)
        ensures
            r == duration_of_secs(self.timeout_secs),
    {
        core::time::Duration::from_secs(self.timeout_secs)
    }

    pub fn request_timeout(&self) -> (r: core::time::Duration)
        ensures
            r == duration_of_secs(self.request_timeout_secs),
    {
        core::time::Duration::from_secs(self.request_timeout_secs)
    }
}

/// Counters of a circuit breaker.
#[derive(Clone, Copy, Debug, PartialEq, Eq, Structural)]
pub struct CircuitBreakerMetrics {
    /// Requests admitted.
    pub total_requests: u64,
    pub successful_requests: u64,
    pub failed_requests: u64,
    /// Requests rejected without being sent.
    pub rejected_requests: u64,
    pub timeout_count: u64,
    pub circuit_opened_count: u64,
    pub circuit_closed_count: u64,
    pub circuit_half_opened_count: u64,
}

impl CircuitBreakerMetrics {
    pub fn new() -> (r: CircuitBreakerMetrics)
        ensures
            r == zero_metrics(),
    {
        CircuitBreakerMetrics {
            total_requests: 0,
            successful_requests: 0,
            failed_requests: 0,
            rejected_requests: 0,
            timeout_count: 0,
            circuit_opened_count: 0,
            circuit_closed_count: 0,
            circuit_half_opened_count: 0,
        }
    }
}

pub open spec fn zero_metrics() -> CircuitBreakerMetrics {
    CircuitBreakerMetrics {
        total_requests: 0,
        successful_requests: 0,
        failed_requests: 0,
        rejected_requests: 0,
        timeout_count: 0,
        circuit_opened_count: 0,
        circuit_closed_count: 0,
        circuit_half_opened_count: 0,
    }
}

pub open spec fn inc(n: u64) -> u64 {
    if n < u64::MAX {
        (n + 1) as u64
    } else {
        n
    }
}

fn inc_exec(n: u64) -> (r: u64)
    ensures
        r == inc(n),
{
    if n < u64::MAX {
        n + 1
    } else {
        n
    }
}

/// Mutable part of a circuit breaker; times are milliseconds on a monotonic clock.
#[derive(Clone, Copy, Debug, PartialEq, Eq, Structural)]
pub struct BreakerState {
    pub state: CircuitState,
    pub consecutive_failures: u32,
    pub consecutive_successes: u32,
    pub half_open_in_flight: u32,
    pub opened_at: Option<u64>,
    pub metrics: CircuitBreakerMetrics,
}

/// Whether the open timeout of `timeout_secs` seconds has elapsed at `now`
/// for a circuit opened at `opened_at`.
pub open spec fn timeout_elapsed(opened_at: u64, now: u64, timeout_secs: u64) -> bool {
    now >= opened_at && (now - opened_at) >= 1000 * timeout_secs
}

pub open spec fn opened(s: BreakerState, now: u64) -> BreakerState {
    BreakerState {
        state: CircuitState::Open,
        opened_at: Some(now),
        consecutive_failures: 0,
        consecutive_successes: 0,
        half_open_in_flight: 0,
        metrics: CircuitBreakerMetrics { circuit_opened_count: inc(s.metrics.circuit_opened_count), ..s.metrics },
    }
}

pub open spec fn closed(s: BreakerState) -> BreakerState {
    BreakerState {
        state: CircuitState::Closed,
        opened_at: None,
        consecutive_failures: 0,
        consecutive_successes: 0,
        half_open_in_flight: 0,
        metrics: CircuitBreakerMetrics { circuit_closed_count: inc(s.metrics.circuit_closed_count), ..s.metrics },
    }
}

/// An admission request at time `now`: the new state and whether the request may proceed.
pub open spec fn admission(s: BreakerState, cfg: CircuitBreakerConfig, now: u64) -> (BreakerState, bool) {
    match s.state {
        CircuitState::Closed => (
            BreakerState { metrics: CircuitBreakerMetrics { total_requests: inc(s.metrics.total_requests), ..s.metrics }, ..s },
            true,
        ),
        CircuitState::Open => match s.opened_at {
            Some(t0) => if timeout_elapsed(t0, now, cfg.timeout_secs) {
                (
                    BreakerState {
                        state: CircuitState::HalfOpen,
                        consecutive_failures: 0,
                        consecutive_successes: 0,
                        half_open_in_flight: 1,
                        opened_at: s.opened_at,
                        metrics: CircuitBreakerMetrics {
                            circuit_half_opened_count: inc(s.metrics.circuit_half_opened_count),
                            total_requests: inc(s.metrics.total_requests),
                            ..s.metrics
                        },
                    },
                    true,
                )
            } else {
                (
                    BreakerState { metrics: CircuitBreakerMetrics { rejected_requests: inc(s.metrics.rejected_requests), ..s.metrics }, ..s },
                    false,
                )
            },
            None => (s, false),
        },
        CircuitState::HalfOpen => if s.half_open_in_flight < cfg.half_open_requests {
            (
                BreakerState {
                    half_open_in_flight: (s.half_open_in_flight + 1) as u32,
                    metrics: CircuitBreakerMetrics { total_requests: inc(s.metrics.total_requests), ..s.metrics },
                    ..s
                },
                true,
            )
        } else {
            (
                BreakerState { metrics: CircuitBreakerMetrics { rejected_requests: inc(s.metrics.rejected_requests), ..s.metrics }, ..s },
                false,
            )
        },
    }
}

/// A reported success.
pub open spec fn on_success(s: BreakerState, cfg: CircuitBreakerConfig) -> BreakerState {
    let s1 = BreakerState { metrics: CircuitBreakerMetrics { successful_requests: inc(s.metrics.successful_requests), ..s.metrics }, ..s };
    match s.state {
        CircuitState::Closed => BreakerState { consecutive_failures: 0, ..s1 },
        CircuitState::HalfOpen => {
            let s2 = BreakerState {
                consecutive_successes: (s.consecutive_successes + 1) as u32,
                half_open_in_flight: if s.half_open_in_flight > 0 { (s.half_open_in_flight - 1) as u32 } else { 0 },
                ..s1
            };
            if s2.consecutive_successes >= cfg.success_threshold {
                closed(s2)
            } else {
                s2
            }
        },
        CircuitState::Open => s1,
    }
}

/// A reported failure at time `now`.
pub open spec fn on_failure(s: BreakerState, cfg: CircuitBreakerConfig, now: u64) -> BreakerState {
    let s1 = BreakerState { metrics: CircuitBreakerMetrics { failed_requests: inc(s.metrics.failed_requests), ..s.metrics }, ..s };
    match s.state {
        CircuitState::Closed => {
            let s2 = BreakerState { consecutive_failures: (s.consecutive_failures + 1) as u32, ..s1 };
            if s2.consecutive_failures >= cfg.failure_threshold {
                opened(s2, now)
            } else {
                s2
            }
        },
        CircuitState::HalfOpen => opened(
            BreakerState {
                half_open_in_flight: if s.half_open_in_flight > 0 { (s.half_open_in_flight - 1) as u32 } else { 0 },
                ..s1
            },
            now,
        ),
        CircuitState::Open => s1,
    }
}

/// Bounds every reachable state keeps: the run counters stay below their thresholds,
/// probes in flight stay within the cap (the probe that half-opens the circuit is
/// always let through), and an open circuit knows when it opened.
pub open spec fn breaker_wf(s: BreakerState, cfg: CircuitBreakerConfig) -> bool {
    &&& s.state == CircuitState::Closed ==> s.consecutive_failures < cfg.failure_threshold || s.consecutive_failures == 0
    &&& s.state == CircuitState::HalfOpen ==> s.consecutive_successes < cfg.success_threshold || s.consecutive_successes == 0
    &&& s.half_open_in_flight <= cfg.half_open_requests || s.half_open_in_flight <= 1
    &&& s.state == CircuitState::Open ==> s.opened_at is Some
}

/// The state after failures reported at each of `times`, in order.
pub open spec fn failure_run(s: BreakerState, cfg: CircuitBreakerConfig, times: Seq<u64>) -> BreakerState
    decreases times.len(),
{
    if times.len() == 0 {
        s
    } else {
        on_failure(failure_run(s, cfg, times.drop_last()), cfg, times.last())
    }
}

proof fn lemma_failure_run_counts(s: BreakerState, cfg: CircuitBreakerConfig, times: Seq<u64>)
    requires
        breaker_wf(s, cfg),
        s.state == CircuitState::Closed,
        s.consecutive_failures + times.len() <= cfg.failure_threshold,
    ensures
        failure_run(s, cfg, times).state == CircuitState::Open
            || (failure_run(s, cfg, times).state == CircuitState::Closed
                && failure_run(s, cfg, times).consecutive_failures == s.consecutive_failures + times.len()),
    decreases times.len(),
{
    if times.len() > 0 {
        lemma_failure_run_counts(s, cfg, times.drop_last());
    }
}

/// Consecutive failures open a closed breaker: from any well-formed Closed state, once
/// `failure_threshold` failures (at least one) have been reported with no success in
/// between, the breaker is Open.
pub proof fn lemma_threshold_failures_open(s: BreakerState, cfg: CircuitBreakerConfig, times: Seq<u64>)
    requires
        breaker_wf(s, cfg),
        s.state == CircuitState::Closed,
        cfg.failure_threshold >= 1,
        times.len() == cfg.failure_threshold,
    ensures
        failure_run(s, cfg, times).state == CircuitState::Open,
{
    let d = times.drop_last();
    if s.consecutive_failures + d.len() <= cfg.failure_threshold {
        lemma_failure_run_counts(s, cfg, d);
    }
    if s.consecutive_failures as int + d.len() > cfg.failure_threshold as int {
        lemma_failure_run_prefix_open(s, cfg, d);
    }
}

proof fn lemma_failure_run_prefix_open(s: BreakerState, cfg: CircuitBreakerConfig, times: Seq<u64>)
    requires
        breaker_wf(s, cfg),
        s.state == CircuitState::Closed,
        s.consecutive_failures + times.len() > cfg.failure_threshold,
        cfg.failure_threshold >= 1,
    ensures
        failure_run(s, cfg, times).state == CircuitState::Open,
    decreases times.len(),
{
    let d = times.drop_last();
    if s.consecutive_failures + d.len() > cfg.failure_threshold {
        lemma_failure_run_prefix_open(s, cfg, d);
    } else {
        lemma_failure_run_counts(s, cfg, d);
    }
}

/// The open timeout is respected: an Open breaker that opened at `t0` rejects every
/// admission request made before `t0` plus the timeout, staying Open with the same
/// opening time (so later calls see the same state), and the first request at or
/// after that instant is admitted and moves the breaker to HalfOpen.
pub proof fn lemma_open_until_timeout(s: BreakerState, cfg: CircuitBreakerConfig, now: u64)
    requires
        s.state == CircuitState::Open,
        s.opened_at is Some,
    ensures
        ({
            let t0 = s.opened_at->Some_0;
            let (s2, ok) = admission(s, cfg, now);
            &&& t0 <= now < t0 + 1000 * cfg.timeout_secs ==> !ok && s2.state == CircuitState::Open
                && s2.opened_at == s.opened_at
            &&& now >= t0 + 1000 * cfg.timeout_secs ==> ok && s2.state == CircuitState::HalfOpen
        }),
{
}

/// Per-backend circuit breaker.
pub struct CircuitBreaker {
    config: CircuitBreakerConfig,
    backend: String,
    st: BreakerState,
}

impl CircuitBreaker {
    pub closed spec fn spec_state(&self) -> BreakerState {
        self.st
    }

    pub closed spec fn spec_config(&self) -> CircuitBreakerConfig {
        self.config
    }

    pub closed spec fn spec_backend(&self) -> Seq<char> {
        self.backend@
    }

    pub open spec fn wf(&self) -> bool {
        breaker_wf(self.spec_state(), self.spec_config())
    }

    /// A closed breaker with every counter at zero.
    pub fn new(backend: String, config: CircuitBreakerConfig) -> (r: CircuitBreaker)
        ensures
            r.wf(),
            r.spec_config() == config,
            r.spec_backend() == backend@,
            r.spec_state() == (BreakerState {
                state: CircuitState::Closed,
                consecutive_failures: 0,
                consecutive_successes: 0,
                half_open_in_flight: 0,
                opened_at: None,
                metrics: zero_metrics(),
            }),
    {
        CircuitBreaker {
            config,
            backend,
            st: BreakerState {
                state: CircuitState::Closed,
                consecutive_failures: 0,
                consecutive_successes: 0,
                half_open_in_flight: 0,
                opened_at: None,
                metrics: CircuitBreakerMetrics::new(),
            },
        }
    }

    /// Decides whether a request at time `now_ms` may be sent to the backend.
    pub fn can_proceed(&mut self, now_ms: u64) -> (r: bool)
        requires
            old(self).wf(),
        ensures
            final(self).wf(),
            (final(self).spec_state(), r) == admission(old(self).spec_state(), old(self).spec_config(), now_ms),
            final(self).spec_config() == old(self).spec_config(),
            final(self).spec_backend() == old(self).spec_backend(),
    {
        match self.st.state {
            CircuitState::Closed => {
                self.st.metrics.total_requests = inc_exec(self.st.metrics.total_requests);
                true
            },
            CircuitState::Open => {
                match self.st.opened_at {
                    Some(opened_at) => {
                        proof {
                            if now_ms >= opened_at {
                                let x = (now_ms - opened_at) as int;
                                let t = self.config.timeout_secs as int;
                                assert((x / 1000 >= t) == (x >= 1000 * t)) by (nonlinear_arith)
                                    requires x >= 0, t >= 0;
                            }
                        }
                        if now_ms >= opened_at && (now_ms - opened_at) / 1000 >= self.config.timeout_secs {
                            self.transition_to_half_open();
                            self.st.metrics.total_requests = inc_exec(self.st.metrics.total_requests);
                            self.st.half_open_in_flight = 1;
                            true
                        } else {
                            self.st.metrics.rejected_requests = inc_exec(self.st.metrics.rejected_requests);
                            false
                        }
                    },
                    None => false,
                }
            },
            CircuitState::HalfOpen => {
                if self.st.half_open_in_flight < self.config.half_open_requests {
                    self.st.metrics.total_requests = inc_exec(self.st.metrics.total_requests);
                    self.st.half_open_in_flight = self.st.half_open_in_flight + 1;
                    true
                } else {
                    self.st.metrics.rejected_requests = inc_exec(self.st.metrics.rejected_requests);
                    false
                }
            },
        }
    }

    /// Reports a request that succeeded.
    pub fn record_success(&mut self)
        requires
            old(self).wf(),
        ensures
            final(self).wf(),
            final(self).spec_state() == on_success(old(self).spec_state(), old(self).spec_config()),
            final(self).spec_config() == old(self).spec_config(),
            final(self).spec_backend() == old(self).spec_backend(),
    {
        self.st.metrics.successful_requests = inc_exec(self.st.metrics.successful_requests);
        match self.st.state {
            CircuitState::Closed => {
                self.st.consecutive_failures = 0;
            },
            CircuitState::HalfOpen => {
                self.st.consecutive_successes = self.st.consecutive_successes + 1;
                if self.st.half_open_in_flight > 0 {
                    self.st.half_open_in_flight = self.st.half_open_in_flight - 1;
                }
                if self.st.consecutive_successes >= self.config.success_threshold {
                    self.transition_to_closed();
                }
            },
            CircuitState::Open => {},
        }
    }

    /// Reports a request that failed at time `now_ms`.
    pub fn record_failure(&mut self, now_ms: u64)
        requires
            old(self).wf(),
        ensures
            final(self).wf(),
            final(self).spec_state() == on_failure(old(self).spec_state(), old(self).spec_config(), now_ms),
            final(self).spec_config() == old(self).spec_config(),
            final(self).spec_backend() == old(self).spec_backend(),
    {
        self.st.metrics.failed_requests = inc_exec(self.st.metrics.failed_requests);
        match self.st.state {
            CircuitState::Closed => {
                self.st.consecutive_failures = self.st.consecutive_failures + 1;
                if self.st.consecutive_failures >= self.config.failure_threshold {
                    self.transition_to_open(now_ms);
                }
            },
            CircuitState::HalfOpen => {
                if self.st.half_open_in_flight > 0 {
                    self.st.half_open_in_flight = self.st.half_open_in_flight - 1;
                }
                self.transition_to_open(now_ms);
            },
            CircuitState::Open => {},
        }
    }

    /// Reports a request that timed out at time `now_ms`; it counts as a failure too.
    pub fn record_timeout(&mut self, now_ms: u64)
        requires
            old(self).wf(),
        ensures
            final(self).wf(),
            final(self).spec_state() == on_failure(
                BreakerState {
                    metrics: CircuitBreakerMetrics {
                        timeout_count: inc(old(self).spec_state().metrics.timeout_count),
                        ..old(self).spec_state().metrics
                    },
                    ..old(self).spec_state()
                },
                old(self).spec_config(),
                now_ms,
            ),
            final(self).spec_config() == old(self).spec_config(),
            final(self).spec_backend() == old(self).spec_backend(),
    {
        self.st.metrics.timeout_count = inc_exec(self.st.metrics.timeout_count);
        self.record_failure(now_ms);
    }

    pub fn state(&self) -> (r: CircuitState)
        ensures
            r == self.spec_state().state,
    {
        self.st.state
    }

    pub fn metrics(&self) -> (r: CircuitBreakerMetrics)
        ensures
            r == self.spec_state().metrics,
    {
        self.st.metrics
    }

    pub fn backend(&self) -> (r: &String)
        ensures
            r@ == self.spec_backend(),
    {
        &self.backend
    }

    fn transition_to_open(&mut self, now_ms: u64)
        ensures
            final(self).st == opened(old(self).st, now_ms),
            final(self).config == old(self).config,
            final(self).backend == old(self).backend,
    {
        self.st.state = CircuitState::Open;
        self.st.opened_at = Some(now_ms);
        self.st.consecutive_failures = 0;
        self.st.consecutive_successes = 0;
        self.st.half_open_in_flight = 0;
        self.st.metrics.circuit_opened_count = inc_exec(self.st.metrics.circuit_opened_count);
    }

    fn transition_to_half_open(&mut self)
        ensures
            final(self).st == (BreakerState {
                state: CircuitState::HalfOpen,
                consecutive_failures: 0,
                consecutive_successes: 0,
                half_open_in_flight: 0,
                metrics: CircuitBreakerMetrics {
                    circuit_half_opened_count: inc(old(self).st.metrics.circuit_half_opened_count),
                    ..old(self).st.metrics
                },
                ..old(self).st
            }),
            final(self).config == old(self).config,
            final(self).backend == old(self).backend,
    {
        self.st.state = CircuitState::HalfOpen;
        self.st.consecutive_failures = 0;
        self.st.consecutive_successes = 0;
        self.st.half_open_in_flight = 0;
        self.st.metrics.circuit_half_opened_count = inc_exec(self.st.metrics.circuit_half_opened_count);
    }

    fn transition_to_closed(&mut self)
        ensures
            final(self).st == closed(old(self).st),
            final(self).config == old(self).config,
            final(self).backend == old(self).backend,
    {
        self.st.state = CircuitState::Closed;
        self.st.opened_at = None;
        self.st.consecutive_failures = 0;
        self.st.consecutive_successes = 0;
        self.st.half_open_in_flight = 0;
        self.st.metrics.circuit_closed_count = inc_exec(self.st.metrics.circuit_closed_count);
    }
}

} // verus!
