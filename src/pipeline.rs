use vstd::prelude::*;
use crate::proxy::{report_for, server_error, BreakerReport, UpstreamOutcome};
use crate::ratelimit::RateLimitResult;

verus! {

/// Where a request stands in the pipeline.
#[derive(PartialEq, Eq, Structural, Clone, Copy, Debug)]
pub enum Stage {
    Route,
    IpFilter,
    Auth,
    RateLimit,
    Cache,
    Select,
    Breaker,
    Upstream,
    Done,
}

/// Why a request is answered without reaching the upstream.
#[derive(PartialEq, Eq, Structural, Clone, Copy, Debug)]
pub enum Rejection {
    NoRoute,
    Forbidden,
    Unauthorized,
    RateLimited(RateLimitResult),
    NoHealthyBackend,
    CircuitOpen,
    OutOfOrder,
}

/// What the caller learned from the step it was asked to perform.
#[derive(PartialEq, Eq, Structural, Clone, Copy, Debug)]
pub enum PipelineEvent {
    /// The route matched; its filter, authentication, rule count and cache applicability.
    Routed { ip_filter: bool, auth: bool, rules: usize, cache: bool },
    RouteFailed,
    IpChecked(bool),
    Authenticated(bool),
    /// The verdict of the current rate-limit rule; `None` when the rule does not apply.
    RuleChecked(Option<RateLimitResult>),
    /// Whether the cache held a fresh answer.
    CacheChecked(bool),
    BackendChosen(Option<usize>),
    BreakerAnswered(bool),
    UpstreamFinished(UpstreamOutcome),
}

/// What the caller does next.
#[derive(PartialEq, Eq, Structural, Clone, Copy, Debug)]
pub enum PipelineAction {
    Reject(Rejection),
    CheckIp,
    Authenticate,
    CheckRule(usize),
    LookupCache,
    /// Answer from the cache, with the rate-limit headers of `limit` when there is one.
    ServeCached { limit: Option<RateLimitResult> },
    ChooseBackend,
    AskBreaker(usize),
    /// Count a connection to the backend and send the request.
    Forward(usize),
    /// Release the connection, tell the breaker `report` and the health tracker
    /// `healthy`; when `answered`, return the upstream's answer (with the headers of
    /// `limit`), and store it in the cache when `store`.
    Complete { backend: usize, report: BreakerReport, healthy: bool, answered: bool, store: bool, limit: Option<RateLimitResult> },
}

/// State of one request: the stage, what the matched route asks for, and what was decided.
#[derive(PartialEq, Eq, Structural, Clone, Copy, Debug)]
pub struct Pipeline {
    pub stage: Stage,
    pub ip_filter: bool,
    pub auth: bool,
    pub rules: usize,
    pub next_rule: usize,
    pub cache: bool,
    pub backend: usize,
    pub limit: Option<RateLimitResult>,
}

/// Past the rate limits: the cache lookup when it applies, else backend selection.
pub open spec fn after_limits(p: Pipeline) -> (Pipeline, PipelineAction) {
    if p.cache {
        (Pipeline { stage: Stage::Cache, ..p }, PipelineAction::LookupCache)
    } else {
        (Pipeline { stage: Stage::Select, ..p }, PipelineAction::ChooseBackend)
    }
}

/// The next rate-limit rule to check, or what follows the rules.
pub open spec fn next_limit(p: Pipeline) -> (Pipeline, PipelineAction) {
    if p.next_rule < p.rules {
        (Pipeline { stage: Stage::RateLimit, ..p }, PipelineAction::CheckRule(p.next_rule))
    } else {
        after_limits(p)
    }
}

/// Past authentication.
pub open spec fn after_auth(p: Pipeline) -> (Pipeline, PipelineAction) {
    next_limit(p)
}

/// Past the address filter: authentication when the route needs it.
pub open spec fn after_ip(p: Pipeline) -> (Pipeline, PipelineAction) {
    if p.auth {
        (Pipeline { stage: Stage::Auth, ..p }, PipelineAction::Authenticate)
    } else {
        after_auth(p)
    }
}

pub open spec fn reject(p: Pipeline, why: Rejection) -> (Pipeline, PipelineAction) {
    (Pipeline { stage: Stage::Done, ..p }, PipelineAction::Reject(why))
}

/// One step: stages run in order (route, address filter, authentication, each
/// rate-limit rule, cache lookup, backend selection, breaker, upstream); a stage that
/// does not apply is skipped, and any refusal ends the request.
pub open spec fn step_spec(p: Pipeline, e: PipelineEvent) -> (Pipeline, PipelineAction) {
    match (p.stage, e) {
        (Stage::Route, PipelineEvent::Routed { ip_filter, auth, rules, cache }) => {
            let q = Pipeline { ip_filter, auth, rules, next_rule: 0, cache, limit: None, ..p };
            if ip_filter {
                (Pipeline { stage: Stage::IpFilter, ..q }, PipelineAction::CheckIp)
            } else {
                after_ip(q)
            }
        },
        (Stage::Route, PipelineEvent::RouteFailed) => reject(p, Rejection::NoRoute),
        (Stage::IpFilter, PipelineEvent::IpChecked(ok)) => if ok { after_ip(p) } else { reject(p, Rejection::Forbidden) },
        (Stage::Auth, PipelineEvent::Authenticated(ok)) => if ok { after_auth(p) } else { reject(p, Rejection::Unauthorized) },
        (Stage::RateLimit, PipelineEvent::RuleChecked(verdict)) => match verdict {
            Some(res) => if res.allowed {
                next_limit(Pipeline { next_rule: (p.next_rule + 1) as usize, limit: Some(res), ..p })
            } else {
                reject(p, Rejection::RateLimited(res))
            },
            None => next_limit(Pipeline { next_rule: (p.next_rule + 1) as usize, ..p }),
        },
        (Stage::Cache, PipelineEvent::CacheChecked(hit)) => if hit {
            (Pipeline { stage: Stage::Done, ..p }, PipelineAction::ServeCached { limit: p.limit })
        } else {
            (Pipeline { stage: Stage::Select, ..p }, PipelineAction::ChooseBackend)
        },
        (Stage::Select, PipelineEvent::BackendChosen(choice)) => match choice {
            Some(i) => (Pipeline { stage: Stage::Breaker, backend: i, ..p }, PipelineAction::AskBreaker(i)),
            None => reject(p, Rejection::NoHealthyBackend),
        },
        (Stage::Breaker, PipelineEvent::BreakerAnswered(ok)) => if ok {
            (Pipeline { stage: Stage::Upstream, ..p }, PipelineAction::Forward(p.backend))
        } else {
            reject(p, Rejection::CircuitOpen)
        },
        (Stage::Upstream, PipelineEvent::UpstreamFinished(o)) => {
            let answered = o is Response;
            (
                Pipeline { stage: Stage::Done, ..p },
                PipelineAction::Complete {
                    backend: p.backend,
                    report: report_for(o),
                    healthy: o matches UpstreamOutcome::Response(s) && !server_error(s),
                    answered,
                    store: p.cache && answered,
                    limit: p.limit,
                },
            )
        },
        _ => reject(p, Rejection::OutOfOrder),
    }
}

/// Only an admitting breaker sends a request upstream: a step asks to forward exactly
/// when the breaker of the chosen backend has just said yes.
pub proof fn lemma_forward_needs_admission(p: Pipeline, e: PipelineEvent)
    ensures
        step_spec(p, e).1 is Forward <==> (p.stage == Stage::Breaker && e == PipelineEvent::BreakerAnswered(true)),
{
}

/// A refused rate-limit rule ends the request with that rule's result (a 429), and no
/// later rule, cache or upstream is consulted.
pub proof fn lemma_refused_rule_ends_request(p: Pipeline, res: RateLimitResult)
    requires
        p.stage == Stage::RateLimit,
        !res.allowed,
    ensures
        step_spec(p, PipelineEvent::RuleChecked(Some(res))) == (Pipeline { stage: Stage::Done, ..p }, PipelineAction::Reject(Rejection::RateLimited(res))),
{
}

/// A cache hit is served without choosing a backend or calling the upstream.
pub proof fn lemma_cache_hit_is_served(p: Pipeline)
    requires
        p.stage == Stage::Cache,
    ensures
        step_spec(p, PipelineEvent::CacheChecked(true)).1 == (PipelineAction::ServeCached { limit: p.limit }),
        step_spec(p, PipelineEvent::CacheChecked(true)).0.stage == Stage::Done,
{
}

/// The rule counter stays within the route's rules, and a rule is pending whenever a
/// rule verdict is awaited.
pub open spec fn pipeline_wf(p: Pipeline) -> bool {
    &&& p.next_rule <= p.rules
    &&& p.stage == Stage::RateLimit ==> p.next_rule < p.rules
}

impl Pipeline {
    /// A request that has not been routed yet.
    pub fn new() -> (r: Pipeline)
        ensures
            r.stage == Stage::Route,
            pipeline_wf(r),
    {
        Pipeline { stage: Stage::Route, ip_filter: false, auth: false, rules: 0, next_rule: 0, cache: false, backend: 0, limit: None }
    }

    fn after_limits(&mut self) -> (r: PipelineAction)
        ensures
            (*final(self), r) == after_limits(*old(self)),
    {
        if self.cache {
            self.stage = Stage::Cache;
            PipelineAction::LookupCache
        } else {
            self.stage = Stage::Select;
            PipelineAction::ChooseBackend
        }
    }

    fn next_limit(&mut self) -> (r: PipelineAction)
        ensures
            (*final(self), r) == next_limit(*old(self)),
    {
        if self.next_rule < self.rules {
            self.stage = Stage::RateLimit;
            PipelineAction::CheckRule(self.next_rule)
        } else {
            self.after_limits()
        }
    }

    fn after_ip(&mut self) -> (r: PipelineAction)
        ensures
            (*final(self), r) == after_ip(*old(self)),
    {
        if self.auth {
            self.stage = Stage::Auth;
            PipelineAction::Authenticate
        } else {
            self.next_limit()
        }
    }

    fn reject(&mut self, why: Rejection) -> (r: PipelineAction)
        ensures
            (*final(self), r) == reject(*old(self), why),
    {
        self.stage = Stage::Done;
        PipelineAction::Reject(why)
    }

    /// Feeds the outcome of the last step and returns the next one.
    pub fn step(&mut self, e: PipelineEvent) -> (r: PipelineAction)
        requires
            pipeline_wf(*old(self)),
        ensures
            (*final(self), r) == step_spec(*old(self), e),
            pipeline_wf(*final(self)),
    {
        match (self.stage, e) {
            (Stage::Route, PipelineEvent::Routed { ip_filter, auth, rules, cache }) => {
                self.ip_filter = ip_filter;
                self.auth = auth;
                self.rules = rules;
                self.next_rule = 0;
                self.cache = cache;
                self.limit = None;
                if ip_filter {
                    self.stage = Stage::IpFilter;
                    PipelineAction::CheckIp
                } else {
                    self.after_ip()
                }
            },
            (Stage::Route, PipelineEvent::RouteFailed) => self.reject(Rejection::NoRoute),
            (Stage::IpFilter, PipelineEvent::IpChecked(ok)) => if ok { self.after_ip() } else { self.reject(Rejection::Forbidden) },
            (Stage::Auth, PipelineEvent::Authenticated(ok)) => if ok { self.next_limit() } else { self.reject(Rejection::Unauthorized) },
            (Stage::RateLimit, PipelineEvent::RuleChecked(verdict)) => {
                match verdict {
                    Some(res) => if res.allowed {
                        self.next_rule = self.next_rule + 1;
                        self.limit = Some(res);
                        self.next_limit()
                    } else {
                        self.reject(Rejection::RateLimited(res))
                    },
                    None => {
                        self.next_rule = self.next_rule + 1;
                        self.next_limit()
                    },
                }
            },
            (Stage::Cache, PipelineEvent::CacheChecked(hit)) => if hit {
                self.stage = Stage::Done;
                PipelineAction::ServeCached { limit: self.limit }
            } else {
                self.stage = Stage::Select;
                PipelineAction::ChooseBackend
            },
            (Stage::Select, PipelineEvent::BackendChosen(choice)) => match choice {
                Some(i) => {
                    self.stage = Stage::Breaker;
                    self.backend = i;
                    PipelineAction::AskBreaker(i)
                },
                None => self.reject(Rejection::NoHealthyBackend),
            },
            (Stage::Breaker, PipelineEvent::BreakerAnswered(ok)) => if ok {
                self.stage = Stage::Upstream;
                PipelineAction::Forward(self.backend)
            } else {
                self.reject(Rejection::CircuitOpen)
            },
            (Stage::Upstream, PipelineEvent::UpstreamFinished(o)) => {
                let answered = match o {
                    UpstreamOutcome::Response(_) => true,
                    _ => false,
                };
                self.stage = Stage::Done;
                PipelineAction::Complete {
                    backend: self.backend,
                    report: crate::proxy::breaker_report(o),
                    healthy: crate::proxy::passive_success(o),
                    answered,
                    store: self.cache && answered,
                    limit: self.limit,
                }
            },
            _ => self.reject(Rejection::OutOfOrder),
        }
    }
}

} // verus!
