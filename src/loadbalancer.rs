use vstd::prelude::*;
use crate::backend::{Backend, BackendConfig, BackendView};
use crate::health::{passive_view, probe_view, HealthCheckConfig};
use crate::ipfilter::IpAddress;
use crate::strategies::{advanced, choice, healthy_indices, views, LoadBalancingStrategy};

verus! {

/// Number of healthy backends of a pool.
pub open spec fn healthy_count_of(bs: Seq<BackendView>) -> nat {
    healthy_indices(bs).len()
}

/// A pool of backends and the strategy that chooses among them.
pub struct LoadBalancer {
    backends: Vec<Backend>,
    strategy: LoadBalancingStrategy,
}

impl LoadBalancer {
    pub closed spec fn pool(&self) -> Seq<BackendView> {
        views(self.backends@)
    }

    pub closed spec fn strategy_spec(&self) -> LoadBalancingStrategy {
        self.strategy
    }

    /// Builds one fresh backend per configuration, in order.
    pub fn new(backend_configs: Vec<BackendConfig>, strategy: LoadBalancingStrategy) -> (r: LoadBalancer)
        requires
            backend_configs@.len() <= u32::MAX,
        ensures
            r.pool().len() == backend_configs@.len(),
            forall|i: int| 0 <= i < backend_configs@.len() ==> r.pool()[i] == (BackendView {
                url: backend_configs@[i].url@,
                weight: backend_configs@[i].weight,
                healthy: true,
                consecutive_successes: 0,
                consecutive_failures: 0,
                total_successes: 0,
                total_failures: 0,
                active_connections: 0,
                last_check: 0,
            }),
            r.strategy_spec() == strategy,
    {
        let mut configs = backend_configs;
        let ghost cs = configs@;
        let mut backends: Vec<Backend> = Vec::new();
        let mut rev: Vec<BackendConfig> = Vec::new();
        // reverse once, so that popping yields the configurations in their order
        while configs.len() > 0
            invariant
                rev@.len() + configs@.len() == cs.len(),
                configs@ == cs.take(configs@.len() as int),
                forall|i: int| 0 <= i < rev@.len() ==> rev@[i] == cs[cs.len() - 1 - i],
            decreases configs@.len(),
        {
            let c = configs.pop().unwrap();
            rev.push(c);
            assert(configs@ =~= cs.take(configs@.len() as int));
        }
        while rev.len() > 0
            invariant
                rev@.len() + backends@.len() == cs.len(),
                forall|i: int| 0 <= i < rev@.len() ==> rev@[i] == cs[cs.len() - 1 - i],
                forall|i: int| 0 <= i < backends@.len() ==> backends@[i]@ == (BackendView {
                    url: cs[i].url@,
                    weight: cs[i].weight,
                    healthy: true,
                    consecutive_successes: 0,
                    consecutive_failures: 0,
                    total_successes: 0,
                    total_failures: 0,
                    active_connections: 0,
                    last_check: 0,
                }),
            decreases rev@.len(),
        {
            let c = rev.pop().unwrap();
            backends.push(Backend::new(c));
        }
        LoadBalancer { backends, strategy }
    }

    /// Chooses a backend for a request, by position in the pool.
    pub fn select_backend(&mut self, client_ip: Option<IpAddress>) -> (r: Option<usize>)
        requires
            old(self).pool().len() <= u32::MAX,
        ensures
            final(self).pool() == old(self).pool(),
            r == choice(old(self).strategy_spec(), old(self).pool(), client_ip),
            advanced(old(self).strategy_spec(), final(self).strategy_spec(), old(self).pool()),
            healthy_count_of(old(self).pool()) == 0 ==> r is None,
            healthy_count_of(old(self).pool()) > 0 && (!(old(self).strategy_spec() is IpHash) || client_ip is Some)
                ==> r is Some,
            r matches Some(i) ==> i < old(self).pool().len() && old(self).pool()[i as int].healthy,
    {
        self.strategy.select(&self.backends, client_ip)
    }

    pub fn backends(&self) -> (r: &Vec<Backend>)
        ensures
            views(r@) == self.pool(),
    {
        &self.backends
    }

    /// Marks the backend at position `i` healthy or unhealthy.
    pub fn set_backend_health(&mut self, i: usize, healthy: bool)
        requires
            i < old(self).pool().len(),
        ensures
            final(self).pool() == old(self).pool().update(i as int, BackendView { healthy, ..old(self).pool()[i as int] }),
            final(self).strategy_spec() == old(self).strategy_spec(),
    {
        let mut b = self.backends.remove(i);
        if healthy {
            b.mark_healthy();
        } else {
            b.mark_unhealthy();
        }
        self.backends.insert(i, b);
        assert(views(self.backends@) =~= views(old(self).backends@).update(i as int, BackendView { healthy, ..views(old(self).backends@)[i as int] }));
    }

    /// Counts one more request in flight to the backend at position `i`.
    pub fn increment_connections(&mut self, i: usize)
        requires
            i < old(self).pool().len(),
        ensures
            final(self).pool() == old(self).pool().update(i as int, BackendView {
                active_connections: crate::backend::sat_inc_usize(old(self).pool()[i as int].active_connections),
                ..old(self).pool()[i as int]
            }),
            final(self).strategy_spec() == old(self).strategy_spec(),
    {
        let mut b = self.backends.remove(i);
        b.increment_connections();
        self.backends.insert(i, b);
        assert(views(self.backends@) =~= views(old(self).backends@).update(i as int, BackendView {
            active_connections: crate::backend::sat_inc_usize(views(old(self).backends@)[i as int].active_connections),
            ..views(old(self).backends@)[i as int]
        }));
    }

    /// Counts one request in flight less to the backend at position `i`.
    pub fn decrement_connections(&mut self, i: usize)
        requires
            i < old(self).pool().len(),
        ensures
            final(self).pool() == old(self).pool().update(i as int, BackendView {
                active_connections: if old(self).pool()[i as int].active_connections > 0 {
                    (old(self).pool()[i as int].active_connections - 1) as usize
                } else {
                    0
                },
                ..old(self).pool()[i as int]
            }),
            final(self).strategy_spec() == old(self).strategy_spec(),
    {
        let mut b = self.backends.remove(i);
        b.decrement_connections();
        self.backends.insert(i, b);
        assert(views(self.backends@) =~= views(old(self).backends@).update(i as int, BackendView {
            active_connections: if views(old(self).backends@)[i as int].active_connections > 0 {
                (views(old(self).backends@)[i as int].active_connections - 1) as usize
            } else {
                0
            },
            ..views(old(self).backends@)[i as int]
        }));
    }

    /// Feeds a proxied request's outcome on backend `i` to passive health checks.
    pub fn passive_check(&mut self, i: usize, config: &HealthCheckConfig, success: bool)
        requires
            i < old(self).pool().len(),
        ensures
            final(self).pool() == old(self).pool().update(i as int, passive_view(*config, old(self).pool()[i as int], success)),
            final(self).strategy_spec() == old(self).strategy_spec(),
    {
        let mut b = self.backends.remove(i);
        config.passive_check(&mut b, success);
        self.backends.insert(i, b);
        assert(views(self.backends@) =~= views(old(self).backends@).update(i as int, passive_view(*config, views(old(self).backends@)[i as int], success)));
    }

    /// Records an active probe of backend `i` answered at `now_secs` with `status`.
    pub fn record_probe(&mut self, i: usize, config: &HealthCheckConfig, status: Option<u16>, now_secs: u64)
        requires
            i < old(self).pool().len(),
        ensures
            final(self).pool() == old(self).pool().update(i as int, probe_view(*config, old(self).pool()[i as int], status, now_secs)),
            final(self).strategy_spec() == old(self).strategy_spec(),
    {
        let mut b = self.backends.remove(i);
        config.record_probe(&mut b, status, now_secs);
        self.backends.insert(i, b);
        assert(views(self.backends@) =~= views(old(self).backends@).update(i as int, probe_view(*config, views(old(self).backends@)[i as int], status, now_secs)));
    }

    pub fn healthy_count(&self) -> (r: usize)
        ensures
            r == healthy_count_of(self.pool()),
    {
        let h = crate::strategies::healthy_positions(&self.backends);
        h.len()
    }

    pub fn total_count(&self) -> (r: usize)
        ensures
            r == self.pool().len(),
    {
        self.backends.len()
    }

    pub fn has_healthy_backend(&self) -> (r: bool)
        ensures
            r == (healthy_count_of(self.pool()) > 0),
    {
        self.healthy_count() > 0
    }
}

} // verus!
