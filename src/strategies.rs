use vstd::prelude::*;
use crate::backend::{Backend, BackendView};
use crate::ipfilter::IpAddress;

verus! {

/// Abstract views of a pool of backends.
pub open spec fn views(bs: Seq<Backend>) -> Seq<BackendView> {
    bs.map_values(|b: Backend| b@)
}

/// Positions of the healthy backends of a pool, in pool order.
pub open spec fn healthy_indices(bs: Seq<BackendView>) -> Seq<usize>
    decreases bs.len(),
{
    if bs.len() == 0 {
        Seq::empty()
    } else if bs.last().healthy {
        healthy_indices(bs.drop_last()).push((bs.len() - 1) as usize)
    } else {
        healthy_indices(bs.drop_last())
    }
}

/// Weights of the backends at the given positions.
pub open spec fn weights_at(bs: Seq<BackendView>, idx: Seq<usize>) -> Seq<u32> {
    idx.map_values(|j: usize| bs[j as int].weight)
}

/// Sum of the first `i` weights.
pub open spec fn cum_weight(ws: Seq<u32>, i: int) -> nat
    decreases i,
{
    if i <= 0 {
        0
    } else {
        cum_weight(ws, i - 1) + ws[i - 1] as nat
    }
}

pub open spec fn total_weight(ws: Seq<u32>) -> nat {
    cum_weight(ws, ws.len() as int)
}

/// Position, among weights `ws`, of the slot that covers point `p` of the cycle,
/// scanning from position `i`; the first position when none does.
pub open spec fn pick_from(ws: Seq<u32>, p: nat, i: int) -> int
    decreases ws.len() - i,
{
    if i >= ws.len() || i < 0 {
        0
    } else if p < cum_weight(ws, i + 1) {
        i
    } else {
        pick_from(ws, p, i + 1)
    }
}

/// The weighted choice for counter value `c`: the slot that covers `c mod total`.
pub open spec fn weighted_pick(ws: Seq<u32>, c: nat) -> int {
    pick_from(ws, c % total_weight(ws), 0)
}

/// Whether entry `k` of `idx` names the first of the backends listed in `idx` with the
/// fewest active connections.
pub open spec fn is_first_min(bs: Seq<BackendView>, idx: Seq<usize>, k: int) -> bool {
    &&& 0 <= k < idx.len()
    &&& forall|j: int| 0 <= j < idx.len() ==> bs[idx[k] as int].active_connections <= bs[idx[j] as int].active_connections
    &&& forall|j: int| 0 <= j < k ==> bs[idx[k] as int].active_connections < bs[idx[j] as int].active_connections
}

/// Hash of a client address: an IPv4 address as its 32-bit value, an IPv6
/// address as its leading 64 bits.
pub open spec fn ip_hash(ip: IpAddress) -> u64 {
    match ip {
        IpAddress::V4(a) => a as u64,
        IpAddress::V6(a) => (a >> 64u128) as u64,
    }
}

/// Round-robin counter.
pub struct RoundRobinStrategy {
    counter: u64,
}

/// Weighted round-robin counter.
pub struct WeightedStrategy {
    counter: u64,
}

impl View for RoundRobinStrategy {
    type V = u64;

    closed spec fn view(&self) -> u64 {
        self.counter
    }
}

impl View for WeightedStrategy {
    type V = u64;

    closed spec fn view(&self) -> u64 {
        self.counter
    }
}

impl RoundRobinStrategy {
    pub fn new() -> (r: RoundRobinStrategy)
        ensures
            r@ == 0,
    {
        RoundRobinStrategy { counter: 0 }
    }

    /// Picks the healthy backend at `counter mod n` among the `n` given, and advances the counter.
    pub fn select(&mut self, healthy: &Vec<usize>) -> (r: Option<usize>)
        ensures
            healthy@.len() == 0 ==> r is None && final(self)@ == old(self)@,
            healthy@.len() > 0 ==> r == Some(healthy@[(old(self)@ % healthy@.len() as u64) as int])
                && final(self)@ == old(self)@.wrapping_add(1),
    {
        if healthy.len() == 0 {
            return None;
        }
        let c = self.counter;
        self.counter = c.wrapping_add(1);
        let index = (c % (healthy.len() as u64)) as usize;
        Some(healthy[index])
    }
}

impl WeightedStrategy {
    pub fn new() -> (r: WeightedStrategy)
        ensures
            r@ == 0,
    {
        WeightedStrategy { counter: 0 }
    }

    /// Picks among the healthy backends in proportion to their weights; with every
    /// weight zero it falls back to round-robin.
    pub fn select(&mut self, backends: &Vec<Backend>, healthy: &Vec<usize>) -> (r: Option<usize>)
        requires
            forall|j: int| 0 <= j < healthy@.len() ==> healthy@[j] < backends@.len(),
            healthy@.len() <= u32::MAX,
        ensures
            healthy@.len() == 0 ==> r is None && final(self)@ == old(self)@,
            healthy@.len() > 0 ==> final(self)@ == old(self)@.wrapping_add(1),
            healthy@.len() > 0 && total_weight(weights_at(views(backends@), healthy@)) == 0
                ==> r == Some(healthy@[(old(self)@ % healthy@.len() as u64) as int]),
            healthy@.len() > 0 && total_weight(weights_at(views(backends@), healthy@)) > 0
                ==> r == Some(healthy@[weighted_pick(weights_at(views(backends@), healthy@), old(self)@ as nat)]),
    {
        if healthy.len() == 0 {
            return None;
        }
        let ghost ws = weights_at(views(backends@), healthy@);
        let mut total: u64 = 0;
        let mut i: usize = 0;
        while i < healthy.len()
            invariant
                i <= healthy@.len(),
                healthy@.len() <= u32::MAX,
                ws == weights_at(views(backends@), healthy@),
                forall|j: int| 0 <= j < healthy@.len() ==> healthy@[j] < backends@.len(),
                total as nat == cum_weight(ws, i as int),
                total <= i * (u32::MAX as u64),
            decreases healthy@.len() - i,
        {
            proof {
                assert(views(backends@)[healthy@[i as int] as int] == backends@[healthy@[i as int] as int]@);
                assert(ws[i as int] == backends@[healthy@[i as int] as int]@.weight);
            }
            let w = backends[healthy[i]].weight();
            assert(total + w <= (i + 1) * (u32::MAX as u64)) by (nonlinear_arith)
                requires total <= i * (u32::MAX as u64), w <= u32::MAX;
            total = total + w as u64;
            i = i + 1;
        }
        let c = self.counter;
        self.counter = c.wrapping_add(1);
        if total == 0 {
            let index = (c % (healthy.len() as u64)) as usize;
            return Some(healthy[index]);
        }
        let position = c % total;
        let mut cumulative: u64 = 0;
        let mut k: usize = 0;
        while k < healthy.len()
            invariant
                k <= healthy@.len(),
                ws == weights_at(views(backends@), healthy@),
                forall|j: int| 0 <= j < healthy@.len() ==> healthy@[j] < backends@.len(),
                total as nat == total_weight(ws),
                cumulative as nat == cum_weight(ws, k as int),
                position < total,
                position >= cumulative,
                position == c % total,
                c == old(self)@,
                self@ == c.wrapping_add(1),
                pick_from(ws, position as nat, 0) == pick_from(ws, position as nat, k as int),
            decreases healthy@.len() - k,
        {
            proof {
                assert(views(backends@)[healthy@[k as int] as int] == backends@[healthy@[k as int] as int]@);
                assert(ws[k as int] == backends@[healthy@[k as int] as int]@.weight);
                lemma_cum_monotone(ws, k as int + 1, ws.len() as int);
            }
            cumulative = cumulative + backends[healthy[k]].weight() as u64;
            if position < cumulative {
                assert(pick_from(ws, position as nat, k as int) == k);
                return Some(healthy[k]);
            }
            assert(pick_from(ws, position as nat, k as int) == pick_from(ws, position as nat, k + 1));
            k = k + 1;
        }
        proof {
            assert(false);
        }
        Some(healthy[0])
    }
}

proof fn lemma_pick_from_in_range(ws: Seq<u32>, p: nat, i: int)
    requires
        ws.len() > 0,
    ensures
        0 <= pick_from(ws, p, i) < ws.len(),
    decreases ws.len() - i,
{
    if 0 <= i < ws.len() && p >= cum_weight(ws, i + 1) {
        lemma_pick_from_in_range(ws, p, i + 1);
    }
}

/// The weighted choice always names one of the weighted positions.
pub proof fn lemma_pick_in_range(ws: Seq<u32>, c: nat)
    requires
        ws.len() > 0,
    ensures
        0 <= weighted_pick(ws, c) < ws.len(),
{
    lemma_pick_from_in_range(ws, c % total_weight(ws), 0);
}

proof fn lemma_cum_monotone(ws: Seq<u32>, i: int, j: int)
    requires
        0 <= i <= j <= ws.len(),
    ensures
        cum_weight(ws, i) <= cum_weight(ws, j),
    decreases j - i,
{
    if i < j {
        lemma_cum_monotone(ws, i, j - 1);
    }
}

/// Number of counter values `c` in `[c0, c0 + m)` whose weighted choice is position `i`.
pub open spec fn count_picks(ws: Seq<u32>, c0: nat, m: nat, i: int) -> nat
    decreases m,
{
    if m == 0 {
        0
    } else {
        count_picks(ws, c0, (m - 1) as nat, i) + if weighted_pick(ws, (c0 + m - 1) as nat) == i { 1nat } else { 0nat }
    }
}

proof fn lemma_count_front(ws: Seq<u32>, c0: nat, m: nat, i: int)
    ensures
        count_picks(ws, c0, m + 1, i)
            == (if weighted_pick(ws, c0) == i { 1nat } else { 0nat }) + count_picks(ws, c0 + 1, m, i),
    decreases m,
{
    if m > 0 {
        lemma_count_front(ws, c0, (m - 1) as nat, i);
        assert((c0 + (m + 1) - 1) as nat == ((c0 + 1) + m - 1) as nat);
        assert(count_picks(ws, c0, m + 1, i) == count_picks(ws, c0, m, i)
            + if weighted_pick(ws, (c0 + (m + 1) - 1) as nat) == i { 1nat } else { 0nat });
        assert(count_picks(ws, c0 + 1, m, i) == count_picks(ws, c0 + 1, (m - 1) as nat, i)
            + if weighted_pick(ws, ((c0 + 1) + m - 1) as nat) == i { 1nat } else { 0nat });
    } else {
        assert(count_picks(ws, c0, 1, i) == count_picks(ws, c0, 0, i)
            + if weighted_pick(ws, (c0 + 1 - 1) as nat) == i { 1nat } else { 0nat });
        assert((c0 + 1 - 1) as nat == c0);
        assert(count_picks(ws, c0 + 1, 0, i) == 0);
    }
}

proof fn lemma_count_split(ws: Seq<u32>, c0: nat, a: nat, b: nat, i: int)
    ensures
        count_picks(ws, c0, a + b, i) == count_picks(ws, c0, a, i) + count_picks(ws, c0 + a, b, i),
    decreases b,
{
    if b > 0 {
        lemma_count_split(ws, c0, a, (b - 1) as nat, i);
        assert(c0 + (a + b) - 1 == (c0 + a) + b - 1);
    }
}

proof fn lemma_count_shift(ws: Seq<u32>, c0: nat, i: int)
    requires
        total_weight(ws) > 0,
    ensures
        count_picks(ws, c0, total_weight(ws), i) == count_picks(ws, 0, total_weight(ws), i),
    decreases c0,
{
    let w = total_weight(ws);
    if c0 > 0 {
        let c = (c0 - 1) as nat;
        lemma_count_shift(ws, c, i);
        lemma_count_front(ws, c, w, i);
        assert((c + w) % w == c % w) by {
            vstd::arithmetic::div_mod::lemma_mod_add_multiples_vanish(c as int, w as int);
        }
        assert(weighted_pick(ws, (c + w) as nat) == weighted_pick(ws, c));
        assert(count_picks(ws, c, w + 1, i) == count_picks(ws, c, w, i)
            + if weighted_pick(ws, (c + w) as nat) == i { 1nat } else { 0nat });
    }
}

proof fn lemma_pick_bracket(ws: Seq<u32>, p: nat, k: int)
    requires
        0 <= k <= ws.len(),
        cum_weight(ws, k) <= p,
        p < total_weight(ws),
    ensures
        k <= pick_from(ws, p, k) < ws.len(),
        cum_weight(ws, pick_from(ws, p, k)) <= p < cum_weight(ws, pick_from(ws, p, k) + 1),
    decreases ws.len() - k,
{
    if k < ws.len() && p >= cum_weight(ws, k + 1) {
        lemma_pick_bracket(ws, p, k + 1);
    }
}

proof fn lemma_pick_iff(ws: Seq<u32>, p: nat, i: int)
    requires
        0 <= i < ws.len(),
        p < total_weight(ws),
    ensures
        (pick_from(ws, p, 0) == i) <==> (cum_weight(ws, i) <= p < cum_weight(ws, i + 1)),
{
    lemma_pick_bracket(ws, p, 0);
    let r = pick_from(ws, p, 0);
    if cum_weight(ws, i) <= p < cum_weight(ws, i + 1) && r != i {
        if r < i {
            lemma_cum_monotone(ws, r + 1, i);
        } else {
            lemma_cum_monotone(ws, i + 1, r);
        }
    }
}

proof fn lemma_count_first_cycle(ws: Seq<u32>, m: nat, i: int)
    requires
        0 <= i < ws.len(),
        m <= total_weight(ws),
    ensures
        count_picks(ws, 0, m, i) == if m <= cum_weight(ws, i) {
            0
        } else if m <= cum_weight(ws, i + 1) {
            (m - cum_weight(ws, i)) as nat
        } else {
            ws[i] as nat
        },
    decreases m,
{
    if m > 0 {
        let p = (m - 1) as nat;
        lemma_count_first_cycle(ws, p, i);
        assert(p % total_weight(ws) == p) by {
            vstd::arithmetic::div_mod::lemma_small_mod(p, total_weight(ws));
        }
        lemma_pick_iff(ws, p, i);
        assert(weighted_pick(ws, p) == pick_from(ws, p, 0));
        assert(cum_weight(ws, i + 1) == cum_weight(ws, i) + ws[i] as nat);
        assert(count_picks(ws, 0, m, i) == count_picks(ws, 0, p, i)
            + if weighted_pick(ws, p) == i { 1nat } else { 0nat });
    }
}

/// Weighted round-robin is exact over whole cycles: for weights with a positive sum,
/// among any `n * sum` consecutive counter values the backend at position `i` is
/// chosen exactly `n * ws[i]` times.
pub proof fn lemma_weighted_exact_over_cycles(ws: Seq<u32>, c0: nat, n: nat, i: int)
    requires
        0 <= i < ws.len(),
        total_weight(ws) > 0,
    ensures
        count_picks(ws, c0, n * total_weight(ws), i) == n * ws[i],
    decreases n,
{
    let w = total_weight(ws);
    if n > 0 {
        let k = (n - 1) as nat;
        lemma_weighted_exact_over_cycles(ws, c0, k, i);
        assert(n * w == k * w + w) by (nonlinear_arith)
            requires n == k + 1;
        lemma_count_split(ws, c0, k * w, w, i);
        lemma_count_shift(ws, c0 + k * w, i);
        lemma_cum_monotone(ws, i + 1, ws.len() as int);
        lemma_count_first_cycle(ws, w, i);
        assert(cum_weight(ws, i + 1) == cum_weight(ws, i) + ws[i] as nat);
        assert(count_picks(ws, 0, w, i) == ws[i]);
        assert(count_picks(ws, c0, k * w + w, i) == k * ws[i] + ws[i]);
        assert(n * ws[i] == k * ws[i] + ws[i]) by (nonlinear_arith)
            requires n == k + 1;
        assert(count_picks(ws, c0, n * w, i) == n * ws[i]);
    } else {
        assert(n * w == 0) by (nonlinear_arith)
            requires n == 0;
        assert(n * ws[i] == 0) by (nonlinear_arith)
            requires n == 0;
    }
}

/// The first backend with the fewest active connections, among positions `h`.
pub open spec fn first_min_pos(bs: Seq<BackendView>, h: Seq<usize>) -> int {
    choose|k: int| is_first_min(bs, h, k)
}

proof fn lemma_first_min_unique(bs: Seq<BackendView>, h: Seq<usize>, k: int)
    requires
        is_first_min(bs, h, k),
    ensures
        first_min_pos(bs, h) == k,
{
    let c = first_min_pos(bs, h);
    assert(is_first_min(bs, h, c));
    if c < k {
        assert(bs[h[k] as int].active_connections < bs[h[c] as int].active_connections);
    } else if k < c {
        assert(bs[h[c] as int].active_connections < bs[h[k] as int].active_connections);
    }
}

/// The backend position a strategy picks from a pool for a client address, if any.
pub open spec fn choice(st: LoadBalancingStrategy, bs: Seq<BackendView>, ip: Option<IpAddress>) -> Option<usize> {
    let h = healthy_indices(bs);
    if h.len() == 0 {
        None
    } else {
        match st {
            LoadBalancingStrategy::RoundRobin(s) => Some(h[(s@ % h.len() as u64) as int]),
            LoadBalancingStrategy::LeastConnections => Some(h[first_min_pos(bs, h)]),
            LoadBalancingStrategy::Weighted(s) => if total_weight(weights_at(bs, h)) == 0 {
                Some(h[(s@ % h.len() as u64) as int])
            } else {
                Some(h[weighted_pick(weights_at(bs, h), s@ as nat)])
            },
            LoadBalancingStrategy::IpHash => match ip {
                None => None,
                Some(a) => Some(h[(ip_hash(a) % h.len() as u64) as int]),
            },
        }
    }
}

/// How a selection moves a strategy on: counters advance by one when a healthy
/// backend existed; the kind never changes.
pub open spec fn advanced(before: LoadBalancingStrategy, after: LoadBalancingStrategy, bs: Seq<BackendView>) -> bool {
    match (before, after) {
        (LoadBalancingStrategy::RoundRobin(a), LoadBalancingStrategy::RoundRobin(b)) =>
            b@ == if healthy_indices(bs).len() > 0 { a@.wrapping_add(1) } else { a@ },
        (LoadBalancingStrategy::Weighted(a), LoadBalancingStrategy::Weighted(b)) =>
            b@ == if healthy_indices(bs).len() > 0 { a@.wrapping_add(1) } else { a@ },
        (LoadBalancingStrategy::LeastConnections, LoadBalancingStrategy::LeastConnections) => true,
        (LoadBalancingStrategy::IpHash, LoadBalancingStrategy::IpHash) => true,
        _ => false,
    }
}

/// How a pool's backend is chosen for a request.
pub enum LoadBalancingStrategy {
    RoundRobin(RoundRobinStrategy),
    LeastConnections,
    Weighted(WeightedStrategy),
    IpHash,
}

impl LoadBalancingStrategy {
    /// Chooses a healthy backend of `backends`, by position, or `None` when none is healthy
    /// (or, for IP hashing, when no client address is known).
    pub fn select(&mut self, backends: &Vec<Backend>, client_ip: Option<IpAddress>) -> (r: Option<usize>)
        requires
            backends@.len() <= u32::MAX,
        ensures
            r == choice(*old(self), views(backends@), client_ip),
            r matches Some(i) ==> i < backends@.len() && views(backends@)[i as int].healthy,
            advanced(*old(self), *final(self), views(backends@)),
    {
        let healthy = healthy_positions(backends);
        let ghost n = backends@.len();
        assert(views(backends@).len() == n);
        proof {
            lemma_healthy_indices_valid(views(backends@));
        }
        if healthy.len() == 0 {
            return None;
        }
        match self {
            LoadBalancingStrategy::RoundRobin(s) => s.select(&healthy),
            LoadBalancingStrategy::LeastConnections => {
                let r = Self::select_least_connections(backends, &healthy);
                proof {
                    let k = choose|k: int| is_first_min(views(backends@), healthy@, k) && r == Some(healthy@[k]);
                    lemma_first_min_unique(views(backends@), healthy@, k);
                }
                r
            },
            LoadBalancingStrategy::Weighted(s) => {
                proof {
                    lemma_pick_in_range(weights_at(views(backends@), healthy@), s@ as nat);
                }
                s.select(backends, &healthy)
            },
            LoadBalancingStrategy::IpHash => Self::select_ip_hash(&healthy, client_ip),
        }
    }

    /// The first healthy backend with the fewest active connections.
    pub fn select_least_connections(backends: &Vec<Backend>, healthy: &Vec<usize>) -> (r: Option<usize>)
        requires
            forall|j: int| 0 <= j < healthy@.len() ==> healthy@[j] < backends@.len(),
        ensures
            healthy@.len() == 0 ==> r is None,
            healthy@.len() > 0 ==> exists|k: int| is_first_min(views(backends@), healthy@, k) && r == Some(healthy@[k]),
    {
        if healthy.len() == 0 {
            return None;
        }
        let ghost bs = views(backends@);
        let mut best: usize = 0;
        let mut best_conn: usize = backends[healthy[0]].active_connections();
        let mut i: usize = 1;
        while i < healthy.len()
            invariant
                1 <= i <= healthy@.len(),
                bs == views(backends@),
                forall|j: int| 0 <= j < healthy@.len() ==> healthy@[j] < backends@.len(),
                best < i,
                best_conn == bs[healthy@[best as int] as int].active_connections,
                forall|j: int| 0 <= j < i ==> best_conn <= bs[healthy@[j] as int].active_connections,
                forall|j: int| 0 <= j < best ==> best_conn < bs[healthy@[j] as int].active_connections,
            decreases healthy@.len() - i,
        {
            let c = backends[healthy[i]].active_connections();
            if c < best_conn {
                best = i;
                best_conn = c;
            }
            i = i + 1;
        }
        assert(is_first_min(bs, healthy@, best as int));
        Some(healthy[best])
    }

    fn select_ip_hash(healthy: &Vec<usize>, client_ip: Option<IpAddress>) -> (r: Option<usize>)
        requires
            healthy@.len() > 0,
        ensures
            match client_ip {
                None => r is None,
                Some(ip) => r == Some(healthy@[(ip_hash(ip) % healthy@.len() as u64) as int]),
            },
    {
        match client_ip {
            None => None,
            Some(ip) => {
                let hash: u64 = match ip {
                    IpAddress::V4(a) => a as u64,
                    IpAddress::V6(a) => (a >> 64u128) as u64,
                };
                let index = (hash % (healthy.len() as u64)) as usize;
                Some(healthy[index])
            },
        }
    }
}

proof fn lemma_healthy_indices_valid(bs: Seq<BackendView>)
    requires
        bs.len() <= usize::MAX,
    ensures
        forall|j: int| 0 <= j < healthy_indices(bs).len() ==> healthy_indices(bs)[j] < bs.len()
            && bs[healthy_indices(bs)[j] as int].healthy,
        healthy_indices(bs).len() <= bs.len(),
    decreases bs.len(),
{
    if bs.len() > 0 {
        let d = bs.drop_last();
        let h = healthy_indices(d);
        lemma_healthy_indices_valid(d);
        assert forall|j: int| 0 <= j < h.len() implies h[j] < bs.len() && bs[h[j] as int].healthy by {
            assert(bs[h[j] as int] == d[h[j] as int]);
        }
        if bs.last().healthy {
            assert(healthy_indices(bs) == h.push((bs.len() - 1) as usize));
            assert forall|j: int| 0 <= j < healthy_indices(bs).len() implies healthy_indices(bs)[j] < bs.len()
                && bs[healthy_indices(bs)[j] as int].healthy by {
                if j < h.len() {
                    assert(healthy_indices(bs)[j] == h[j]);
                } else {
                    assert(healthy_indices(bs)[j] == (bs.len() - 1) as usize);
                    assert(bs[bs.len() - 1] == bs.last());
                }
            }
        }
    }
}

/// Positions of the healthy backends, in pool order.
pub fn healthy_positions(backends: &Vec<Backend>) -> (r: Vec<usize>)
    ensures
        r@ == healthy_indices(views(backends@)),
{
    let mut r: Vec<usize> = Vec::new();
    let mut i: usize = 0;
    while i < backends.len()
        invariant
            i <= backends@.len(),
            r@ == healthy_indices(views(backends@).take(i as int)),
        decreases backends@.len() - i,
    {
        proof {
            assert(views(backends@).take(i as int + 1).drop_last() =~= views(backends@).take(i as int));
        }
        if backends[i].is_healthy() {
            r.push(i);
        }
        i = i + 1;
    }
    assert(views(backends@).take(i as int) =~= views(backends@));
    r
}

} // verus!
