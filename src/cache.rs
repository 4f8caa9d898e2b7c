use vstd::prelude::*;
use vstd::string::*;
use crate::headers::{eq_ignore_ascii_case, eq_ignore_case, first_value, get_header, has_header, header_pairs, HeaderList};

verus! {

/// Response-cache settings of a route.
pub struct CacheConfig {
    pub enabled: bool,
    /// Largest number of entries kept.
    pub max_capacity: u64,
    /// Seconds an entry may be served.
    pub ttl_secs: u64,
    pub cacheable_methods: Vec<String>,
    pub cacheable_status_codes: Vec<u16>,
    /// Request headers that take part in the cache key.
    pub key_headers: Vec<String>,
    pub cache_with_cookies: bool,
}

pub fn default_enabled() -> (r: bool)
    ensures
        !r,
{
    false
}

pub fn default_max_capacity() -> (r: u64)
    ensures
        r == 1000,
{
    1000
}

pub fn default_ttl_secs() -> (r: u64)
    ensures
        r == 300,
{
    300
}

pub fn default_cacheable_methods() -> (r: Vec<String>)
    ensures
        r@.len() == 2,
        r@[0]@ == "GET"@,
        r@[1]@ == "HEAD"@,
{
    vec![String::from_str("GET"), String::from_str("HEAD")]
}

pub fn default_cacheable_status_codes() -> (r: Vec<u16>)
    ensures
        r@ == seq![200u16, 301, 302, 404],
{
    let r = vec![200u16, 301, 302, 404];
    assert(r@ =~= seq![200u16, 301, 302, 404]);
    r
}

impl Default for CacheConfig {
    fn default() -> (r: CacheConfig)
        ensures
            !r.enabled,
            r.max_capacity == 1000,
            r.ttl_secs == 300,
            r.cacheable_methods@.len() == 2,
            r.cacheable_methods@[0]@ == "GET"@,
            r.cacheable_methods@[1]@ == "HEAD"@,
            r.cacheable_status_codes@ == seq![200u16, 301, 302, 404],
            r.key_headers@.len() == 0,
            !r.cache_with_cookies,
    {
        CacheConfig {
            enabled: default_enabled(),
            max_capacity: default_max_capacity(),
            ttl_secs: default_ttl_secs(),
            cacheable_methods: default_cacheable_methods(),
            cacheable_status_codes: default_cacheable_status_codes(),
            key_headers: Vec::new(),
            cache_with_cookies: false,
        }
    }
}

/// Lexicographic order of texts by character code.
pub open spec fn text_le(a: Seq<char>, b: Seq<char>) -> bool
    decreases a.len(),
{
    if a.len() == 0 {
        true
    } else if b.len() == 0 {
        false
    } else if a[0] != b[0] {
        a[0] < b[0]
    } else {
        text_le(a.drop_first(), b.drop_first())
    }
}

/// Order of (name, value) pairs: by name, then by value.
pub open spec fn pair_le(a: (Seq<char>, Seq<char>), b: (Seq<char>, Seq<char>)) -> bool {
    if a.0 == b.0 {
        text_le(a.1, b.1)
    } else {
        text_le(a.0, b.0)
    }
}

/// Inserts `x` before the first element it does not follow.
pub open spec fn insert_sorted(x: (Seq<char>, Seq<char>), s: Seq<(Seq<char>, Seq<char>)>) -> Seq<(Seq<char>, Seq<char>)>
    decreases s.len(),
{
    if s.len() == 0 {
        seq![x]
    } else if pair_le(x, s[0]) {
        seq![x] + s
    } else {
        seq![s[0]] + insert_sorted(x, s.drop_first())
    }
}

/// The pairs in ascending order.
pub open spec fn sorted_pairs(s: Seq<(Seq<char>, Seq<char>)>) -> Seq<(Seq<char>, Seq<char>)>
    decreases s.len(),
{
    if s.len() == 0 {
        s
    } else {
        insert_sorted(s.last(), sorted_pairs(s.drop_last()))
    }
}

/// The whitelisted request headers that take part in a key, in whitelist order:
/// each whitelisted name with the request's first value of it, when present.
pub open spec fn selected_headers(request: Seq<(Seq<char>, Seq<char>)>, names: Seq<Seq<char>>) -> Seq<(Seq<char>, Seq<char>)>
    decreases names.len(),
{
    if names.len() == 0 {
        Seq::empty()
    } else {
        let prev = selected_headers(request, names.drop_last());
        match first_value(request, names.last()) {
            Some(v) => prev.push((names.last(), v)),
            None => prev,
        }
    }
}

pub open spec fn texts(v: Seq<String>) -> Seq<Seq<char>> {
    v.map_values(|s: String| s@)
}

/// Identity of a cached response: method, path, query and the selected headers in order.
#[derive(Clone, Debug, PartialEq, Eq, Hash)]
pub struct CacheKey {
    pub method: String,
    pub path: String,
    pub query: Option<String>,
    pub headers: Vec<(String, String)>,
}

/// Abstract value of a cache key.
pub struct CacheKeyView {
    pub method: Seq<char>,
    pub path: Seq<char>,
    pub query: Option<Seq<char>>,
    pub headers: Seq<(Seq<char>, Seq<char>)>,
}

impl View for CacheKey {
    type V = CacheKeyView;

    open spec fn view(&self) -> CacheKeyView {
        CacheKeyView {
            method: self.method@,
            path: self.path@,
            query: match self.query {
                Some(q) => Some(q@),
                None => None,
            },
            headers: header_pairs(self.headers@),
        }
    }
}

/// The key of a request.
pub open spec fn cache_key_spec(method: Seq<char>, path: Seq<char>, query: Option<Seq<char>>, request: Seq<(Seq<char>, Seq<char>)>, names: Seq<Seq<char>>) -> CacheKeyView {
    CacheKeyView { method, path, query, headers: sorted_pairs(selected_headers(request, names)) }
}

proof fn lemma_selected_depends_on_first_values(h1: Seq<(Seq<char>, Seq<char>)>, h2: Seq<(Seq<char>, Seq<char>)>, names: Seq<Seq<char>>)
    requires
        forall|i: int| 0 <= i < names.len() ==> first_value(h1, #[trigger] names[i]) == first_value(h2, names[i]),
    ensures
        selected_headers(h1, names) == selected_headers(h2, names),
    decreases names.len(),
{
    if names.len() > 0 {
        let d = names.drop_last();
        assert forall|i: int| 0 <= i < d.len() implies first_value(h1, #[trigger] d[i]) == first_value(h2, d[i]) by {
            assert(d[i] == names[i]);
        }
        lemma_selected_depends_on_first_values(h1, h2, d);
        assert(first_value(h1, names[names.len() - 1]) == first_value(h2, names[names.len() - 1]));
    }
}

/// Cache keys identify requests by method, path, query and whitelisted header values:
/// two requests that agree on the method, path and query, and on the value of every
/// whitelisted header, get equal keys whatever order their headers came in; two that
/// differ in method, path or query get different keys.
pub proof fn lemma_cache_key_identity(
    m1: Seq<char>, p1: Seq<char>, q1: Option<Seq<char>>, h1: Seq<(Seq<char>, Seq<char>)>,
    m2: Seq<char>, p2: Seq<char>, q2: Option<Seq<char>>, h2: Seq<(Seq<char>, Seq<char>)>,
    names: Seq<Seq<char>>,
)
    ensures
        (m1 == m2 && p1 == p2 && q1 == q2
            && forall|i: int| 0 <= i < names.len() ==> first_value(h1, #[trigger] names[i]) == first_value(h2, names[i]))
            ==> cache_key_spec(m1, p1, q1, h1, names) == cache_key_spec(m2, p2, q2, h2, names),
        (m1 != m2 || p1 != p2 || q1 != q2)
            ==> cache_key_spec(m1, p1, q1, h1, names) != cache_key_spec(m2, p2, q2, h2, names),
{
    if forall|i: int| 0 <= i < names.len() ==> first_value(h1, #[trigger] names[i]) == first_value(h2, names[i]) {
        lemma_selected_depends_on_first_values(h1, h2, names);
    }
}

proof fn lemma_insert_sorted_multiset(x: (Seq<char>, Seq<char>), s: Seq<(Seq<char>, Seq<char>)>)
    ensures
        insert_sorted(x, s).to_multiset() =~= s.to_multiset().insert(x),
    decreases s.len(),
{
    broadcast use vstd::seq_lib::to_multiset_build, vstd::seq_lib::to_multiset_insert, vstd::seq_lib::to_multiset_contains;

    if s.len() == 0 {
        assert(seq![x] =~= Seq::<(Seq<char>, Seq<char>)>::empty().push(x));
        assert(s.to_multiset() =~= vstd::multiset::Multiset::empty());
    } else if pair_le(x, s[0]) {
        assert(seq![x] + s =~= s.insert(0, x));
    } else {
        let d = s.drop_first();
        lemma_insert_sorted_multiset(x, d);
        let t = insert_sorted(x, d);
        assert(seq![s[0]] + t =~= t.insert(0, s[0]));
        assert(s =~= d.insert(0, s[0]));
    }
}

proof fn lemma_sorted_pairs_multiset(s: Seq<(Seq<char>, Seq<char>)>)
    ensures
        sorted_pairs(s).to_multiset() =~= s.to_multiset(),
    decreases s.len(),
{
    broadcast use vstd::seq_lib::to_multiset_build;

    if s.len() > 0 {
        lemma_sorted_pairs_multiset(s.drop_last());
        lemma_insert_sorted_multiset(s.last(), sorted_pairs(s.drop_last()));
        assert(s =~= s.drop_last().push(s.last()));
    }
}

proof fn lemma_selected_count(h: Seq<(Seq<char>, Seq<char>)>, names: Seq<Seq<char>>, n: Seq<char>, v: Seq<char>)
    ensures
        selected_headers(h, names).to_multiset().count((n, v))
            == if first_value(h, n) == Some(v) { names.to_multiset().count(n) } else { 0 },
    decreases names.len(),
{
    broadcast use vstd::seq_lib::to_multiset_build, vstd::seq_lib::to_multiset_contains;
    broadcast use vstd::multiset::group_multiset_axioms;

    if names.len() == 0 {
        assert(selected_headers(h, names).to_multiset() =~= vstd::multiset::Multiset::empty());
        assert(names.to_multiset() =~= vstd::multiset::Multiset::empty());
    } else {
        let d = names.drop_last();
        lemma_selected_count(h, d, n, v);
        assert(names =~= d.push(names.last()));
    }
}

/// Cache keys tell whitelisted header values apart: when two requests differ in the
/// value of a whitelisted header (including present in one and absent in the other),
/// their keys differ, whatever else they share.
pub proof fn lemma_cache_key_separates_header_values(
    m: Seq<char>, p: Seq<char>, q: Option<Seq<char>>,
    h1: Seq<(Seq<char>, Seq<char>)>, h2: Seq<(Seq<char>, Seq<char>)>,
    names: Seq<Seq<char>>, n: Seq<char>,
)
    requires
        names.contains(n),
        first_value(h1, n) != first_value(h2, n),
    ensures
        cache_key_spec(m, p, q, h1, names) != cache_key_spec(m, p, q, h2, names),
{
    broadcast use vstd::seq_lib::to_multiset_contains;

    let s1 = selected_headers(h1, names);
    let s2 = selected_headers(h2, names);
    lemma_sorted_pairs_multiset(s1);
    lemma_sorted_pairs_multiset(s2);
    assert(names.to_multiset().count(n) > 0);
    let v = if first_value(h1, n) is Some { first_value(h1, n)->Some_0 } else { first_value(h2, n)->Some_0 };
    lemma_selected_count(h1, names, n, v);
    lemma_selected_count(h2, names, n, v);
    assert(s1.to_multiset().count((n, v)) != s2.to_multiset().count((n, v)));
}

proof fn lemma_text_le_total(a: Seq<char>, b: Seq<char>)
    ensures
        text_le(a, b) || text_le(b, a),
    decreases a.len(),
{
    if a.len() > 0 && b.len() > 0 {
        if a[0] == b[0] {
            lemma_text_le_total(a.drop_first(), b.drop_first());
        }
    }
}

proof fn lemma_text_le_antisym(a: Seq<char>, b: Seq<char>)
    requires
        text_le(a, b),
        text_le(b, a),
    ensures
        a == b,
    decreases a.len(),
{
    if a.len() > 0 && b.len() > 0 {
        lemma_text_le_antisym(a.drop_first(), b.drop_first());
        assert(a =~= seq![a[0]] + a.drop_first());
        assert(b =~= seq![b[0]] + b.drop_first());
    } else {
        assert(a =~= b);
    }
}

proof fn lemma_text_le_trans(a: Seq<char>, b: Seq<char>, c: Seq<char>)
    requires
        text_le(a, b),
        text_le(b, c),
    ensures
        text_le(a, c),
    decreases a.len(),
{
    if a.len() > 0 && b.len() > 0 && c.len() > 0 && a[0] == b[0] && b[0] == c[0] {
        lemma_text_le_trans(a.drop_first(), b.drop_first(), c.drop_first());
    }
}

proof fn lemma_pair_le_order(x: (Seq<char>, Seq<char>), y: (Seq<char>, Seq<char>), z: (Seq<char>, Seq<char>))
    ensures
        pair_le(x, y) || pair_le(y, x),
        pair_le(x, y) && pair_le(y, x) ==> x == y,
        pair_le(x, y) && pair_le(y, z) ==> pair_le(x, z),
{
    lemma_text_le_total(x.0, y.0);
    lemma_text_le_total(x.1, y.1);
    if pair_le(x, y) && pair_le(y, x) {
        if x.0 == y.0 {
            lemma_text_le_antisym(x.1, y.1);
        } else {
            lemma_text_le_antisym(x.0, y.0);
        }
    }
    if pair_le(x, y) && pair_le(y, z) {
        if x.0 == y.0 && y.0 == z.0 {
            lemma_text_le_trans(x.1, y.1, z.1);
        } else if x.0 == y.0 {
            assert(text_le(y.0, z.0));
        } else if y.0 == z.0 {
            assert(text_le(x.0, y.0));
        } else {
            lemma_text_le_trans(x.0, y.0, z.0);
            if x.0 == z.0 {
                lemma_text_le_antisym(x.0, y.0);
            }
        }
    }
}

/// Whether the pairs are in ascending order.
pub open spec fn pairs_sorted(s: Seq<(Seq<char>, Seq<char>)>) -> bool {
    forall|i: int, j: int| 0 <= i < j < s.len() ==> pair_le(#[trigger] s[i], #[trigger] s[j])
}

proof fn lemma_insert_sorted_keeps_order(x: (Seq<char>, Seq<char>), s: Seq<(Seq<char>, Seq<char>)>)
    requires
        pairs_sorted(s),
    ensures
        pairs_sorted(insert_sorted(x, s)),
    decreases s.len(),
{
    if s.len() == 0 {
    } else if pair_le(x, s[0]) {
        let t = seq![x] + s;
        assert forall|i: int, j: int| 0 <= i < j < t.len() implies pair_le(#[trigger] t[i], #[trigger] t[j]) by {
            if i == 0 {
                if j > 1 {
                    lemma_pair_le_order(x, s[0], s[j - 1]);
                }
            } else {
                assert(t[i] == s[i - 1] && t[j] == s[j - 1]);
            }
        }
    } else {
        let d = s.drop_first();
        assert(pairs_sorted(d)) by {
            assert forall|i: int, j: int| 0 <= i < j < d.len() implies pair_le(#[trigger] d[i], #[trigger] d[j]) by {
                assert(d[i] == s[i + 1] && d[j] == s[j + 1]);
            }
        }
        lemma_insert_sorted_keeps_order(x, d);
        lemma_insert_sorted_multiset(x, d);
        let u = insert_sorted(x, d);
        let t = seq![s[0]] + u;
        lemma_pair_le_order(x, s[0], s[0]);
        assert forall|i: int, j: int| 0 <= i < j < t.len() implies pair_le(#[trigger] t[i], #[trigger] t[j]) by {
            if i == 0 {
                let e = u[j - 1];
                assert(u.to_multiset().count(e) > 0) by {
                    broadcast use vstd::seq_lib::to_multiset_contains;
                    assert(u.contains(e));
                }
                assert(d.to_multiset().insert(x).count(e) > 0);
                if e != x {
                    assert(d.to_multiset().count(e) > 0);
                    assert(d.contains(e)) by {
                        broadcast use vstd::seq_lib::to_multiset_contains;
                    }
                    let k = choose|k: int| 0 <= k < d.len() && d[k] == e;
                    assert(s[k + 1] == e);
                    assert(pair_le(s[0], s[k + 1]));
                }
            } else {
                assert(t[i] == u[i - 1] && t[j] == u[j - 1]);
            }
        }
    }
}

proof fn lemma_sorted_pairs_sorted(s: Seq<(Seq<char>, Seq<char>)>)
    ensures
        pairs_sorted(sorted_pairs(s)),
    decreases s.len(),
{
    if s.len() > 0 {
        lemma_sorted_pairs_sorted(s.drop_last());
        lemma_insert_sorted_keeps_order(s.last(), sorted_pairs(s.drop_last()));
    }
}

proof fn lemma_sorted_unique(a: Seq<(Seq<char>, Seq<char>)>, b: Seq<(Seq<char>, Seq<char>)>)
    requires
        pairs_sorted(a),
        pairs_sorted(b),
        a.to_multiset() == b.to_multiset(),
    ensures
        a == b,
    decreases a.len(),
{
    broadcast use vstd::seq_lib::to_multiset_contains, vstd::seq_lib::to_multiset_remove, vstd::seq_lib::to_multiset_len;

    assert(a.to_multiset().len() == a.len());
    assert(b.to_multiset().len() == b.len());
    if a.len() == 0 {
        assert(b.len() == 0);
        assert(a =~= b);
    } else {
        assert(b.len() == a.len());
        assert(a.to_multiset().count(a[0]) > 0);
        assert(b.contains(a[0]));
        let j = choose|j: int| 0 <= j < b.len() && b[j] == a[0];
        assert(b.to_multiset().count(b[0]) > 0);
        assert(a.contains(b[0]));
        let k = choose|k: int| 0 <= k < a.len() && a[k] == b[0];
        if j > 0 {
            assert(pair_le(b[0], b[j]));
        }
        if k > 0 {
            assert(pair_le(a[0], a[k]));
        }
        lemma_pair_le_order(a[0], b[0], a[0]);
        assert(a[0] == b[0]);
        assert(a.remove(0) =~= a.drop_first());
        assert(b.remove(0) =~= b.drop_first());
        let da = a.drop_first();
        let db = b.drop_first();
        assert(pairs_sorted(da)) by {
            assert forall|i: int, m: int| 0 <= i < m < da.len() implies pair_le(#[trigger] da[i], #[trigger] da[m]) by {
                assert(da[i] == a[i + 1] && da[m] == a[m + 1]);
            }
        }
        assert(pairs_sorted(db)) by {
            assert forall|i: int, m: int| 0 <= i < m < db.len() implies pair_le(#[trigger] db[i], #[trigger] db[m]) by {
                assert(db[i] == b[i + 1] && db[m] == b[m + 1]);
            }
        }
        assert(a.remove(0).to_multiset() == a.to_multiset().remove(a[0]));
        assert(b.remove(0).to_multiset() == b.to_multiset().remove(b[0]));
        lemma_sorted_unique(da, db);
        assert(a =~= seq![a[0]] + da);
        assert(b =~= seq![b[0]] + db);
    }
}

/// Cache keys ignore header order and whitelist order: two requests with the same
/// method, path and query, whose whitelists hold the same names (in any order), and
/// whose headers agree on the first value of every whitelisted name, get equal keys.
pub proof fn lemma_cache_key_order_independent(
    m: Seq<char>, p: Seq<char>, q: Option<Seq<char>>,
    h1: Seq<(Seq<char>, Seq<char>)>, h2: Seq<(Seq<char>, Seq<char>)>,
    names1: Seq<Seq<char>>, names2: Seq<Seq<char>>,
)
    requires
        names1.to_multiset() == names2.to_multiset(),
        forall|i: int| 0 <= i < names1.len() ==> first_value(h1, #[trigger] names1[i]) == first_value(h2, names1[i]),
    ensures
        cache_key_spec(m, p, q, h1, names1) == cache_key_spec(m, p, q, h2, names2),
{
    broadcast use vstd::seq_lib::to_multiset_contains;

    let s1 = selected_headers(h1, names1);
    let s2 = selected_headers(h2, names2);
    assert(s1.to_multiset() =~= s2.to_multiset()) by {
        assert forall|e: (Seq<char>, Seq<char>)| s1.to_multiset().count(e) == s2.to_multiset().count(e) by {
            lemma_selected_count(h1, names1, e.0, e.1);
            lemma_selected_count(h2, names2, e.0, e.1);
            if names1.to_multiset().count(e.0) > 0 {
                assert(names1.contains(e.0));
                let i = choose|i: int| 0 <= i < names1.len() && names1[i] == e.0;
                assert(first_value(h1, names1[i]) == first_value(h2, names1[i]));
            }
        }
    }
    lemma_sorted_pairs_multiset(s1);
    lemma_sorted_pairs_multiset(s2);
    lemma_sorted_pairs_sorted(s1);
    lemma_sorted_pairs_sorted(s2);
    lemma_sorted_unique(sorted_pairs(s1), sorted_pairs(s2));
}

fn text_le_exec(a: &String, b: &String) -> (r: bool)
    ensures
        r == text_le(a@, b@),
{
    let na = a.as_str().unicode_len();
    let nb = b.as_str().unicode_len();
    let mut i: usize = 0;
    assert(a@.subrange(0, na as int) =~= a@);
    assert(b@.subrange(0, nb as int) =~= b@);
    while i < na && i < nb
        invariant
            na == a@.len(),
            nb == b@.len(),
            i <= na,
            i <= nb,
            text_le(a@, b@) == text_le(a@.subrange(i as int, na as int), b@.subrange(i as int, nb as int)),
        decreases na - i,
    {
        let ghost sa = a@.subrange(i as int, na as int);
        let ghost sb = b@.subrange(i as int, nb as int);
        assert(sa.drop_first() =~= a@.subrange(i + 1, na as int));
        assert(sb.drop_first() =~= b@.subrange(i + 1, nb as int));
        let ca = a.as_str().get_char(i);
        let cb = b.as_str().get_char(i);
        if ca != cb {
            return ca < cb;
        }
        i = i + 1;
    }
    i == na
}

fn pair_le_exec(a: &(String, String), b: &(String, String)) -> (r: bool)
    ensures
        r == pair_le((a.0@, a.1@), (b.0@, b.1@)),
{
    if a.0 == b.0 {
        text_le_exec(&a.1, &b.1)
    } else {
        text_le_exec(&a.0, &b.0)
    }
}

proof fn lemma_insert_at(x: (Seq<char>, Seq<char>), s: Seq<(Seq<char>, Seq<char>)>, i: int)
    requires
        0 <= i <= s.len(),
        forall|j: int| 0 <= j < i ==> !pair_le(x, s[j]),
        i < s.len() ==> pair_le(x, s[i]),
    ensures
        insert_sorted(x, s) == s.insert(i, x),
    decreases s.len(),
{
    if s.len() > 0 && i > 0 {
        lemma_insert_at(x, s.drop_first(), i - 1);
        assert(s.insert(i, x) =~= seq![s[0]] + s.drop_first().insert(i - 1, x));
    } else if s.len() > 0 {
        assert(s.insert(0, x) =~= seq![x] + s);
    } else {
        assert(s.insert(0, x) =~= seq![x]);
    }
}

fn sort_pairs(v: &Vec<(String, String)>) -> (r: Vec<(String, String)>)
    ensures
        header_pairs(r@) == sorted_pairs(header_pairs(v@)),
{
    let ghost hv = header_pairs(v@);
    let mut r: Vec<(String, String)> = Vec::new();
    let mut k: usize = 0;
    while k < v.len()
        invariant
            k <= v@.len(),
            hv == header_pairs(v@),
            header_pairs(r@) == sorted_pairs(hv.take(k as int)),
        decreases v@.len() - k,
    {
        let x = (v[k].0.clone(), v[k].1.clone());
        let ghost xv = (x.0@, x.1@);
        assert(xv == hv[k as int]);
        let ghost rv = header_pairs(r@);
        let mut i: usize = 0;
        while i < r.len()
            invariant
                i <= r@.len(),
                rv == header_pairs(r@),
                xv == (x.0@, x.1@),
                forall|j: int| 0 <= j < i ==> !pair_le(xv, rv[j]),
            ensures
                i <= r@.len(),
                forall|j: int| 0 <= j < i ==> !pair_le(xv, rv[j]),
                i < r@.len() ==> pair_le(xv, rv[i as int]),
            decreases r@.len() - i,
        {
            assert(rv[i as int] == (r@[i as int].0@, r@[i as int].1@));
            let le = pair_le_exec(&x, &r[i]);
            if le {
                break;
            }
            i = i + 1;
        }
        proof {
            lemma_insert_at(xv, rv, i as int);
            assert(hv.take(k as int + 1).drop_last() =~= hv.take(k as int));
        }
        r.insert(i, x);
        assert(header_pairs(r@) =~= rv.insert(i as int, xv));
        k = k + 1;
    }
    assert(hv.take(k as int) =~= hv);
    r
}

impl CacheKey {
    /// The key of a request: its method, path and query, and the whitelisted request
    /// headers sorted by name and value.
    pub fn new(method: String, path: String, query: Option<String>, request_headers: &HeaderList, key_headers: &Vec<String>) -> (r: CacheKey)
        ensures
            r@ == cache_key_spec(
                method@,
                path@,
                match query { Some(q) => Some(q@), None => None },
                header_pairs(request_headers@),
                texts(key_headers@),
            ),
    {
        let ghost req = header_pairs(request_headers@);
        let ghost names = texts(key_headers@);
        let mut headers: Vec<(String, String)> = Vec::new();
        let mut i: usize = 0;
        while i < key_headers.len()
            invariant
                i <= key_headers@.len(),
                req == header_pairs(request_headers@),
                names == texts(key_headers@),
                header_pairs(headers@) == selected_headers(req, names.take(i as int)),
            decreases key_headers@.len() - i,
        {
            proof {
                assert(names.take(i as int + 1).drop_last() =~= names.take(i as int));
            }
            let name = &key_headers[i];
            match get_header(request_headers, name.as_str()) {
                Some(value) => {
                    headers.push((name.clone(), value.clone()));
                    assert(header_pairs(headers@) =~= header_pairs(headers@.drop_last()).push((name@, value@)));
                },
                None => {},
            }
            i = i + 1;
        }
        assert(names.take(i as int) =~= names);
        let headers = sort_pairs(&headers);
        CacheKey { method, path, query, headers }
    }
}

/// A stored response.
#[derive(Clone, Debug)]
pub struct CachedResponse {
    pub status: u16,
    pub headers: HeaderList,
    pub body: Vec<u8>,
}

/// Whether `m` is among `methods`, compared without regard to ASCII case.
pub open spec fn method_listed(methods: Seq<Seq<char>>, m: Seq<char>) -> bool {
    exists|i: int| 0 <= i < methods.len() && eq_ignore_case(methods[i], m)
}

/// Whether `hay` holds `needle` as a contiguous part.
pub open spec fn contains_text(hay: Seq<char>, needle: Seq<char>) -> bool {
    exists|i: int| 0 <= i && i + needle.len() <= hay.len() && #[trigger] hay.subrange(i, i + needle.len()) == needle
}

pub open spec fn lower_text(s: Seq<char>) -> Seq<char> {
    s.map_values(|c: char| crate::headers::lower_char(c))
}

/// Whether a `Cache-Control` value forbids storing the response.
pub open spec fn forbids_caching(cc: Seq<char>) -> bool {
    let l = lower_text(cc);
    contains_text(l, "no-store"@) || contains_text(l, "private"@) || contains_text(l, "no-cache"@)
}

/// Whether response headers allow storing: no `Set-Cookie` unless cookies may be
/// cached, and no `Cache-Control` value with a directive against it.
pub open spec fn headers_allow_caching(h: Seq<(Seq<char>, Seq<char>)>, cache_with_cookies: bool) -> bool {
    &&& cache_with_cookies || !has_header(h, "set-cookie"@)
    &&& forall|i: int| 0 <= i < h.len() && eq_ignore_case(#[trigger] h[i].0, "cache-control"@) ==> !forbids_caching(h[i].1)
}

fn lower_char_exec(c: char) -> (r: char)
    ensures
        r == crate::headers::lower_char(c),
{
    if 'A' <= c && c <= 'Z' {
        ((c as u8) + 32) as char
    } else {
        c
    }
}

/// Whether the ASCII-lower-cased `hay` holds `needle`.
fn contains_lowered(hay: &str, needle: &str) -> (r: bool)
    ensures
        r == contains_text(lower_text(hay@), needle@),
{
    let n = hay.unicode_len();
    let m = needle.unicode_len();
    let ghost l = lower_text(hay@);
    if m > n {
        return false;
    }
    let mut i: usize = 0;
    while i <= n - m
        invariant
            n == hay@.len(),
            m == needle@.len(),
            m <= n,
            l == lower_text(hay@),
            i <= n - m + 1,
            forall|k: int| 0 <= k < i ==> #[trigger] l.subrange(k, k + m) != needle@,
        decreases n - m + 1 - i,
    {
        let mut j: usize = 0;
        let mut same = true;
        while j < m
            invariant
                n == hay@.len(),
                m == needle@.len(),
                i + m <= n,
                j <= m,
                l == lower_text(hay@),
                same == (forall|t: int| 0 <= t < j ==> l[i + t] == #[trigger] needle@[t]),
            decreases m - j,
        {
            if same && lower_char_exec(hay.get_char(i + j)) != needle.get_char(j) {
                same = false;
            }
            j = j + 1;
        }
        if same {
            assert(l.subrange(i as int, i + m) =~= needle@);
            return true;
        }
        assert(l.subrange(i as int, i + m) != needle@ ) by {
            let t = choose|t: int| 0 <= t < m && l[i + t] != needle@[t];
            assert(l.subrange(i as int, i + m)[t] == l[i + t]);
        }
        i = i + 1;
    }
    false
}

impl CacheConfig {
    pub open spec fn methods_view(&self) -> Seq<Seq<char>> {
        texts(self.cacheable_methods@)
    }
}

/// Decides, for a route's cache settings, what may be stored.
pub struct CacheRules {
    pub config: CacheConfig,
}

impl CacheRules {
    pub fn new(config: CacheConfig) -> (r: CacheRules)
        ensures
            r.config == config,
    {
        CacheRules { config }
    }

    /// Whether responses to `method` may be cached (ASCII case-insensitive).
    pub fn is_cacheable_method(&self, method: &str) -> (r: bool)
        ensures
            r == method_listed(self.config.methods_view(), method@),
    {
        let ghost ms = self.config.methods_view();
        let mut i: usize = 0;
        while i < self.config.cacheable_methods.len()
            invariant
                i <= ms.len(),
                ms == self.config.methods_view(),
                forall|j: int| 0 <= j < i ==> !eq_ignore_case(ms[j], method@),
            decreases ms.len() - i,
        {
            if eq_ignore_ascii_case(self.config.cacheable_methods[i].as_str(), method) {
                assert(eq_ignore_case(ms[i as int], method@));
                return true;
            }
            i = i + 1;
        }
        false
    }

    pub fn is_cacheable_status(&self, status: u16) -> (r: bool)
        ensures
            r == self.config.cacheable_status_codes@.contains(status),
    {
        let mut i: usize = 0;
        while i < self.config.cacheable_status_codes.len()
            invariant
                i <= self.config.cacheable_status_codes@.len(),
                forall|j: int| 0 <= j < i ==> self.config.cacheable_status_codes@[j] != status,
            decreases self.config.cacheable_status_codes@.len() - i,
        {
            if self.config.cacheable_status_codes[i] == status {
                assert(self.config.cacheable_status_codes@[i as int] == status);
                return true;
            }
            i = i + 1;
        }
        false
    }

    /// Whether response headers allow storing the response.
    pub fn is_response_cacheable(&self, headers: &HeaderList) -> (r: bool)
        ensures
            r == headers_allow_caching(header_pairs(headers@), self.config.cache_with_cookies),
    {
        if !self.config.cache_with_cookies && crate::headers::contains_header(headers, "set-cookie") {
            return false;
        }
        let ghost hp = header_pairs(headers@);
        proof {
            reveal_strlit("no-store");
            reveal_strlit("private");
            reveal_strlit("no-cache");
        }
        let mut i: usize = 0;
        while i < headers.len()
            invariant
                i <= headers@.len(),
                hp == header_pairs(headers@),
                forall|j: int| 0 <= j < i && eq_ignore_case(#[trigger] hp[j].0, "cache-control"@) ==> !forbids_caching(hp[j].1),
            decreases headers@.len() - i,
        {
            assert(hp[i as int] == (headers@[i as int].0@, headers@[i as int].1@));
            if eq_ignore_ascii_case(headers[i].0.as_str(), "cache-control") {
                let cc = headers[i].1.as_str();
                if contains_lowered(cc, "no-store") || contains_lowered(cc, "private") || contains_lowered(cc, "no-cache") {
                    return false;
                }
            }
            i = i + 1;
        }
        true
    }

    /// Whether a response to a request with this key is stored: its method and status
    /// are cacheable and its headers allow it.
    pub fn should_store(&self, key: &CacheKey, status: u16, headers: &HeaderList) -> (r: bool)
        ensures
            r == (method_listed(self.config.methods_view(), key.method@)
                && self.config.cacheable_status_codes@.contains(status)
                && headers_allow_caching(header_pairs(headers@), self.config.cache_with_cookies)),
    {
        self.is_cacheable_method(key.method.as_str()) && self.is_cacheable_status(status)
            && self.is_response_cacheable(headers)
    }

    pub fn key_headers(&self) -> (r: &Vec<String>)
        ensures
            r == &self.config.key_headers,
    {
        &self.config.key_headers
    }
}

fn copy_bytes(b: &Vec<u8>) -> (r: Vec<u8>)
    ensures
        r@ == b@,
{
    let mut r: Vec<u8> = Vec::new();
    let mut i: usize = 0;
    while i < b.len()
        invariant
            i <= b@.len(),
            r@ == b@.take(i as int),
        decreases b@.len() - i,
    {
        r.push(b[i]);
        assert(r@ =~= b@.take(i as int + 1));
        i = i + 1;
    }
    assert(b@.take(i as int) =~= b@);
    r
}

impl CachedResponse {
    /// The answer served from the cache: the stored status and body, the stored headers
    /// verbatim, and one added `X-Cache: HIT`.
    pub fn hit_response(&self) -> (r: CachedResponse)
        ensures
            r.status == self.status,
            r.body@ == self.body@,
            header_pairs(r.headers@) == header_pairs(self.headers@).push(("X-Cache"@, "HIT"@)),
    {
        CachedResponse { status: self.status, headers: self.hit_headers(), body: copy_bytes(&self.body) }
    }

    /// Headers of the answer served from the cache: the stored headers verbatim, then `X-Cache: HIT`.
    pub fn hit_headers(&self) -> (r: HeaderList)
        ensures
            header_pairs(r@) == header_pairs(self.headers@).push(("X-Cache"@, "HIT"@)),
    {
        let mut h: HeaderList = Vec::new();
        let mut i: usize = 0;
        while i < self.headers.len()
            invariant
                i <= self.headers@.len(),
                header_pairs(h@) == header_pairs(self.headers@).take(i as int),
            decreases self.headers@.len() - i,
        {
            let p = (self.headers[i].0.clone(), self.headers[i].1.clone());
            let ghost before = h@;
            let ghost pv = (p.0@, p.1@);
            assert(pv == header_pairs(self.headers@)[i as int]);
            h.push(p);
            assert(header_pairs(h@) =~= header_pairs(before).push(pv));
            assert(header_pairs(h@) =~= header_pairs(self.headers@).take(i as int + 1));
            i = i + 1;
        }
        assert(header_pairs(self.headers@).take(i as int) =~= header_pairs(self.headers@));
        let ghost before = h@;
        h.push((String::from_str("X-Cache"), String::from_str("HIT")));
        assert(header_pairs(h@) =~= header_pairs(before).push(("X-Cache"@, "HIT"@)));
        h
    }
}

} // verus!
