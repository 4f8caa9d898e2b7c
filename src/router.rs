use vstd::prelude::*;
use vstd::string::*;
use crate::backend::BackendConfig;
use crate::cache::CacheRules;
use crate::config::{RouteAuthConfig, RouteConfig};
use crate::health::HealthCheckConfig;
use crate::ipfilter::{IpFilterConfig, IpFilterService};
use crate::ratelimit::RateLimitConfig;
use crate::transform::{regex_compiles, rewrite_patterns, TransformService};
use crate::error::GatewayError;
use crate::loadbalancer::LoadBalancer;
use crate::strategies::{LoadBalancingStrategy, RoundRobinStrategy, WeightedStrategy};

verus! {

#[verifier::external_type_specification]
#[verifier::external_body]
#[verifier::reject_recursive_types(T)]
pub struct ExMatchitRouter<T>(matchit::Router<T>);

#[verifier::external_type_specification]
#[verifier::external_body]
pub struct ExInsertError(matchit::InsertError);

/// What a path matcher holds: the value stored with each pattern it took.
pub uninterp spec fn route_table(r: matchit::Router<usize>) -> Map<Seq<char>, usize>;

/// What the matcher finds for a path: the position stored with the matching pattern and
/// the captured (name, value) parameters, or nothing.
pub uninterp spec fn route_lookup(table: Map<Seq<char>, usize>, path: Seq<char>) -> Option<(usize, Seq<(Seq<char>, Seq<char>)>)>;

/// A character an HTTP token may hold (RFC 9110 `tchar`).
pub open spec fn token_char(c: char) -> bool {
    ('a' <= c && c <= 'z') || ('A' <= c && c <= 'Z') || ('0' <= c && c <= '9') || c == '!' || c == '#'
        || c == '$' || c == '%' || c == '&' || c == '\'' || c == '*' || c == '+' || c == '-' || c == '.'
        || c == '^' || c == '_' || c == '`' || c == '|' || c == '~'
}

/// Whether a text is an HTTP method token: non-empty, of token characters only.
pub open spec fn method_token_valid(m: Seq<char>) -> bool {
    m.len() > 0 && forall|i: int| 0 <= i < m.len() ==> token_char(#[trigger] m[i])
}

/// Whether a character is alphabetic or numeric in Unicode.
pub uninterp spec fn unicode_alphanumeric(c: char) -> bool;

/// A matcher holding nothing.
pub open spec fn empty_table() -> Map<Seq<char>, usize> {
    Map::empty()
}

/// Relies on `matchit::Router::new`: an empty matcher.
#[verifier::external_body]
fn new_matcher() -> (r: matchit::Router<usize>)
    ensures
        route_table(r) == empty_table(),
{
    matchit::Router::new()
}

/// Whether the matcher, holding `table`, accepts `pattern` (its syntax is valid and it
/// conflicts with no pattern held).
pub uninterp spec fn pattern_accepted(table: Map<Seq<char>, usize>, pattern: Seq<char>) -> bool;

/// Number of '{' in a text: an upper bound on the parameters the matcher finds in it.
pub open spec fn brace_count(s: Seq<char>) -> nat
    decreases s.len(),
{
    if s.len() == 0 {
        0
    } else {
        brace_count(s.drop_last()) + if s.last() == '{' { 1nat } else { 0nat }
    }
}

/// Most parameters a pattern may hold: the matcher renames parameters to single letters
/// and panics from the twenty-sixth on.
pub open spec fn max_params() -> nat {
    25
}

/// Relies on `matchit::Router::insert`: whether the pattern is taken depends on the
/// patterns held and the pattern; when taken it is added with its value. Patterns with
/// 26 or more parameters make the matcher panic, so they are not admitted.
#[verifier::external_body]
fn insert_pattern(m: &mut matchit::Router<usize>, pattern: &str, value: usize) -> (r: Result<(), matchit::InsertError>)
    requires
        brace_count(pattern@) <= max_params(),
    ensures
        r is Ok == pattern_accepted(route_table(*old(m)), pattern@),
        r is Ok ==> route_table(*final(m)) == route_table(*old(m)).insert(pattern@, value),
{
    m.insert(pattern, value)
}

/// Relies on `matchit::Router::at`: the value stored with the matching pattern, and the
/// captured parameters.
#[verifier::external_body]
fn lookup_path(m: &matchit::Router<usize>, path: &str) -> (r: Option<(usize, Vec<(String, String)>)>)
    ensures
        match r {
            Some((i, ps)) => route_lookup(route_table(*m), path@) == Some((i, crate::headers::header_pairs(ps@)))
                && exists|p: Seq<char>| route_table(*m).contains_key(p) && route_table(*m)[p] == i,
            None => route_lookup(route_table(*m), path@) is None,
        },
{
    match m.at(path) {
        Ok(found) => Some((*found.value, found.params.iter().map(|(k, v)| (k.to_string(), v.to_string())).collect())),
        Err(_) => None,
    }
}

/// Relies on `http::Method::from_bytes`: it accepts exactly the non-empty texts of
/// token characters (its `METHOD_CHARS` table).
#[verifier::external_body]
fn check_method(m: &str) -> (r: bool)
    ensures
        r == method_token_valid(m@),
{
    http::Method::from_bytes(m.as_bytes()).is_ok()
}

/// Relies on `char::is_alphanumeric`; on ASCII it holds exactly of letters and digits.
#[verifier::external_body]
pub(crate) fn is_alphanumeric_char(c: char) -> (r: bool)
    ensures
        r == unicode_alphanumeric(c),
        (c as u32) < 128 ==> r == (('a' <= c && c <= 'z') || ('A' <= c && c <= 'Z') || ('0' <= c && c <= '9')),
{
    c.is_alphanumeric()
}

/// Characters that may continue a parameter name.
pub open spec fn word_char(c: char) -> bool {
    unicode_alphanumeric(c) || c == '_'
}

/// End of the parameter name that starts at `k`.
pub open spec fn name_end(s: Seq<char>, k: int) -> int
    decreases s.len() - k,
{
    if 0 <= k < s.len() && word_char(s[k]) {
        name_end(s, k + 1)
    } else {
        k
    }
}

/// The matcher syntax of a route pattern from position `i`: `:name` becomes `{name}`,
/// `*name` becomes `{*name}`, every other character is kept.
pub open spec fn matcher_syntax_from(s: Seq<char>, i: int) -> Seq<char>
    decreases s.len() - i, 1int,
{
    if i < 0 || i >= s.len() {
        Seq::empty()
    } else if s[i] == ':' || s[i] == '*' {
        let e = name_end(s, i + 1);
        let open = if s[i] == ':' { seq!['{'] } else { seq!['{', '*'] };
        if i < e <= s.len() {
            open + s.subrange(i + 1, e) + seq!['}'] + matcher_syntax_from(s, e)
        } else {
            Seq::empty()
        }
    } else {
        seq![s[i]] + matcher_syntax_from(s, i + 1)
    }
}

proof fn lemma_name_end_bounds(s: Seq<char>, k: int)
    requires
        0 <= k <= s.len(),
    ensures
        k <= name_end(s, k) <= s.len(),
        forall|j: int| k <= j < name_end(s, k) ==> word_char(#[trigger] s[j]),
        name_end(s, k) < s.len() ==> !word_char(s[name_end(s, k)]),
    decreases s.len() - k,
{
    if k < s.len() && word_char(s[k]) {
        lemma_name_end_bounds(s, k + 1);
    }
}

/// Rewrites `:param` and `*rest` into the matcher's `{param}` and `{*rest}` syntax.
pub fn convert_path_syntax(path: &str) -> (r: String)
    ensures
        r@ == matcher_syntax_from(path@, 0),
{
    let n = path.unicode_len();
    let ghost s = path@;
    let mut out = String::new();
    let mut i: usize = 0;
    proof {
        reveal_strlit("{");
        reveal_strlit("{*");
        reveal_strlit("}");
    }
    while i < n
        invariant
            n == s.len(),
            s == path@,
            i <= n,
            out@ + matcher_syntax_from(s, i as int) == matcher_syntax_from(s, 0),
        decreases n - i,
    {
        let c = path.get_char(i);
        if c == ':' || c == '*' {
            let mut j: usize = i + 1;
            proof {
                lemma_name_end_bounds(s, i + 1);
            }
            while j < n
                invariant
                    n == s.len(),
                    s == path@,
                    i < j <= n,
                    name_end(s, i + 1) == name_end(s, j as int),
                ensures
                    i < j <= n,
                    name_end(s, i + 1) == name_end(s, j as int),
                    name_end(s, j as int) == j,
                decreases n - j,
            {
                let d = path.get_char(j);
                if !(is_alphanumeric_char(d) || d == '_') {
                    break;
                }
                j = j + 1;
            }
            let name = path.substring_char(i + 1, j);
            let open = if c == ':' { "{" } else { "{*" };
            let ghost before = out@;
            let ghost open_v: Seq<char> = if c == ':' { seq!['{'] } else { seq!['{', '*'] };
            proof {
                reveal_strlit("{");
                reveal_strlit("{*");
                reveal_strlit("}");
            }
            assert(open@ =~= open_v);
            out.append(open);
            out.append(name);
            out.append("}");
            assert(name@ == s.subrange(i + 1, j as int));
            assert(out@ =~= before + (if c == ':' { seq!['{'] } else { seq!['{', '*'] }) + s.subrange(i + 1, j as int) + seq!['}']);
            i = j;
        } else {
            let piece = path.substring_char(i, i + 1);
            let ghost before = out@;
            out.append(piece);
            assert(out@ =~= before + seq![s[i as int]]);
            i = i + 1;
        }
    }
    assert(matcher_syntax_from(s, i as int) == Seq::<char>::empty());
    assert(out@ =~= matcher_syntax_from(s, 0));
    out
}

/// Lower-case form of a text, as Unicode case mapping gives it.
pub uninterp spec fn lower_of(s: Seq<char>) -> Seq<char>;

/// Whether every character of a text is ASCII.
pub open spec fn all_ascii(s: Seq<char>) -> bool {
    forall|i: int| 0 <= i < s.len() ==> (#[trigger] s[i] as u32) < 128
}

/// Relies on `str::to_lowercase`: the result depends on the characters alone, and on
/// ASCII text it lower-cases the letters A-Z and keeps every other character.
#[verifier::external_body]
pub(crate) fn to_lower(s: &str) -> (r: String)
    ensures
        r@ == lower_of(s@),
        all_ascii(s@) ==> r@ == s@.map_values(|c: char| crate::headers::lower_char(c)),
{
    s.to_lowercase()
}

/// The strategy a lower-cased name selects, if any: 0 round-robin, 1 least
/// connections, 2 weighted, 3 IP hash.
pub open spec fn strategy_named(name: Seq<char>) -> Option<int> {
    if name == "round_robin"@ || name == "roundrobin"@ {
        Some(0)
    } else if name == "least_connections"@ || name == "leastconnections"@ {
        Some(1)
    } else if name == "weighted"@ {
        Some(2)
    } else if name == "ip_hash"@ || name == "iphash"@ {
        Some(3)
    } else {
        None
    }
}

/// A strategy of the given kind with its counter at zero.
pub open spec fn fresh_strategy(st: LoadBalancingStrategy, kind: int) -> bool {
    match st {
        LoadBalancingStrategy::RoundRobin(s) => kind == 0 && s@ == 0,
        LoadBalancingStrategy::LeastConnections => kind == 1,
        LoadBalancingStrategy::Weighted(s) => kind == 2 && s@ == 0,
        LoadBalancingStrategy::IpHash => kind == 3,
    }
}

fn text_is(s: &String, lit: &str) -> (r: bool)
    ensures
        r == (s@ == lit@),
{
    *s == String::from_str(lit)
}

/// Reads a load-balancing strategy name; unknown names are a configuration error.
pub fn parse_strategy(strategy: &str) -> (r: Result<LoadBalancingStrategy, GatewayError>)
    ensures
        match strategy_named(lower_of(strategy@)) {
            Some(kind) => r matches Ok(st) && fresh_strategy(st, kind),
            None => r matches Err(e) && e is Config,
        },
{
    let l = to_lower(strategy);
    if text_is(&l, "round_robin") || text_is(&l, "roundrobin") {
        Ok(LoadBalancingStrategy::RoundRobin(RoundRobinStrategy::new()))
    } else if text_is(&l, "least_connections") || text_is(&l, "leastconnections") {
        Ok(LoadBalancingStrategy::LeastConnections)
    } else if text_is(&l, "weighted") {
        Ok(LoadBalancingStrategy::Weighted(WeightedStrategy::new()))
    } else if text_is(&l, "ip_hash") || text_is(&l, "iphash") {
        Ok(LoadBalancingStrategy::IpHash)
    } else {
        Err(GatewayError::Config(String::from_str(
            "Invalid load balancing strategy. Valid options: round_robin, least_connections, weighted, ip_hash",
        )))
    }
}

/// Number of '/' in `s` before its first '*', if it has one.
pub open spec fn slashes_before_star(s: Seq<char>, i: int, count: nat) -> Option<nat>
    decreases s.len() - i,
{
    if i < 0 || i >= s.len() {
        None
    } else if s[i] == '*' {
        Some(count)
    } else {
        slashes_before_star(s, i + 1, if s[i] == '/' { count + 1 } else { count })
    }
}

/// The part of `path` before its `k`-th '/' (counting from one), or all of it.
pub open spec fn before_slash(path: Seq<char>, k: nat, i: int, seen: nat) -> Seq<char>
    decreases path.len() - i,
{
    if i < 0 || i >= path.len() {
        path
    } else if path[i] == '/' && seen + 1 == k {
        path.subrange(0, i)
    } else {
        before_slash(path, k, i + 1, if path[i] == '/' { seen + 1 } else { seen })
    }
}

/// The part of a request path that a route pattern matched literally and by
/// parameters: everything before the segment its trailing wildcard took, or the whole
/// path for a pattern without a wildcard.
pub open spec fn matched_prefix(pattern: Seq<char>, path: Seq<char>) -> Seq<char> {
    match slashes_before_star(pattern, 0, 0) {
        Some(k) => before_slash(path, k, 0, 0),
        None => path,
    }
}

fn count_slashes_before_star(s: &str) -> (r: Option<usize>)
    ensures
        match r {
            Some(k) => slashes_before_star(s@, 0, 0) == Some(k as nat),
            None => slashes_before_star(s@, 0, 0) is None,
        },
{
    let n = s.unicode_len();
    let mut i: usize = 0;
    let mut count: usize = 0;
    while i < n
        invariant
            n == s@.len(),
            i <= n,
            count <= i,
            slashes_before_star(s@, 0, 0) == slashes_before_star(s@, i as int, count as nat),
        decreases n - i,
    {
        let c = s.get_char(i);
        if c == '*' {
            return Some(count);
        }
        if c == '/' {
            count = count + 1;
        }
        i = i + 1;
    }
    None
}

fn cut_before_slash(path: &str, k: usize) -> (r: String)
    ensures
        r@ == before_slash(path@, k as nat, 0, 0),
{
    let n = path.unicode_len();
    let mut i: usize = 0;
    let mut seen: usize = 0;
    while i < n
        invariant
            n == path@.len(),
            i <= n,
            seen <= i,
            before_slash(path@, k as nat, 0, 0) == before_slash(path@, k as nat, i as int, seen as nat),
        decreases n - i,
    {
        let c = path.get_char(i);
        if c == '/' && seen + 1 == k {
            return String::from_str(path.substring_char(0, i));
        }
        if c == '/' {
            seen = seen + 1;
        }
        i = i + 1;
    }
    String::from_str(path)
}

/// The longest prefix of `s` that does not end in '/'.
pub open spec fn trim_slashes(s: Seq<char>) -> Seq<char>
    decreases s.len(),
{
    if s.len() > 0 && s.last() == '/' {
        trim_slashes(s.drop_last())
    } else {
        s
    }
}

pub(crate) fn trim_trailing_slashes(s: &str) -> (r: &str)
    ensures
        r@ == trim_slashes(s@),
{
    let mut n = s.unicode_len();
    assert(s@.subrange(0, n as int) =~= s@);
    while n > 0 && s.get_char(n - 1) == '/'
        invariant
            n <= s@.len(),
            trim_slashes(s@) == trim_slashes(s@.subrange(0, n as int)),
        decreases n,
    {
        assert(s@.subrange(0, n as int).drop_last() =~= s@.subrange(0, n - 1));
        n = n - 1;
    }
    assert(s@.subrange(0, n as int).len() == 0 || s@.subrange(0, n as int).last() != '/');
    s.substring_char(0, n)
}

/// The path with `prefix` taken off its front, or the whole path when it does not begin with it.
pub open spec fn strip_front(path: Seq<char>, prefix: Seq<char>) -> Seq<char> {
    if crate::config::starts_with(path, prefix) {
        path.subrange(prefix.len() as int, path.len() as int)
    } else {
        path
    }
}

/// The upstream URL of a request: the backend base without trailing slashes, then the
/// request path, less the matched prefix when the route strips it.
pub open spec fn upstream_url(backend: Seq<char>, path: Seq<char>, strip: bool, prefix: Seq<char>) -> Seq<char> {
    trim_slashes(backend) + if strip { strip_front(path, prefix) } else { path }
}

/// One compiled route.
pub struct Route {
    pub load_balancer: LoadBalancer,
    pub methods: Vec<String>,
    pub strip_prefix: bool,
    pub description: String,
    pub auth: Option<RouteAuthConfig>,
    /// The pattern as configured.
    pub pattern: String,
    pub rate_limit: Vec<RateLimitConfig>,
    pub health_check: Option<HealthCheckConfig>,
    /// The address lists as configured; the parsed filter is installed by the caller.
    pub ip_filter_config: Option<IpFilterConfig>,
    pub ip_filter: Option<IpFilterService>,
    pub cache: Option<CacheRules>,
    pub transform: Option<TransformService>,
}

/// A matched request: the route's position, the captured parameters, and the part of
/// the path that the route's prefix covered.
pub struct RouteMatch {
    pub route: usize,
    pub params: Vec<(String, String)>,
    pub matched_path: String,
    pub strip_prefix: bool,
}

impl RouteMatch {
    /// The URL the request is forwarded to.
    pub fn build_backend_url(&self, backend_url: &str, original_path: &str) -> (r: String)
        ensures
            r@ == upstream_url(backend_url@, original_path@, self.strip_prefix, self.matched_path@),
    {
        let base = trim_trailing_slashes(backend_url);
        if self.strip_prefix {
            if crate::config::has_prefix(original_path, self.matched_path.as_str()) {
                let m = self.matched_path.as_str().unicode_len();
                let n = original_path.unicode_len();
                let rest = original_path.substring_char(m, n);
                String::from_str(base).concat(rest)
            } else {
                String::from_str(base).concat(original_path)
            }
        } else {
            String::from_str(base).concat(original_path)
        }
    }
}

/// Routes and the path matcher over their patterns.
pub struct GatewayRouter {
    matcher: matchit::Router<usize>,
    routes: Vec<Route>,
}

/// Whether method `m` is among `ms` exactly.
pub open spec fn method_listed(ms: Seq<String>, m: Seq<char>) -> bool {
    exists|i: int| 0 <= i < ms.len() && ms[i]@ == m
}

pub open spec fn method_texts(ms: Seq<String>) -> Seq<Seq<char>> {
    ms.map_values(|m: String| m@)
}

/// The upper-case forms of configured methods.
pub open spec fn upper_methods(ms: Seq<String>) -> Seq<Seq<char>> {
    ms.map_values(|m: String| crate::config::upper_of(m@))
}

/// The matcher pattern of route `i`.
pub open spec fn converted(routes: Seq<RouteConfig>, i: int) -> Seq<char> {
    matcher_syntax_from(routes[i].path@, 0)
}

/// What the matcher holds once routes `0..k` are in: each converted pattern with its position.
pub open spec fn table_upto(routes: Seq<RouteConfig>, k: int) -> Map<Seq<char>, usize>
    decreases k,
{
    if k <= 0 {
        Map::empty()
    } else {
        table_upto(routes, k - 1).insert(converted(routes, k - 1), (k - 1) as usize)
    }
}

/// Every value the matcher holds after routes `0..k` is a position below `k`.
proof fn lemma_table_values(routes: Seq<RouteConfig>, k: int)
    requires
        0 <= k < usize::MAX,
    ensures
        forall|p: Seq<char>| #[trigger] table_upto(routes, k).contains_key(p) ==> table_upto(routes, k)[p] < k,
    decreases k,
{
    if k > 0 {
        lemma_table_values(routes, k - 1);
        let prev = table_upto(routes, k - 1);
        assert forall|p: Seq<char>| #[trigger] table_upto(routes, k).contains_key(p) implies table_upto(routes, k)[p] < k by {
            if p != converted(routes, k - 1) {
                assert(prev.contains_key(p));
            }
        }
    }
}

/// Whether route `i` compiles once routes `0..i` are in: every method upper-cases to a
/// method token, the strategy name (if any) is known, the pool fits, the rewrite
/// patterns compile, and the matcher takes the pattern, which has at most
/// `max_params()` parameters.
pub open spec fn route_compiles(routes: Seq<RouteConfig>, i: int) -> bool {
    let r = routes[i];
    &&& forall|j: int| 0 <= j < r.methods@.len() ==> method_token_valid(crate::config::upper_of(#[trigger] r.methods@[j]@))
    &&& match r.load_balancer {
        Some(name) => strategy_named(lower_of(name@)) is Some,
        None => true,
    }
    &&& r.backends@.len() <= u32::MAX
    &&& match r.transform {
        Some(t) => forall|j: int| 0 <= j < rewrite_patterns(t).len() ==> regex_compiles(#[trigger] rewrite_patterns(t)[j]),
        None => true,
    }
    &&& brace_count(converted(routes, i)) <= max_params()
    &&& pattern_accepted(table_upto(routes, i), converted(routes, i))
}

proof fn lemma_one_fails(routes: Seq<RouteConfig>, at: int)
    requires
        0 <= at < routes.len(),
        !route_compiles(routes, at),
    ensures
        !(forall|i: int| 0 <= i < routes.len() ==> route_compiles(routes, i)),
{
}

fn count_braces(s: &str) -> (r: usize)
    ensures
        r == brace_count(s@),
{
    let n = s.unicode_len();
    let mut i: usize = 0;
    let mut count: usize = 0;
    while i < n
        invariant
            n == s@.len(),
            i <= n,
            count == brace_count(s@.take(i as int)),
            count <= i,
        decreases n - i,
    {
        assert(s@.take(i as int + 1).drop_last() =~= s@.take(i as int));
        if s.get_char(i) == '{' {
            count = count + 1;
        }
        i = i + 1;
    }
    assert(s@.take(n as int) =~= s@);
    count
}

fn invalid_route() -> (r: GatewayError)
    ensures
        r is InvalidRoute,
{
    GatewayError::InvalidRoute(String::from_str("Failed to insert route"))
}

impl GatewayRouter {
    pub closed spec fn table(&self) -> Map<Seq<char>, usize> {
        route_table(self.matcher)
    }

    /// Every value the matcher holds names a route.
    pub open spec fn wf(&self) -> bool {
        forall|p: Seq<char>| #[trigger] self.table().contains_key(p) ==> self.table()[p] < self.route_list().len()
    }

    pub closed spec fn route_list(&self) -> Seq<Route> {
        self.routes@
    }

    /// Compiles the routes in order. It fails, with `InvalidRoute`, exactly when some
    /// route does not compile (see `route_compiles`): an unknown method, strategy or
    /// rewrite pattern, a pattern with too many parameters, or one the matcher refuses.
    pub fn new(routes: Vec<RouteConfig>) -> (r: Result<GatewayRouter, GatewayError>)
        requires
            routes@.len() < usize::MAX,
        ensures
            r is Ok <==> forall|i: int| 0 <= i < routes@.len() ==> route_compiles(routes@, i),
            r matches Err(e) ==> e is InvalidRoute,
            r matches Ok(rt) ==> rt.wf() && rt.route_list().len() == routes@.len()
                && rt.table() == table_upto(routes@, routes@.len() as int)
                && forall|i: int| 0 <= i < routes@.len() ==> (#[trigger] rt.route_list()[i]).pattern@ == routes@[i].path@
                    && rt.route_list()[i].strip_prefix == routes@[i].strip_prefix
                    && method_texts(rt.route_list()[i].methods@) == upper_methods(routes@[i].methods@)
                    && rt.route_list()[i].load_balancer.pool().len()
                        == if routes@[i].backends@.len() > 0 { routes@[i].backends@.len() } else { 1 }
                    && rt.route_list()[i].ip_filter is None,
    {
        let mut matcher = new_matcher();
        let mut compiled: Vec<Route> = Vec::new();
        let mut configs = routes;
        let ghost cs = configs@;
        assert(cs == routes@);
        let mut pending: Vec<RouteConfig> = Vec::new();
        while configs.len() > 0
            invariant
                pending@.len() + configs@.len() == cs.len(),
                configs@ == cs.take(configs@.len() as int),
                forall|i: int| 0 <= i < pending@.len() ==> pending@[i] == cs[cs.len() - 1 - i],
            decreases configs@.len(),
        {
            let c = configs.pop().unwrap();
            pending.push(c);
            assert(configs@ =~= cs.take(configs@.len() as int));
        }
        while pending.len() > 0
            invariant
                pending@.len() + compiled@.len() == cs.len(),
                cs.len() < usize::MAX,
                cs == routes@,
                forall|i: int| 0 <= i < pending@.len() ==> pending@[i] == cs[cs.len() - 1 - i],
                route_table(matcher) == table_upto(cs, compiled@.len() as int),
                forall|i: int| 0 <= i < compiled@.len() ==> route_compiles(cs, i),
                forall|i: int| 0 <= i < compiled@.len() ==> (#[trigger] compiled@[i]).pattern@ == cs[i].path@
                    && compiled@[i].strip_prefix == cs[i].strip_prefix
                    && method_texts(compiled@[i].methods@) == upper_methods(cs[i].methods@)
                    && compiled@[i].load_balancer.pool().len()
                        == if cs[i].backends@.len() > 0 { cs[i].backends@.len() } else { 1 }
                    && compiled@[i].ip_filter is None,
            decreases pending@.len(),
        {
            let rc = pending.pop().unwrap();
            let ghost at = compiled@.len() as int;
            assert(rc == cs[at]);
            let mut methods: Vec<String> = Vec::new();
            let mut k: usize = 0;
            while k < rc.methods.len()
                invariant
                    k <= rc.methods@.len(),
                    rc == cs[at],
                    0 <= at < cs.len(),
                    cs == routes@,
                    forall|j: int| 0 <= j < k ==> method_token_valid(crate::config::upper_of(#[trigger] rc.methods@[j]@)),
                    method_texts(methods@) == upper_methods(rc.methods@.take(k as int)),
                decreases rc.methods@.len() - k,
            {
                let up = to_upper_method(rc.methods[k].as_str());
                if !check_method(up.as_str()) {
                    assert(!method_token_valid(crate::config::upper_of(rc.methods@[k as int]@)));
                    proof { lemma_one_fails(cs, at); }
                    return Err(invalid_route());
                }
                let ghost before = methods@;
                methods.push(up);
                assert(method_texts(methods@) =~= method_texts(before).push(crate::config::upper_of(rc.methods@[k as int]@)));
                assert(upper_methods(rc.methods@.take(k as int + 1)) =~= upper_methods(rc.methods@.take(k as int)).push(crate::config::upper_of(rc.methods@[k as int]@)));
                k = k + 1;
            }
            assert(rc.methods@.take(k as int) =~= rc.methods@);
            let strategy = match &rc.load_balancer {
                Some(name) => match parse_strategy(name.as_str()) {
                    Ok(st) => st,
                    Err(_) => {
                        proof { lemma_one_fails(cs, at); }
                        return Err(invalid_route());
                    },
                },
                None => LoadBalancingStrategy::RoundRobin(RoundRobinStrategy::new()),
            };
            if rc.backends.len() > u32::MAX as usize {
                proof { lemma_one_fails(cs, at); }
                return Err(invalid_route());
            }
            let transform = match rc.transform {
                Some(t) => match TransformService::new(t) {
                    Ok(svc) => Some(svc),
                    Err(_) => {
                        proof { lemma_one_fails(cs, at); }
                        return Err(invalid_route());
                    },
                },
                None => None,
            };
            let pattern = convert_path_syntax(rc.path.as_str());
            if count_braces(pattern.as_str()) > 25 {
                proof { lemma_one_fails(cs, at); }
                return Err(invalid_route());
            }
            let index = compiled.len();
            match insert_pattern(&mut matcher, pattern.as_str(), index) {
                Ok(()) => {},
                Err(_) => {
                    proof { lemma_one_fails(cs, at); }
                    return Err(invalid_route());
                },
            }
            assert(route_table(matcher) =~= table_upto(cs, at + 1));
            let pool = if rc.backends.len() > 0 {
                rc.backends
            } else {
                let mut single: Vec<BackendConfig> = Vec::new();
                single.push(BackendConfig { url: rc.backend, weight: 1 });
                single
            };
            let lb = LoadBalancer::new(pool, strategy);
            let rate_limit = match rc.rate_limit {
                Some(ls) => ls,
                None => Vec::new(),
            };
            let cache = match rc.cache {
                Some(c) => Some(CacheRules::new(c)),
                None => None,
            };
            compiled.push(Route {
                load_balancer: lb,
                methods,
                strip_prefix: rc.strip_prefix,
                description: rc.description,
                auth: rc.auth,
                pattern: rc.path,
                rate_limit,
                health_check: rc.health_check,
                ip_filter_config: rc.ip_filter,
                ip_filter: None,
                cache,
                transform,
            });
        }
        proof {
            lemma_table_values(cs, cs.len() as int);
        }
        Ok(GatewayRouter { matcher, routes: compiled })
    }

    /// Finds the route for a request: `RouteNotFound` when no pattern matches the path,
    /// `InvalidMethod` when the route lists methods and not this one.
    pub fn match_route(&self, path: &str, method: &str) -> (r: Result<RouteMatch, GatewayError>)
        requires
            self.wf(),
        ensures
            match route_lookup(self.table(), path@) {
                None => r matches Err(e) && e is RouteNotFound,
                Some((i, ps)) => if self.route_list()[i as int].methods@.len() > 0
                    && !method_listed(self.route_list()[i as int].methods@, method@) {
                    r matches Err(e) && e is InvalidMethod
                } else {
                    r matches Ok(m) && m.route == i
                        && crate::headers::header_pairs(m.params@) == ps
                        && m.strip_prefix == self.route_list()[i as int].strip_prefix
                        && m.matched_path@ == matched_prefix(self.route_list()[i as int].pattern@, path@)
                },
            },
    {
        match lookup_path(&self.matcher, path) {
            None => Err(GatewayError::RouteNotFound(String::from_str(path))),
            Some((i, params)) => {
                assert(i < self.routes@.len());
                let route = &self.routes[i];
                if route.methods.len() > 0 {
                    let mut k: usize = 0;
                    let mut found = false;
                    while k < route.methods.len()
                        invariant
                            k <= route.methods@.len(),
                            found == exists|j: int| 0 <= j < k && route.methods@[j]@ == method@,
                        decreases route.methods@.len() - k,
                    {
                        if text_is(&route.methods[k], method) {
                            found = true;
                        }
                        k = k + 1;
                    }
                    if !found {
                        return Err(GatewayError::InvalidMethod(String::from_str(method)));
                    }
                }
                let matched_path = match count_slashes_before_star(route.pattern.as_str()) {
                    Some(k) => cut_before_slash(path, k),
                    None => String::from_str(path),
                };
                Ok(RouteMatch { route: i, params, matched_path, strip_prefix: route.strip_prefix })
            },
        }
    }

    /// The compiled routes, in configuration order.
    pub fn routes(&self) -> (r: &Vec<Route>)
        ensures
            r@ == self.route_list(),
    {
        &self.routes
    }

    /// Installs the parsed address filter of route `i`.
    pub fn install_ip_filter(&mut self, i: usize, filter: IpFilterService)
        requires
            i < old(self).route_list().len(),
        ensures
            final(self).table() == old(self).table(),
            old(self).wf() ==> final(self).wf(),
            final(self).route_list().len() == old(self).route_list().len(),
            final(self).route_list()[i as int].ip_filter == Some(filter),
            forall|j: int| 0 <= j < old(self).route_list().len() && j != i ==> final(self).route_list()[j] == old(self).route_list()[j],
    {
        let mut route = self.routes.remove(i);
        route.ip_filter = Some(filter);
        self.routes.insert(i, route);
        assert(self.routes@.len() == old(self).routes@.len());
        assert(old(self).wf() ==> self.wf()) by {
            if old(self).wf() {
                assert forall|p: Seq<char>| #[trigger] self.table().contains_key(p) implies self.table()[p] < self.route_list().len() by {
                    assert(old(self).table().contains_key(p));
                }
            }
        }
    }

    /// The route at position `i`, for selecting a backend.
    pub fn route_mut(&mut self, i: usize) -> (r: &mut Route)
        requires
            i < old(self).route_list().len(),
        ensures
            *r == old(self).route_list()[i as int],
            final(self).table() == old(self).table(),
            final(self).route_list() == old(self).route_list().update(i as int, *final(r)),
    {
        &mut self.routes[i]
    }
}

/// The invariant depends only on the table and the number of routes.
pub proof fn lemma_wf_kept(a: GatewayRouter, b: GatewayRouter)
    requires
        a.wf(),
        b.table() == a.table(),
        b.route_list().len() == a.route_list().len(),
    ensures
        b.wf(),
{
    assert forall|p: Seq<char>| #[trigger] b.table().contains_key(p) implies b.table()[p] < b.route_list().len() by {
        assert(a.table().contains_key(p));
    }
}

fn to_upper_method(m: &str) -> (r: String)
    ensures
        r@ == crate::config::upper_of(m@),
{
    crate::config::to_upper_text(m)
}

} // verus!
