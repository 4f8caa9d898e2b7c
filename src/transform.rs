use vstd::prelude::*;
use vstd::string::*;
use crate::error::GatewayError;
use crate::headers::{add_header_if_absent, has_header, header_pairs, remove_header, set_header, without_header, HeaderList};

verus! {

#[verifier::external_type_specification]
#[verifier::external_body]
pub struct ExRegex(regex::Regex);

#[verifier::external_type_specification]
#[verifier::external_body]
pub struct ExRegexError(regex::Error);

/// Whether `pattern` is a regular expression the regex engine accepts.
pub uninterp spec fn regex_compiles(pattern: Seq<char>) -> bool;

/// The pattern a compiled regular expression was built from.
pub uninterp spec fn regex_source(re: regex::Regex) -> Seq<char>;

/// Whether the regular expression `pattern` matches somewhere in `text`.
pub uninterp spec fn pattern_matches(pattern: Seq<char>, text: Seq<char>) -> bool;

/// `text` with the first match of `pattern` replaced by `replacement`, capture groups substituted.
pub uninterp spec fn pattern_replace_first(pattern: Seq<char>, text: Seq<char>, replacement: Seq<char>) -> Seq<char>;

/// Whether `name` is a valid HTTP header name: one to 65535 token characters.
pub open spec fn header_name_valid(name: Seq<char>) -> bool {
    0 < name.len() <= 65535 && forall|i: int| 0 <= i < name.len() ==> crate::router::token_char(#[trigger] name[i])
}

/// Whether `value` is a valid HTTP header value: no control character but tab. (Every
/// byte of a character beyond ASCII is at least 128, so such characters are allowed.)
pub open spec fn header_value_valid(value: Seq<char>) -> bool {
    forall|i: int| 0 <= i < value.len() ==> ((value[i] as u32) >= 32 && (value[i] as u32) != 127) || value[i] == '\t'
}

/// The (key, value) pairs that form-urlencoded decoding reads from a query string.
pub uninterp spec fn form_pairs(query: Seq<char>) -> Seq<(Seq<char>, Seq<char>)>;

/// The form-urlencoded query string of a list of (key, value) pairs.
pub uninterp spec fn form_encoded(pairs: Seq<(Seq<char>, Seq<char>)>) -> Seq<char>;

/// Relies on `regex::Regex::new`: compiles a pattern, failing exactly on patterns it
/// rejects; the compiled expression keeps its source (`Regex::as_str`).
#[verifier::external_body]
fn compile_regex(pattern: &str) -> (r: Result<regex::Regex, regex::Error>)
    ensures
        r.is_ok() == regex_compiles(pattern@),
        r matches Ok(re) ==> regex_source(re) == pattern@,
{
    regex::Regex::new(pattern)
}

/// Relies on `regex::Regex::is_match`: whether the expression matches somewhere in the text.
#[verifier::external_body]
fn regex_is_match(re: &regex::Regex, text: &str) -> (r: bool)
    ensures
        r == pattern_matches(regex_source(*re), text@),
{
    re.is_match(text)
}

/// Relies on `regex::Regex::replace`: the first match replaced, with capture-group substitution.
#[verifier::external_body]
fn regex_replace_first(re: &regex::Regex, text: &str, replacement: &str) -> (r: String)
    ensures
        r@ == pattern_replace_first(regex_source(*re), text@, replacement@),
{
    re.replace(text, replacement).to_string()
}

/// Relies on `http::HeaderName::from_bytes`, which `FromStr` for header names calls: it
/// accepts exactly the non-empty names of at most 65535 bytes whose every byte is a
/// token character (its `HEADER_CHARS` table; token characters are ASCII).
#[verifier::external_body]
fn check_header_name(name: &str) -> (r: bool)
    ensures
        r == header_name_valid(name@),
{
    http::header::HeaderName::from_bytes(name.as_bytes()).is_ok()
}

/// Relies on `http::HeaderValue::from_str`, which accepts exactly the texts whose every
/// byte is at least 32 and not 127, or a tab.
#[verifier::external_body]
fn check_header_value(value: &str) -> (r: bool)
    ensures
        r == header_value_valid(value@),
{
    http::header::HeaderValue::from_str(value).is_ok()
}

/// Relies on `url::form_urlencoded::parse`: the decoded pairs of a query string, in order.
#[verifier::external_body]
fn decode_query(query: &str) -> (r: Vec<(String, String)>)
    ensures
        header_pairs(r@) == form_pairs(query@),
{
    url::form_urlencoded::parse(query.as_bytes()).into_owned().collect()
}

/// Relies on `url::form_urlencoded::Serializer`: the encoded query string of the pairs, in order.
#[verifier::external_body]
fn encode_query(pairs: &Vec<(String, String)>) -> (r: String)
    ensures
        r@ == form_encoded(header_pairs(pairs@)),
{
    url::form_urlencoded::Serializer::new(String::new()).extend_pairs(pairs.iter()).finish()
}

/// A path rewrite: the first match of `pattern` is replaced by `replacement`.
pub struct PathRewrite {
    pub pattern: String,
    pub replacement: String,
}

/// Query-parameter edits: remove, then add when absent, then set.
pub struct QueryParamTransform {
    pub add: Vec<(String, String)>,
    pub set: Vec<(String, String)>,
    pub remove: Vec<String>,
}

/// Edits of a request on its way upstream.
pub struct RequestTransform {
    pub add_headers: Vec<(String, String)>,
    pub set_headers: Vec<(String, String)>,
    pub remove_headers: Vec<String>,
    pub path_rewrites: Vec<PathRewrite>,
    pub query_params: Option<QueryParamTransform>,
}

/// Edits of a response on its way back.
pub struct ResponseTransform {
    pub add_headers: Vec<(String, String)>,
    pub set_headers: Vec<(String, String)>,
    pub remove_headers: Vec<String>,
}

/// Request and response edits of a route.
pub struct TransformConfig {
    pub request: Option<RequestTransform>,
    pub response: Option<ResponseTransform>,
}

impl Default for QueryParamTransform {
    fn default() -> (r: QueryParamTransform)
        ensures
            r.add@.len() == 0,
            r.set@.len() == 0,
            r.remove@.len() == 0,
    {
        QueryParamTransform { add: Vec::new(), set: Vec::new(), remove: Vec::new() }
    }
}

impl Default for RequestTransform {
    fn default() -> (r: RequestTransform)
        ensures
            r.add_headers@.len() == 0,
            r.set_headers@.len() == 0,
            r.remove_headers@.len() == 0,
            r.path_rewrites@.len() == 0,
            r.query_params is None,
    {
        RequestTransform {
            add_headers: Vec::new(),
            set_headers: Vec::new(),
            remove_headers: Vec::new(),
            path_rewrites: Vec::new(),
            query_params: None,
        }
    }
}

impl Default for ResponseTransform {
    fn default() -> (r: ResponseTransform)
        ensures
            r.add_headers@.len() == 0,
            r.set_headers@.len() == 0,
            r.remove_headers@.len() == 0,
    {
        ResponseTransform { add_headers: Vec::new(), set_headers: Vec::new(), remove_headers: Vec::new() }
    }
}

impl Default for TransformConfig {
    fn default() -> (r: TransformConfig)
        ensures
            r.request is None,
            r.response is None,
    {
        TransformConfig { request: None, response: None }
    }
}

pub open spec fn pairs_view(v: Seq<(String, String)>) -> Seq<(Seq<char>, Seq<char>)> {
    header_pairs(v)
}

pub open spec fn names_view(v: Seq<String>) -> Seq<Seq<char>> {
    v.map_values(|s: String| s@)
}

/// Removes, in order, every listed header whose name is valid.
pub open spec fn remove_all(h: Seq<(Seq<char>, Seq<char>)>, names: Seq<Seq<char>>) -> Seq<(Seq<char>, Seq<char>)>
    decreases names.len(),
{
    if names.len() == 0 {
        h
    } else {
        let prev = remove_all(h, names.drop_last());
        if header_name_valid(names.last()) { without_header(prev, names.last()) } else { prev }
    }
}

/// Adds, in order, every listed valid header whose name is not yet present.
pub open spec fn add_all(h: Seq<(Seq<char>, Seq<char>)>, adds: Seq<(Seq<char>, Seq<char>)>) -> Seq<(Seq<char>, Seq<char>)>
    decreases adds.len(),
{
    if adds.len() == 0 {
        h
    } else {
        let prev = add_all(h, adds.drop_last());
        let (k, v) = adds.last();
        if header_name_valid(k) && header_value_valid(v) && !has_header(prev, k) { prev.push((k, v)) } else { prev }
    }
}

/// Sets, in order, every listed valid header, replacing earlier values.
pub open spec fn set_all(h: Seq<(Seq<char>, Seq<char>)>, sets: Seq<(Seq<char>, Seq<char>)>) -> Seq<(Seq<char>, Seq<char>)>
    decreases sets.len(),
{
    if sets.len() == 0 {
        h
    } else {
        let prev = set_all(h, sets.drop_last());
        let (k, v) = sets.last();
        if header_name_valid(k) && header_value_valid(v) { without_header(prev, k).push((k, v)) } else { prev }
    }
}

/// Header edits: remove, then add when absent, then set.
pub open spec fn edit_headers(h: Seq<(Seq<char>, Seq<char>)>, remove: Seq<Seq<char>>, add: Seq<(Seq<char>, Seq<char>)>, set: Seq<(Seq<char>, Seq<char>)>) -> Seq<(Seq<char>, Seq<char>)> {
    set_all(add_all(remove_all(h, remove), add), set)
}

fn apply_removals(headers: &mut HeaderList, names: &Vec<String>)
    ensures
        header_pairs(final(headers)@) == remove_all(header_pairs(old(headers)@), names_view(names@)),
{
    let ghost h0 = header_pairs(headers@);
    let ghost ns = names_view(names@);
    let mut i: usize = 0;
    while i < names.len()
        invariant
            i <= names@.len(),
            ns == names_view(names@),
            header_pairs(headers@) == remove_all(h0, ns.take(i as int)),
        decreases names@.len() - i,
    {
        assert(ns.take(i as int + 1).drop_last() =~= ns.take(i as int));
        if check_header_name(names[i].as_str()) {
            remove_header(headers, names[i].as_str());
        }
        i = i + 1;
    }
    assert(ns.take(i as int) =~= ns);
}

fn apply_additions(headers: &mut HeaderList, adds: &Vec<(String, String)>)
    ensures
        header_pairs(final(headers)@) == add_all(header_pairs(old(headers)@), pairs_view(adds@)),
{
    let ghost h0 = header_pairs(headers@);
    let ghost av = pairs_view(adds@);
    let mut i: usize = 0;
    while i < adds.len()
        invariant
            i <= adds@.len(),
            av == pairs_view(adds@),
            header_pairs(headers@) == add_all(h0, av.take(i as int)),
        decreases adds@.len() - i,
    {
        assert(av.take(i as int + 1).drop_last() =~= av.take(i as int));
        let k = adds[i].0.as_str();
        let v = adds[i].1.as_str();
        if check_header_name(k) && check_header_value(v) {
            add_header_if_absent(headers, k, v);
        }
        i = i + 1;
    }
    assert(av.take(i as int) =~= av);
}

fn apply_settings(headers: &mut HeaderList, sets: &Vec<(String, String)>)
    ensures
        header_pairs(final(headers)@) == set_all(header_pairs(old(headers)@), pairs_view(sets@)),
{
    let ghost h0 = header_pairs(headers@);
    let ghost sv = pairs_view(sets@);
    let mut i: usize = 0;
    while i < sets.len()
        invariant
            i <= sets@.len(),
            sv == pairs_view(sets@),
            header_pairs(headers@) == set_all(h0, sv.take(i as int)),
        decreases sets@.len() - i,
    {
        assert(sv.take(i as int + 1).drop_last() =~= sv.take(i as int));
        let k = sets[i].0.as_str();
        let v = sets[i].1.as_str();
        if check_header_name(k) && check_header_value(v) {
            set_header(headers, k, v);
        }
        i = i + 1;
    }
    assert(sv.take(i as int) =~= sv);
}

/// Query keys compare exactly.
pub open spec fn without_key(s: Seq<(Seq<char>, Seq<char>)>, k: Seq<char>) -> Seq<(Seq<char>, Seq<char>)> {
    s.filter(|p: (Seq<char>, Seq<char>)| p.0 != k)
}

pub open spec fn has_key(s: Seq<(Seq<char>, Seq<char>)>, k: Seq<char>) -> bool {
    exists|i: int| 0 <= i < s.len() && s[i].0 == k
}

/// Collapses repeated keys: one pair per key, in order of last occurrence, holding the last value.
pub open spec fn collapse(s: Seq<(Seq<char>, Seq<char>)>) -> Seq<(Seq<char>, Seq<char>)>
    decreases s.len(),
{
    if s.len() == 0 {
        s
    } else {
        let prev = collapse(s.drop_last());
        without_key(prev, s.last().0).push(s.last())
    }
}

pub open spec fn remove_keys(s: Seq<(Seq<char>, Seq<char>)>, ks: Seq<Seq<char>>) -> Seq<(Seq<char>, Seq<char>)>
    decreases ks.len(),
{
    if ks.len() == 0 { s } else { without_key(remove_keys(s, ks.drop_last()), ks.last()) }
}

pub open spec fn add_keys(s: Seq<(Seq<char>, Seq<char>)>, adds: Seq<(Seq<char>, Seq<char>)>) -> Seq<(Seq<char>, Seq<char>)>
    decreases adds.len(),
{
    if adds.len() == 0 {
        s
    } else {
        let prev = add_keys(s, adds.drop_last());
        if has_key(prev, adds.last().0) { prev } else { prev.push(adds.last()) }
    }
}

pub open spec fn set_keys(s: Seq<(Seq<char>, Seq<char>)>, sets: Seq<(Seq<char>, Seq<char>)>) -> Seq<(Seq<char>, Seq<char>)>
    decreases sets.len(),
{
    if sets.len() == 0 {
        s
    } else {
        let prev = set_keys(s, sets.drop_last());
        without_key(prev, sets.last().0).push(sets.last())
    }
}

fn remove_key(params: &mut Vec<(String, String)>, key: &str)
    ensures
        header_pairs(final(params)@) == without_key(header_pairs(old(params)@), key@),
{
    let ghost hp = header_pairs(old(params)@);
    let mut kept: Vec<(String, String)> = Vec::new();
    let mut i: usize = 0;
    let n = params.len();
    while i < n
        invariant
            n == old(params)@.len(),
            params@ == old(params)@,
            i <= n,
            hp == header_pairs(old(params)@),
            header_pairs(kept@) == without_key(hp.take(i as int), key@),
        decreases n - i,
    {
        proof {
            assert(hp.take(i as int + 1) =~= hp.take(i as int).push(hp[i as int]));
            hp.take(i as int).lemma_filter_push(hp[i as int], |p: (Seq<char>, Seq<char>)| p.0 != key@);
        }
        if !same_text(params[i].0.as_str(), key) {
            let pair = (params[i].0.clone(), params[i].1.clone());
            let ghost before = kept@;
            kept.push(pair);
            assert(header_pairs(kept@) =~= header_pairs(before).push(hp[i as int]));
        }
        i = i + 1;
    }
    assert(hp.take(n as int) =~= hp);
    *params = kept;
}

fn same_text(a: &str, b: &str) -> (r: bool)
    ensures
        r == (a@ == b@),
{
    let n = a.unicode_len();
    if n != b.unicode_len() {
        return false;
    }
    let mut i: usize = 0;
    while i < n
        invariant
            n == a@.len(),
            n == b@.len(),
            i <= n,
            forall|j: int| 0 <= j < i ==> a@[j] == b@[j],
        decreases n - i,
    {
        if a.get_char(i) != b.get_char(i) {
            return false;
        }
        i = i + 1;
    }
    assert(a@ =~= b@);
    true
}

fn contains_key(params: &Vec<(String, String)>, key: &str) -> (r: bool)
    ensures
        r == has_key(header_pairs(params@), key@),
{
    let ghost hp = header_pairs(params@);
    let mut i: usize = 0;
    while i < params.len()
        invariant
            i <= params@.len(),
            hp == header_pairs(params@),
            forall|j: int| 0 <= j < i ==> hp[j].0 != key@,
        decreases params@.len() - i,
    {
        if same_text(params[i].0.as_str(), key) {
            assert(hp[i as int].0 == key@);
            return true;
        }
        i = i + 1;
    }
    false
}

fn push_pair(params: &mut Vec<(String, String)>, key: &str, value: &str)
    ensures
        header_pairs(final(params)@) == header_pairs(old(params)@).push((key@, value@)),
{
    let ghost before = params@;
    params.push((String::from_str(key), String::from_str(value)));
    assert(header_pairs(params@) =~= header_pairs(before).push((key@, value@)));
}

fn collapse_pairs(pairs: &Vec<(String, String)>) -> (r: Vec<(String, String)>)
    ensures
        header_pairs(r@) == collapse(header_pairs(pairs@)),
{
    let ghost pv = header_pairs(pairs@);
    let mut r: Vec<(String, String)> = Vec::new();
    let mut i: usize = 0;
    while i < pairs.len()
        invariant
            i <= pairs@.len(),
            pv == header_pairs(pairs@),
            header_pairs(r@) == collapse(pv.take(i as int)),
        decreases pairs@.len() - i,
    {
        assert(pv.take(i as int + 1).drop_last() =~= pv.take(i as int));
        remove_key(&mut r, pairs[i].0.as_str());
        push_pair(&mut r, pairs[i].0.as_str(), pairs[i].1.as_str());
        i = i + 1;
    }
    assert(pv.take(i as int) =~= pv);
    r
}

/// The query edits applied to decoded pairs: repeated keys collapse to their last
/// value, then listed keys are removed, added when absent, and set.
pub open spec fn edit_query(pairs: Seq<(Seq<char>, Seq<char>)>, remove: Seq<Seq<char>>, add: Seq<(Seq<char>, Seq<char>)>, set: Seq<(Seq<char>, Seq<char>)>) -> Seq<(Seq<char>, Seq<char>)> {
    set_keys(add_keys(remove_keys(collapse(pairs), remove), add), set)
}

/// Query edits that change nothing: all three lists empty.
pub open spec fn no_query_edits(q: QueryParamTransform) -> bool {
    q.remove@.len() == 0 && q.add@.len() == 0 && q.set@.len() == 0
}

/// A configuration that edits nothing: every list empty.
pub open spec fn is_identity_config(c: TransformConfig) -> bool {
    &&& c.request matches Some(req) ==> req.add_headers@.len() == 0 && req.set_headers@.len() == 0
        && req.remove_headers@.len() == 0 && req.path_rewrites@.len() == 0
        && (req.query_params matches Some(q) ==> no_query_edits(q))
    &&& c.response matches Some(resp) ==> resp.add_headers@.len() == 0 && resp.set_headers@.len() == 0
        && resp.remove_headers@.len() == 0
}

/// The identity transform changes nothing: with every list empty, the request and
/// response headers, the path and the query come out exactly as they went in.
pub proof fn lemma_identity_transform(c: TransformConfig, h: Seq<(Seq<char>, Seq<char>)>, path: Seq<char>, query: Seq<char>)
    requires
        is_identity_config(c),
    ensures
        (match c.request {
            Some(req) => edit_headers(h, names_view(req.remove_headers@), pairs_view(req.add_headers@), pairs_view(req.set_headers@)),
            None => h,
        }) == h,
        (match c.response {
            Some(resp) => edit_headers(h, names_view(resp.remove_headers@), pairs_view(resp.add_headers@), pairs_view(resp.set_headers@)),
            None => h,
        }) == h,
        rewrite_path(rewrite_rules(c), path) == path,
        (match c.request {
            Some(req) => match req.query_params {
                Some(q) => if no_query_edits(q) {
                    query
                } else {
                    form_encoded(edit_query(form_pairs(query), names_view(q.remove@), pairs_view(q.add@), pairs_view(q.set@)))
                },
                None => query,
            },
            None => query,
        }) == query,
{
    assert(rewrite_rules(c).len() == 0);
    match c.request {
        Some(req) => {
            assert(names_view(req.remove_headers@) =~= Seq::empty());
            assert(pairs_view(req.add_headers@) =~= Seq::empty());
            assert(pairs_view(req.set_headers@) =~= Seq::empty());
        },
        None => {},
    }
    match c.response {
        Some(resp) => {
            assert(names_view(resp.remove_headers@) =~= Seq::empty());
            assert(pairs_view(resp.add_headers@) =~= Seq::empty());
            assert(pairs_view(resp.set_headers@) =~= Seq::empty());
        },
        None => {},
    }
}

/// A route's compiled request and response edits.
pub struct TransformService {
    config: TransformConfig,
    path_rewrite_cache: Vec<(regex::Regex, String)>,
}

pub open spec fn rewrite_patterns(config: TransformConfig) -> Seq<Seq<char>> {
    match config.request {
        Some(req) => req.path_rewrites@.map_values(|p: PathRewrite| p.pattern@),
        None => Seq::empty(),
    }
}

/// The (pattern, replacement) rules of a configuration, in order.
pub open spec fn rewrite_rules(config: TransformConfig) -> Seq<(Seq<char>, Seq<char>)> {
    match config.request {
        Some(req) => req.path_rewrites@.map_values(|p: PathRewrite| (p.pattern@, p.replacement@)),
        None => Seq::empty(),
    }
}

/// The path after the first rule whose pattern matches it, applied once; the path
/// itself when none matches.
pub open spec fn rewrite_path(rules: Seq<(Seq<char>, Seq<char>)>, path: Seq<char>) -> Seq<char>
    decreases rules.len(),
{
    if rules.len() == 0 {
        path
    } else if pattern_matches(rules[0].0, path) {
        pattern_replace_first(rules[0].0, path, rules[0].1)
    } else {
        rewrite_path(rules.drop_first(), path)
    }
}

impl TransformService {
    pub closed spec fn spec_config(&self) -> TransformConfig {
        self.config
    }

    /// The compiled rules, as (pattern, replacement).
    pub closed spec fn compiled_rules(&self) -> Seq<(Seq<char>, Seq<char>)> {
        self.path_rewrite_cache@.map_values(|e: (regex::Regex, String)| (regex_source(e.0), e.1@))
    }

    /// Compiles the path rewrites; fails when a pattern is not a valid regular expression.
    pub fn new(config: TransformConfig) -> (r: Result<TransformService, GatewayError>)
        ensures
            match r {
                Ok(s) => s.spec_config() == config && s.compiled_rules() == rewrite_rules(config)
                    && forall|i: int| 0 <= i < rewrite_patterns(config).len() ==> regex_compiles(#[trigger] rewrite_patterns(config)[i]),
                Err(e) => e is Config && exists|i: int| 0 <= i < rewrite_patterns(config).len() && !regex_compiles(#[trigger] rewrite_patterns(config)[i]),
            },
    {
        let mut cache: Vec<(regex::Regex, String)> = Vec::new();
        match &config.request {
            Some(req) => {
                let ghost pats = rewrite_patterns(config);
                let ghost rules = rewrite_rules(config);
                let mut i: usize = 0;
                while i < req.path_rewrites.len()
                    invariant
                        pats == rewrite_patterns(config),
                        rules == rewrite_rules(config),
                        config.request == Some(*req),
                        i <= req.path_rewrites@.len(),
                        cache@.len() == i,
                        forall|j: int| 0 <= j < i ==> regex_compiles(#[trigger] pats[j]),
                        forall|j: int| 0 <= j < i ==> (regex_source(#[trigger] cache@[j].0), cache@[j].1@) == rules[j],
                    decreases req.path_rewrites@.len() - i,
                {
                    let rw = &req.path_rewrites[i];
                    assert(pats[i as int] == rw.pattern@);
                    assert(rules[i as int] == (rw.pattern@, rw.replacement@));
                    match compile_regex(rw.pattern.as_str()) {
                        Ok(re) => {
                            cache.push((re, rw.replacement.clone()));
                        },
                        Err(_) => {
                            return Err(GatewayError::Config(String::from_str("Invalid path rewrite regex")));
                        },
                    }
                    i = i + 1;
                }
            },
            None => {},
        }
        let r = TransformService { config, path_rewrite_cache: cache };
        assert(r.compiled_rules() =~= rewrite_rules(config));
        Ok(r)
    }

    /// Applies the request header edits: remove, then add when absent, then set.
    /// Entries with an invalid name or value are skipped.
    pub fn transform_request_headers(&self, headers: &mut HeaderList) -> (r: Result<(), GatewayError>)
        ensures
            r is Ok,
            header_pairs(final(headers)@) == match self.spec_config().request {
                Some(req) => edit_headers(header_pairs(old(headers)@), names_view(req.remove_headers@),
                    pairs_view(req.add_headers@), pairs_view(req.set_headers@)),
                None => header_pairs(old(headers)@),
            },
    {
        match &self.config.request {
            Some(req) => {
                apply_removals(headers, &req.remove_headers);
                apply_additions(headers, &req.add_headers);
                apply_settings(headers, &req.set_headers);
            },
            None => {},
        }
        Ok(())
    }

    /// Applies the response header edits: remove, then add when absent, then set.
    pub fn transform_response_headers(&self, headers: &mut HeaderList) -> (r: Result<(), GatewayError>)
        ensures
            r is Ok,
            header_pairs(final(headers)@) == match self.spec_config().response {
                Some(resp) => edit_headers(header_pairs(old(headers)@), names_view(resp.remove_headers@),
                    pairs_view(resp.add_headers@), pairs_view(resp.set_headers@)),
                None => header_pairs(old(headers)@),
            },
    {
        match &self.config.response {
            Some(resp) => {
                apply_removals(headers, &resp.remove_headers);
                apply_additions(headers, &resp.add_headers);
                apply_settings(headers, &resp.set_headers);
            },
            None => {},
        }
        Ok(())
    }

    /// Rewrites the path with the first rule whose pattern matches, applied once.
    pub fn transform_path(&self, path: &str) -> (r: String)
        ensures
            r@ == rewrite_path(self.compiled_rules(), path@),
    {
        let ghost rules = self.compiled_rules();
        assert(rules.subrange(0, rules.len() as int) =~= rules);
        let mut i: usize = 0;
        while i < self.path_rewrite_cache.len()
            invariant
                i <= self.path_rewrite_cache@.len(),
                rules == self.compiled_rules(),
                rewrite_path(rules, path@) == rewrite_path(rules.subrange(i as int, rules.len() as int), path@),
            decreases self.path_rewrite_cache@.len() - i,
        {
            let ghost rest = rules.subrange(i as int, rules.len() as int);
            assert(rest.drop_first() =~= rules.subrange(i + 1, rules.len() as int));
            let (re, replacement) = &self.path_rewrite_cache[i];
            assert(rest[0] == (regex_source(*re), replacement@));
            if regex_is_match(re, path) {
                return regex_replace_first(re, path, replacement.as_str());
            }
            i = i + 1;
        }
        String::from_str(path)
    }

    /// Applies the query edits; without query edits the query is returned unchanged.
    pub fn transform_query_params(&self, query: &str) -> (r: String)
        ensures
            r@ == match self.spec_config().request {
                Some(req) => match req.query_params {
                    Some(q) => if no_query_edits(q) {
                        query@
                    } else {
                        form_encoded(edit_query(form_pairs(query@), names_view(q.remove@), pairs_view(q.add@), pairs_view(q.set@)))
                    },
                    None => query@,
                },
                None => query@,
            },
    {
        match &self.config.request {
            Some(req) => match &req.query_params {
                Some(q) => {
                    if q.remove.len() == 0 && q.add.len() == 0 && q.set.len() == 0 {
                        return String::from_str(query);
                    }
                    let decoded = decode_query(query);
                    let mut params = collapse_pairs(&decoded);
                    let ghost p0 = header_pairs(params@);
                    let ghost rv = names_view(q.remove@);
                    let mut i: usize = 0;
                    while i < q.remove.len()
                        invariant
                            i <= q.remove@.len(),
                            rv == names_view(q.remove@),
                            header_pairs(params@) == remove_keys(p0, rv.take(i as int)),
                        decreases q.remove@.len() - i,
                    {
                        assert(rv.take(i as int + 1).drop_last() =~= rv.take(i as int));
                        remove_key(&mut params, q.remove[i].as_str());
                        i = i + 1;
                    }
                    assert(rv.take(i as int) =~= rv);
                    let ghost p1 = header_pairs(params@);
                    let ghost av = pairs_view(q.add@);
                    let mut k: usize = 0;
                    while k < q.add.len()
                        invariant
                            k <= q.add@.len(),
                            av == pairs_view(q.add@),
                            header_pairs(params@) == add_keys(p1, av.take(k as int)),
                        decreases q.add@.len() - k,
                    {
                        assert(av.take(k as int + 1).drop_last() =~= av.take(k as int));
                        if !contains_key(&params, q.add[k].0.as_str()) {
                            push_pair(&mut params, q.add[k].0.as_str(), q.add[k].1.as_str());
                        }
                        k = k + 1;
                    }
                    assert(av.take(k as int) =~= av);
                    let ghost p2 = header_pairs(params@);
                    let ghost sv = pairs_view(q.set@);
                    let mut m: usize = 0;
                    while m < q.set.len()
                        invariant
                            m <= q.set@.len(),
                            sv == pairs_view(q.set@),
                            header_pairs(params@) == set_keys(p2, sv.take(m as int)),
                        decreases q.set@.len() - m,
                    {
                        assert(sv.take(m as int + 1).drop_last() =~= sv.take(m as int));
                        remove_key(&mut params, q.set[m].0.as_str());
                        push_pair(&mut params, q.set[m].0.as_str(), q.set[m].1.as_str());
                        m = m + 1;
                    }
                    assert(sv.take(m as int) =~= sv);
                    encode_query(&params)
                },
                None => String::from_str(query),
            },
            None => String::from_str(query),
        }
    }

    pub fn has_request_transform(&self) -> (r: bool)
        ensures
            r == self.spec_config().request is Some,
    {
        self.config.request.is_some()
    }

    pub fn has_response_transform(&self) -> (r: bool)
        ensures
            r == self.spec_config().response is Some,
    {
        self.config.response.is_some()
    }
}

} // verus!
