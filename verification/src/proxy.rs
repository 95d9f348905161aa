//! The proxy engine's decisions: which rule serves a path, how the outbound
//! path and URL are rewritten, which headers are forwarded, what the gateway
//! answers when no rule matches or the upstream call fails, and the registry
//! that keeps one live balancer per `(strategy, upstream-set)` key.

use vstd::prelude::*;

use crate::config::spec_any_prefix_matches;
use crate::config::spec_extract_variables;
use crate::config::spec_has_pattern_chars;
use crate::config::RouteRule;
use crate::load_balancer::spec_built_balancer;
use crate::load_balancer::spec_select_rel;
use crate::load_balancer::Balancer;
use crate::path_matcher::regex_ok;
use crate::path_matcher::spec_compile_re;
use crate::path_matcher::spec_pattern_matches;
use crate::path_matcher::RoutePattern;
use crate::text::chars_of;
use crate::text::contains_char;
use crate::text::push_all;
use crate::text::push_range;
use crate::text::slice_eq_chars;
use crate::text::slice_starts_with;
use crate::text::spec_starts_with;
use crate::text::string_from_chars;

verus! {

/// The request-scoped marker of a whitelisted request: token verification
/// is skipped exactly when it is present.
#[derive(Debug, Clone, Copy)]
pub struct WhitelistBypass;

// ---------------------------------------------------------------------------
// Rule scoring and best match.
// ---------------------------------------------------------------------------

/// A pattern's specificity: its length, plus a large bonus when it holds
/// wildcard or capture characters.
pub open spec fn spec_pattern_score(p: Seq<char>) -> int {
    if spec_has_pattern_chars(p) {
        1000 + p.len() as int
    } else {
        p.len() as int
    }
}

/// A rule's score from position `i` on: the best of its patterns' scores.
pub open spec fn spec_rule_score_from(prefixes: Seq<Seq<char>>, i: int) -> int
    decreases prefixes.len() - i when 0 <= i <= prefixes.len()
{
    if i >= prefixes.len() {
        0
    } else {
        let head = spec_pattern_score(prefixes[i]);
        let rest = spec_rule_score_from(prefixes, i + 1);
        if head >= rest {
            head
        } else {
            rest
        }
    }
}

/// A rule's score: the best of its patterns' scores, zero with no patterns.
pub open spec fn spec_rule_score(prefixes: Seq<Seq<char>>) -> int {
    spec_rule_score_from(prefixes, 0)
}

fn rule_score(rule: &RouteRule) -> (r: u128)
    ensures
        r as int == spec_rule_score(rule.spec_prefixes()),
{
    let ghost prefixes = rule.spec_prefixes();
    let mut best: u128 = 0;
    let mut i: usize = rule.prefix.len();
    while i > 0
        invariant
            0 <= i <= rule.prefix@.len(),
            prefixes == rule.spec_prefixes(),
            best as int == spec_rule_score_from(prefixes, i as int),
        decreases i,
    {
        i -= 1;
        let cs = chars_of(rule.prefix[i].as_str());
        let has = contains_char(cs.as_slice(), '{') || contains_char(cs.as_slice(), '*')
            || contains_char(cs.as_slice(), '?');
        let score: u128 = if has {
            1000 + cs.len() as u128
        } else {
            cs.len() as u128
        };
        if score >= best {
            best = score;
        }
    }
    best
}

/// The index of the winning rule, scanned left to right carrying the best
/// strictly-greater score so far; a matching rule with score zero never wins.
pub open spec fn spec_best_from(
    rules: Seq<RouteRule>,
    path: Seq<char>,
    i: int,
    best: Option<int>,
    best_score: int,
) -> Option<int>
    decreases rules.len() - i when 0 <= i <= rules.len()
{
    if i >= rules.len() {
        best
    } else {
        let s = spec_rule_score(rules[i].spec_prefixes());
        if spec_any_prefix_matches(rules[i].spec_prefixes(), path) && s > best_score {
            spec_best_from(rules, path, i + 1, Some(i), s)
        } else {
            spec_best_from(rules, path, i + 1, best, best_score)
        }
    }
}

/// The rule that serves `path`: the highest-scoring matching rule, the
/// earliest on a tie.
pub open spec fn spec_best_match(rules: Seq<RouteRule>, path: Seq<char>) -> Option<int> {
    spec_best_from(rules, path, 0, None, 0)
}

/// Find the rule that serves `path`, if any.
pub fn find_best_match<'a>(rules: &'a Vec<RouteRule>, path: &str) -> (r: Option<&'a RouteRule>)
    ensures
        r is Some <==> spec_best_match(rules@, path@) is Some,
        r is Some ==> *r.unwrap() == rules@[spec_best_match(rules@, path@).unwrap()],
{
    let mut best: Option<usize> = None;
    let mut best_score: u128 = 0;
    let mut i: usize = 0;
    while i < rules.len()
        invariant
            0 <= i <= rules@.len(),
            match best {
                Some(b) => 0 <= b < i && spec_best_match(rules@, path@) == spec_best_from(
                    rules@,
                    path@,
                    i as int,
                    Some(b as int),
                    best_score as int,
                ),
                None => best_score == 0 && spec_best_match(rules@, path@) == spec_best_from(
                    rules@,
                    path@,
                    i as int,
                    None,
                    0,
                ),
            },
        decreases rules.len() - i,
    {
        let rule = &rules[i];
        if rule.matches(path) {
            let score = rule_score(rule);
            if score > best_score {
                best = Some(i);
                best_score = score;
            }
        }
        i += 1;
    }
    match best {
        Some(b) => Some(&rules[b]),
        None => None,
    }
}

/// Law: the winning rule is a function of the rule list and the path alone,
/// so any two lookups on the same inputs — across threads — choose the same
/// rule.
pub proof fn lemma_best_match_deterministic(
    rules: Seq<RouteRule>,
    path: Seq<char>,
    r1: Option<int>,
    r2: Option<int>,
)
    requires
        r1 == spec_best_match(rules, path),
        r2 == spec_best_match(rules, path),
    ensures
        r1 == r2,
{
}

// ---------------------------------------------------------------------------
// Path and URL rewriting.
// ---------------------------------------------------------------------------

/// The path a request is matched against: the original path with one
/// leading `/proxy` removed when present.
pub open spec fn spec_stripped_path(path: Seq<char>) -> Seq<char> {
    if spec_starts_with(path, "/proxy"@) {
        path.skip("/proxy"@.len() as int)
    } else {
        path
    }
}

/// Strip one leading `/proxy` from the request path, if present.
pub fn strip_proxy_prefix(path: &str) -> (r: String)
    ensures
        r@ == spec_stripped_path(path@),
{
    let path_cs = chars_of(path);
    let proxy_cs = chars_of("/proxy");
    if slice_starts_with(path_cs.as_slice(), proxy_cs.as_slice()) {
        let mut out: Vec<char> = Vec::new();
        push_range(&mut out, path_cs.as_slice(), proxy_cs.len(), path_cs.len());
        string_from_chars(&out)
    } else {
        string_from_chars(&path_cs)
    }
}

/// The forward path: the matched path with its first literally-matching
/// prefix stripped, or unchanged when no prefix is a literal head of it.
pub open spec fn spec_forward_path(path: Seq<char>, prefixes: Seq<Seq<char>>) -> Seq<char>
    decreases prefixes.len(),
{
    if prefixes.len() == 0 {
        path
    } else if spec_starts_with(path, prefixes[0]) {
        path.skip(prefixes[0].len() as int)
    } else {
        spec_forward_path(path, prefixes.skip(1))
    }
}

/// Rewrite the matched path for the upstream: strip the first prefix of the
/// winning rule that heads it, keep the path as it is otherwise.
pub fn reconstruct_forward_path(original_path: &str, prefixes: &Vec<String>) -> (r: String)
    ensures
        r@ == spec_forward_path(original_path@, prefixes@.map_values(|s: String| s@)),
{
    let ghost dv = prefixes@.map_values(|s: String| s@);
    let path_cs = chars_of(original_path);
    let mut i: usize = 0;
    proof {
        assert(dv.skip(0) == dv);
    }
    while i < prefixes.len()
        invariant
            0 <= i <= prefixes@.len(),
            dv == prefixes@.map_values(|s: String| s@),
            path_cs@ == original_path@,
            spec_forward_path(original_path@, dv) == spec_forward_path(
                original_path@,
                dv.skip(i as int),
            ),
        decreases prefixes.len() - i,
    {
        proof {
            assert(dv.skip(i as int)[0] == dv[i as int]);
            assert(dv.skip(i as int).skip(1) =~= dv.skip(i + 1 as int));
        }
        let pre_cs = chars_of(prefixes[i].as_str());
        if slice_starts_with(path_cs.as_slice(), pre_cs.as_slice()) {
            let mut out: Vec<char> = Vec::new();
            push_range(&mut out, path_cs.as_slice(), pre_cs.len(), path_cs.len());
            return string_from_chars(&out);
        }
        i += 1;
    }
    proof {
        assert(dv.skip(dv.len() as int) =~= Seq::<Seq<char>>::empty());
    }
    string_from_chars(&path_cs)
}

/// Law: under a rule whose first pattern is the literal prefix `s`, a path
/// `s + suffix` is forwarded as exactly `suffix`.
pub proof fn lemma_forward_path_strips(s: Seq<char>, suffix: Seq<char>, prefixes: Seq<Seq<char>>)
    requires
        prefixes.len() > 0,
        prefixes[0] == s,
    ensures
        spec_forward_path(s + suffix, prefixes) == suffix,
{
    assert(spec_starts_with(s + suffix, s)) by {
        assert((s + suffix).subrange(0, s.len() as int) =~= s);
    }
    assert((s + suffix).skip(s.len() as int) =~= suffix);
}

/// Law: the query string rides on the outbound URL byte for byte, after one
/// `?`, whatever the upstream and forward path are.
pub proof fn lemma_query_preserved(
    upstream: Seq<char>,
    forward_path: Seq<char>,
    query: Seq<char>,
)
    ensures
        spec_outbound_url(upstream, forward_path, Some(query)).skip(
            upstream.len() + forward_path.len() + 1 as int,
        ) == query,
        spec_outbound_url(upstream, forward_path, None) == upstream + forward_path,
{
    assert(spec_outbound_url(upstream, forward_path, Some(query)).skip(
        upstream.len() + forward_path.len() + 1 as int,
    ) =~= query);
    assert(spec_outbound_url(upstream, forward_path, None) =~= upstream + forward_path);
}

/// The text of the outbound URL: upstream, forward path, query if any.
pub open spec fn spec_outbound_url(
    upstream: Seq<char>,
    forward_path: Seq<char>,
    query: Option<Seq<char>>,
) -> Seq<char> {
    upstream + forward_path + (match query {
        Some(q) => seq!['?'] + q,
        None => Seq::<char>::empty(),
    })
}

/// Build the outbound URL, preserving the query string byte for byte.
pub fn build_outbound_url(upstream: &str, forward_path: &str, query: Option<&str>) -> (r: String)
    ensures
        r@ == spec_outbound_url(
            upstream@,
            forward_path@,
            match query {
                Some(q) => Some(q@),
                None => None,
            },
        ),
{
    let mut out = chars_of(upstream);
    let fp = chars_of(forward_path);
    push_all(&mut out, fp.as_slice());
    match query {
        Some(q) => {
            out.push('?');
            let q_cs = chars_of(q);
            push_all(&mut out, q_cs.as_slice());
        },
        None => {},
    }
    string_from_chars(&out)
}

// ---------------------------------------------------------------------------
// Gateway-generated response bodies.
// ---------------------------------------------------------------------------

/// The body answering a path no rule serves.
pub open spec fn spec_no_route_body(path: Seq<char>) -> Seq<char> {
    "{\"error\":\"No upstream configured for path: "@ + path + "\"}"@
}

/// The JSON body of the 502 answer for an unrouted path.
pub fn no_route_body(path: &str) -> (r: String)
    ensures
        r@ == spec_no_route_body(path@),
{
    let mut out = chars_of("{\"error\":\"No upstream configured for path: ");
    let path_cs = chars_of(path);
    push_all(&mut out, path_cs.as_slice());
    let tail = chars_of("\"}");
    push_all(&mut out, tail.as_slice());
    string_from_chars(&out)
}

/// Which leg of the outbound call failed.
#[derive(Debug, Clone, Copy, PartialEq, Eq)]
pub enum ProxyErrorKind {
    Upstream,
    RequestBody,
    ResponseBody,
}

/// The phrase each failing leg is reported with.
pub open spec fn spec_proxy_error_prefix(kind: ProxyErrorKind) -> Seq<char> {
    match kind {
        ProxyErrorKind::Upstream => "Proxy error: "@,
        ProxyErrorKind::RequestBody => "Body read error: "@,
        ProxyErrorKind::ResponseBody => "Response body error: "@,
    }
}

/// The body answering a failed outbound call.
pub open spec fn spec_proxy_error_body(kind: ProxyErrorKind, detail: Seq<char>) -> Seq<char> {
    "{\"error\":\""@ + spec_proxy_error_prefix(kind) + detail + "\"}"@
}

/// The JSON body of the 500 answer for a failed outbound call.
pub fn proxy_error_body(kind: ProxyErrorKind, detail: &str) -> (r: String)
    ensures
        r@ == spec_proxy_error_body(kind, detail@),
{
    let mut out = chars_of("{\"error\":\"");
    let prefix = match kind {
        ProxyErrorKind::Upstream => chars_of("Proxy error: "),
        ProxyErrorKind::RequestBody => chars_of("Body read error: "),
        ProxyErrorKind::ResponseBody => chars_of("Response body error: "),
    };
    push_all(&mut out, prefix.as_slice());
    let detail_cs = chars_of(detail);
    push_all(&mut out, detail_cs.as_slice());
    let tail = chars_of("\"}");
    push_all(&mut out, tail.as_slice());
    string_from_chars(&out)
}

// ---------------------------------------------------------------------------
// Header forwarding.
// ---------------------------------------------------------------------------

/// The positions of the request headers that are forwarded: all but `host`
/// (header names arrive lower-cased), in order.
pub open spec fn spec_forward_indices(names: Seq<Seq<char>>, i: int) -> Seq<int>
    decreases names.len() - i when 0 <= i <= names.len()
{
    if i >= names.len() {
        Seq::empty()
    } else if names[i] == "host"@ {
        spec_forward_indices(names, i + 1)
    } else {
        seq![i] + spec_forward_indices(names, i + 1)
    }
}

/// Which request headers to copy onto the outbound request: every one whose
/// name is not `host`.
pub fn forward_header_indices(names: &Vec<String>) -> (r: Vec<usize>)
    ensures
        r@.map_values(|x: usize| x as int) == spec_forward_indices(
            names@.map_values(|s: String| s@),
            0,
        ),
        forall|k: int| 0 <= k < r@.len() ==> r@[k] < names@.len(),
{
    let ghost dv = names@.map_values(|s: String| s@);
    let host_cs = chars_of("host");
    let mut out: Vec<usize> = Vec::new();
    let mut i: usize = 0;
    proof {
        assert(spec_forward_indices(dv, 0) =~= Seq::<int>::empty().add(spec_forward_indices(dv, 0)));
    }
    while i < names.len()
        invariant
            0 <= i <= names@.len(),
            dv == names@.map_values(|s: String| s@),
            host_cs@ == "host"@,
            forall|k: int| 0 <= k < out@.len() ==> out@[k] < i,
            spec_forward_indices(dv, 0) =~= out@.map_values(|x: usize| x as int)
                + spec_forward_indices(dv, i as int),
        decreases names.len() - i,
    {
        let name_cs = chars_of(names[i].as_str());
        if !slice_eq_chars(name_cs.as_slice(), host_cs.as_slice()) {
            out.push(i);
        }
        proof {
            assert(spec_forward_indices(dv, 0) =~= out@.map_values(|x: usize| x as int)
                + spec_forward_indices(dv, i + 1 as int));
        }
        i += 1;
    }
    out
}

/// Whether the reply needs the fallback content type: the upstream set no
/// `content-type` header of its own.
pub fn needs_default_content_type(names: &Vec<String>) -> (r: bool)
    ensures
        r == (forall|k: int| 0 <= k < names@.len() ==> (#[trigger] names@[k])@ != "content-type"@),
{
    let ghost dv = names@.map_values(|s: String| s@);
    let ct_cs = chars_of("content-type");
    let mut i: usize = 0;
    while i < names.len()
        invariant
            0 <= i <= names@.len(),
            dv == names@.map_values(|s: String| s@),
            ct_cs@ == "content-type"@,
            forall|k: int| 0 <= k < i ==> (#[trigger] names@[k])@ != "content-type"@,
        decreases names.len() - i,
    {
        let name_cs = chars_of(names[i].as_str());
        if slice_eq_chars(name_cs.as_slice(), ct_cs.as_slice()) {
            return false;
        }
        i += 1;
    }
    true
}

// ---------------------------------------------------------------------------
// Whitelist bypass.
// ---------------------------------------------------------------------------

/// Whether one whitelist entry matches the matched path: wildcard entries go
/// through the compiled expression (an entry that does not compile matches
/// nothing), literal entries match at segment boundaries.
pub open spec fn spec_whitelist_entry_matches(w: Seq<char>, path: Seq<char>) -> bool {
    if spec_has_pattern_chars(w) {
        if regex_ok(spec_compile_re(w)) {
            spec_pattern_matches(w, path)
        } else {
            false
        }
    } else {
        crate::config::spec_literal_matches(w, path)
    }
}

/// Whether any whitelist entry matches the matched path.
pub open spec fn spec_whitelist_hit(entries: Seq<Seq<char>>, path: Seq<char>) -> bool {
    exists|i: int| 0 <= i < entries.len() && spec_whitelist_entry_matches(entries[i], path)
}

/// Whether the rule's whitelist lets `path` through without a token.
pub open spec fn spec_rule_whitelists(rule: RouteRule, path: Seq<char>) -> bool {
    match rule.whitelist {
        Some(ws) => spec_whitelist_hit(ws@.map_values(|s: String| s@), path),
        None => false,
    }
}

fn whitelist_entry_matches(w: &str, path: &str) -> (r: bool)
    ensures
        r == spec_whitelist_entry_matches(w@, path@),
{
    let w_cs = chars_of(w);
    let path_cs = chars_of(path);
    if contains_char(w_cs.as_slice(), '{') || contains_char(w_cs.as_slice(), '*') || contains_char(
        w_cs.as_slice(),
        '?',
    ) {
        match RoutePattern::from_pattern(w) {
            Ok(rp) => rp.matches(path),
            Err(_) => false,
        }
    } else {
        let exact = slice_eq_chars(path_cs.as_slice(), w_cs.as_slice());
        let mut with_slash = w_cs;
        with_slash.push('/');
        proof {
            assert(with_slash@ =~= w@ + seq!['/']);
        }
        exact || slice_starts_with(path_cs.as_slice(), with_slash.as_slice())
    }
}

/// Decide the whitelist bypass for a request: the path (after `/proxy`
/// stripping) is served by its best-matching rule, and that rule's whitelist,
/// if any, has an entry matching the path. A path no rule serves is never
/// bypassed.
pub fn check_whitelist(rules: &Vec<RouteRule>, full_path: &str) -> (r: bool)
    ensures
        r == match spec_best_match(rules@, spec_stripped_path(full_path@)) {
            Some(i) => spec_rule_whitelists(rules@[i], spec_stripped_path(full_path@)),
            None => false,
        },
{
    let match_path = strip_proxy_prefix(full_path);
    let best = find_best_match(rules, match_path.as_str());
    match best {
        Some(rule) => {
            match &rule.whitelist {
                Some(ws) => {
                    let ghost entries = ws@.map_values(|s: String| s@);
                    let mut i: usize = 0;
                    while i < ws.len()
                        invariant
                            0 <= i <= ws@.len(),
                            entries == ws@.map_values(|s: String| s@),
                            match_path@ == spec_stripped_path(full_path@),
                            spec_best_match(rules@, spec_stripped_path(full_path@)) is Some,
                            rules@[spec_best_match(rules@, spec_stripped_path(full_path@)).unwrap()].whitelist
                                == Some(*ws),
                            forall|k: int|
                                0 <= k < i ==> !spec_whitelist_entry_matches(
                                    entries[k],
                                    match_path@,
                                ),
                        decreases ws.len() - i,
                    {
                        if whitelist_entry_matches(ws[i].as_str(), match_path.as_str()) {
                            assert(spec_whitelist_entry_matches(entries[i as int], match_path@));
                            assert(spec_whitelist_hit(entries, match_path@));
                            return true;
                        }
                        i += 1;
                    }
                    assert(!spec_whitelist_hit(entries, match_path@));
                    false
                },
                None => false,
            }
        },
        None => false,
    }
}

// ---------------------------------------------------------------------------
// Route planning.
// ---------------------------------------------------------------------------

/// Everything the proxy needs to forward one routed request: the winning
/// rule, the matched path, the rewritten forward path, and the extracted
/// variables (kept for logging, never substituted into the URL).
#[derive(Debug)]
pub struct RoutePlan {
    pub rule_index: usize,
    pub match_path: String,
    pub forward_path: String,
    pub variables: Vec<(String, String)>,
}

/// Decide the route of one request: strip the optional `/proxy`, find the
/// best rule, rewrite the forward path and extract the variables — or give
/// the exact body of the 502 answer when no rule serves the path.
pub fn plan_route(rules: &Vec<RouteRule>, full_path: &str) -> (r: Result<RoutePlan, String>)
    ensures
        ({
            let mp = spec_stripped_path(full_path@);
            match r {
                Ok(plan) => {
                    let best = spec_best_match(rules@, mp);
                    &&& best is Some
                    &&& plan.rule_index < rules@.len()
                    &&& best == Some(plan.rule_index as int)
                    &&& plan.match_path@ == mp
                    &&& plan.forward_path@ == spec_forward_path(
                        mp,
                        rules@[plan.rule_index as int].spec_prefixes(),
                    )
                    &&& ({
                        let pairs = spec_extract_variables(
                            rules@[plan.rule_index as int].spec_prefixes(),
                            mp,
                        );
                        &&& plan.variables@.len() == pairs.len()
                        &&& forall|k: int|
                            0 <= k < pairs.len() ==> (plan.variables@[k].0@, plan.variables@[
                            k].1@) == pairs[k]
                    })
                },
                Err(body) => spec_best_match(rules@, mp) is None && body@ == spec_no_route_body(mp),
            }
        }),
{
    let match_path = strip_proxy_prefix(full_path);
    let mut best: Option<usize> = None;
    let mut best_score: u128 = 0;
    let mut i: usize = 0;
    while i < rules.len()
        invariant
            0 <= i <= rules@.len(),
            match_path@ == spec_stripped_path(full_path@),
            match best {
                Some(b) => 0 <= b < i && spec_best_match(rules@, match_path@) == spec_best_from(
                    rules@,
                    match_path@,
                    i as int,
                    Some(b as int),
                    best_score as int,
                ),
                None => best_score == 0 && spec_best_match(rules@, match_path@) == spec_best_from(
                    rules@,
                    match_path@,
                    i as int,
                    None,
                    0,
                ),
            },
        decreases rules.len() - i,
    {
        let rule = &rules[i];
        if rule.matches(match_path.as_str()) {
            let score = rule_score(rule);
            if score > best_score {
                best = Some(i);
                best_score = score;
            }
        }
        i += 1;
    }
    match best {
        Some(idx) => {
            let rule = &rules[idx];
            let forward_path = reconstruct_forward_path(match_path.as_str(), &rule.prefix);
            let variables = rule.extract_variables(match_path.as_str());
            Ok(RoutePlan { rule_index: idx, match_path, forward_path, variables })
        },
        None => Err(no_route_body(match_path.as_str())),
    }
}

// ---------------------------------------------------------------------------
// Claim propagation.
// ---------------------------------------------------------------------------

/// The headers added to the outbound request for the request's claims: the
/// subject as `uid` and the tenant as `tenant_id`, each only when non-empty.
pub open spec fn spec_auth_header_additions(sub: Seq<char>, tenant: Seq<char>) -> Seq<
    (Seq<char>, Seq<char>),
> {
    (if sub.len() > 0 {
        seq![("uid"@, sub)]
    } else {
        Seq::<(Seq<char>, Seq<char>)>::empty()
    }) + (if tenant.len() > 0 {
        seq![("tenant_id"@, tenant)]
    } else {
        Seq::<(Seq<char>, Seq<char>)>::empty()
    })
}

/// Which headers carry the claims to the upstream: `uid` for a non-empty
/// subject, `tenant_id` for a non-empty tenant, nothing otherwise.
pub fn auth_header_additions(claims: &crate::auth::Claims) -> (r: Vec<(String, String)>)
    ensures
        ({
            let pairs = spec_auth_header_additions(claims.sub@, claims.tenant_id@);
            &&& r@.len() == pairs.len()
            &&& forall|k: int| 0 <= k < pairs.len() ==> (r@[k].0@, r@[k].1@) == pairs[k]
        }),
{
    let mut r: Vec<(String, String)> = Vec::new();
    if !claims.sub.as_str().is_empty() {
        let uid = chars_of("uid");
        r.push((string_from_chars(&uid), claims.sub.clone()));
    }
    if !claims.tenant_id.as_str().is_empty() {
        let tenant = chars_of("tenant_id");
        r.push((string_from_chars(&tenant), claims.tenant_id.clone()));
    }
    r
}

// ---------------------------------------------------------------------------
// The balancer registry.
// ---------------------------------------------------------------------------

/// The upstream list joined with commas.
pub open spec fn spec_join_comma(xs: Seq<Seq<char>>) -> Seq<char>
    decreases xs.len(),
{
    if xs.len() == 0 {
        Seq::empty()
    } else if xs.len() == 1 {
        xs[0]
    } else {
        xs[0] + seq![','] + spec_join_comma(xs.skip(1))
    }
}

/// The registry key of a `(strategy, upstream-set)` pair.
pub open spec fn spec_balancer_key(strategy: Seq<char>, ups: Seq<Seq<char>>) -> Seq<char> {
    strategy + seq![':'] + spec_join_comma(ups)
}

/// Build the registry key: the strategy tag, a colon, and the upstream list
/// joined with commas.
pub fn balancer_key(strategy: &str, upstreams: &Vec<String>) -> (r: String)
    ensures
        r@ == spec_balancer_key(strategy@, upstreams@.map_values(|s: String| s@)),
{
    let ghost ups = upstreams@.map_values(|s: String| s@);
    let mut out = chars_of(strategy);
    out.push(':');
    let ghost head = out@;
    let mut i: usize = 0;
    proof {
        assert(ups.skip(0) == ups);
    }
    while i < upstreams.len()
        invariant
            0 <= i <= upstreams@.len(),
            ups == upstreams@.map_values(|s: String| s@),
            i < upstreams@.len() ==> out@ + spec_join_comma(ups.skip(i as int)) == head
                + spec_join_comma(ups),
            i == upstreams@.len() ==> out@ == head + spec_join_comma(ups),
        decreases upstreams.len() - i,
    {
        proof {
            assert(ups.skip(i as int)[0] == ups[i as int]);
            assert(ups.skip(i as int).skip(1) =~= ups.skip(i + 1 as int));
        }
        let u_cs = chars_of(upstreams[i].as_str());
        push_all(&mut out, u_cs.as_slice());
        if i + 1 < upstreams.len() {
            out.push(',');
        }
        i += 1;
    }
    proof {
        if upstreams@.len() == 0 {
            assert(out@ =~= head + spec_join_comma(ups));
        }
        assert(out@ =~= spec_balancer_key(strategy@, ups));
    }
    string_from_chars(&out)
}

/// The balancer the entry list holds under `k`: the first entry with that
/// key.
pub open spec fn spec_get_entries(es: Seq<(String, Balancer)>, k: Seq<char>) -> Option<Balancer>
    decreases es.len(),
{
    if es.len() == 0 {
        None
    } else if es[0].0@ == k {
        Some(es[0].1)
    } else {
        spec_get_entries(es.skip(1), k)
    }
}

proof fn lemma_get_at_first(es: Seq<(String, Balancer)>, idx: int)
    requires
        0 <= idx < es.len(),
        forall|j: int| 0 <= j < idx ==> (#[trigger] es[j]).0@ != es[idx].0@,
    ensures
        spec_get_entries(es, es[idx].0@) == Some(es[idx].1),
    decreases idx,
{
    if idx > 0 {
        assert(es.skip(1)[idx - 1] == es[idx]);
        assert(forall|j: int| 0 <= j < idx - 1 ==> (#[trigger] es.skip(1)[j]).0@ != es.skip(
            1,
        )[idx - 1].0@) by {
            assert(forall|j: int| 0 <= j < idx - 1 ==> es.skip(1)[j] == es[j + 1]);
        }
        lemma_get_at_first(es.skip(1), idx - 1);
    }
}

proof fn lemma_get_none(es: Seq<(String, Balancer)>, k: Seq<char>)
    requires
        forall|j: int| 0 <= j < es.len() ==> (#[trigger] es[j]).0@ != k,
    ensures
        spec_get_entries(es, k) is None,
    decreases es.len(),
{
    if es.len() > 0 {
        assert(forall|j: int| 0 <= j < es.len() - 1 ==> es.skip(1)[j] == es[j + 1]);
        lemma_get_none(es.skip(1), k);
    }
}

proof fn lemma_get_update(es: Seq<(String, Balancer)>, idx: int, e2: (String, Balancer))
    requires
        0 <= idx < es.len(),
        e2.0@ == es[idx].0@,
        forall|j: int| 0 <= j < idx ==> (#[trigger] es[j]).0@ != es[idx].0@,
    ensures
        forall|k: Seq<char>| #[trigger]
            spec_get_entries(es.update(idx, e2), k) == (if k == es[idx].0@ {
                Some(e2.1)
            } else {
                spec_get_entries(es, k)
            }),
    decreases idx,
{
    let es2 = es.update(idx, e2);
    if idx == 0 {
        assert(es2[0] == e2);
        assert(es2.skip(1) =~= es.skip(1));
    } else {
        assert(es2[0] == es[0]);
        assert(es2.skip(1) =~= es.skip(1).update(idx - 1, e2));
        assert(es.skip(1)[idx - 1] == es[idx]);
        assert(forall|j: int| 0 <= j < idx - 1 ==> (#[trigger] es.skip(1)[j]).0@ != es.skip(
            1,
        )[idx - 1].0@) by {
            assert(forall|j: int| 0 <= j < idx - 1 ==> es.skip(1)[j] == es[j + 1]);
        }
        lemma_get_update(es.skip(1), idx - 1, e2);
        assert forall|k: Seq<char>| #[trigger]
            spec_get_entries(es2, k) == (if k == es[idx].0@ {
                Some(e2.1)
            } else {
                spec_get_entries(es, k)
            }) by {
            assert(spec_get_entries(es.skip(1).update(idx - 1, e2), k) == (if k == es.skip(
                1,
            )[idx - 1].0@ {
                Some(e2.1)
            } else {
                spec_get_entries(es.skip(1), k)
            }));
        }
    }
}

proof fn lemma_get_push(es: Seq<(String, Balancer)>, e2: (String, Balancer))
    requires
        forall|j: int| 0 <= j < es.len() ==> (#[trigger] es[j]).0@ != e2.0@,
    ensures
        forall|k: Seq<char>| #[trigger]
            spec_get_entries(es.push(e2), k) == (if k == e2.0@ {
                Some(e2.1)
            } else {
                spec_get_entries(es, k)
            }),
    decreases es.len(),
{
    let es2 = es.push(e2);
    if es.len() == 0 {
        assert(es2[0] == e2);
        assert(es2.skip(1) =~= Seq::<(String, Balancer)>::empty());
        assert forall|k: Seq<char>| #[trigger]
            spec_get_entries(es2, k) == (if k == e2.0@ {
                Some(e2.1)
            } else {
                spec_get_entries(es, k)
            }) by {
            assert(spec_get_entries(es2.skip(1), k) is None);
        }
    } else {
        assert(es2[0] == es[0]);
        assert(es2.skip(1) =~= es.skip(1).push(e2));
        assert(forall|j: int| 0 <= j < es.len() - 1 ==> es.skip(1)[j] == es[j + 1]);
        lemma_get_push(es.skip(1), e2);
        assert forall|k: Seq<char>| #[trigger]
            spec_get_entries(es2, k) == (if k == e2.0@ {
                Some(e2.1)
            } else {
                spec_get_entries(es, k)
            }) by {
            assert(spec_get_entries(es.skip(1).push(e2), k) == (if k == e2.0@ {
                Some(e2.1)
            } else {
                spec_get_entries(es.skip(1), k)
            }));
        }
    }
}

/// The live balancers, one per `(strategy, upstream-set)` key: the first
/// request under a key builds its balancer, later ones reuse it, and an
/// update under one key never touches another.
pub struct BalancerRegistry {
    entries: Vec<(String, Balancer)>,
}

/// How one routed pick relates the registry before and after: the key now
/// holds a balancer; every other key is untouched; and the pick went through
/// the balancer the key already held, or through a freshly built one.
pub open spec fn spec_registry_outcome(
    reg0: BalancerRegistry,
    reg1: BalancerRegistry,
    strategy: Seq<char>,
    ups: Seq<Seq<char>>,
    ip: Option<Seq<char>>,
    r: Option<String>,
) -> bool {
    let key = spec_balancer_key(strategy, ups);
    &&& reg1.spec_get(key) is Some
    &&& (forall|k: Seq<char>| k != key ==> #[trigger] reg1.spec_get(k) == reg0.spec_get(k))
    &&& match reg0.spec_get(key) {
        Some(b0) => spec_select_rel(b0, ip, r, reg1.spec_get(key).unwrap()),
        None => exists|b0: Balancer|
            spec_built_balancer(b0, strategy, ups) && spec_select_rel(
                b0,
                ip,
                r,
                reg1.spec_get(key).unwrap(),
            ),
    }
}

impl BalancerRegistry {
    /// The balancer held under `key`.
    pub closed spec fn spec_get(&self, key: Seq<char>) -> Option<Balancer> {
        spec_get_entries(self.entries@, key)
    }

    /// An empty registry.
    pub fn new() -> (r: BalancerRegistry)
        ensures
            forall|k: Seq<char>| #[trigger] r.spec_get(k) is None,
    {
        let r = BalancerRegistry { entries: Vec::new() };
        proof {
            assert(forall|k: Seq<char>| #[trigger] spec_get_entries(r.entries@, k) is None);
        }
        r
    }

    /// Pick an upstream for `(strategy, upstreams)`: reuse the balancer the
    /// key already holds, or build it on first use.
    pub fn select_for(&mut self, strategy: &str, upstreams: &Vec<String>, client_ip: Option<&str>)
        -> (r: Option<String>)
        requires
            upstreams@.len() <= u32::MAX,
        ensures
            spec_registry_outcome(
                *old(self),
                *final(self),
                strategy@,
                upstreams@.map_values(|s: String| s@),
                match client_ip {
                    Some(s) => Some(s@),
                    None => None,
                },
                r,
            ),
    {
        let ghost es0 = self.entries@;
        let ghost ups = upstreams@.map_values(|s: String| s@);
        let key = balancer_key(strategy, upstreams);
        let mut idx: usize = 0;
        let mut found = false;
        while idx < self.entries.len() && !found
            invariant
                0 <= idx <= self.entries@.len(),
                es0 == self.entries@,
                !found ==> forall|j: int| 0 <= j < idx ==> (#[trigger] es0[j]).0@ != key@,
                found ==> idx < es0.len() && es0[idx as int].0@ == key@ && forall|j: int|
                    0 <= j < idx ==> (#[trigger] es0[j]).0@ != key@,
            decreases self.entries.len() - idx, if found { 0int } else { 1int },
        {
            if self.entries[idx].0 == key {
                found = true;
            } else {
                idx += 1;
            }
        }
        if found {
            proof {
                lemma_get_at_first(es0, idx as int);
            }
            let (kstr, mut b) = self.entries.remove(idx);
            let r = b.select(client_ip);
            self.entries.insert(idx, (kstr, b));
            proof {
                assert(self.entries@ =~= es0.update(idx as int, (kstr, b)));
                assert(kstr@ == key@);
                lemma_get_update(es0, idx as int, (kstr, b));
            }
            r
        } else {
            proof {
                lemma_get_none(es0, key@);
            }
            let mut b = Balancer::build(upstreams, strategy);
            let r = b.select(client_ip);
            self.entries.push((key, b));
            proof {
                assert(self.entries@ =~= es0.push((key, b)));
                lemma_get_push(es0, (key, b));
            }
            r
        }
    }
}

/// The result text of a routed pick for `rule`: some balancer interaction
/// under the rule's registry key returned `sel`, and the answer is `sel`'s
/// upstream, or the rule's first upstream when the balancer picked nothing.
pub open spec fn spec_rule_pick_outcome(
    reg0: BalancerRegistry,
    reg1: BalancerRegistry,
    rule: RouteRule,
    ip: Option<Seq<char>>,
    picked: Seq<char>,
) -> bool {
    exists|sel: Option<String>|
        #[trigger] spec_registry_outcome(reg0, reg1, rule.strategy@, rule.spec_upstreams(), ip, sel)
            && picked == match sel {
            Some(u) => u@,
            None => rule.spec_upstreams()[0],
        }
}

/// Pick the upstream a routed request is sent to: the rule's balancer picks,
/// and the rule's first upstream stands in when it picks nothing (an empty
/// weighted total, say).
pub fn pick_upstream(
    registry: &mut BalancerRegistry,
    rule: &RouteRule,
    client_ip: Option<&str>,
) -> (r: String)
    requires
        rule.upstream@.len() > 0,
        rule.upstream@.len() <= u32::MAX,
    ensures
        spec_rule_pick_outcome(
            *old(registry),
            *final(registry),
            *rule,
            match client_ip {
                Some(s) => Some(s@),
                None => None,
            },
            r@,
        ),
{
    let picked = registry.select_for(rule.strategy.as_str(), &rule.upstream, client_ip);
    proof {
        assert(spec_registry_outcome(
            *old(registry),
            *registry,
            rule.strategy@,
            rule.spec_upstreams(),
            match client_ip {
                Some(s) => Some(s@),
                None => None,
            },
            picked,
        ));
    }
    match picked {
        Some(u) => {
            proof {
                assert(spec_rule_pick_outcome(
                    *old(registry),
                    *registry,
                    *rule,
                    match client_ip {
                        Some(s) => Some(s@),
                        None => None,
                    },
                    u@,
                ));
            }
            u
        },
        None => {
            let u0 = rule.upstream[0].clone();
            proof {
                assert(spec_rule_pick_outcome(
                    *old(registry),
                    *registry,
                    *rule,
                    match client_ip {
                        Some(s) => Some(s@),
                        None => None,
                    },
                    u0@,
                ));
            }
            u0
        },
    }
}

} // verus!
