//! Route rules and gateway settings. A rule names one or more path-prefix
//! patterns, one or more upstream URLs and a load-balancing strategy, plus an
//! optional whitelist of public path patterns. Rules are built by the
//! configuration loader and are immutable afterwards.

use vstd::prelude::*;

use crate::path_matcher::regex_ok;
use crate::path_matcher::spec_compile_re;
use crate::path_matcher::spec_match_path;
use crate::path_matcher::spec_pattern_matches;
use crate::path_matcher::RoutePattern;
use crate::text::chars_of;
use crate::text::contains_char;
use crate::text::push_all;
use crate::text::push_decimal;
use crate::text::slice_eq_chars;
use crate::text::slice_starts_with;
use crate::text::spec_decimal;
use crate::text::spec_starts_with;
use crate::text::string_from_chars;

verus! {

/// One routing rule: patterns, upstreams, strategy, optional whitelist.
#[derive(Debug, Clone)]
pub struct RouteRule {
    pub prefix: Vec<String>,
    pub upstream: Vec<String>,
    pub strategy: String,
    pub whitelist: Option<Vec<String>>,
}

/// Gateway settings, immutable after load.
#[derive(Debug, Clone)]
pub struct Settings {
    pub gateway_bind: String,
    pub jwt_decoding_key: String,
    pub upstream_default: String,
    pub global_qps: u32,
    pub client_qps: u32,
    pub request_timeout_secs: Option<u64>,
}

impl Settings {
    /// The outbound request timeout in seconds; ten when not configured.
    pub fn request_timeout(&self) -> (r: u64)
        ensures
            r == match self.request_timeout_secs {
                Some(t) => t,
                None => 10u64,
            },
    {
        match self.request_timeout_secs {
            Some(t) => t,
            None => 10,
        }
    }
}

/// The strategy used when a rule does not name one.
pub fn default_strategy() -> (r: String)
    ensures
        r@ == "round_robin"@,
{
    let cs = chars_of("round_robin");
    string_from_chars(&cs)
}

/// A pattern is handed to the pattern compiler only when it holds one of the
/// wildcard or capture characters; otherwise it is a literal prefix.
pub open spec fn spec_has_pattern_chars(p: Seq<char>) -> bool {
    p.contains('{') || p.contains('*') || p.contains('?')
}

/// A literal prefix matches the whole path or a path that continues past it
/// at a segment boundary.
pub open spec fn spec_literal_matches(prefix: Seq<char>, path: Seq<char>) -> bool {
    path == prefix || spec_starts_with(path, prefix + seq!['/'])
}

/// Whether one prefix pattern of a rule matches `path`: wildcard patterns go
/// through the compiled regular expression (falling back to a plain prefix
/// test when the pattern does not compile), literal ones match at segment
/// boundaries.
pub open spec fn spec_prefix_matches(prefix: Seq<char>, path: Seq<char>) -> bool {
    if spec_has_pattern_chars(prefix) {
        if regex_ok(spec_compile_re(prefix)) {
            spec_pattern_matches(prefix, path)
        } else {
            spec_starts_with(path, prefix)
        }
    } else {
        spec_literal_matches(prefix, path)
    }
}

/// Whether any prefix pattern in `prefixes` matches `path`.
pub open spec fn spec_any_prefix_matches(prefixes: Seq<Seq<char>>, path: Seq<char>) -> bool {
    exists|i: int| 0 <= i < prefixes.len() && spec_prefix_matches(prefixes[i], path)
}

/// The first prefix in `prefixes` (from position `i`) that matches `path`.
pub open spec fn spec_first_matching_prefix(
    prefixes: Seq<Seq<char>>,
    path: Seq<char>,
    i: int,
) -> Option<int>
    decreases prefixes.len() - i when 0 <= i <= prefixes.len()
{
    if i >= prefixes.len() {
        None
    } else if spec_prefix_matches(prefixes[i], path) {
        Some(i)
    } else {
        spec_first_matching_prefix(prefixes, path, i + 1)
    }
}

/// The variables the matching rule extracts from `path`: those of the first
/// matching prefix, when it compiles and its regular expression matches.
pub open spec fn spec_extract_variables(prefixes: Seq<Seq<char>>, path: Seq<char>) -> Seq<
    (Seq<char>, Seq<char>),
> {
    match spec_first_matching_prefix(prefixes, path, 0) {
        None => Seq::empty(),
        Some(i) => {
            let p = prefixes[i];
            if regex_ok(spec_compile_re(p)) {
                match spec_match_path(p, path) {
                    Some(m) => m,
                    None => Seq::empty(),
                }
            } else {
                Seq::empty()
            }
        },
    }
}

/// Law: whether a rule matches a path is a function of the rule's patterns
/// and the path alone, so any two calls on the same inputs — in any order,
/// from any thread — return the same boolean.
pub proof fn lemma_rule_matching_deterministic(
    prefixes: Seq<Seq<char>>,
    path: Seq<char>,
    r1: bool,
    r2: bool,
)
    requires
        r1 == spec_any_prefix_matches(prefixes, path),
        r2 == spec_any_prefix_matches(prefixes, path),
    ensures
        r1 == r2,
{
}

/// Law: a path matched by a literal-only pattern either is the pattern or
/// continues past it with a slash.
pub proof fn lemma_literal_match_boundary(prefix: Seq<char>, path: Seq<char>)
    requires
        !spec_has_pattern_chars(prefix),
        spec_prefix_matches(prefix, path),
    ensures
        path == prefix || (path.len() > prefix.len() && path[prefix.len() as int] == '/'),
{
    if path != prefix {
        assert(spec_starts_with(path, prefix + seq!['/']));
        assert(path.len() >= prefix.len() + 1);
        assert(path.subrange(0, (prefix + seq!['/']).len() as int)[prefix.len() as int] == (prefix
            + seq!['/'])[prefix.len() as int]);
    }
}

/// The whitespace recognized when a configured entry is tested for being
/// blank and when a bearer token is trimmed: the four ASCII whitespace
/// characters. This is a deliberate model choice — an exotic Unicode
/// whitespace character counts as part of the value.
pub open spec fn spec_is_space(c: char) -> bool {
    c == ' ' || c == '\t' || c == '\r' || c == '\n'
}

/// A string with no characters other than whitespace.
pub open spec fn spec_is_blank(s: Seq<char>) -> bool {
    forall|j: int| 0 <= j < s.len() ==> spec_is_space(s[j])
}

fn is_blank(s: &str) -> (r: bool)
    ensures
        r == spec_is_blank(s@),
{
    let cs = chars_of(s);
    let mut i: usize = 0;
    while i < cs.len()
        invariant
            0 <= i <= cs@.len(),
            cs@ == s@,
            forall|j: int| 0 <= j < i ==> spec_is_space(s@[j]),
        decreases cs.len() - i,
    {
        let c = cs[i];
        if !(c == ' ' || c == '\t' || c == '\r' || c == '\n') {
            return false;
        }
        i += 1;
    }
    true
}

/// The first blank entry of `xs` at or after `i`.
pub open spec fn spec_first_blank(xs: Seq<Seq<char>>, i: int) -> Option<int>
    decreases xs.len() - i when 0 <= i <= xs.len()
{
    if i >= xs.len() {
        None
    } else if spec_is_blank(xs[i]) {
        Some(i)
    } else {
        spec_first_blank(xs, i + 1)
    }
}

fn first_blank(xs: &Vec<String>) -> (r: Option<usize>)
    ensures
        match r {
            Some(k) => spec_first_blank(xs@.map_values(|s: String| s@), 0) == Some(k as int) && k
                < xs@.len(),
            None => spec_first_blank(xs@.map_values(|s: String| s@), 0) is None,
        },
{
    let ghost dv = xs@.map_values(|s: String| s@);
    let mut i: usize = 0;
    while i < xs.len()
        invariant
            0 <= i <= xs@.len() == dv.len(),
            dv == xs@.map_values(|s: String| s@),
            spec_first_blank(dv, 0) == spec_first_blank(dv, i as int),
        decreases xs.len() - i,
    {
        if is_blank(xs[i].as_str()) {
            return Some(i);
        }
        i += 1;
    }
    None
}

/// The strategy tags a rule may carry: exactly the three strategies.
pub open spec fn spec_valid_strategy(s: Seq<char>) -> bool {
    s == "round_robin"@ || s == "weighted_random"@ || s == "ip_hash"@
}

fn is_valid_strategy(s: &str) -> (r: bool)
    ensures
        r == spec_valid_strategy(s@),
{
    let cs = chars_of(s);
    let c1 = chars_of("round_robin");
    let c2 = chars_of("weighted_random");
    let c3 = chars_of("ip_hash");
    slice_eq_chars(cs.as_slice(), c1.as_slice()) || slice_eq_chars(cs.as_slice(), c2.as_slice())
        || slice_eq_chars(cs.as_slice(), c3.as_slice())
}

/// The message `validate` rejects an entry list with: the list name, the
/// offending index, and why.
pub open spec fn spec_blank_entry_msg(what: Seq<char>, i: int) -> Seq<char> {
    what + seq!['['] + spec_decimal(i as nat) + seq![']'] + " must not be blank"@
}

/// What `validate` finds wrong with a rule, or `None` when it is valid.
pub open spec fn spec_rule_error(rule: RouteRule) -> Option<Seq<char>> {
    let prefixes = rule.spec_prefixes();
    let upstreams = rule.spec_upstreams();
    if prefixes.len() == 0 {
        Some("prefix must not be empty"@)
    } else if spec_first_blank(prefixes, 0) is Some {
        Some(spec_blank_entry_msg("prefix"@, spec_first_blank(prefixes, 0).unwrap()))
    } else if upstreams.len() == 0 {
        Some("upstream must not be empty"@)
    } else if spec_first_blank(upstreams, 0) is Some {
        Some(spec_blank_entry_msg("upstream"@, spec_first_blank(upstreams, 0).unwrap()))
    } else if !spec_valid_strategy(rule.strategy@) {
        Some("unsupported load balancing strategy: "@ + rule.strategy@)
    } else {
        None
    }
}

fn blank_entry_msg(what: &str, i: usize) -> (r: String)
    ensures
        r@ == spec_blank_entry_msg(what@, i as int),
{
    let mut cs = chars_of(what);
    cs.push('[');
    push_decimal(&mut cs, i as u64);
    cs.push(']');
    let suffix = chars_of(" must not be blank");
    push_all(&mut cs, suffix.as_slice());
    string_from_chars(&cs)
}

impl RouteRule {
    /// The rule's prefix patterns, as character sequences.
    pub open spec fn spec_prefixes(&self) -> Seq<Seq<char>> {
        self.prefix@.map_values(|s: String| s@)
    }

    /// The rule's upstream URLs, as character sequences.
    pub open spec fn spec_upstreams(&self) -> Seq<Seq<char>> {
        self.upstream@.map_values(|s: String| s@)
    }

    /// Whether one prefix pattern matches `path`.
    pub fn matches_prefix(&self, prefix: &str, path: &str) -> (r: bool)
        ensures
            r == spec_prefix_matches(prefix@, path@),
    {
        let pre_cs = chars_of(prefix);
        let path_cs = chars_of(path);
        if contains_char(pre_cs.as_slice(), '{') || contains_char(pre_cs.as_slice(), '*')
            || contains_char(pre_cs.as_slice(), '?') {
            match RoutePattern::from_pattern(prefix) {
                Ok(rp) => rp.matches(path),
                Err(_) => slice_starts_with(path_cs.as_slice(), pre_cs.as_slice()),
            }
        } else {
            let exact = slice_eq_chars(path_cs.as_slice(), pre_cs.as_slice());
            let mut with_slash = pre_cs;
            with_slash.push('/');
            proof {
                assert(with_slash@ =~= prefix@ + seq!['/']);
            }
            exact || slice_starts_with(path_cs.as_slice(), with_slash.as_slice())
        }
    }

    /// Whether any of the rule's prefix patterns matches `path`.
    pub fn matches(&self, path: &str) -> (r: bool)
        ensures
            r == spec_any_prefix_matches(self.spec_prefixes(), path@),
    {
        let mut i: usize = 0;
        while i < self.prefix.len()
            invariant
                0 <= i <= self.prefix@.len(),
                forall|j: int|
                    0 <= j < i ==> !spec_prefix_matches(self.spec_prefixes()[j], path@),
            decreases self.prefix.len() - i,
        {
            if self.matches_prefix(self.prefix[i].as_str(), path) {
                assert(spec_prefix_matches(self.spec_prefixes()[i as int], path@));
                return true;
            }
            i += 1;
        }
        false
    }

    /// The variables the rule extracts from `path`: those of its first
    /// matching prefix, empty when none matches or the pattern does not
    /// compile.
    pub fn extract_variables(&self, path: &str) -> (r: Vec<(String, String)>)
        ensures
            ({
                let pairs = spec_extract_variables(self.spec_prefixes(), path@);
                &&& r@.len() == pairs.len()
                &&& forall|k: int| 0 <= k < pairs.len() ==> (r@[k].0@, r@[k].1@) == pairs[k]
            }),
    {
        let ghost prefixes = self.spec_prefixes();
        let mut i: usize = 0;
        while i < self.prefix.len()
            invariant
                0 <= i <= self.prefix@.len(),
                prefixes == self.spec_prefixes(),
                spec_first_matching_prefix(prefixes, path@, 0) == spec_first_matching_prefix(
                    prefixes,
                    path@,
                    i as int,
                ),
            decreases self.prefix.len() - i,
        {
            let prefix = &self.prefix[i];
            if self.matches_prefix(prefix.as_str(), path) {
                match RoutePattern::from_pattern(prefix.as_str()) {
                    Ok(rp) => {
                        match rp.match_path(path) {
                            Some(m) => {
                                return m;
                            },
                            None => {
                                return Vec::new();
                            },
                        }
                    },
                    Err(_) => {
                        return Vec::new();
                    },
                }
            }
            i += 1;
        }
        Vec::new()
    }

    /// Check the rule's invariants: patterns present and not blank, upstreams
    /// present and not blank, a known strategy tag. The error says exactly
    /// what was rejected.
    pub fn validate(&self) -> (r: Result<(), String>)
        ensures
            r is Ok <==> spec_rule_error(*self) is None,
            r is Err ==> r.unwrap_err()@ == spec_rule_error(*self).unwrap(),
    {
        if self.prefix.len() == 0 {
            let msg = chars_of("prefix must not be empty");
            return Err(string_from_chars(&msg));
        }
        match first_blank(&self.prefix) {
            Some(i) => {
                return Err(blank_entry_msg("prefix", i));
            },
            None => {},
        }
        if self.upstream.len() == 0 {
            let msg = chars_of("upstream must not be empty");
            return Err(string_from_chars(&msg));
        }
        match first_blank(&self.upstream) {
            Some(i) => {
                return Err(blank_entry_msg("upstream", i));
            },
            None => {},
        }
        if !is_valid_strategy(self.strategy.as_str()) {
            let mut msg = chars_of("unsupported load balancing strategy: ");
            let tail = chars_of(self.strategy.as_str());
            push_all(&mut msg, tail.as_slice());
            return Err(string_from_chars(&msg));
        }
        Ok(())
    }
}

/// The first invalid rule at or after `i`, with its error.
pub open spec fn spec_first_invalid_rule(rules: Seq<RouteRule>, i: int) -> Option<(int, Seq<char>)>
    decreases rules.len() - i when 0 <= i <= rules.len()
{
    if i >= rules.len() {
        None
    } else {
        match spec_rule_error(rules[i]) {
            Some(msg) => Some((i, msg)),
            None => spec_first_invalid_rule(rules, i + 1),
        }
    }
}

/// The message `validate_rules` rejects rule `i` (counted from one) with.
pub open spec fn spec_rules_error_msg(i: int, msg: Seq<char>) -> Seq<char> {
    "route rule #"@ + spec_decimal(i as nat) + " is invalid: "@ + msg
}

/// Check every rule of a loaded route table, in order; the first invalid
/// rule is reported with its position (counted from one) and its error.
pub fn validate_rules(rules: &Vec<RouteRule>) -> (r: Result<(), String>)
    ensures
        r is Ok <==> spec_first_invalid_rule(rules@, 0) is None,
        r is Err ==> {
            let (i, msg) = spec_first_invalid_rule(rules@, 0).unwrap();
            r.unwrap_err()@ == spec_rules_error_msg(i + 1, msg)
        },
{
    let mut i: usize = 0;
    while i < rules.len()
        invariant
            0 <= i <= rules@.len(),
            spec_first_invalid_rule(rules@, 0) == spec_first_invalid_rule(rules@, i as int),
        decreases rules.len() - i,
    {
        match rules[i].validate() {
            Err(e) => {
                let mut msg = chars_of("route rule #");
                push_decimal(&mut msg, (i as u64) + 1);
                let mid = chars_of(" is invalid: ");
                push_all(&mut msg, mid.as_slice());
                let tail = chars_of(e.as_str());
                push_all(&mut msg, tail.as_slice());
                return Err(string_from_chars(&msg));
            },
            Ok(()) => {},
        }
        i += 1;
    }
    Ok(())
}

} // verus!
