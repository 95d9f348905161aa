//! Rate limiting: a global token bucket and one bucket per client address,
//! each refilling at its configured rate. The buckets themselves live in the
//! rate-limiting library and read the clock, so nothing is assumed of a
//! single check's outcome; what is verified is the quota coercion, the order
//! of the two checks, and the mapping from outcomes to responses.

use vstd::prelude::*;

verus! {

/// The two buckets every request passes, global first: a process-wide
/// limiter and a keyed table of per-address limiters, both from the
/// rate-limiting library. Declaring the limiter type itself is beyond the
/// verifier (its generics carry library trait bounds), so the pair is held
/// opaquely and reached only through the trusted checks below.
#[verifier::external_body]
pub struct RateLimits {
    per_ip: governor::RateLimiter<
        String,
        governor::state::keyed::DefaultKeyedStateStore<String>,
        governor::clock::DefaultClock,
    >,
    global: governor::RateLimiter<
        governor::state::NotKeyed,
        governor::state::InMemoryState,
        governor::clock::DefaultClock,
    >,
}

/// The per-second rate the global bucket of `limits` was built with.
pub uninterp spec fn spec_global_rate(limits: RateLimits) -> u32;

/// The per-second rate each per-address bucket of `limits` is built with.
pub uninterp spec fn spec_client_rate(limits: RateLimits) -> u32;

/// The rate actually enforced for a configured value: at least one per
/// second, so a misconfigured zero never closes the gateway for good.
pub open spec fn spec_effective_qps(q: u32) -> u32 {
    if q == 0 {
        1u32
    } else {
        q
    }
}

pub fn effective_qps(q: u32) -> (r: u32)
    ensures
        r == spec_effective_qps(q),
{
    if q == 0 {
        1
    } else {
        q
    }
}

/// Relies on governor::RateLimiter::direct and ::keyed with
/// Quota::per_second: builds the global bucket and the per-address table,
/// each replenishing its `qps` tokens per second. The rate a bucket was
/// built with is a property of the value, named above.
#[verifier::external_body]
fn new_rate_limits(global_qps: u32, client_qps: u32) -> (r: RateLimits)
    requires
        global_qps >= 1,
        client_qps >= 1,
    ensures
        spec_global_rate(r) == global_qps,
        spec_client_rate(r) == client_qps,
{
    let per_ip = governor::RateLimiter::keyed(governor::Quota::per_second(
        core::num::NonZeroU32::new(client_qps).unwrap(),
    ));
    let global = governor::RateLimiter::direct(governor::Quota::per_second(
        core::num::NonZeroU32::new(global_qps).unwrap(),
    ));
    RateLimits { per_ip, global }
}

/// Relies on governor::RateLimiter::check: whether the global bucket still
/// holds a token now. The outcome depends on the clock, so nothing is
/// assumed of it.
#[verifier::external_body]
fn check_global(limits: &RateLimits) -> bool {
    limits.global.check().is_ok()
}

/// Relies on governor::RateLimiter::check_key: whether the client's own
/// bucket still holds a token now, the bucket being made on first sight of
/// the key. The outcome depends on the clock, so nothing is assumed of it.
#[verifier::external_body]
fn check_client(limits: &RateLimits, client_ip: &str) -> bool {
    limits.per_ip.check_key(&client_ip.to_string()).is_ok()
}

/// Build the two buckets from the configured settings, each rate coerced to
/// at least one per second.
pub fn init_rate_limits(settings: &crate::config::Settings) -> (r: RateLimits)
    ensures
        spec_global_rate(r) == spec_effective_qps(settings.global_qps),
        spec_client_rate(r) == spec_effective_qps(settings.client_qps),
{
    let g = effective_qps(settings.global_qps);
    let c = effective_qps(settings.client_qps);
    new_rate_limits(g, c)
}

/// What the gateway does with a request at the rate-limit gate.
#[derive(Debug, Clone, Copy, PartialEq, Eq)]
pub enum RateLimitDecision {
    Allow,
    RejectGlobal,
    RejectClient,
}

/// The decision for the two bucket outcomes: a failed global check rejects
/// before the client bucket is even consulted.
pub open spec fn spec_rate_limit_decision(global_ok: bool, client_ok: bool) -> RateLimitDecision {
    if !global_ok {
        RateLimitDecision::RejectGlobal
    } else if !client_ok {
        RateLimitDecision::RejectClient
    } else {
        RateLimitDecision::Allow
    }
}

/// Map the two bucket outcomes to the gateway's decision.
pub fn rate_limit_decision(global_ok: bool, client_ok: bool) -> (r: RateLimitDecision)
    ensures
        r == spec_rate_limit_decision(global_ok, client_ok),
{
    if !global_ok {
        RateLimitDecision::RejectGlobal
    } else if !client_ok {
        RateLimitDecision::RejectClient
    } else {
        RateLimitDecision::Allow
    }
}

/// Gate one request: the global bucket is charged first, and a global
/// rejection leaves the client's bucket untouched. Each check reads the
/// clock, so the outcome carries no promise beyond the mapping itself.
pub fn check_request(limits: &RateLimits, client_ip: &str) -> (r: RateLimitDecision) {
    let global_ok = check_global(limits);
    if !global_ok {
        return rate_limit_decision(global_ok, true);
    }
    let client_ok = check_client(limits, client_ip);
    rate_limit_decision(global_ok, client_ok)
}

impl RateLimitDecision {
    /// The HTTP status of the decision: rejections answer 429.
    pub fn status(&self) -> (r: u16)
        ensures
            r == match self {
                RateLimitDecision::Allow => 200u16,
                RateLimitDecision::RejectGlobal => 429u16,
                RateLimitDecision::RejectClient => 429u16,
            },
    {
        match self {
            RateLimitDecision::Allow => 200,
            RateLimitDecision::RejectGlobal => 429,
            RateLimitDecision::RejectClient => 429,
        }
    }

    /// The body a rejection answers with; an allowed request has none.
    pub fn body(&self) -> (r: &'static str)
        ensures
            r@ == match self {
                RateLimitDecision::Allow => ""@,
                RateLimitDecision::RejectGlobal => "Too Many Requests (global)"@,
                RateLimitDecision::RejectClient => "Too Many Requests (client)"@,
            },
    {
        match self {
            RateLimitDecision::Allow => "",
            RateLimitDecision::RejectGlobal => "Too Many Requests (global)",
            RateLimitDecision::RejectClient => "Too Many Requests (client)",
        }
    }
}

} // verus!
