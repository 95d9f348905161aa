//! A verified core for an HTTP reverse-proxy gateway: route patterns with
//! wildcards and variable capture, a route table with longest-match scoring,
//! pluggable load balancing (round robin, weighted random, consistent
//! hashing), bearer-token verification, rate-limit decisions, and the path
//! and header rewriting done when a request is forwarded upstream.

pub mod auth;
pub mod config;
pub mod load_balancer;
pub mod metrics;
pub mod path_matcher;
pub mod proxy;
pub mod rate_limit;
pub mod text;
