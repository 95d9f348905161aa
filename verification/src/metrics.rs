//! The request-counting rule. Counters and the histogram label every request
//! by method, path and status — except the metrics endpoint itself, which is
//! never counted.

use vstd::prelude::*;

use crate::text::chars_of;
use crate::text::push_decimal;
use crate::text::slice_eq_chars;
use crate::text::spec_decimal;
use crate::text::string_from_chars;

verus! {

/// Whether a request to `path` is recorded: every path but the metrics
/// endpoint itself.
pub open spec fn spec_should_record(path: Seq<char>) -> bool {
    path != "/metrics"@
}

pub fn should_record(path: &str) -> (r: bool)
    ensures
        r == spec_should_record(path@),
{
    let path_cs = chars_of(path);
    let metrics_cs = chars_of("/metrics");
    !slice_eq_chars(path_cs.as_slice(), metrics_cs.as_slice())
}

/// The status-code label of a response: its decimal digits.
pub fn status_label(status: u16) -> (r: String)
    ensures
        r@ == spec_decimal(status as nat),
{
    let mut cs: Vec<char> = Vec::new();
    push_decimal(&mut cs, status as u64);
    string_from_chars(&cs)
}

} // verus!
