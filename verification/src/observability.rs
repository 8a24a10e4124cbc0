//! Span records for model-proxy round trips and tool-list filtering.  The
//! library computes what a span carries; emitting it is the caller's part.
use std::time::Instant;

use vstd::prelude::*;

verus! {

/// `std::time::Instant`, carried through opaquely.
#[verifier::external_type_specification]
#[verifier::external_body]
pub struct ExInstant(Instant);

/// `Instant::now`: the current monotonic time; nothing is known of its value.
#[verifier::external_body]
fn now() -> Instant {
    Instant::now()
}

/// `Instant::elapsed` in whole milliseconds (`Duration::as_millis`); it
/// depends on the clock, so nothing is stated of it.
#[verifier::external_body]
fn elapsed_millis(start: &Instant) -> u128 {
    start.elapsed().as_millis()
}

/// Milliseconds as a `u64`, saturating at `u64::MAX`.
pub fn millis_u64(ms: u128) -> (r: u64)
    ensures
        r == if ms <= u64::MAX {
            ms
        } else {
            u64::MAX as u128
        },
{
    if ms <= u64::MAX as u128 {
        ms as u64
    } else {
        u64::MAX
    }
}

/// Mark the dispatch of a request to the model proxy; the returned instant
/// is the start of the round trip.
pub fn record_litellm_request(
    build_id: &str,
    model: &str,
    traceparent: &str,
    turn_span_id: &str,
) -> Instant {
    now()
}

/// The `mcp.semantic_filter` span: the tool counts before and after the
/// filter, the `K` applied, and the time since `start`.
#[derive(Debug, Clone)]
pub struct SemanticFilterSpan {
    pub build_id: String,
    pub turn_span_id: String,
    pub tools_before: usize,
    pub tools_after: usize,
    pub top_k: usize,
    pub latency_ms: u64,
}

/// Build the `mcp.semantic_filter` span after the tool list was filtered.
pub fn record_mcp_semantic_filter(
    build_id: &str,
    turn_span_id: &str,
    tools_before: usize,
    tools_after: usize,
    top_k: usize,
    start: Instant,
) -> (span: SemanticFilterSpan)
    ensures
        span.build_id@ == build_id@,
        span.turn_span_id@ == turn_span_id@,
        span.tools_before == tools_before,
        span.tools_after == tools_after,
        span.top_k == top_k,
{
    let latency_ms = millis_u64(elapsed_millis(&start));
    SemanticFilterSpan {
        build_id: String::from_str(build_id),
        turn_span_id: String::from_str(turn_span_id),
        tools_before,
        tools_after,
        top_k,
        latency_ms,
    }
}

} // verus!
