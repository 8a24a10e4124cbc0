use std::time::Instant;

use lightarchitects_webshell::fleet::{
    event_name, next_fleet_frame, FleetEventKind, FleetRecv, FleetSseCounter, MAX_FLEET_SSE,
};
use lightarchitects_webshell::observability::{record_litellm_request, record_mcp_semantic_filter};

#[test]
fn s5_fleet_sse_guard_decrements_on_drop() {
    let mut counter = FleetSseCounter::new();
    let before = counter.current();
    {
        assert!(counter.try_acquire());
        assert_eq!(counter.current(), before + 1);
        counter.release();
    }
    assert_eq!(counter.current(), before, "counter must return to pre-guard value after release");
}

#[test]
fn s5_fleet_sse_cap_enforced() {
    let mut counter = FleetSseCounter::new();
    for _ in 0..MAX_FLEET_SSE {
        assert!(counter.try_acquire());
    }
    assert_eq!(counter.current(), MAX_FLEET_SSE);
    let over_cap = !counter.try_acquire();
    assert!(over_cap, "101st connection must hit the cap");
    assert_eq!(counter.current(), MAX_FLEET_SSE, "counter must be rolled back on cap rejection");
}

#[test]
fn event_name_covers_all_variants() {
    let cases = vec![
        (FleetEventKind::Snapshot, "snapshot"),
        (FleetEventKind::AgentSpawned, "agent_spawned"),
        (FleetEventKind::AgentProgress, "agent_progress"),
        (FleetEventKind::AgentCompleted, "agent_completed"),
    ];
    for (ev, expected) in cases {
        assert_eq!(event_name(ev), expected);
    }
}

#[test]
fn fleet_stream_sends_snapshot_first_then_events_lag_and_end() {
    let first = next_fleet_frame(true, FleetRecv::Closed).unwrap();
    assert_eq!(first.event, "snapshot");
    let ev = next_fleet_frame(false, FleetRecv::Event(FleetEventKind::AgentProgress)).unwrap();
    assert_eq!(ev.event, "agent_progress");
    assert_eq!(ev.lag_data, None);
    let lag = next_fleet_frame(false, FleetRecv::Lagged(17)).unwrap();
    assert_eq!(lag.event, "lag");
    assert_eq!(lag.lag_data.as_deref(), Some("{\"type\":\"lag\",\"skipped\":17}"));
    assert_eq!(next_fleet_frame(false, FleetRecv::Closed), None);
}

#[test]
fn record_litellm_request_returns_instant_in_past() {
    let start = record_litellm_request("build-1", "gpt-4o", "00-abc-def-01", "turn-1");
    assert!(start.elapsed().as_nanos() < 1_000_000_000);
}

#[test]
fn record_mcp_semantic_filter_zero_tools_does_not_panic() {
    let start = Instant::now();
    let span = record_mcp_semantic_filter("b", "t", 0, 0, 5, start);
    assert_eq!(span.tools_before, 0);
    assert_eq!(span.tools_after, 0);
    assert_eq!(span.top_k, 5);
    assert_eq!(span.build_id, "b");
}
