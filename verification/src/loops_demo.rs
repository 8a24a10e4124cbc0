//! The loop-strategy demo stream: which strategies it runs, the defaults of
//! a request, and the frame each step of a strategy's run becomes.
use vstd::prelude::*;

use crate::text::str_eq;

verus! {

/// The strategies the demo runs.
pub open spec fn known_strategy(name: Seq<char>) -> bool {
    name == "gate"@ || name == "scope_governor"@ || name == "build"@ || name == "secure"@ || name
        == "scrum"@ || name == "enrich"@ || name == "react"@ || name == "bcra"@ || name
        == "multipass"@ || name == "drain"@ || name == "critique_refine"@ || name == "reflexion"@
        || name == "cove"@ || name == "red_team"@ || name == "ach"@ || name == "itt"@ || name
        == "ensemble"@
}

/// Whether the demo runs the strategy.
pub fn is_known_strategy(name: &str) -> (b: bool)
    ensures
        b == known_strategy(name@),
{
    str_eq(name, "gate") || str_eq(name, "scope_governor") || str_eq(name, "build") || str_eq(
        name,
        "secure",
    ) || str_eq(name, "scrum") || str_eq(name, "enrich") || str_eq(name, "react") || str_eq(
        name,
        "bcra",
    ) || str_eq(name, "multipass") || str_eq(name, "drain") || str_eq(name, "critique_refine")
        || str_eq(name, "reflexion") || str_eq(name, "cove") || str_eq(name, "red_team") || str_eq(
        name,
        "ach",
    ) || str_eq(name, "itt") || str_eq(name, "ensemble")
}

/// The strategy and query of a demo request: `gate` and a sample question
/// when absent.
pub fn demo_request(strategy: Option<String>, query: Option<String>) -> (r: (String, String))
    ensures
        r.0@ == match strategy {
            Some(s) => s@,
            None => "gate"@,
        },
        r.1@ == match query {
            Some(q) => q@,
            None => "what is the capital of France?"@,
        },
{
    let s = match strategy {
        Some(s) => s,
        None => String::from_str("gate"),
    };
    let q = match query {
        Some(q) => q,
        None => String::from_str("what is the capital of France?"),
    };
    (s, q)
}

/// What one step of a strategy's run gave.
#[derive(Debug, Clone, PartialEq, Eq)]
pub enum StepOutcome {
    /// The run failed with this message.
    Failed(String),
    /// The run goes on: the turn and the strategy's progress text.
    Progress(u32, String),
    /// The run halted with this summary.
    Halted(String),
    /// The run paused; `true` when it waits for a person to review (the
    /// build strategy's pause).
    Paused(bool),
}

/// One frame of the demo stream: `step` (with its turn), `done` or `error`.
#[derive(Debug, Clone, PartialEq, Eq)]
pub struct DemoFrame {
    pub kind: &'static str,
    pub turn: Option<u32>,
    pub text: String,
}

/// The frame of a step, and whether the stream ends with it: progress is a
/// `step` frame and the run goes on; a failure is an `error` frame, a halt
/// a `done` frame with its summary and a pause a `done` frame saying
/// `paused` (`paused — HITL required` when a person must review), each
/// ending the stream.
pub fn demo_frame(o: StepOutcome) -> (r: (DemoFrame, bool))
    ensures
        match o {
            StepOutcome::Failed(m) => r.0.kind@ == "error"@ && r.0.turn is None && r.0.text@ == m@ && r.1,
            StepOutcome::Progress(t, x) => r.0.kind@ == "step"@ && r.0.turn == Some(t) && r.0.text@
                == x@ && !r.1,
            StepOutcome::Halted(s) => r.0.kind@ == "done"@ && r.0.turn is None && r.0.text@ == s@ && r.1,
            StepOutcome::Paused(hitl) => r.0.kind@ == "done"@ && r.0.turn is None && r.0.text@ == (if hitl {
                "paused — HITL required"@
            } else {
                "paused"@
            }) && r.1,
        },
{
    match o {
        StepOutcome::Failed(m) => (DemoFrame { kind: "error", turn: None, text: m }, true),
        StepOutcome::Progress(t, x) => (DemoFrame { kind: "step", turn: Some(t), text: x }, false),
        StepOutcome::Halted(s) => (DemoFrame { kind: "done", turn: None, text: s }, true),
        StepOutcome::Paused(hitl) => {
            let text = if hitl {
                String::from_str("paused — HITL required")
            } else {
                String::from_str("paused")
            };
            (DemoFrame { kind: "done", turn: None, text }, true)
        },
    }
}

/// The frame that closes a run whose stream ran out.
pub fn stream_complete_frame() -> (f: DemoFrame)
    ensures
        f.kind@ == "done"@ && f.turn is None && f.text@ == "stream complete"@,
{
    DemoFrame { kind: "done", turn: None, text: String::from_str("stream complete") }
}

/// The frame of a request naming no known strategy.
pub fn unknown_strategy_frame(name: &str) -> (f: DemoFrame)
    ensures
        f.kind@ == "error"@ && f.turn is None && f.text@ == "unknown strategy: "@ + name@,
{
    DemoFrame { kind: "error", turn: None, text: String::from_str("unknown strategy: ").concat(name) }
}

/// The frame of a provider that could not be built.
pub fn provider_error_frame(err: &str) -> (f: DemoFrame)
    ensures
        f.kind@ == "error"@ && f.turn is None && f.text@ == "LiteLLM provider construction failed: "@
            + err@,
{
    DemoFrame {
        kind: "error",
        turn: None,
        text: String::from_str("LiteLLM provider construction failed: ").concat(err),
    }
}

} // verus!
