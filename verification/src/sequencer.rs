//! Sequential multi-build program runner: its visible state and the decision
//! taken before each build.
use vstd::prelude::*;

use crate::text::{decimal, decimal_string};

verus! {

/// Ordered list of build codenames to execute sequentially.
#[derive(Debug, Clone)]
pub struct ProgramManifest {
    pub codenames: Vec<String>,
}

/// State of the sequencer visible to callers.
#[derive(Debug, Clone, PartialEq, Eq)]
pub enum SequencerState {
    Idle,
    Running { current: usize, total: usize },
    Completed,
    Cancelled,
}

/// The label of a state: `idle`, `running (current/total)`, `completed`, `cancelled`.
pub open spec fn state_label(s: SequencerState) -> Seq<char> {
    match s {
        SequencerState::Idle => "idle"@,
        SequencerState::Running { current, total } => "running ("@ + decimal(current as nat) + "/"@
            + decimal(total as nat) + ")"@,
        SequencerState::Completed => "completed"@,
        SequencerState::Cancelled => "cancelled"@,
    }
}

impl SequencerState {
    /// The state's label.
    pub fn to_string(&self) -> (r: String)
        ensures
            r@ == state_label(*self),
    {
        match self {
            SequencerState::Idle => String::from_str("idle"),
            SequencerState::Running { current, total } => {
                let c = decimal_string(*current as u64);
                let t = decimal_string(*total as u64);
                String::from_str("running (").concat(c.as_str()).concat("/").concat(t.as_str()).concat(
                    ")",
                )
            },
            SequencerState::Completed => String::from_str("completed"),
            SequencerState::Cancelled => String::from_str("cancelled"),
        }
    }
}

/// What the runner does next.
#[derive(Debug, PartialEq, Eq)]
pub enum SequencerStep {
    /// Dispatch the build at this index and wait for it.
    Dispatch(usize),
    /// Stop with this outcome.
    Stop(Result<(), String>),
}

/// How a run of the sequencer ends.
#[derive(Debug, Clone, Copy, PartialEq, Eq)]
pub enum RunEnd {
    Completed,
    Cancelled,
    Failed(usize),
}

/// The decision before build `idx` of `total`: stop, and how the run ends,
/// or `None` to dispatch the build.
pub open spec fn decide(idx: usize, total: usize, cancelled: bool) -> Option<RunEnd> {
    if idx >= total {
        Some(RunEnd::Completed)
    } else if cancelled {
        Some(RunEnd::Cancelled)
    } else {
        None
    }
}

/// The step that carries out a decision.
pub open spec fn step_carries(r: SequencerStep, d: Option<RunEnd>, idx: usize) -> bool {
    match d {
        None => r == SequencerStep::Dispatch(idx),
        Some(RunEnd::Completed) => r == SequencerStep::Stop(Ok(())),
        Some(RunEnd::Cancelled) => r matches SequencerStep::Stop(Err(e)) && e@ == "cancelled"@,
        Some(RunEnd::Failed(_)) => false,
    }
}

/// The build after `idx`.
pub open spec fn advance(idx: usize) -> usize {
    (idx + 1) as usize
}

/// Before build `idx` of `total`: all done → stop with success; a
/// cancellation was requested → stop with `cancelled`; else dispatch it.
pub fn next_step(idx: usize, total: usize, cancelled: bool) -> (r: SequencerStep)
    ensures
        step_carries(r, decide(idx, total, cancelled), idx),
        idx >= total ==> r == SequencerStep::Stop(Ok(())),
        idx < total && cancelled ==> (r matches SequencerStep::Stop(Err(e)) && e@ == "cancelled"@),
        idx < total && !cancelled ==> r == SequencerStep::Dispatch(idx),
{
    if idx >= total {
        SequencerStep::Stop(Ok(()))
    } else if cancelled {
        SequencerStep::Stop(Err(String::from_str("cancelled")))
    } else {
        SequencerStep::Dispatch(idx)
    }
}

/// After build `idx` finished: a failure stops the run with its error; a
/// success moves to the next build.
pub fn after_build(idx: usize, result: Result<(), String>) -> (r: Result<usize, String>)
    requires
        idx < usize::MAX,
    ensures
        match result {
            Ok(_) => r == Ok::<usize, String>(advance(idx)),
            Err(e) => r == Err::<usize, String>(e),
        },
{
    match result {
        Ok(()) => Ok(idx + 1),
        Err(e) => Err(e),
    }
}

/// The run that `next_step` and `after_build` drive from build `idx` of
/// `total` (each decision is `decide`, the step `next_step` carries out; each
/// success moves to `advance`, as `after_build` answers): the builds
/// dispatched, in order, and how the run ends, when
/// `cancelled(i)` says whether a cancellation is pending before build `i` and
/// `succeeds(i)` whether build `i` succeeds.
pub open spec fn run_from(
    idx: usize,
    total: usize,
    cancelled: spec_fn(usize) -> bool,
    succeeds: spec_fn(usize) -> bool,
) -> (Seq<usize>, RunEnd)
    decreases total - idx,
{
    match decide(idx, total, cancelled(idx)) {
        Some(end) => (Seq::empty(), end),
        None => if !succeeds(idx) {
            (seq![idx], RunEnd::Failed(idx))
        } else {
            let rest = run_from(advance(idx), total, cancelled, succeeds);
            (seq![idx] + rest.0, rest.1)
        },
    }
}

/// The builds `lo`, `lo + 1`, …, `hi - 1`.
pub open spec fn index_range(lo: usize, hi: usize) -> Seq<usize> {
    Seq::new((hi - lo) as nat, |k: int| (lo + k) as usize)
}

proof fn lemma_run_from_uncancelled(
    idx: usize,
    total: usize,
    stop: usize,
    ok: spec_fn(usize) -> bool,
)
    requires
        idx <= stop <= total,
        forall|i: usize| idx <= i < stop ==> #[trigger] ok(i),
        stop < total ==> !ok(stop),
    ensures
        run_from(idx, total, |i: usize| false, ok) == (if stop < total {
            (index_range(idx, (stop + 1) as usize), RunEnd::Failed(stop))
        } else {
            (index_range(idx, total), RunEnd::Completed)
        }),
    decreases total - idx,
{
    let c = |i: usize| false;
    if idx >= total {
        assert(index_range(idx, total) =~= Seq::<usize>::empty());
    } else if idx == stop {
        assert(index_range(idx, (stop + 1) as usize) =~= seq![idx]);
    } else {
        assert(ok(idx));
        lemma_run_from_uncancelled((idx + 1) as usize, total, stop, ok);
        let rest = run_from((idx + 1) as usize, total, c, ok);
        if stop < total {
            assert(seq![idx] + rest.0 =~= index_range(idx, (stop + 1) as usize));
        } else {
            assert(seq![idx] + rest.0 =~= index_range(idx, total));
        }
    }
}

/// A run from the first build in which no cancellation is requested and
/// every build succeeds dispatches each build once, in order, one after the
/// other, and completes.
pub proof fn uncancelled_successful_run(total: usize)
    ensures
        run_from(0, total, |i: usize| false, |i: usize| true) == (
            index_range(0, total),
            RunEnd::Completed,
        ),
{
    lemma_run_from_uncancelled(0, total, total, |i: usize| true);
}

/// A run from the first build in which no cancellation is requested stops at
/// the first build that fails, after dispatching every build up to it in
/// order, and dispatches none after it.
pub proof fn run_stops_at_first_failure(total: usize, failing: usize)
    requires
        failing < total,
    ensures
        run_from(0, total, |i: usize| false, |i: usize| i != failing) == (
            index_range(0, (failing + 1) as usize),
            RunEnd::Failed(failing),
        ),
{
    lemma_run_from_uncancelled(0, total, failing, |i: usize| i != failing);
}

} // verus!
