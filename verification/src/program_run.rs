//! The run of a program as a state machine: for each codename its plan is
//! read and decomposed into waves, each wave is gated by the operator
//! unless in auto mode, and each task is started, given a short hand-off
//! pause and completed; a cancellation or a refusal ends the run.
//!
//! The caller performs each action (reading a plan, parking a gate,
//! pausing, emitting an envelope) and hands back what came of it.
use vstd::prelude::*;

use crate::program::{grapheme_prefix, payload_summary, task_id, task_id_of, ProgramState};
use crate::text::{decimal, decimal_string};

verus! {

/// The kinds of A2A envelope a run emits.
#[derive(Debug, Clone, Copy, PartialEq, Eq, Structural)]
pub enum EnvelopeKind {
    TaskStart,
    TaskComplete,
    TaskEscalated,
    WaveComplete,
}

/// One envelope: the codename, the task, the wave number, the kind and
/// the payload summary (at most 200 grapheme clusters).
#[derive(Debug, Clone, PartialEq, Eq)]
pub struct Envelope {
    pub codename: String,
    pub task_id: String,
    pub wave: u32,
    pub kind: EnvelopeKind,
    pub summary: String,
}

/// A wave parked for the operator's approval.
#[derive(Debug, Clone, PartialEq, Eq)]
pub struct GateRequest {
    pub task_id: String,
    /// The prompt of the parked call.
    pub prompt: String,
    /// The decision topic shown with the escalation.
    pub topic: String,
    /// The question of the escalation.
    pub question: String,
    pub wave_index: u32,
}

/// What the caller does next.
#[derive(Debug, Clone, PartialEq, Eq)]
pub enum ProgramAction {
    /// Record the codename being processed.
    SetCurrent(usize),
    /// Read the codename's plan and decompose it into waves of task prompts.
    ReadPlan(String),
    Emit(Envelope),
    /// Park the wave for approval and wait for the decision.
    ParkGate(GateRequest),
    /// Wait the hand-off pause (200 ms), or until cancelled.
    Pause,
    /// The run ends in this state.
    Finish(ProgramState),
}

/// Why a plan gave no waves.
#[derive(Debug, Clone, Copy, PartialEq, Eq, Structural)]
pub enum PlanFailure {
    /// The plan file could not be read.
    Unavailable,
    /// The plan could not be decomposed.
    Failed,
}

/// What came of the last action.
#[derive(Debug, PartialEq, Eq)]
pub enum ProgramEvent {
    /// Nothing to report: go on.
    Proceed,
    /// The plan of the current codename: its waves of task prompts.
    PlanRead(Result<Vec<Vec<String>>, PlanFailure>),
    /// The operator's decision on the parked wave (a cancellation while
    /// parked counts as a refusal).
    GateDecided(bool),
    /// The pause ended; `true` when it was cut short by a cancellation.
    PauseEnded(bool),
}

/// Where a run stands.
#[derive(Debug, Clone, Copy, PartialEq, Eq, Structural)]
pub enum RunStage {
    NextCodename,
    ReadingPlan,
    WaveCheck,
    AwaitingGate,
    TaskCheck,
    Pausing,
    Done,
}

/// A program run.
#[derive(Debug)]
pub struct ProgramDriver {
    pub codenames: Vec<String>,
    pub auto_mode: bool,
    pub codename_index: usize,
    pub waves: Vec<Vec<String>>,
    pub wave_index: usize,
    pub task_index: usize,
    pub stage: RunStage,
}

/// The 1-based number of wave `i`, as `u32` (saturating).
pub open spec fn wave_number(i: int) -> u32 {
    if i + 1 <= u32::MAX {
        (i + 1) as u32
    } else {
        u32::MAX
    }
}

fn wave_num(i: usize) -> (n: u32)
    ensures
        n == wave_number(i as int),
{
    if i < u32::MAX as usize {
        (i + 1) as u32
    } else {
        u32::MAX
    }
}

fn index_u32(i: usize) -> (n: u32)
    ensures
        n == (if i <= u32::MAX {
            i as u32
        } else {
            u32::MAX
        }),
{
    if i <= u32::MAX as usize {
        i as u32
    } else {
        u32::MAX
    }
}

/// The approval request of wave number `n` of codename `c` holding `k` tasks.
pub open spec fn gate_view(c: Seq<char>, n: u32, k: nat, idx: u32) -> (Seq<char>, Seq<char>, Seq<char>, Seq<char>, u32) {
    (
        c + "-wave"@ + decimal(n as nat) + "-gate"@,
        "Approve wave "@ + decimal(n as nat) + " of '"@ + c + "'?"@,
        "Wave "@ + decimal(n as nat) + " dispatch — '"@ + c + "'"@,
        "Approve dispatch of wave "@ + decimal(n as nat) + " ("@ + decimal(k) + " tasks) for build '"@ + c
            + "'?"@,
        idx,
    )
}

/// The view of an envelope: task id, wave, kind and summary (the codename
/// is the run's current one).
pub open spec fn env_view(e: Envelope) -> (Seq<char>, Seq<char>, u32, EnvelopeKind, Seq<char>) {
    (e.codename@, e.task_id@, e.wave, e.kind, e.summary@)
}

pub open spec fn emits(a: ProgramAction, c: Seq<char>, t: Seq<char>, w: u32, k: EnvelopeKind, raw: Seq<char>) -> bool {
    a matches ProgramAction::Emit(e) && env_view(e) == (c, t, w, k, grapheme_prefix(raw, 200))
}

fn envelope(codename: &String, task: String, wave: u32, kind: EnvelopeKind, raw: &str) -> (e: Envelope)
    ensures
        env_view(e) == (codename@, task@, wave, kind, grapheme_prefix(raw@, 200)),
{
    Envelope { codename: codename.clone(), task_id: task, wave, kind, summary: payload_summary(raw) }
}

impl ProgramDriver {
    /// A run of the codenames, not yet started.
    pub fn new(codenames: Vec<String>, auto_mode: bool) -> (d: Self)
        ensures
            d.codenames == codenames,
            d.auto_mode == auto_mode,
            d.codename_index == 0,
            d.stage == RunStage::NextCodename,
            d.waves@.len() == 0,
    {
        ProgramDriver {
            codenames,
            auto_mode,
            codename_index: 0,
            waves: Vec::new(),
            wave_index: 0,
            task_index: 0,
            stage: RunStage::NextCodename,
        }
    }

    /// The indices stay within their sequences.
    pub open spec fn well_formed(&self) -> bool {
        &&& self.codename_index <= self.codenames@.len()
        &&& (self.stage == RunStage::ReadingPlan ==> self.codename_index < self.codenames@.len())
        &&& (self.stage == RunStage::WaveCheck ==> self.codename_index < self.codenames@.len()
            && self.wave_index <= self.waves@.len())
        &&& (self.stage == RunStage::AwaitingGate || self.stage == RunStage::TaskCheck
            || self.stage == RunStage::Pausing ==> self.codename_index < self.codenames@.len()
            && self.wave_index < self.waves@.len() && self.task_index <= self.waves@[self.wave_index as int]@.len())
        &&& (self.stage == RunStage::Pausing ==> self.task_index < self.waves@[self.wave_index as int]@.len())
    }

    /// One step of the run, given what came of the last action and whether
    /// the run was cancelled meanwhile; it returns the actions to perform,
    /// in order.
    pub fn step(&mut self, ev: ProgramEvent, cancelled: bool) -> (acts: Vec<ProgramAction>)
        requires
            old(self).well_formed(),
            old(self).codenames@.len() < usize::MAX,
            old(self).waves@.len() < usize::MAX,
            forall|w: int| 0 <= w < old(self).waves@.len() ==> #[trigger] old(self).waves@[w]@.len() < usize::MAX,
            match ev {
                ProgramEvent::PlanRead(Ok(ws)) => ws@.len() < usize::MAX && forall|w: int|
                    0 <= w < ws@.len() ==> #[trigger] ws@[w]@.len() < usize::MAX,
                _ => true,
            },
        ensures
            final(self).well_formed(),
            final(self).codenames == old(self).codenames,
            final(self).auto_mode == old(self).auto_mode,
            // a finished run stays finished and does nothing
            old(self).stage == RunStage::Done ==> acts@.len() == 0 && final(self).stage == RunStage::Done,
            // the next codename: record it, then stop if cancelled, else read its plan;
            // past the last codename the run completes
            old(self).stage == RunStage::NextCodename ==> if old(self).codename_index
                >= old(self).codenames@.len() {
                acts@ == seq![ProgramAction::Finish(ProgramState::Completed)] && final(self).stage
                    == RunStage::Done
            } else if cancelled {
                acts@ == seq![
                    ProgramAction::SetCurrent(old(self).codename_index),
                    ProgramAction::Finish(ProgramState::Cancelled),
                ] && final(self).stage == RunStage::Done
            } else {
                acts@.len() == 2 && acts@[0] == ProgramAction::SetCurrent(old(self).codename_index)
                    && (acts@[1] matches ProgramAction::ReadPlan(c) && c@ == old(self).codenames@[old(
                    self,
                ).codename_index as int]@) && final(self).stage == RunStage::ReadingPlan
                    && final(self).codename_index == old(self).codename_index
            },
            // a plan that could not be had escalates its first task and cancels
            match ev {
                ProgramEvent::PlanRead(Err(f)) => old(self).stage == RunStage::ReadingPlan ==> ({
                let c = old(self).codenames@[old(self).codename_index as int]@;
                &&& acts@.len() == 2
                &&& emits(
                    acts@[0],
                    c,
                    task_id_of(c, 0, 0),
                    0,
                    EnvelopeKind::TaskEscalated,
                    if f == PlanFailure::Unavailable {
                        "plan file unavailable"@
                    } else {
                        "plan processing failed"@
                    },
                )
                &&& acts@[1] == ProgramAction::Finish(ProgramState::Cancelled)
                &&& final(self).stage == RunStage::Done
            }),
                _ => true,
            },
            // a plan read gives the waves, checked from the first
            match ev {
                ProgramEvent::PlanRead(Ok(ws)) => old(self).stage == RunStage::ReadingPlan ==> acts@.len()
                == 0 && final(self).stage == RunStage::WaveCheck && final(self).waves == ws
                && final(self).wave_index == 0 && final(self).codename_index == old(self).codename_index,
                _ => true,
            },
            // past the last wave, on to the next codename
            old(self).stage == RunStage::WaveCheck && old(self).wave_index >= old(self).waves@.len()
                ==> acts@.len() == 0 && final(self).stage == RunStage::NextCodename
                && final(self).codename_index == old(self).codename_index + 1,
            // a wave: cancelled ends the run; else gated, or straight to its tasks in auto mode
            old(self).stage == RunStage::WaveCheck && old(self).wave_index < old(self).waves@.len() ==> if cancelled {
                acts@ == seq![ProgramAction::Finish(ProgramState::Cancelled)] && final(self).stage
                    == RunStage::Done
            } else if old(self).auto_mode {
                acts@.len() == 0 && final(self).stage == RunStage::TaskCheck && final(self).task_index
                    == 0 && final(self).wave_index == old(self).wave_index
            } else {
                let c = old(self).codenames@[old(self).codename_index as int]@;
                let wi = old(self).wave_index as int;
                &&& acts@.len() == 1
                &&& acts@[0] matches ProgramAction::ParkGate(g) && (g.task_id@, g.prompt@, g.topic@, g.question@, g.wave_index)
                    == gate_view(c, wave_number(wi), old(self).waves@[wi]@.len(), (if wi <= u32::MAX { wi as u32 } else { u32::MAX }))
                &&& final(self).stage == RunStage::AwaitingGate
                &&& final(self).wave_index == old(self).wave_index
            },
            // the operator's decision: approval opens the wave's tasks, refusal escalates and cancels
            match ev {
                ProgramEvent::GateDecided(ok) => old(self).stage == RunStage::AwaitingGate ==> if ok {
                acts@.len() == 0 && final(self).stage == RunStage::TaskCheck && final(self).task_index == 0
            } else {
                let c = old(self).codenames@[old(self).codename_index as int]@;
                let n = wave_number(old(self).wave_index as int);
                &&& acts@.len() == 2
                &&& emits(acts@[0], c, c + "-wave"@ + decimal(n as nat) + "-gate"@, n, EnvelopeKind::TaskEscalated, "wave rejected or run cancelled"@)
                &&& acts@[1] == ProgramAction::Finish(ProgramState::Cancelled)
                &&& final(self).stage == RunStage::Done
            },
                _ => true,
            },
            // the wave's tasks done: the wave completes and the next wave is checked
            old(self).stage == RunStage::TaskCheck && old(self).task_index >= old(self).waves@[old(self).wave_index as int]@.len() ==> ({
                let c = old(self).codenames@[old(self).codename_index as int]@;
                let n = wave_number(old(self).wave_index as int);
                let k = old(self).waves@[old(self).wave_index as int]@.len();
                &&& acts@.len() == 1
                &&& emits(acts@[0], c, c + "-wave"@ + decimal(n as nat), n, EnvelopeKind::WaveComplete, "wave "@ + decimal(n as nat) + " complete ("@ + decimal(k) + " tasks)"@)
                &&& final(self).stage == RunStage::WaveCheck
                &&& final(self).wave_index == old(self).wave_index + 1
            }),
            // a task: cancelled ends the run; else it starts and the pause begins
            old(self).stage == RunStage::TaskCheck && old(self).task_index < old(self).waves@[old(self).wave_index as int]@.len() ==> if cancelled {
                acts@ == seq![ProgramAction::Finish(ProgramState::Cancelled)] && final(self).stage == RunStage::Done
            } else {
                let c = old(self).codenames@[old(self).codename_index as int]@;
                let n = wave_number(old(self).wave_index as int);
                let t = old(self).task_index;
                &&& acts@.len() == 2
                &&& emits(acts@[0], c, task_id_of(c, n as nat, (t + 1) as nat), n, EnvelopeKind::TaskStart, old(self).waves@[old(self).wave_index as int]@[t as int]@)
                &&& acts@[1] == ProgramAction::Pause
                &&& final(self).stage == RunStage::Pausing
                &&& final(self).task_index == t
            },
            // the pause: cut short escalates and cancels; else the task completes
            match ev {
                ProgramEvent::PauseEnded(cut) => old(self).stage == RunStage::Pausing ==> ({
                let c = old(self).codenames@[old(self).codename_index as int]@;
                let n = wave_number(old(self).wave_index as int);
                let t = old(self).task_index;
                if cut {
                    &&& acts@.len() == 2
                    &&& emits(acts@[0], c, task_id_of(c, n as nat, (t + 1) as nat), n, EnvelopeKind::TaskEscalated, "task cancelled"@)
                    &&& acts@[1] == ProgramAction::Finish(ProgramState::Cancelled)
                    &&& final(self).stage == RunStage::Done
                } else {
                    &&& acts@.len() == 1
                    &&& emits(acts@[0], c, task_id_of(c, n as nat, (t + 1) as nat), n, EnvelopeKind::TaskComplete, "task "@ + decimal((t + 1) as nat) + " dispatched"@)
                    &&& final(self).stage == RunStage::TaskCheck
                    &&& final(self).task_index == t + 1
                }
            }),
                _ => true,
            },
            // an event the stage does not wait for changes nothing
            (old(self).stage == RunStage::ReadingPlan && !(ev is PlanRead)) || (old(self).stage
                == RunStage::AwaitingGate && !(ev is GateDecided)) || (old(self).stage == RunStage::Pausing
                && !(ev is PauseEnded)) ==> acts@.len() == 0 && final(self).stage == old(self).stage
                && final(self).codename_index == old(self).codename_index,
    {
        let mut acts: Vec<ProgramAction> = Vec::new();
        match self.stage {
            RunStage::Done => {},
            RunStage::NextCodename => {
                if self.codename_index >= self.codenames.len() {
                    acts.push(ProgramAction::Finish(ProgramState::Completed));
                    self.stage = RunStage::Done;
                } else {
                    acts.push(ProgramAction::SetCurrent(self.codename_index));
                    if cancelled {
                        acts.push(ProgramAction::Finish(ProgramState::Cancelled));
                        self.stage = RunStage::Done;
                    } else {
                        acts.push(ProgramAction::ReadPlan(self.codenames[self.codename_index].clone()));
                        self.stage = RunStage::ReadingPlan;
                    }
                }
            },
            RunStage::ReadingPlan => {
                match ev {
                    ProgramEvent::PlanRead(Err(f)) => {
                        let c = &self.codenames[self.codename_index];
                        let why = match f {
                            PlanFailure::Unavailable => "plan file unavailable",
                            PlanFailure::Failed => "plan processing failed",
                        };
                        acts.push(
                            ProgramAction::Emit(
                                envelope(c, task_id(c.as_str(), 0, 0), 0, EnvelopeKind::TaskEscalated, why),
                            ),
                        );
                        acts.push(ProgramAction::Finish(ProgramState::Cancelled));
                        self.stage = RunStage::Done;
                    },
                    ProgramEvent::PlanRead(Ok(ws)) => {
                        self.waves = ws;
                        self.wave_index = 0;
                        self.task_index = 0;
                        self.stage = RunStage::WaveCheck;
                    },
                    _ => {},
                }
            },
            RunStage::WaveCheck => {
                if self.wave_index >= self.waves.len() {
                    self.codename_index = self.codename_index + 1;
                    self.stage = RunStage::NextCodename;
                } else if cancelled {
                    acts.push(ProgramAction::Finish(ProgramState::Cancelled));
                    self.stage = RunStage::Done;
                } else if self.auto_mode {
                    self.task_index = 0;
                    self.stage = RunStage::TaskCheck;
                } else {
                    let c = &self.codenames[self.codename_index];
                    let n = wave_num(self.wave_index);
                    let ns = decimal_string(n as u64);
                    let k = decimal_string(self.waves[self.wave_index].len() as u64);
                    let g = GateRequest {
                        task_id: c.clone().concat("-wave").concat(ns.as_str()).concat("-gate"),
                        prompt: String::from_str("Approve wave ").concat(ns.as_str()).concat(" of '").concat(
                            c.as_str(),
                        ).concat("'?"),
                        topic: String::from_str("Wave ").concat(ns.as_str()).concat(" dispatch — '").concat(
                            c.as_str(),
                        ).concat("'"),
                        question: String::from_str("Approve dispatch of wave ").concat(ns.as_str()).concat(
                            " (",
                        ).concat(k.as_str()).concat(" tasks) for build '").concat(c.as_str()).concat("'?"),
                        wave_index: index_u32(self.wave_index),
                    };
                    acts.push(ProgramAction::ParkGate(g));
                    self.task_index = 0;
                    self.stage = RunStage::AwaitingGate;
                }
            },
            RunStage::AwaitingGate => {
                match ev {
                    ProgramEvent::GateDecided(true) => {
                        self.task_index = 0;
                        self.stage = RunStage::TaskCheck;
                    },
                    ProgramEvent::GateDecided(false) => {
                        let c = &self.codenames[self.codename_index];
                        let n = wave_num(self.wave_index);
                        let gate_id = c.clone().concat("-wave").concat(decimal_string(n as u64).as_str()).concat(
                            "-gate",
                        );
                        acts.push(
                            ProgramAction::Emit(
                                envelope(c, gate_id, n, EnvelopeKind::TaskEscalated, "wave rejected or run cancelled"),
                            ),
                        );
                        acts.push(ProgramAction::Finish(ProgramState::Cancelled));
                        self.stage = RunStage::Done;
                    },
                    _ => {},
                }
            },
            RunStage::TaskCheck => {
                let c = &self.codenames[self.codename_index];
                let n = wave_num(self.wave_index);
                let tasks = &self.waves[self.wave_index];
                if self.task_index >= tasks.len() {
                    let ns = decimal_string(n as u64);
                    let wid = c.clone().concat("-wave").concat(ns.as_str());
                    let summary = String::from_str("wave ").concat(ns.as_str()).concat(" complete (").concat(
                        decimal_string(tasks.len() as u64).as_str(),
                    ).concat(" tasks)");
                    acts.push(
                        ProgramAction::Emit(envelope(c, wid, n, EnvelopeKind::WaveComplete, summary.as_str())),
                    );
                    self.wave_index = self.wave_index + 1;
                    self.stage = RunStage::WaveCheck;
                } else if cancelled {
                    acts.push(ProgramAction::Finish(ProgramState::Cancelled));
                    self.stage = RunStage::Done;
                } else {
                    let tid = task_id(c.as_str(), n as u64, (self.task_index + 1) as u64);
                    acts.push(
                        ProgramAction::Emit(
                            envelope(c, tid, n, EnvelopeKind::TaskStart, tasks[self.task_index].as_str()),
                        ),
                    );
                    acts.push(ProgramAction::Pause);
                    self.stage = RunStage::Pausing;
                }
            },
            RunStage::Pausing => {
                match ev {
                    ProgramEvent::PauseEnded(cut) => {
                        let c = &self.codenames[self.codename_index];
                        let n = wave_num(self.wave_index);
                        let tid = task_id(c.as_str(), n as u64, (self.task_index + 1) as u64);
                        if cut {
                            acts.push(
                                ProgramAction::Emit(envelope(c, tid, n, EnvelopeKind::TaskEscalated, "task cancelled")),
                            );
                            acts.push(ProgramAction::Finish(ProgramState::Cancelled));
                            self.stage = RunStage::Done;
                        } else {
                            let summary = String::from_str("task ").concat(
                                decimal_string((self.task_index + 1) as u64).as_str(),
                            ).concat(" dispatched");
                            acts.push(
                                ProgramAction::Emit(envelope(c, tid, n, EnvelopeKind::TaskComplete, summary.as_str())),
                            );
                            self.task_index = self.task_index + 1;
                            self.stage = RunStage::TaskCheck;
                        }
                    },
                    _ => {},
                }
            },
        }
        acts
    }
}

} // verus!
