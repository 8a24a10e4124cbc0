//! Fleet streams: the process-wide cap on open fleet SSE streams, and the
//! naming of the frames a fleet stream sends.
use vstd::prelude::*;

use crate::text::{decimal, decimal_string};

verus! {

/// Most fleet SSE streams open at once, process-wide.
pub const MAX_FLEET_SSE: usize = 100;

/// The count of open fleet SSE streams.
#[derive(Debug)]
pub struct FleetSseCounter {
    count: usize,
}

impl FleetSseCounter {
    /// The count never passes the cap.
    pub closed spec fn well_formed(&self) -> bool {
        self.count <= MAX_FLEET_SSE
    }

    pub closed spec fn open_streams(&self) -> nat {
        self.count as nat
    }

    /// A counter with no stream open.
    pub fn new() -> (c: Self)
        ensures
            c.well_formed(),
            c.open_streams() == 0,
    {
        FleetSseCounter { count: 0 }
    }

    /// The number of open streams.
    pub fn current(&self) -> (n: usize)
        ensures
            n == self.open_streams(),
    {
        self.count
    }

    /// Admit one more stream: below the cap the count goes up by one and
    /// `true` comes back; at the cap the count is left as it was and the
    /// stream is refused (429).
    pub fn try_acquire(&mut self) -> (admitted: bool)
        requires
            old(self).well_formed(),
        ensures
            final(self).well_formed(),
            final(self).open_streams() <= MAX_FLEET_SSE,
            admitted == (old(self).open_streams() < MAX_FLEET_SSE),
            admitted ==> final(self).open_streams() == old(self).open_streams() + 1,
            !admitted ==> final(self).open_streams() == old(self).open_streams(),
    {
        if self.count >= MAX_FLEET_SSE {
            false
        } else {
            self.count = self.count + 1;
            true
        }
    }

    /// A stream ended: the count goes down by one.
    pub fn release(&mut self)
        requires
            old(self).well_formed(),
            old(self).open_streams() > 0,
        ensures
            final(self).well_formed(),
            final(self).open_streams() == old(self).open_streams() - 1,
    {
        self.count = self.count - 1;
    }
}

/// The kinds of fleet event.
#[derive(Debug, Clone, Copy, PartialEq, Eq, Structural)]
pub enum FleetEventKind {
    Snapshot,
    AgentSpawned,
    AgentProgress,
    AgentCompleted,
}

pub open spec fn event_name_of(k: FleetEventKind) -> Seq<char> {
    match k {
        FleetEventKind::Snapshot => "snapshot"@,
        FleetEventKind::AgentSpawned => "agent_spawned"@,
        FleetEventKind::AgentProgress => "agent_progress"@,
        FleetEventKind::AgentCompleted => "agent_completed"@,
    }
}

/// The SSE event name of a fleet event.
pub fn event_name(k: FleetEventKind) -> (r: &'static str)
    ensures
        r@ == event_name_of(k),
{
    match k {
        FleetEventKind::Snapshot => "snapshot",
        FleetEventKind::AgentSpawned => "agent_spawned",
        FleetEventKind::AgentProgress => "agent_progress",
        FleetEventKind::AgentCompleted => "agent_completed",
    }
}

/// What the broadcast receiver gave.
#[derive(Debug, Clone, Copy, PartialEq, Eq, Structural)]
pub enum FleetRecv {
    Event(FleetEventKind),
    Lagged(u64),
    Closed,
}

/// One frame of the fleet stream: its event name and, for a lag frame, its
/// data (an event's data is its JSON, written by the caller).
#[derive(Debug, Clone, PartialEq, Eq)]
pub struct FleetFrame {
    pub event: &'static str,
    pub lag_data: Option<String>,
}

pub open spec fn opt_view(o: Option<String>) -> Option<Seq<char>> {
    match o {
        Some(s) => Some(s@),
        None => None,
    }
}

pub open spec fn lag_data_of(n: u64) -> Seq<char> {
    "{\"type\":\"lag\",\"skipped\":"@ + decimal(n as nat) + "}"@
}

/// The next frame of a fleet stream.  The snapshot taken before
/// subscribing goes first; after it, each received event is sent under its
/// name, a lag under `lag`, and a closed channel ends the stream.
pub fn next_fleet_frame(snapshot_pending: bool, recv: FleetRecv) -> (f: Option<FleetFrame>)
    ensures
        snapshot_pending ==> (f matches Some(fr) && fr.event@ == "snapshot"@ && fr.lag_data is None),
        !snapshot_pending ==> match recv {
            FleetRecv::Event(k) => f matches Some(fr) && fr.event@ == event_name_of(k)
                && fr.lag_data is None,
            FleetRecv::Lagged(n) => f matches Some(fr) && fr.event@ == "lag"@
                && opt_view(fr.lag_data) == Some(lag_data_of(n)),
            FleetRecv::Closed => f is None,
        },
{
    if snapshot_pending {
        return Some(FleetFrame { event: event_name(FleetEventKind::Snapshot), lag_data: None });
    }
    match recv {
        FleetRecv::Event(k) => Some(FleetFrame { event: event_name(k), lag_data: None }),
        FleetRecv::Lagged(n) => {
            let d = String::from_str("{\"type\":\"lag\",\"skipped\":").concat(
                decimal_string(n).as_str(),
            ).concat("}");
            Some(FleetFrame { event: "lag", lag_data: Some(d) })
        },
        FleetRecv::Closed => None,
    }
}

} // verus!
