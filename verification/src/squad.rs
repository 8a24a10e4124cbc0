//! Squad constellation: attributing bus events to siblings and correlating
//! consecutive events into agent-to-agent link edges.
use vstd::prelude::*;

use crate::clock::utc_now_rfc3339;
use crate::text::str_eq;

verus! {

/// Correlation window in milliseconds.
pub const A2A_CORRELATION_MS: u64 = 6_000;

/// Canonical sibling identifiers.
pub fn siblings() -> (r: [&'static str; 7])
    ensures
        r[0]@ == "CORSO"@,
        r[1]@ == "EVA"@,
        r[2]@ == "SOUL"@,
        r[3]@ == "QUANTUM"@,
        r[4]@ == "SERAPH"@,
        r[5]@ == "AYIN"@,
        r[6]@ == "LÆX"@,
{
    ["CORSO", "EVA", "SOUL", "QUANTUM", "SERAPH", "AYIN", "LÆX"]
}

/// An agent-to-agent link edge.
#[derive(Debug)]
pub struct A2aLink {
    pub from: &'static str,
    pub to: &'static str,
    pub kind: &'static str,
    pub build_id: Option<String>,
    pub ts: String,
}

/// A small memo of a recent event.
#[derive(Debug, Clone)]
pub struct EventMemo {
    pub sibling: &'static str,
    pub build_id: Option<String>,
    pub kind: &'static str,
    pub ts_ms: u64,
}

/// The bus topics attributable to a sibling.
pub open spec fn known_topic(t: Seq<char>) -> bool {
    t == "v1.build.update"@ || t == "v1.build.supervisor.update"@ || t == "v1.conductor.escalation"@
        || t == "v1.conductor.tick"@ || t == "v1.helix.entry.changed"@ || t
        == "v1.helix.entry.promoted"@ || t == "v1.worktree.update"@ || t
        == "v1.agent.ayin.connected"@ || t == "v1.agent.ayin.disconnected"@ || t
        == "v1.agent.ayin.reconnecting"@
}

/// Map a runtime topic string to the known set.
pub fn static_topic(topic: &str) -> (r: Option<&'static str>)
    ensures
        r is Some <==> known_topic(topic@),
        r is Some ==> r->0@ == topic@,
{
    if str_eq(topic, "v1.build.update") {
        Some("v1.build.update")
    } else if str_eq(topic, "v1.build.supervisor.update") {
        Some("v1.build.supervisor.update")
    } else if str_eq(topic, "v1.conductor.escalation") {
        Some("v1.conductor.escalation")
    } else if str_eq(topic, "v1.conductor.tick") {
        Some("v1.conductor.tick")
    } else if str_eq(topic, "v1.helix.entry.changed") {
        Some("v1.helix.entry.changed")
    } else if str_eq(topic, "v1.helix.entry.promoted") {
        Some("v1.helix.entry.promoted")
    } else if str_eq(topic, "v1.worktree.update") {
        Some("v1.worktree.update")
    } else if str_eq(topic, "v1.agent.ayin.connected") {
        Some("v1.agent.ayin.connected")
    } else if str_eq(topic, "v1.agent.ayin.disconnected") {
        Some("v1.agent.ayin.disconnected")
    } else if str_eq(topic, "v1.agent.ayin.reconnecting") {
        Some("v1.agent.ayin.reconnecting")
    } else {
        None
    }
}

/// The sibling and link kind of a topic: helix → SOUL/enrich; build and
/// worktree updates → CORSO/context; conductor → CORSO/dispatch; ayin agent
/// → AYIN/span.
pub open spec fn topic_owner(t: Seq<char>) -> Option<(Seq<char>, Seq<char>)> {
    if t == "v1.helix.entry.changed"@ || t == "v1.helix.entry.promoted"@ {
        Some(("SOUL"@, "enrich"@))
    } else if t == "v1.build.update"@ || t == "v1.build.supervisor.update"@ || t
        == "v1.worktree.update"@ {
        Some(("CORSO"@, "context"@))
    } else if t == "v1.conductor.escalation"@ || t == "v1.conductor.tick"@ {
        Some(("CORSO"@, "dispatch"@))
    } else if t == "v1.agent.ayin.connected"@ || t == "v1.agent.ayin.disconnected"@ || t
        == "v1.agent.ayin.reconnecting"@ {
        Some(("AYIN"@, "span"@))
    } else {
        None
    }
}

/// Map a topic to `(sibling, link kind)`.
pub fn sibling_and_kind(topic: &'static str) -> (r: Option<(&'static str, &'static str)>)
    ensures
        r is Some <==> topic_owner(topic@) is Some,
        r is Some ==> ({
            let (sib, kind) = r->0;
            (sib@, kind@) == topic_owner(topic@)->0
        }),
{
    if str_eq(topic, "v1.helix.entry.changed") || str_eq(topic, "v1.helix.entry.promoted") {
        Some(("SOUL", "enrich"))
    } else if str_eq(topic, "v1.build.update") || str_eq(topic, "v1.build.supervisor.update")
        || str_eq(topic, "v1.worktree.update") {
        Some(("CORSO", "context"))
    } else if str_eq(topic, "v1.conductor.escalation") || str_eq(topic, "v1.conductor.tick") {
        Some(("CORSO", "dispatch"))
    } else if str_eq(topic, "v1.agent.ayin.connected") || str_eq(
        topic,
        "v1.agent.ayin.disconnected",
    ) || str_eq(topic, "v1.agent.ayin.reconnecting") {
        Some(("AYIN", "span"))
    } else {
        None
    }
}

/// Attribute an event (its topic, build id and time) to a sibling.
pub fn classify(topic: &str, build_id: Option<String>, ts_ms: u64) -> (r: Option<EventMemo>)
    ensures
        r is Some <==> known_topic(topic@) && topic_owner(topic@) is Some,
        r is Some ==> {
            let m = r->0;
            &&& (m.sibling@, m.kind@) == topic_owner(topic@)->0
            &&& m.build_id == build_id
            &&& m.ts_ms == ts_ms
        },
{
    let t = static_topic(topic)?;
    let (sibling, kind) = sibling_and_kind(t)?;
    Some(EventMemo { sibling, build_id, kind, ts_ms })
}

pub open spec fn opt_str_view(o: Option<String>) -> Option<Seq<char>> {
    match o {
        Some(s) => Some(s@),
        None => None,
    }
}

/// Two events form a link when they come from different siblings, the later
/// no more than the window after the earlier, on the same build (or both on none).
pub open spec fn links(prev: EventMemo, curr: EventMemo) -> bool {
    prev.sibling@ != curr.sibling@ && (if curr.ts_ms >= prev.ts_ms {
        curr.ts_ms - prev.ts_ms
    } else {
        0
    }) <= A2A_CORRELATION_MS && opt_str_view(prev.build_id) == opt_str_view(curr.build_id)
}

fn same_opt(a: &Option<String>, b: &Option<String>) -> (r: bool)
    ensures
        r == (opt_str_view(*a) == opt_str_view(*b)),
{
    match (a, b) {
        (Some(x), Some(y)) => str_eq(x.as_str(), y.as_str()),
        (None, None) => true,
        _ => false,
    }
}

fn clone_opt(a: &Option<String>) -> (r: Option<String>)
    ensures
        opt_str_view(r) == opt_str_view(*a),
{
    match a {
        Some(x) => Some(x.clone()),
        None => None,
    }
}

/// Build a link edge from the previous event to the current one when they
/// correlate; its time is the moment of correlation.
pub fn correlate(last: Option<&EventMemo>, curr: &EventMemo) -> (r: Option<A2aLink>)
    ensures
        r is Some <==> (last is Some && links(*last->0, *curr)),
        r is Some ==> {
            let l = r->0;
            &&& l.from == last->0.sibling
            &&& l.to == curr.sibling
            &&& l.kind == curr.kind
            &&& opt_str_view(l.build_id) == opt_str_view(curr.build_id)
        },
{
    let prev = last?;
    if str_eq(prev.sibling, curr.sibling) {
        return None;
    }
    let gap = if curr.ts_ms >= prev.ts_ms {
        curr.ts_ms - prev.ts_ms
    } else {
        0
    };
    if gap > A2A_CORRELATION_MS {
        return None;
    }
    if !same_opt(&prev.build_id, &curr.build_id) {
        return None;
    }
    Some(
        A2aLink {
            from: prev.sibling,
            to: curr.sibling,
            kind: curr.kind,
            build_id: clone_opt(&curr.build_id),
            ts: utc_now_rfc3339(),
        },
    )
}

/// One step of the link stream: an attributed event is correlated with the
/// remembered one and then remembered itself; an unattributed event changes
/// nothing.
pub fn on_event(last: &mut Option<EventMemo>, memo: Option<EventMemo>) -> (r: Option<A2aLink>)
    ensures
        match memo {
            Some(m) => {
                &&& *final(last) == Some(m)
                &&& (r is Some <==> (*old(last) is Some && links((*old(last))->0, m)))
            },
            None => *final(last) == *old(last) && r is None,
        },
{
    match memo {
        Some(m) => {
            let link = match last {
                Some(p) => correlate(Some(&*p), &m),
                None => None,
            };
            *last = Some(m);
            link
        },
        None => None,
    }
}

} // verus!
