//! Northstar pulse: seven pillar scores derived from observable platform
//! signals, their status bands, the focus pillar and the per-pillar hints.
use vstd::prelude::*;

use crate::text::{decimal, decimal_string};

verus! {

/// Observable platform signals.
#[derive(Debug, Clone, Copy)]
pub struct Signals {
    pub active_builds: u32,
    pub supervisors: u32,
    pub drift_total: u32,
    pub soul_present: bool,
    /// HITL items awaiting review.
    pub hitl_open: u32,
}

pub open spec fn min_int(a: int, b: int) -> int {
    if a <= b {
        a
    } else {
        b
    }
}

/// `P1`: 90, or 93 while builds are active.
pub open spec fn p1(active: int) -> int {
    if active == 0 {
        90
    } else {
        93
    }
}

/// `P2`: 100 less 8 per consecutive drift, at most 80 off.
pub open spec fn p2(drift_total: int) -> int {
    100 - min_int(drift_total * 8, 80)
}

/// `P3`: supervisor coverage of builds in percent (capped at 100); 88 without builds.
pub open spec fn p3(supervisors: int, builds: int) -> int {
    if builds == 0 {
        88
    } else {
        min_int(min_int(supervisors * 100, u32::MAX as int) / builds, 100)
    }
}

/// `P4`: 60 plus 8 per active build, at most 35 more.
pub open spec fn p4(active: int) -> int {
    60 + min_int(active * 8, 35)
}

/// `P5`: 100 with the SOUL store, 40 without.
pub open spec fn p5(soul: bool) -> int {
    if soul {
        100
    } else {
        40
    }
}

/// `P6`: 65 plus 5 per supervisor, at most 30 more.
pub open spec fn p6(supervisors: int) -> int {
    65 + min_int(supervisors * 5, 30)
}

/// `P7`: 95 without supervisors; else 100 less half the drift ratio in percent
/// (capped at 100).
pub open spec fn p7(drift_total: int, supervisors: int) -> int {
    if supervisors == 0 {
        95
    } else {
        100 - min_int(min_int(drift_total * 100, u32::MAX as int) / supervisors, 100) / 2
    }
}

/// `x * 100`, or `u32::MAX` when that does not fit (`u32::saturating_mul`).
fn times_100_saturating(x: u32) -> (r: u32)
    ensures
        r == min_int(x * 100, u32::MAX as int),
{
    if x > u32::MAX / 100 {
        u32::MAX
    } else {
        x * 100
    }
}

pub fn score_p1(active: u32) -> (r: u8)
    ensures
        r == p1(active as int),
{
    if active == 0 {
        90
    } else {
        93
    }
}

pub fn score_p2(drift_total: u32) -> (r: u8)
    requires
        drift_total * 8 <= u32::MAX,
    ensures
        r == p2(drift_total as int),
{
    let product = drift_total * 8;
    let penalty: u8 = if product < 80 {
        product as u8
    } else {
        80
    };
    100u8 - penalty
}

pub fn score_p3(supervisors: u32, builds: u32) -> (r: u8)
    ensures
        r == p3(supervisors as int, builds as int),
{
    if builds == 0 {
        88
    } else {
        let scaled = times_100_saturating(supervisors);
        let ratio = scaled / builds;
        assert(scaled == min_int(supervisors * 100, u32::MAX as int));
        if ratio < 100 {
            ratio as u8
        } else {
            100
        }
    }
}

pub fn score_p4(active: u32) -> (r: u8)
    requires
        active * 8 <= u32::MAX,
    ensures
        r == p4(active as int),
{
    let product = active * 8;
    let bonus: u8 = if product < 35 {
        product as u8
    } else {
        35
    };
    60u8 + bonus
}

pub fn score_p5(soul: bool) -> (r: u8)
    ensures
        r == p5(soul),
{
    if soul {
        100
    } else {
        40
    }
}

pub fn score_p6(supervisors: u32) -> (r: u8)
    requires
        supervisors * 5 <= u32::MAX,
    ensures
        r == p6(supervisors as int),
{
    let product = supervisors * 5;
    let bonus: u8 = if product < 30 {
        product as u8
    } else {
        30
    };
    65u8 + bonus
}

pub fn score_p7(drift_total: u32, supervisors: u32) -> (r: u8)
    ensures
        r == p7(drift_total as int, supervisors as int),
{
    if supervisors == 0 {
        95
    } else {
        let scaled = times_100_saturating(drift_total);
        assert(scaled == min_int(drift_total * 100, u32::MAX as int));
        let q = scaled / supervisors;
        let ratio: u32 = if q < 100 {
            q
        } else {
            100
        };
        let penalty = (ratio / 2) as u8;
        100u8 - penalty
    }
}

/// The status band of a score: `ok` from 80, `warn` from 50, `err` below.
pub open spec fn status_of(score: u8) -> Seq<char> {
    if score >= 80 {
        "ok"@
    } else if score >= 50 {
        "warn"@
    } else {
        "err"@
    }
}

pub fn status_for(score: u8) -> (r: &'static str)
    ensures
        r@ == status_of(score),
{
    if score >= 80 {
        "ok"
    } else if score >= 50 {
        "warn"
    } else {
        "err"
    }
}

/// Index of the lowest-scoring pillar (ties → earliest).
pub fn focus_index(scores: [u8; 7]) -> (r: usize)
    ensures
        r < 7,
        forall|j: int| 0 <= j < 7 ==> scores[r as int] <= #[trigger] scores[j],
        forall|j: int| 0 <= j < r ==> scores[r as int] < #[trigger] scores[j],
{
    let mut min_score = u8::MAX;
    let mut min_idx: usize = 0;
    let mut i: usize = 0;
    while i < 7
        invariant
            i <= 7,
            min_idx < 7,
            i == 0 ==> min_idx == 0 && min_score == u8::MAX,
            i > 0 ==> min_idx < i && min_score == scores[min_idx as int],
            forall|j: int| 0 <= j < i ==> min_score <= #[trigger] scores[j],
            forall|j: int| 0 <= j < min_idx ==> min_score < #[trigger] scores[j],
            i > 0 && min_score == u8::MAX ==> min_idx == 0,
        decreases 7 - i,
    {
        if scores[i] < min_score {
            min_score = scores[i];
            min_idx = i;
        }
        i += 1;
    }
    min_idx
}

/// Pillar identifiers `P1`..`P7`.
pub open spec fn pillar_id_of(i: int) -> Seq<char> {
    if i == 0 {
        "P1"@
    } else if i == 1 {
        "P2"@
    } else if i == 2 {
        "P3"@
    } else if i == 3 {
        "P4"@
    } else if i == 4 {
        "P5"@
    } else if i == 5 {
        "P6"@
    } else {
        "P7"@
    }
}

pub fn pillar_id(i: usize) -> (r: &'static str)
    requires
        i < 7,
    ensures
        r@ == pillar_id_of(i as int),
{
    match i {
        0 => "P1",
        1 => "P2",
        2 => "P3",
        3 => "P4",
        4 => "P5",
        5 => "P6",
        _ => "P7",
    }
}

/// Human-readable pillar names.
pub open spec fn pillar_label_of(i: int) -> Seq<char> {
    if i == 0 {
        "E2E Engineering Surface"@
    } else if i == 1 {
        "Secure-by-Default Orchestration"@
    } else if i == 2 {
        "Mixture-of-Experts Platform"@
    } else if i == 3 {
        "Async Parallel Collaboration"@
    } else if i == 4 {
        "Persistent Knowledge"@
    } else if i == 5 {
        "Operator-Legible Engineering Arc"@
    } else {
        "Production Reliability"@
    }
}

pub fn pillar_label(i: usize) -> (r: &'static str)
    requires
        i < 7,
    ensures
        r@ == pillar_label_of(i as int),
{
    match i {
        0 => "E2E Engineering Surface",
        1 => "Secure-by-Default Orchestration",
        2 => "Mixture-of-Experts Platform",
        3 => "Async Parallel Collaboration",
        4 => "Persistent Knowledge",
        5 => "Operator-Legible Engineering Arc",
        _ => "Production Reliability",
    }
}

/// The hint shown next to pillar `idx`.
pub open spec fn hint_of(idx: int, s: Signals) -> Seq<char> {
    if idx == 0 {
        decimal(s.active_builds as nat) + " active build"@ + if s.active_builds == 1 {
            ""@
        } else {
            "s"@
        }
    } else if idx == 1 {
        if s.drift_total == 0 {
            "no supervisor drift"@
        } else {
            decimal(s.drift_total as nat) + " consecutive drift wave(s) across supervisors"@
        }
    } else if idx == 2 {
        "expert.selection_rationale emitted per dispatch"@
    } else if idx == 3 {
        "IronClaw 7 write · 16 read slots"@
    } else if idx == 4 {
        if s.soul_present {
            "SOUL helix online"@
        } else {
            "SOUL store unavailable"@
        }
    } else if idx == 5 {
        decimal(s.supervisors as nat) + " supervisor state(s) tracked"@
    } else if idx == 6 {
        "rollback path verified"@
    } else {
        Seq::empty()
    }
}

/// Hints derived from the signals so that they reflect reality.
pub fn hint_for(idx: usize, s: &Signals) -> (r: String)
    ensures
        r@ == hint_of(idx as int, *s),
{
    match idx {
        0 => {
            let n = decimal_string(s.active_builds as u64);
            let t = n.concat(" active build");
            t.concat(
                if s.active_builds == 1 {
                    ""
                } else {
                    "s"
                },
            )
        },
        1 => {
            if s.drift_total == 0 {
                String::from_str("no supervisor drift")
            } else {
                decimal_string(s.drift_total as u64).concat(
                    " consecutive drift wave(s) across supervisors",
                )
            }
        },
        2 => String::from_str("expert.selection_rationale emitted per dispatch"),
        3 => String::from_str("IronClaw 7 write · 16 read slots"),
        4 => {
            if s.soul_present {
                String::from_str("SOUL helix online")
            } else {
                String::from_str("SOUL store unavailable")
            }
        },
        5 => decimal_string(s.supervisors as u64).concat(" supervisor state(s) tracked"),
        6 => String::from_str("rollback path verified"),
        _ => String::new(),
    }
}

/// A single Northstar pillar score row.
#[derive(Debug)]
pub struct PillarPulse {
    pub id: &'static str,
    pub label: &'static str,
    pub score: u8,
    pub status: &'static str,
    pub focus: bool,
    pub hint: String,
}

/// The platform pulse response.
#[derive(Debug)]
pub struct PlatformPulseResponse {
    pub pillars: Vec<PillarPulse>,
    pub evaluated_at: String,
}

/// The signals keep the pillar arithmetic within 32 bits.
pub open spec fn signals_in_range(s: Signals) -> bool {
    s.drift_total * 8 <= u32::MAX && s.active_builds * 8 <= u32::MAX && s.supervisors * 5
        <= u32::MAX
}

/// The seven raw scores in pillar order.
pub open spec fn pillar_scores(s: Signals) -> Seq<int> {
    seq![
        p1(s.active_builds as int),
        p2(s.drift_total as int),
        p3(s.supervisors as int, s.active_builds as int),
        p4(s.active_builds as int),
        p5(s.soul_present),
        p6(s.supervisors as int),
        p7(s.drift_total as int, s.supervisors as int),
    ]
}

/// Pillar `f` has the lowest score, and every earlier pillar scores higher.
pub open spec fn lowest_earliest(scores: Seq<int>, f: int) -> bool {
    0 <= f < scores.len() && (forall|j: int| 0 <= j < scores.len() ==> scores[f] <= #[trigger] scores[j])
        && (forall|j: int| 0 <= j < f ==> scores[f] < #[trigger] scores[j])
}

/// All seven pillars in canonical order, the lowest (earliest on ties) marked
/// as the focus.
pub fn pulse_pillars(s: &Signals) -> (ps: Vec<PillarPulse>)
    requires
        signals_in_range(*s),
    ensures
        ps.len() == 7,
        forall|i: int|
            0 <= i < 7 ==> {
                let p = #[trigger] ps[i];
                &&& p.id@ == pillar_id_of(i)
                &&& p.label@ == pillar_label_of(i)
                &&& p.score == pillar_scores(*s)[i]
                &&& p.status@ == status_of(p.score)
                &&& p.hint@ == hint_of(i, *s)
            },
        forall|i: int| 0 <= i < 7 ==> (#[trigger] ps[i].focus <==> lowest_earliest(pillar_scores(*s), i)),
{
    let raw: [u8; 7] = [
        score_p1(s.active_builds),
        score_p2(s.drift_total),
        score_p3(s.supervisors, s.active_builds),
        score_p4(s.active_builds),
        score_p5(s.soul_present),
        score_p6(s.supervisors),
        score_p7(s.drift_total, s.supervisors),
    ];
    let focus_idx = focus_index(raw);
    let mut ps: Vec<PillarPulse> = Vec::new();
    let mut i: usize = 0;
    while i < 7
        invariant
            i <= 7,
            ps.len() == i,
            focus_idx < 7,
            forall|k: int| 0 <= k < 7 ==> raw[k] == pillar_scores(*s)[k],
            forall|k: int|
                0 <= k < i ==> {
                    let p = #[trigger] ps[k];
                    &&& p.id@ == pillar_id_of(k)
                    &&& p.label@ == pillar_label_of(k)
                    &&& p.score == raw[k]
                    &&& p.status@ == status_of(p.score)
                    &&& p.hint@ == hint_of(k, *s)
                    &&& (p.focus <==> k == focus_idx)
                },
        decreases 7 - i,
    {
        ps.push(
            PillarPulse {
                id: pillar_id(i),
                label: pillar_label(i),
                score: raw[i],
                status: status_for(raw[i]),
                focus: i == focus_idx,
                hint: hint_for(i, s),
            },
        );
        i += 1;
    }
    assert forall|i: int| 0 <= i < 7 implies (#[trigger] ps[i].focus <==> lowest_earliest(pillar_scores(*s), i)) by {
        let sc = pillar_scores(*s);
        assert(raw[i] == sc[i]);
        assert(raw[focus_idx as int] == sc[focus_idx as int]);
        if lowest_earliest(sc, i) && i != focus_idx {
            if i < focus_idx {
                assert(raw[focus_idx as int] < raw[i]);
                assert(sc[i] <= sc[focus_idx as int]);
            } else {
                assert(sc[i] < sc[focus_idx as int]);
                assert(raw[focus_idx as int] <= raw[i]);
            }
        }
        if i == focus_idx {
            assert forall|j: int| 0 <= j < 7 implies sc[i] <= #[trigger] sc[j] by {
                assert(raw[j] == sc[j]);
            }
            assert forall|j: int| 0 <= j < i implies sc[i] < #[trigger] sc[j] by {
                assert(raw[j] == sc[j]);
            }
        }
    }
    ps
}

/// More drift never raises `P2`.
pub proof fn p2_is_monotone(a: u32, b: u32)
    requires
        a <= b,
    ensures
        p2(b as int) <= p2(a as int),
        0 <= p2(b as int) <= 100,
{
}

} // verus!
