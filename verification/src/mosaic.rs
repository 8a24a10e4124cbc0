//! Strand mosaic: the project × gatekeeper matrix, its per-gate scoring and
//! the per-row risk roll-up.
use vstd::prelude::*;

use crate::text::{
    after_prefix, chars_of, has_prefix, lemma_lex_total, lemma_lex_trans, lex_le, lex_le_exec,
    str_eq, string_of, strip_prefix, trim, trimmed,
};

verus! {

/// A single gatekeeper-cell value.
#[derive(Debug, Clone, Copy, PartialEq, Eq, Structural)]
pub enum CellStatus {
    /// Gate is passing.
    Okay,
    /// Gate has degraded signal but is not blocking.
    Warn,
    /// Gate is failing — action required.
    Fail,
    /// Gate does not apply to this project / scope.
    Na,
}

impl CellStatus {
    pub open spec fn warnish(self) -> bool {
        self == CellStatus::Warn || self == CellStatus::Fail
    }

    /// A warning or a failure.
    pub fn is_warnish(self) -> (b: bool)
        ensures
            b == self.warnish(),
    {
        match self {
            CellStatus::Warn | CellStatus::Fail => true,
            _ => false,
        }
    }
}

/// Per-row gatekeeper cells (A · S · Q · T · P · D · K).
#[derive(Debug, Clone, Copy)]
pub struct GateCells {
    /// Architecture.
    pub a: CellStatus,
    /// Security.
    pub s: CellStatus,
    /// Quality.
    pub q: CellStatus,
    /// Testing.
    pub t: CellStatus,
    /// Performance.
    pub p: CellStatus,
    /// Documentation.
    pub d: CellStatus,
    /// Knowledge.
    pub k: CellStatus,
}

impl GateCells {
    /// The seven cells in A, S, Q, T, P, D, K order.
    pub open spec fn all(self) -> Seq<CellStatus> {
        seq![self.a, self.s, self.q, self.t, self.p, self.d, self.k]
    }
}

/// Per-project filesystem signals.
#[derive(Debug, Default, Clone, Copy)]
pub struct ProjectShape {
    /// `Cargo.toml`, `package.json`, or `pyproject.toml` present.
    pub has_typed_project: bool,
    /// `tests/`, `src/__tests__/`, or `cypress/` present.
    pub has_test_dir: bool,
    /// `README.md` present.
    pub has_readme: bool,
    /// Agent guide file present next to the README.
    pub has_claude_md: bool,
    /// `.lightarchitects/findings/` present.
    pub has_findings_dir: bool,
}

/// Platform-scope signals.
#[derive(Debug, Clone)]
pub struct PlatformSignals {
    pub soul_present: bool,
    pub active_builds: usize,
    /// HITL backlog count per project slug, one entry per slug.
    pub hitl_by_project: Vec<(String, u32)>,
}

/// The architecture cell.
pub open spec fn architecture_cell(signals: PlatformSignals, shape: ProjectShape) -> CellStatus {
    if !shape.has_typed_project && signals.active_builds > 0 {
            CellStatus::Warn
        } else {
            CellStatus::Okay
        }
}

/// Architecture: typed project → ok; untyped with active builds → warn; else ok.
pub fn score_a(signals: &PlatformSignals, shape: ProjectShape) -> (c: CellStatus)
    ensures
        c == architecture_cell(*signals, shape),
{
    if shape.has_typed_project {
        CellStatus::Okay
    } else if signals.active_builds > 0 {
        CellStatus::Warn
    } else {
        CellStatus::Okay
    }
}

/// The security cell.
pub open spec fn security_cell(hitl_count: u32) -> CellStatus {
    if hitl_count == 0 {
            CellStatus::Okay
        } else if hitl_count == 1 {
            CellStatus::Warn
        } else {
            CellStatus::Fail
        }
}

/// Security: HITL backlog 0 → ok, 1 → warn, 2 or more → fail.
pub fn score_s(hitl_count: u32) -> (c: CellStatus)
    ensures
        c == security_cell(hitl_count),
{
    match hitl_count {
        0 => CellStatus::Okay,
        1 => CellStatus::Warn,
        _ => CellStatus::Fail,
    }
}

/// The quality cell.
pub open spec fn quality_cell(shape: ProjectShape) -> CellStatus {
    if shape.has_findings_dir {
            CellStatus::Warn
        } else {
            CellStatus::Okay
        }
}

/// Quality: a findings directory → warn; else ok.
pub fn score_q(shape: ProjectShape) -> (c: CellStatus)
    ensures
        c == quality_cell(shape),
{
    if shape.has_findings_dir {
        CellStatus::Warn
    } else {
        CellStatus::Okay
    }
}

/// The testing cell.
pub open spec fn testing_cell(signals: PlatformSignals, shape: ProjectShape) -> CellStatus {
    if shape.has_test_dir {
            CellStatus::Okay
        } else if signals.active_builds > 0 {
            CellStatus::Warn
        } else {
            CellStatus::Na
        }
}

/// Testing: test dir → ok; none with active builds → warn; none and idle → na.
pub fn score_t(signals: &PlatformSignals, shape: ProjectShape) -> (c: CellStatus)
    ensures
        c == testing_cell(*signals, shape),
{
    if shape.has_test_dir {
        CellStatus::Okay
    } else if signals.active_builds > 0 {
        CellStatus::Warn
    } else {
        CellStatus::Na
    }
}

/// The documentation cell.
pub open spec fn documentation_cell(shape: ProjectShape) -> CellStatus {
    if shape.has_readme && shape.has_claude_md {
            CellStatus::Okay
        } else if shape.has_readme || shape.has_claude_md {
            CellStatus::Warn
        } else {
            CellStatus::Fail
        }
}

/// Documentation: README and agent guide → ok; one of them → warn; neither → fail.
pub fn score_d(shape: ProjectShape) -> (c: CellStatus)
    ensures
        c == documentation_cell(shape),
{
    match (shape.has_readme, shape.has_claude_md) {
        (true, true) => CellStatus::Okay,
        (true, false) | (false, true) => CellStatus::Warn,
        (false, false) => CellStatus::Fail,
    }
}

/// The knowledge cell.
pub open spec fn knowledge_cell(signals: PlatformSignals, shape: ProjectShape) -> CellStatus {
    if !signals.soul_present {
            CellStatus::Fail
        } else if shape.has_typed_project {
            CellStatus::Okay
        } else {
            CellStatus::Warn
        }
}

/// Knowledge: no SOUL store → fail; SOUL and a typed project → ok; else warn.
pub fn score_k(signals: &PlatformSignals, shape: ProjectShape) -> (c: CellStatus)
    ensures
        c == knowledge_cell(*signals, shape),
{
    if !signals.soul_present {
        CellStatus::Fail
    } else if shape.has_typed_project {
        CellStatus::Okay
    } else {
        CellStatus::Warn
    }
}

/// Derive per-cell statuses from the full signal set (performance is always na).
pub fn derive_cells(signals: &PlatformSignals, shape: ProjectShape, hitl_count: u32) -> (c:
    GateCells)
    ensures
        c.a == architecture_cell(*signals, shape),
        c.s == security_cell(hitl_count),
        c.q == quality_cell(shape),
        c.t == testing_cell(*signals, shape),
        c.p == CellStatus::Na,
        c.d == documentation_cell(shape),
        c.k == knowledge_cell(*signals, shape),
{
    GateCells {
        a: score_a(signals, shape),
        s: score_s(hitl_count),
        q: score_q(shape),
        t: score_t(signals, shape),
        p: CellStatus::Na,
        d: score_d(shape),
        k: score_k(signals, shape),
    }
}

/// How many of `cells` are warnings or failures.
pub open spec fn warn_count(cells: Seq<CellStatus>) -> nat
    decreases cells.len(),
{
    if cells.len() == 0 {
        0
    } else {
        warn_count(cells.drop_last()) + if cells.last().warnish() {
            1nat
        } else {
            0nat
        }
    }
}

/// Whether any of `cells` fails.
pub open spec fn has_fail(cells: Seq<CellStatus>) -> bool
    decreases cells.len(),
{
    cells.len() > 0 && (has_fail(cells.drop_last()) || cells.last() == CellStatus::Fail)
}

/// The roll-up of a row: any failing cell → `HIGH`; otherwise by the number
/// of warning cells: none → `OK`, one → `LOW`, more → `MED`.
pub open spec fn risk_of(c: GateCells) -> Seq<char> {
    if has_fail(c.all()) {
        "HIGH"@
    } else if warn_count(c.all()) == 0 {
        "OK"@
    } else if warn_count(c.all()) == 1 {
        "LOW"@
    } else {
        "MED"@
    }
}

/// Worst-non-na cell determines the risk roll-up.
pub fn roll_up_risk(c: &GateCells) -> (r: &'static str)
    ensures
        r@ == risk_of(*c),
{
    let all = [c.a, c.s, c.q, c.t, c.p, c.d, c.k];
    let ghost cells = c.all();
    assert(all@ =~= cells);
    let mut i: usize = 0;
    let mut any_fail = false;
    let mut warns: usize = 0;
    while i < 7
        invariant
            i <= 7,
            all@ == cells,
            cells == c.all(),
            any_fail == has_fail(cells.take(i as int)),
            warns == warn_count(cells.take(i as int)),
            warns <= i,
        decreases 7 - i,
    {
        let x = all[i];
        assert(cells.take(i + 1).drop_last() =~= cells.take(i as int));
        assert(cells.take(i + 1).last() == x);
        if x == CellStatus::Fail {
            any_fail = true;
        }
        if x.is_warnish() {
            warns += 1;
        }
        i += 1;
    }
    assert(cells.take(7) =~= cells);
    if any_fail {
        return "HIGH";
    }
    match warns {
        0 => "OK",
        1 => "LOW",
        _ => "MED",
    }
}

/// Sort key of a risk label: `CRIT` 0, `HIGH` 1, `MED` 2, `LOW` 3, anything else 4.
pub open spec fn rank_of(risk: Seq<char>) -> u8 {
    if risk == "CRIT"@ {
        0
    } else if risk == "HIGH"@ {
        1
    } else if risk == "MED"@ {
        2
    } else if risk == "LOW"@ {
        3
    } else {
        4
    }
}

/// Sort key of a risk label (most severe first).
pub fn risk_rank(risk: &str) -> (r: u8)
    ensures
        r == rank_of(risk@),
{
    if str_eq(risk, "CRIT") {
        0
    } else if str_eq(risk, "HIGH") {
        1
    } else if str_eq(risk, "MED") {
        2
    } else if str_eq(risk, "LOW") {
        3
    } else {
        4
    }
}


/// One row in the strand mosaic.
#[derive(Debug)]
pub struct MosaicRow {
    /// Project identifier (slug).
    pub id: String,
    /// Display label.
    pub label: String,
    /// Compact metadata shown next to the label.
    pub meta: String,
    /// Gatekeeper cells.
    pub cells: GateCells,
    /// Roll-up risk.
    pub risk: &'static str,
}

/// Canonical gatekeeper → owning sibling map.
#[derive(Debug, Clone, Copy)]
pub struct GatekeeperMap {
    pub a: &'static str,
    pub s: &'static str,
    pub q: &'static str,
    pub t: &'static str,
    pub p: &'static str,
    pub d: &'static str,
    pub k: &'static str,
}

/// The canonical gatekeeper owners.
pub fn gatekeepers() -> (g: GatekeeperMap)
    ensures
        g.a@ == "CORSO"@,
        g.s@ == "SERAPH"@,
        g.q@ == "CORSO+LÆX"@,
        g.t@ == "CORSO"@,
        g.p@ == "EVA+AYIN"@,
        g.d@ == "SOUL+EVA"@,
        g.k@ == "SOUL"@,
{
    GatekeeperMap {
        a: "CORSO",
        s: "SERAPH",
        q: "CORSO+LÆX",
        t: "CORSO",
        p: "EVA+AYIN",
        d: "SOUL+EVA",
        k: "SOUL",
    }
}

/// Top-level response shape.
#[derive(Debug)]
pub struct MosaicResponse {
    pub rows: Vec<MosaicRow>,
    pub gatekeepers: GatekeeperMap,
    /// ISO-8601 UTC capture timestamp.
    pub evaluated_at: String,
}

/// Query of the mosaic route; only the platform scope exists today.
#[derive(Debug, Clone)]
pub struct MosaicQuery {
    pub scope: Option<String>,
}

/// The meta of a project from its `.git/HEAD` (absent when unreadable): the
/// branch it names, `detached` for a bare commit, `untracked` without a file.
pub open spec fn meta_of(head: Option<Seq<char>>) -> Seq<char> {
    match head {
        None => "untracked"@,
        Some(c) => if has_prefix(trim(c), "ref: refs/heads/"@) {
            after_prefix(trim(c), "ref: refs/heads/"@)
        } else {
            "detached"@
        },
    }
}

/// Derive the row meta (`main`, `detached`, `untracked`) from `.git/HEAD`.
pub fn derive_meta(head: Option<&str>) -> (m: String)
    ensures
        m@ == meta_of(
            match head {
                Some(h) => Some(h@),
                None => None,
            },
        ),
{
    match head {
        None => String::from_str("untracked"),
        Some(c) => match strip_prefix(&trimmed(&chars_of(c)), "ref: refs/heads/") {
            Some(b) => string_of(&b),
            None => String::from_str("detached"),
        },
    }
}

/// Compose one row from its signals.
pub fn make_row(
    id: String,
    label: String,
    meta: String,
    signals: &PlatformSignals,
    shape: ProjectShape,
    hitl_count: u32,
) -> (r: MosaicRow)
    ensures
        r.id == id,
        r.label == label,
        r.meta == meta,
        r.cells.a == architecture_cell(*signals, shape),
        r.cells.s == security_cell(hitl_count),
        r.cells.q == quality_cell(shape),
        r.cells.t == testing_cell(*signals, shape),
        r.cells.p == CellStatus::Na,
        r.cells.d == documentation_cell(shape),
        r.cells.k == knowledge_cell(*signals, shape),
        r.risk@ == risk_of(r.cells),
{
    let cells = derive_cells(signals, shape, hitl_count);
    let risk = roll_up_risk(&cells);
    MosaicRow { id, label, meta, cells, risk }
}

// ── Ordering of rows ─────────────────────────────────────────────────────────

/// Rows order by risk (most severe first), then by label.
pub open spec fn row_le(a: MosaicRow, b: MosaicRow) -> bool {
    rank_of(a.risk@) < rank_of(b.risk@) || (rank_of(a.risk@) == rank_of(b.risk@) && lex_le(
        a.label@,
        b.label@,
    ))
}

/// Every row comes no later than the rows after it.
pub open spec fn rows_sorted(rows: Seq<MosaicRow>) -> bool {
    forall|i: int, j: int| 0 <= i < j < rows.len() ==> row_le(#[trigger] rows[i], #[trigger] rows[j])
}

proof fn lemma_row_le_total(a: MosaicRow, b: MosaicRow)
    ensures
        row_le(a, b) || row_le(b, a),
{
    lemma_lex_total(a.label@, b.label@);
}

proof fn lemma_row_le_trans(a: MosaicRow, b: MosaicRow, c: MosaicRow)
    requires
        row_le(a, b),
        row_le(b, c),
    ensures
        row_le(a, c),
{
    if rank_of(a.risk@) == rank_of(b.risk@) && rank_of(b.risk@) == rank_of(c.risk@) {
        lemma_lex_trans(a.label@, b.label@, c.label@);
    }
}

fn row_le_exec(a: &MosaicRow, b: &MosaicRow) -> (r: bool)
    ensures
        r == row_le(*a, *b),
{
    let ra = risk_rank(a.risk);
    let rb = risk_rank(b.risk);
    ra < rb || (ra == rb && lex_le_exec(&chars_of(a.label.as_str()), &chars_of(b.label.as_str())))
}

/// Order rows most severe first, then alphabetically by label, keeping the
/// given order among rows with equal keys.
pub fn sort_rows(rows: Vec<MosaicRow>) -> (out: Vec<MosaicRow>)
    ensures
        rows_sorted(out@),
        out@.to_multiset() == rows@.to_multiset(),
{
    broadcast use vstd::seq_lib::group_to_multiset_ensures;

    let ghost input = rows@;
    let mut rows = rows;
    let mut out: Vec<MosaicRow> = Vec::new();
    let ghost mut taken: Seq<MosaicRow> = Seq::empty();
    while rows.len() > 0
        invariant
            input == taken + rows@,
            rows_sorted(out@),
            out@.to_multiset() == taken.to_multiset(),
        decreases rows.len(),
    {
        let r = rows.remove(0);
        let ghost prev = taken;
        proof {
            assert(input == taken.push(r) + rows@);
            taken = taken.push(r);
        }
        let mut p: usize = 0;
        while p < out.len() && row_le_exec(&out[p], &r)
            invariant
                p <= out.len(),
                forall|j: int| 0 <= j < p ==> row_le(#[trigger] out@[j], r),
            decreases out.len() - p,
        {
            p += 1;
        }
        proof {
            if p < out.len() {
                lemma_row_le_total(out@[p as int], r);
                assert(row_le(r, out@[p as int]));
            }
            let ghost old_out = out@;
            let ghost new_out = old_out.insert(p as int, r);
            assert forall|i: int, j: int| 0 <= i < j < new_out.len() implies row_le(
                #[trigger] new_out[i],
                #[trigger] new_out[j],
            ) by {
                if j < p {
                } else if i < p && j == p {
                } else if i < p && j > p {
                    assert(new_out[j] == old_out[j - 1]);
                } else if i == p {
                    assert(new_out[j] == old_out[j - 1]);
                    if j - 1 > p {
                        assert(row_le(old_out[p as int], old_out[j - 1]));
                        lemma_row_le_trans(r, old_out[p as int], old_out[j - 1]);
                    }
                } else {
                    assert(new_out[i] == old_out[i - 1]);
                    assert(new_out[j] == old_out[j - 1]);
                }
            }
        }
        let ghost old_out = out@;
        out.insert(p, r);
        proof {
            vstd::seq_lib::to_multiset_insert(old_out, p as int, r);
            vstd::seq_lib::to_multiset_build(prev, r);
        }
    }
    assert(taken =~= input);
    out
}

// ── HITL backlog per project ─────────────────────────────────────────────────

/// The HITL status that counts toward a project's backlog.
pub open spec fn awaiting(status: Seq<char>) -> bool {
    status == "awaiting_operator_resolution"@
}

/// How many of `tasks` (project, status) await the operator for `project`.
pub open spec fn awaiting_count(tasks: Seq<(Seq<char>, Seq<char>)>, project: Seq<char>) -> nat
    decreases tasks.len(),
{
    if tasks.len() == 0 {
        0
    } else {
        awaiting_count(tasks.drop_last(), project) + if tasks.last().0 == project && awaiting(
            tasks.last().1,
        ) {
            1nat
        } else {
            0nat
        }
    }
}

pub open spec fn task_views(tasks: Seq<(String, String)>) -> Seq<(Seq<char>, Seq<char>)> {
    tasks.map_values(|t: (String, String)| (t.0@, t.1@))
}

pub open spec fn tally_views(t: Seq<(String, u32)>) -> Seq<(Seq<char>, u32)> {
    t.map_values(|e: (String, u32)| (e.0@, e.1))
}

/// A tally with one entry per project, each with its awaiting count, and an
/// entry for exactly the projects that have awaiting tasks.
pub open spec fn is_tally_of(t: Seq<(Seq<char>, u32)>, tasks: Seq<(Seq<char>, Seq<char>)>) -> bool {
    &&& forall|i: int, j: int| 0 <= i < j < t.len() ==> #[trigger] t[i].0 != #[trigger] t[j].0
    &&& forall|i: int|
        0 <= i < t.len() ==> #[trigger] t[i].1 == awaiting_count(tasks, t[i].0) && t[i].1 > 0
    &&& forall|p: Seq<char>|
        #[trigger] awaiting_count(tasks, p) > 0 ==> exists|i: int| 0 <= i < t.len() && t[i].0 == p
}

fn slice_to_string(s: &String) -> (r: String)
    ensures
        r@ == s@,
{
    s.clone()
}

/// Tally the tasks (project, status) that await operator resolution, per project.
pub fn gather_hitl_by_project(tasks: &Vec<(String, String)>) -> (t: Vec<(String, u32)>)
    requires
        tasks.len() <= u32::MAX,
    ensures
        is_tally_of(tally_views(t@), task_views(tasks@)),
{
    let ghost tv = task_views(tasks@);
    let mut t: Vec<(String, u32)> = Vec::new();
    let mut k: usize = 0;
    while k < tasks.len()
        invariant
            k <= tasks.len() <= u32::MAX,
            tv == task_views(tasks@),
            is_tally_of(tally_views(t@), tv.take(k as int)),
            forall|i: int| 0 <= i < t.len() ==> #[trigger] t@[i].1 <= k,
        decreases tasks.len() - k,
    {
        let ghost before = tv.take(k as int);
        let ghost after = tv.take(k + 1);
        assert(after.drop_last() =~= before);
        assert(after.last() == tv[k as int]);
        assert(tv[k as int] == (tasks@[k as int].0@, tasks@[k as int].1@));
        let project = &tasks[k].0;
        let ghost proj: Seq<char> = project@;
        if str_eq(tasks[k].1.as_str(), "awaiting_operator_resolution") {
            let mut i: usize = 0;
            while i < t.len() && !str_eq(t[i].0.as_str(), project.as_str())
                invariant
                    i <= t.len(),
                    proj == project@,
                    forall|j: int| 0 <= j < i ==> (#[trigger] t@[j]).0@ != proj,
                decreases t.len() - i,
            {
                i += 1;
            }
            let ghost old_t = tally_views(t@);
            if i < t.len() {
                assert(t@[i as int].0@ == proj);
                let (name, c) = t.remove(i);
                assert(old_t[i as int] == (name@, c));
                assert(name@ == proj);
                assert(old_t[i as int].1 == c);
                assert(c == awaiting_count(before, proj));
                assert(c <= k);
                t.insert(i, (name, c + 1));
                proof {
                    let nt = tally_views(t@);
                    assert(nt =~= old_t.update(i as int, (proj, (c + 1) as u32)));
                    assert forall|q: Seq<char>| #[trigger] awaiting_count(after, q) > 0 implies exists|
                        j: int,
                    | 0 <= j < nt.len() && nt[j].0 == q by {
                        if q == proj {
                            assert(nt[i as int].0 == q);
                        } else {
                            assert(awaiting_count(before, q) > 0);
                            let j = choose|j: int| 0 <= j < old_t.len() && old_t[j].0 == q;
                            assert(nt[j].0 == q);
                        }
                    }
                    assert(after.last() == (proj, tasks@[k as int].1@));
                    assert(awaiting_count(after, proj) == awaiting_count(before, proj) + 1);
                    assert forall|j: int| 0 <= j < nt.len() implies #[trigger] nt[j].1
                        == awaiting_count(after, nt[j].0) && nt[j].1 > 0 by {
                        if j != i {
                            assert(old_t[j].0 != old_t[i as int].0);
                            assert(nt[j] == old_t[j]);
                            assert(awaiting_count(after, nt[j].0) == awaiting_count(before, nt[j].0));
                        }
                    }
                }
            } else {
                t.push((slice_to_string(project), 1));
                proof {
                    let nt = tally_views(t@);
                    assert(nt =~= old_t.push((proj, 1u32)));
                    assert(awaiting_count(before, proj) == 0) by {
                        if awaiting_count(before, proj) > 0 {
                            let j = choose|j: int| 0 <= j < old_t.len() && old_t[j].0 == proj;
                            assert(t@[j].0@ == proj);
                        }
                    }
                    assert forall|q: Seq<char>| #[trigger] awaiting_count(after, q) > 0 implies exists|
                        j: int,
                    | 0 <= j < nt.len() && nt[j].0 == q by {
                        if q == proj {
                            assert(nt[old_t.len() as int].0 == q);
                        } else {
                            assert(awaiting_count(before, q) > 0);
                            let j = choose|j: int| 0 <= j < old_t.len() && old_t[j].0 == q;
                            assert(nt[j].0 == q);
                        }
                    }
                    assert forall|a: int, b: int| 0 <= a < b < nt.len() implies #[trigger] nt[a].0
                        != #[trigger] nt[b].0 by {
                        if b == old_t.len() {
                            assert(t@[a].0@ == nt[a].0);
                        }
                    }
                }
            }
        } else {
            proof {
                assert forall|q: Seq<char>| awaiting_count(after, q) == awaiting_count(before, q) by {}
            }
        }
        k += 1;
    }
    assert(tv.take(tasks.len() as int) =~= tv);
    t
}

/// The shape of a project from its probes: a typed project (`Cargo.toml`,
/// `package.json` or `pyproject.toml`), a test directory (`tests/`,
/// `src/__tests__/` or `cypress/`), a README, an agent guide and a
/// findings directory.
pub fn shape_from_probes(
    cargo: bool,
    package_json: bool,
    pyproject: bool,
    tests_dir: bool,
    src_tests: bool,
    cypress: bool,
    readme: bool,
    agent_guide: bool,
    findings: bool,
) -> (s: ProjectShape)
    ensures
        s.has_typed_project == (cargo || package_json || pyproject),
        s.has_test_dir == (tests_dir || src_tests || cypress),
        s.has_readme == readme,
        s.has_claude_md == agent_guide,
        s.has_findings_dir == findings,
{
    ProjectShape {
        has_typed_project: cargo || package_json || pyproject,
        has_test_dir: tests_dir || src_tests || cypress,
        has_readme: readme,
        has_claude_md: agent_guide,
        has_findings_dir: findings,
    }
}

} // verus!
