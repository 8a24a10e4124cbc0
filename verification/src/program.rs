//! Program supervision: codename validation, the single program-run slot and
//! its lifecycle, and the wave/task matrix derived from a build plan.
use vstd::prelude::*;

use vstd::utf8::encode_utf8;

use crate::text::{alnum, chars_of, decimal, decimal_string, is_alnum, opt_chars, push_char};

verus! {

/// At most this many codenames per program.
pub const MAX_CODENAMES: usize = 10;

/// At most this many bytes per codename.
pub const MAX_CODENAME_LEN: usize = 50;

/// A codename: not empty, at most 50 bytes (as `str::len` counts them), only
/// ASCII letters, digits and `-`.
pub open spec fn valid_codename(s: Seq<char>) -> bool {
    s.len() > 0 && (encode_utf8(s).len() as usize) <= MAX_CODENAME_LEN && forall|i: int|
        0 <= i < s.len() ==> is_alnum(#[trigger] s[i]) || s[i] == '-'
}

/// Returns `true` iff the codename holds only `[a-zA-Z0-9-]` and fits the length bounds.
pub fn is_valid_codename(s: &str) -> (b: bool)
    ensures
        b == valid_codename(s@),
{
    if s.is_empty() || s.len() > MAX_CODENAME_LEN {
        return false;
    }
    let v = chars_of(s);
    let mut i: usize = 0;
    while i < v.len()
        invariant
            v@ == s@,
            s@.len() > 0 && s.len() <= MAX_CODENAME_LEN,
            i <= v.len(),
            forall|j: int| 0 <= j < i ==> is_alnum(#[trigger] v@[j]) || v@[j] == '-',
        decreases v.len() - i,
    {
        if !(alnum(v[i]) || v[i] == '-') {
            assert(!(is_alnum(s@[i as int]) || s@[i as int] == '-'));
            return false;
        }
        i += 1;
    }
    true
}

/// Why a codename list is refused, with the message the API answers.
pub open spec fn codenames_error(cs: Seq<String>) -> Option<Seq<char>> {
    if cs.len() == 0 {
        Some("codenames must not be empty"@)
    } else if cs.len() > MAX_CODENAMES {
        Some("at most 10 codenames per program"@)
    } else if exists|i: int| 0 <= i < cs.len() && !valid_codename(#[trigger] cs[i]@) {
        let i = choose|i: int|
            0 <= i < cs.len() && !valid_codename(#[trigger] cs[i]@) && forall|j: int|
                0 <= j < i ==> valid_codename(#[trigger] cs[j]@);
        Some(
            "invalid codename '"@ + cs[i]@ + "': only [a-zA-Z0-9-] allowed, max 50 chars"@,
        )
    } else {
        None
    }
}

/// Validate the codenames of a start or plan request: not empty, at most
/// ten, each a valid codename (the first invalid one is named).
pub fn validate_codenames(codenames: &Vec<String>) -> (r: Result<(), String>)
    ensures
        match r {
            Ok(_) => codenames_error(codenames@) is None,
            Err(m) => codenames_error(codenames@) == Some(m@),
        },
{
    if codenames.len() == 0 {
        return Err(String::from_str("codenames must not be empty"));
    }
    if codenames.len() > MAX_CODENAMES {
        return Err(String::from_str("at most 10 codenames per program"));
    }
    let mut i: usize = 0;
    while i < codenames.len()
        invariant
            0 < codenames.len() <= MAX_CODENAMES,
            i <= codenames.len(),
            forall|j: int| 0 <= j < i ==> valid_codename(#[trigger] codenames@[j]@),
        decreases codenames.len() - i,
    {
        if !is_valid_codename(codenames[i].as_str()) {
            let ghost cs = codenames@;
            proof {
                let k = choose|k: int|
                    0 <= k < cs.len() && !valid_codename(#[trigger] cs[k]@) && forall|j: int|
                        0 <= j < k ==> valid_codename(#[trigger] cs[j]@);
                assert(!valid_codename(cs[i as int]@));
                if k < i {
                    assert(valid_codename(cs[k]@));
                } else if k > i {
                    assert(valid_codename(cs[i as int]@));
                }
            }
            let m = String::from_str("invalid codename '").concat(codenames[i].as_str()).concat(
                "': only [a-zA-Z0-9-] allowed, max 50 chars",
            );
            return Err(m);
        }
        i += 1;
    }
    Ok(())
}

/// Lifecycle state of the current program run.
#[derive(Debug, Clone, Copy, PartialEq, Eq, Structural)]
pub enum ProgramState {
    Idle,
    Running,
    Completed,
    Cancelled,
}

/// In-memory state of one program run.
#[derive(Debug)]
pub struct ProgramRun {
    pub id: String,
    pub codenames: Vec<String>,
    pub current_idx: usize,
    pub state: ProgramState,
    pub auto_mode: bool,
}

/// Request body of a program start.
#[derive(Debug)]
pub struct StartProgramRequest {
    pub codenames: Vec<String>,
    pub auto_mode: bool,
}

/// Why a start is refused.
#[derive(Debug, Clone, PartialEq, Eq)]
pub enum StartError {
    /// The codename list is refused; the message names why.
    BadRequest(String),
    /// A program is already running.
    Conflict,
}

/// A program is running in the slot.
pub open spec fn running(slot: Option<ProgramRun>) -> bool {
    slot matches Some(run) && run.state == ProgramState::Running
}

/// Start a program: the codenames are validated first, a running program
/// refuses the start, and otherwise the slot holds a fresh running program
/// at its first codename.
pub fn start_program(slot: &mut Option<ProgramRun>, req: StartProgramRequest, id: String) -> (r:
    Result<(), StartError>)
    ensures
        codenames_error(req.codenames@) is Some ==> (r matches Err(StartError::BadRequest(m))
            && Some(m@) == codenames_error(req.codenames@)) && *final(slot) == *old(slot),
        codenames_error(req.codenames@) is None && running(*old(slot)) ==> r == Err::<
            (),
            StartError,
        >(StartError::Conflict) && *final(slot) == *old(slot),
        codenames_error(req.codenames@) is None && !running(*old(slot)) ==> r is Ok && *final(slot)
            == Some(
            ProgramRun {
                id,
                codenames: req.codenames,
                current_idx: 0,
                state: ProgramState::Running,
                auto_mode: req.auto_mode,
            },
        ),
{
    match validate_codenames(&req.codenames) {
        Err(m) => {
            return Err(StartError::BadRequest(m));
        },
        Ok(()) => {},
    }
    let busy = match slot {
        Some(run) => run.state == ProgramState::Running,
        None => false,
    };
    if busy {
        return Err(StartError::Conflict);
    }
    *slot = Some(
        ProgramRun {
            id,
            codenames: req.codenames,
            current_idx: 0,
            state: ProgramState::Running,
            auto_mode: req.auto_mode,
        },
    );
    Ok(())
}

/// Whether a cancellation signal is due: only a running program is signalled.
pub fn cancel_due(slot: &Option<ProgramRun>) -> (b: bool)
    ensures
        b == running(*slot),
{
    match slot {
        Some(run) => run.state == ProgramState::Running,
        None => false,
    }
}

/// Mark the program cancelled (no effect on an empty slot).
pub fn set_cancelled(slot: &mut Option<ProgramRun>)
    ensures
        match *old(slot) {
            Some(run) => *final(slot) == Some(ProgramRun { state: ProgramState::Cancelled, ..run }),
            None => *final(slot) is None,
        },
{
    if let Some(run) = slot {
        run.state = ProgramState::Cancelled;
    }
}

/// Mark the program completed (no effect on an empty slot).
pub fn set_completed(slot: &mut Option<ProgramRun>)
    ensures
        match *old(slot) {
            Some(run) => *final(slot) == Some(ProgramRun { state: ProgramState::Completed, ..run }),
            None => *final(slot) is None,
        },
{
    if let Some(run) = slot {
        run.state = ProgramState::Completed;
    }
}

/// Record which codename the run is processing.
pub fn set_current(slot: &mut Option<ProgramRun>, idx: usize)
    ensures
        match *old(slot) {
            Some(run) => *final(slot) == Some(ProgramRun { current_idx: idx, ..run }),
            None => *final(slot) is None,
        },
{
    if let Some(run) = slot {
        run.current_idx = idx;
    }
}

/// Response body of the status route.
#[derive(Debug)]
pub struct ProgramStatus {
    pub id: Option<String>,
    pub codenames: Vec<String>,
    pub current: Option<String>,
    pub state: ProgramState,
}

pub open spec fn string_views(v: Seq<String>) -> Seq<Seq<char>> {
    v.map_values(|s: String| s@)
}

fn clone_strings(v: &Vec<String>) -> (r: Vec<String>)
    ensures
        string_views(r@) == string_views(v@),
{
    let mut r: Vec<String> = Vec::new();
    let mut i: usize = 0;
    while i < v.len()
        invariant
            i <= v.len(),
            r.len() == i,
            string_views(r@) == string_views(v@).take(i as int),
        decreases v.len() - i,
    {
        let c = v[i].clone();
        assert(c@ == v@[i as int]@);
        let ghost old_r = r@;
        r.push(c);
        i += 1;
        assert forall|j: int| 0 <= j < i implies #[trigger] string_views(r@)[j] == string_views(
            v@,
        ).take(i as int)[j] by {
            if j < i - 1 {
                assert(r@[j] == old_r[j]);
                assert(string_views(old_r)[j] == string_views(v@).take(i - 1)[j]);
            }
        }
        assert(string_views(r@) =~= string_views(v@).take(i as int));
    }
    assert(string_views(v@).take(v.len() as int) =~= string_views(v@));
    r
}

/// The status of the slot: none while no program was started; otherwise the
/// run's id, codenames, the codename at its index (if in range) and state.
pub fn program_status(slot: &Option<ProgramRun>) -> (r: Option<ProgramStatus>)
    ensures
        r is None <==> slot is None,
        r is Some ==> {
            let st = r->0;
            let run = slot->0;
            &&& st.id matches Some(i) && i@ == run.id@
            &&& string_views(st.codenames@) == string_views(run.codenames@)
            &&& (run.current_idx < run.codenames.len() ==> (st.current matches Some(c) && c@
                == run.codenames@[run.current_idx as int]@))
            &&& (run.current_idx >= run.codenames.len() ==> st.current is None)
            &&& st.state == run.state
        },
{
    match slot {
        None => None,
        Some(run) => {
            let current = if run.current_idx < run.codenames.len() {
                Some(run.codenames[run.current_idx].clone())
            } else {
                None
            };
            Some(
                ProgramStatus {
                    id: Some(run.id.clone()),
                    codenames: clone_strings(&run.codenames),
                    current,
                    state: run.state,
                },
            )
        },
    }
}

// ── Plans as wave/task matrices ──────────────────────────────────────────────

/// A parsed build plan: per wave, the prompts of its tasks.
#[derive(Debug)]
pub struct PlanBuildSpec {
    pub codename: String,
    pub waves: Vec<Vec<String>>,
}

/// A single task of a wave.
#[derive(Debug)]
pub struct ProgramTaskSpec {
    /// `{codename}-wave{W}-task{T}`, counting from 1.
    pub id: String,
    pub prompt: String,
}

/// Per-codename wave/task matrix.
#[derive(Debug)]
pub struct ProgramBuildSpec {
    pub codename: String,
    pub waves: Vec<Vec<ProgramTaskSpec>>,
}

/// Request body of the plan route.
#[derive(Debug)]
pub struct PlanProgramRequest {
    pub codenames: Vec<String>,
}

/// Response body of the plan route.
#[derive(Debug)]
pub struct PlanProgramResponse {
    pub builds: Vec<ProgramBuildSpec>,
    pub warnings: Vec<String>,
}

/// The id of task `task` of wave `wave`: `{codename}-wave{wave}-task{task}`.
pub open spec fn task_id_of(codename: Seq<char>, wave: nat, task: nat) -> Seq<char> {
    codename + "-wave"@ + decimal(wave) + "-task"@ + decimal(task)
}

/// The id of a task, numbering waves and tasks from 1.
pub fn task_id(codename: &str, wave: u64, task: u64) -> (r: String)
    ensures
        r@ == task_id_of(codename@, wave as nat, task as nat),
{
    let w = decimal_string(wave);
    let t = decimal_string(task);
    String::from_str(codename).concat("-wave").concat(w.as_str()).concat("-task").concat(t.as_str())
}

/// Convert a plan into the route's wave/task matrix: the prompts are kept and
/// each task gets its id.
pub fn plan_build_spec_to_program(spec: PlanBuildSpec) -> (r: ProgramBuildSpec)
    requires
        spec.waves.len() < u64::MAX,
        forall|w: int| 0 <= w < spec.waves.len() ==> #[trigger] spec.waves@[w].len() < u64::MAX,
    ensures
        r.codename@ == spec.codename@,
        r.waves.len() == spec.waves.len(),
        forall|w: int|
            0 <= w < r.waves.len() ==> #[trigger] r.waves@[w].len() == spec.waves@[w].len(),
        forall|w: int, t: int|
            0 <= w < r.waves.len() && 0 <= t < r.waves@[w].len() ==> {
                &&& (#[trigger] r.waves@[w]@[t]).prompt@ == spec.waves@[w]@[t]@
                &&& r.waves@[w]@[t].id@ == task_id_of(spec.codename@, (w + 1) as nat, (t + 1) as nat)
            },
{
    let ghost old_waves = spec.waves@;
    let codename = spec.codename;
    let mut waves_in = spec.waves;
    let mut out: Vec<Vec<ProgramTaskSpec>> = Vec::new();
    let mut w: usize = 0;
    while waves_in.len() > 0
        invariant
            old_waves.len() < u64::MAX,
            forall|k: int| 0 <= k < old_waves.len() ==> #[trigger] old_waves[k].len() < u64::MAX,
            w == out.len(),
            old_waves.len() <= usize::MAX,
            w + waves_in.len() == old_waves.len(),
            waves_in@ == old_waves.skip(w as int),
            forall|k: int| 0 <= k < w ==> #[trigger] out@[k].len() == old_waves[k].len(),
            forall|k: int, t: int|
                0 <= k < w && 0 <= t < out@[k].len() ==> {
                    &&& (#[trigger] out@[k]@[t]).prompt@ == old_waves[k]@[t]@
                    &&& out@[k]@[t].id@ == task_id_of(codename@, (k + 1) as nat, (t + 1) as nat)
                },
        decreases waves_in.len(),
    {
        let mut tasks = waves_in.remove(0);
        let ghost old_tasks = tasks@;
        assert(old_tasks == old_waves[w as int]@);
        assert(old_waves[w as int].len() < u64::MAX);
        let mut row: Vec<ProgramTaskSpec> = Vec::new();
        let mut t: usize = 0;
        while tasks.len() > 0
            invariant
                old_tasks.len() < u64::MAX,
                w < old_waves.len() < u64::MAX,
                old_waves.len() <= usize::MAX,
                old_tasks.len() <= usize::MAX,
                t == row.len(),
                t + tasks.len() == old_tasks.len(),
                tasks@ == old_tasks.skip(t as int),
                forall|j: int|
                    0 <= j < t ==> {
                        &&& (#[trigger] row@[j]).prompt@ == old_tasks[j]@
                        &&& row@[j].id@ == task_id_of(codename@, (w + 1) as nat, (j + 1) as nat)
                    },
            decreases tasks.len(),
        {
            let prompt = tasks.remove(0);
            assert(prompt == old_tasks[t as int]);
            let id = task_id(codename.as_str(), (w + 1) as u64, (t + 1) as u64);
            row.push(ProgramTaskSpec { id, prompt });
            t += 1;
            assert(tasks@ =~= old_tasks.skip(t as int));
        }
        out.push(row);
        w += 1;
        assert(waves_in@ =~= old_waves.skip(w as int));
    }
    ProgramBuildSpec { codename, waves: out }
}


// ── Envelope summaries ───────────────────────────────────────────────────────

/// Pieces of text joined in order.
pub open spec fn join_all(parts: Seq<Seq<char>>) -> Seq<char>
    decreases parts.len(),
{
    if parts.len() == 0 {
        Seq::empty()
    } else {
        join_all(parts.drop_last()) + parts.last()
    }
}

/// The extended grapheme clusters of `s`, in order.
pub uninterp spec fn grapheme_clusters_of(s: Seq<char>) -> Seq<Seq<char>>;

/// `UnicodeSegmentation::graphemes(s, true)`, each cluster as a string.
/// Claimed of it: the result is a function of `s`, named
/// `grapheme_clusters_of`; no cluster is empty; and the clusters joined are
/// `s` (the crate's documentation: the iterator splits the text into its
/// clusters).
#[verifier::external_body]
fn grapheme_clusters(s: &str) -> (r: Vec<String>)
    ensures
        string_views(r@) == grapheme_clusters_of(s@),
        forall|i: int| 0 <= i < r@.len() ==> (#[trigger] r@[i])@.len() > 0,
        join_all(string_views(r@)) == s@,
{
    let mut out: Vec<String> = Vec::new();
    for g in unicode_segmentation::UnicodeSegmentation::graphemes(s, true) {
        out.push(g.to_string());
    }
    out
}

/// The first `n` extended grapheme clusters of `s`, concatenated.
pub open spec fn grapheme_prefix(s: Seq<char>, n: nat) -> Seq<char> {
    let c = grapheme_clusters_of(s);
    if n < c.len() {
        join_all(c.take(n as int))
    } else {
        join_all(c)
    }
}

/// Joining the first `k` pieces gives a prefix of joining them all.
proof fn lemma_join_prefix(parts: Seq<Seq<char>>, k: int)
    requires
        0 <= k <= parts.len(),
    ensures
        join_all(parts.take(k)) == join_all(parts).take(join_all(parts.take(k)).len() as int),
        join_all(parts.take(k)).len() <= join_all(parts).len(),
    decreases parts.len(),
{
    if k == parts.len() {
        assert(parts.take(k) =~= parts);
    } else {
        assert(parts.take(k) =~= parts.drop_last().take(k));
        lemma_join_prefix(parts.drop_last(), k);
        let j = join_all(parts.take(k));
        let a = join_all(parts.drop_last());
        assert(join_all(parts) == a + parts.last());
        assert((a + parts.last()).take(j.len() as int) =~= a.take(j.len() as int));
    }
}

/// Pieces none of which is empty join into at least one character each.
proof fn lemma_join_len(parts: Seq<Seq<char>>)
    requires
        forall|i: int| 0 <= i < parts.len() ==> (#[trigger] parts[i]).len() > 0,
    ensures
        join_all(parts).len() >= parts.len(),
    decreases parts.len(),
{
    if parts.len() > 0 {
        assert(parts.last() == parts[parts.len() - 1]);
        lemma_join_len(parts.drop_last());
    }
}

/// The first `n` clusters of a list, joined.
pub fn first_n_joined(clusters: &Vec<String>, n: usize) -> (r: String)
    ensures
        r@ == (if n < clusters@.len() {
            join_all(string_views(clusters@).take(n as int))
        } else {
            join_all(string_views(clusters@))
        }),
{
    let stop = if n < clusters.len() {
        n
    } else {
        clusters.len()
    };
    let mut r = String::new();
    let mut i: usize = 0;
    while i < stop
        invariant
            stop <= clusters.len(),
            i <= stop,
            r@ == join_all(string_views(clusters@).take(i as int)),
        decreases stop - i,
    {
        assert(string_views(clusters@).take(i + 1).drop_last() =~= string_views(clusters@).take(
            i as int,
        ));
        r = r.concat(clusters[i].as_str());
        i += 1;
    }
    assert(string_views(clusters@).take(clusters.len() as int) =~= string_views(clusters@));
    r
}

/// The first `n` extended grapheme clusters of `s`: a prefix of `s`, all of
/// it when `s` has at most `n` characters.
fn first_graphemes(s: &str, n: usize) -> (r: String)
    ensures
        r@ == grapheme_prefix(s@, n as nat),
        r@.len() <= s@.len(),
        r@ == s@.take(r@.len() as int),
        s@.len() <= n ==> r@ == s@,
{
    let clusters = grapheme_clusters(s);
    let r = first_n_joined(&clusters, n);
    proof {
        let c = string_views(clusters@);
        assert forall|i: int| 0 <= i < c.len() implies (#[trigger] c[i]).len() > 0 by {
            assert(c[i] == clusters@[i]@);
        }
        lemma_join_len(c);
        if n < c.len() {
            lemma_join_prefix(c, n as int);
        } else {
            assert(s@.take(s@.len() as int) =~= s@);
        }
    }
    r
}

/// Most grapheme clusters of an envelope's payload summary.
pub const MAX_SUMMARY_GRAPHEMES: usize = 200;

/// The payload summary of an envelope: the first 200 grapheme clusters.
pub fn payload_summary(summary: &str) -> (r: String)
    ensures
        r@ == grapheme_prefix(summary@, 200),
        r@ == summary@.take(r@.len() as int),
        summary@.len() <= 200 ==> r@ == summary@,
{
    first_graphemes(summary, MAX_SUMMARY_GRAPHEMES)
}

// ── The program manifest ────────────────────────────────────────────────────

/// The JSON text of the YAML document `text`, when it parses.
pub uninterp spec fn yaml_json_of(text: Seq<char>) -> Option<Seq<char>>;

/// `serde_yaml::from_str::<serde_yaml::Value>(text)`, the value then written
/// by `serde_json::to_string`.  Claimed of it: the result is a function of
/// the text, named `yaml_json_of`; none when the text does not parse (or the
/// value cannot be written as JSON).
#[verifier::external_body]
fn yaml_to_json(text: &str) -> (r: Option<String>)
    ensures
        opt_chars(r) == yaml_json_of(text@),
{
    match serde_yaml::from_str::<serde_yaml::Value>(text) {
        Ok(v) => serde_json::to_string(&v).ok(),
        Err(_) => None,
    }
}

/// What reading the manifest file gave.
#[derive(Debug, Clone, PartialEq, Eq)]
pub enum ManifestRead {
    /// The file's text.
    Text(String),
    /// No such file.
    NotFound,
    /// Any other read failure.
    Failed,
}

/// The answer to a manifest request: the status and the body.  A manifest
/// that parses is answered 200 with its JSON; one that does not, 500; a
/// missing file 404; any other read failure 500.
pub fn manifest_answer(read: ManifestRead) -> (r: (u16, String))
    ensures
        match read {
            ManifestRead::Text(t) => match yaml_json_of(t@) {
                Some(j) => r.0 == 200 && r.1@ == j,
                None => r.0 == 500 && r.1@ == "program manifest parse error"@,
            },
            ManifestRead::NotFound => r.0 == 404 && r.1@ == "program_manifest.yaml not found"@,
            ManifestRead::Failed => r.0 == 500 && r.1@ == "program manifest read error"@,
        },
{
    match read {
        ManifestRead::Text(t) => match yaml_to_json(t.as_str()) {
            Some(j) => (200, j),
            None => (500, String::from_str("program manifest parse error")),
        },
        ManifestRead::NotFound => (404, String::from_str("program_manifest.yaml not found")),
        ManifestRead::Failed => (500, String::from_str("program manifest read error")),
    }
}

} // verus!
