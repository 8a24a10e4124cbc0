//! Wave composer: agent presets, the task specs a wave becomes, and the
//! screening of codenames and worktree paths.
use vstd::prelude::*;

use crate::paths::{components, path_components};
use crate::text::{
    chars_of, decimal, decimal_string, is_digit, is_lower, lemma_lex_antisym, lemma_lex_total,
    lemma_lex_trans, lex_le, lex_le_exec, same_chars,
};

verus! {

/// Most agents per wave.
pub const MAX_AGENT_SLOTS: usize = 7;

/// Domain preset of an agent.
#[derive(Debug, Clone, Copy, PartialEq, Eq, Structural)]
pub enum CockpitPreset {
    Engineer,
    Security,
    Ops,
    Quality,
    Knowledge,
    Researcher,
    Testing,
}

/// The preset's key.
pub open spec fn preset_key(p: CockpitPreset) -> Seq<char> {
    match p {
        CockpitPreset::Engineer => "engineer"@,
        CockpitPreset::Security => "security"@,
        CockpitPreset::Ops => "ops"@,
        CockpitPreset::Quality => "quality"@,
        CockpitPreset::Knowledge => "knowledge"@,
        CockpitPreset::Researcher => "researcher"@,
        CockpitPreset::Testing => "testing"@,
    }
}

impl CockpitPreset {
    pub fn as_str(&self) -> (r: &'static str)
        ensures
            r@ == preset_key(*self),
    {
        match self {
            CockpitPreset::Engineer => "engineer",
            CockpitPreset::Security => "security",
            CockpitPreset::Ops => "ops",
            CockpitPreset::Quality => "quality",
            CockpitPreset::Knowledge => "knowledge",
            CockpitPreset::Researcher => "researcher",
            CockpitPreset::Testing => "testing",
        }
    }

    /// The canonical skill of the preset: `lightarchitects:<key>`; it is
    /// derived here so that a request cannot name a privileged skill.
    pub fn skill(&self) -> (r: &'static str)
        ensures
            r@ == "lightarchitects:"@ + preset_key(*self),
    {
        proof {
            reveal_strlit("lightarchitects:");
            reveal_strlit("lightarchitects:engineer");
            reveal_strlit("lightarchitects:security");
            reveal_strlit("lightarchitects:ops");
            reveal_strlit("lightarchitects:quality");
            reveal_strlit("lightarchitects:knowledge");
            reveal_strlit("lightarchitects:researcher");
            reveal_strlit("lightarchitects:testing");
            reveal_strlit("engineer");
            reveal_strlit("security");
            reveal_strlit("ops");
            reveal_strlit("quality");
            reveal_strlit("knowledge");
            reveal_strlit("researcher");
            reveal_strlit("testing");
        }
        let r = match self {
            CockpitPreset::Engineer => "lightarchitects:engineer",
            CockpitPreset::Security => "lightarchitects:security",
            CockpitPreset::Ops => "lightarchitects:ops",
            CockpitPreset::Quality => "lightarchitects:quality",
            CockpitPreset::Knowledge => "lightarchitects:knowledge",
            CockpitPreset::Researcher => "lightarchitects:researcher",
            CockpitPreset::Testing => "lightarchitects:testing",
        };
        assert(r@ =~= "lightarchitects:"@ + preset_key(*self));
        r
    }
}

/// Target entity of a wave.
#[derive(Debug, Clone)]
pub struct CockpitTargetPayload {
    pub target_type: String,
    pub id: String,
    pub label: String,
}

/// One agent assignment.
#[derive(Debug, Clone)]
pub struct AgentAssignmentPayload {
    pub preset: CockpitPreset,
    /// The skill the request names; never used in a prompt.
    pub skill: String,
    pub task_description: String,
    pub file_ownership: Vec<String>,
}

/// Request body of the wave composer.
#[derive(Debug, Clone)]
pub struct WaveComposerRequest {
    pub codename: String,
    pub agents: Vec<AgentAssignmentPayload>,
    pub target: CockpitTargetPayload,
    pub worktree: String,
}

/// Response body of the wave composer.
#[derive(Debug, Clone)]
pub struct WaveComposerResponse {
    pub wave_id: String,
    pub build_id: String,
    pub agent_count: usize,
    pub estimated_start_ms: u64,
}

/// A task handed to the wave runner.
#[derive(Debug, Clone)]
pub struct TaskSpec {
    pub id: String,
    pub prompt: String,
    pub depends_on: Vec<String>,
    pub file_ownership: Vec<String>,
    pub concurrency_safe: bool,
}

// ── File ownership lists ────────────────────────────────────────────────────

pub open spec fn str_views(v: Seq<String>) -> Seq<Seq<char>> {
    v.map_values(|s: String| s@)
}

/// Strictly increasing in lexicographic order (so without repeats).
pub open spec fn strictly_sorted(s: Seq<Seq<char>>) -> bool {
    forall|i: int, j: int| 0 <= i < j < s.len() ==> lex_le(#[trigger] s[i], #[trigger] s[j]) && s[i] != s[j]
}

/// The paths sorted and without repeats (`sort_unstable` then `dedup`): the
/// same set, strictly increasing.
pub fn sorted_unique(paths: &Vec<String>) -> (r: Vec<String>)
    ensures
        strictly_sorted(str_views(r@)),
        forall|x: Seq<char>| str_views(r@).contains(x) <==> str_views(paths@).contains(x),
{
    let mut r: Vec<String> = Vec::new();
    let mut k: usize = 0;
    while k < paths.len()
        invariant
            k <= paths.len(),
            strictly_sorted(str_views(r@)),
            forall|x: Seq<char>| str_views(r@).contains(x) <==> str_views(paths@.take(k as int)).contains(x),
        decreases paths.len() - k,
    {
        let p = &paths[k];
        let pv = chars_of(p.as_str());
        let ghost rv = str_views(r@);
        let mut pos: usize = 0;
        let mut dup = false;
        while pos < r.len() && !dup && !lex_le_exec(&pv, &chars_of(r[pos].as_str()))
            invariant
                pos <= r.len(),
                rv == str_views(r@),
                !dup,
                forall|j: int| 0 <= j < pos ==> lex_le(#[trigger] rv[j], pv@) && rv[j] != pv@,
            decreases r.len() - pos,
        {
            proof {
                lemma_lex_total(pv@, rv[pos as int]);
            }
            pos += 1;
        }
        assert(str_views(paths@.take(k + 1)) =~= str_views(paths@.take(k as int)).push(p@));
        if pos < r.len() && str_eq_string(&r[pos], p) {
            dup = true;
        }
        if !dup {
            proof {
                if pos < r.len() {
                    assert(lex_le(pv@, rv[pos as int]));
                }
            }
            let ghost old_r = str_views(r@);
            r.insert(pos, p.clone());
            proof {
                let nr = str_views(r@);
                assert(nr =~= old_r.insert(pos as int, p@));
                assert forall|i: int, j: int| 0 <= i < j < nr.len() implies lex_le(#[trigger] nr[i], #[trigger] nr[j]) && nr[i] != nr[j] by {
                    if j < pos {
                    } else if i < pos && j == pos {
                    } else if i < pos && j > pos {
                        assert(nr[j] == old_r[j - 1]);
                        assert(nr[i] == old_r[i]);
                    } else if i == pos {
                        assert(nr[j] == old_r[j - 1]);
                        if j - 1 > pos {
                            lemma_lex_trans(pv@, old_r[pos as int], old_r[j - 1]);
                            if pv@ == old_r[j - 1] {
                                lemma_lex_antisym(old_r[pos as int], pv@);
                            }
                        }
                    } else {
                        assert(nr[i] == old_r[i - 1]);
                        assert(nr[j] == old_r[j - 1]);
                    }
                }
                assert forall|x: Seq<char>| nr.contains(x) <==> (old_r.contains(x) || x == p@) by {
                    if nr.contains(x) {
                        let i = choose|i: int| 0 <= i < nr.len() && nr[i] == x;
                        if i < pos {
                            assert(old_r[i] == x);
                        } else if i > pos {
                            assert(old_r[i - 1] == x);
                        }
                    }
                    if old_r.contains(x) {
                        let i = choose|i: int| 0 <= i < old_r.len() && old_r[i] == x;
                        if i < pos {
                            assert(nr[i] == x);
                        } else {
                            assert(nr[i + 1] == x);
                        }
                    }
                    if x == p@ {
                        assert(nr[pos as int] == x);
                    }
                }
            }
        } else {
            proof {
                assert(rv[pos as int] == p@);
            }
        }
        proof {
            let pk = str_views(paths@.take(k + 1));
            assert forall|x: Seq<char>| pk.contains(x) <==> (str_views(paths@.take(k as int)).contains(x) || x == p@) by {
                let pk0 = str_views(paths@.take(k as int));
                if pk.contains(x) {
                    let i = choose|i: int| 0 <= i < pk.len() && pk[i] == x;
                    if i < k {
                        assert(pk0[i] == x);
                    }
                }
                if pk0.contains(x) {
                    let i = choose|i: int| 0 <= i < pk0.len() && pk0[i] == x;
                    assert(pk[i] == x);
                }
                if x == p@ {
                    assert(pk[k as int] == x);
                }
            }
        }
        k += 1;
    }
    assert(paths@.take(paths.len() as int) =~= paths@);
    r
}

fn str_eq_string(a: &String, b: &String) -> (r: bool)
    ensures
        r == (a@ == b@),
{
    *a == *b
}


// ── Task specs ──────────────────────────────────────────────────────────────

/// The git-context preamble of every prompt of a wave.
pub open spec fn git_preamble(req: WaveComposerRequest) -> Seq<char> {
    "Git context: codename="@ + req.codename@ + ", target="@ + req.target.target_type@ + ":"@
        + req.target.id@ + " ("@ + req.target.label@ + "), branch=feat/"@ + req.codename@
        + ".\n\n"@
}

/// The prompt of an agent: its preset and the preset's skill, the preamble,
/// then the task description.
pub open spec fn task_prompt(req: WaveComposerRequest, a: AgentAssignmentPayload) -> Seq<char> {
    "[preset:"@ + preset_key(a.preset) + "] [skill:"@ + "lightarchitects:"@ + preset_key(a.preset)
        + "]\n"@ + git_preamble(req) + a.task_description@
}

/// The id of the `i`-th agent's task: `wc-<preset>-<i>`.
pub open spec fn task_id_of(p: CockpitPreset, i: nat) -> Seq<char> {
    "wc-"@ + preset_key(p) + "-"@ + decimal(i)
}

fn preamble(req: &WaveComposerRequest) -> (r: String)
    ensures
        r@ == git_preamble(*req),
{
    String::from_str("Git context: codename=").concat(req.codename.as_str()).concat(", target=").concat(
        req.target.target_type.as_str(),
    ).concat(":").concat(req.target.id.as_str()).concat(" (").concat(req.target.label.as_str()).concat(
        "), branch=feat/",
    ).concat(req.codename.as_str()).concat(".\n\n")
}

/// Translate the agent assignments into task specs, one per agent in order:
/// a stable id, the prompt, no dependencies, and the agent's files sorted
/// without repeats.
pub fn build_task_specs(body: &WaveComposerRequest) -> (specs: Vec<TaskSpec>)
    requires
        body.agents.len() <= u64::MAX,
    ensures
        specs.len() == body.agents.len(),
        forall|i: int|
            0 <= i < specs.len() ==> {
                let t = #[trigger] specs@[i];
                let a = body.agents@[i];
                &&& t.id@ == task_id_of(a.preset, i as nat)
                &&& t.prompt@ == task_prompt(*body, a)
                &&& t.depends_on@.len() == 0
                &&& strictly_sorted(str_views(t.file_ownership@))
                &&& forall|x: Seq<char>| str_views(t.file_ownership@).contains(x) <==> str_views(a.file_ownership@).contains(x)
                &&& !t.concurrency_safe
            },
{
    let mut specs: Vec<TaskSpec> = Vec::new();
    let mut i: usize = 0;
    while i < body.agents.len()
        invariant
            i <= body.agents.len() <= u64::MAX,
            specs.len() == i,
            forall|k: int|
                0 <= k < i ==> {
                    let t = #[trigger] specs@[k];
                    let a = body.agents@[k];
                    &&& t.id@ == task_id_of(a.preset, k as nat)
                    &&& t.prompt@ == task_prompt(*body, a)
                    &&& t.depends_on@.len() == 0
                    &&& strictly_sorted(str_views(t.file_ownership@))
                    &&& forall|x: Seq<char>| str_views(t.file_ownership@).contains(x) <==> str_views(a.file_ownership@).contains(x)
                    &&& !t.concurrency_safe
                },
        decreases body.agents.len() - i,
    {
        let a = &body.agents[i];
        let key = a.preset.as_str();
        let skill = a.preset.skill();
        let prompt = String::from_str("[preset:").concat(key).concat("] [skill:").concat(skill).concat(
            "]\n",
        ).concat(preamble(body).as_str()).concat(a.task_description.as_str());
        assert(prompt@ =~= task_prompt(*body, *a));
        let id = String::from_str("wc-").concat(key).concat("-").concat(decimal_string(i as u64).as_str());
        let files = sorted_unique(&a.file_ownership);
        specs.push(
            TaskSpec { id, prompt, depends_on: Vec::new(), file_ownership: files, concurrency_safe: false },
        );
        i += 1;
    }
    specs
}


// ── Screening ───────────────────────────────────────────────────────────────

/// The language of `^[a-z0-9][a-z0-9\-]{2,63}$`: 3 to 64 characters, the
/// first a lowercase ASCII letter or digit, the others also `-`.
pub open spec fn codename_slug(s: Seq<char>) -> bool {
    3 <= s.len() <= 64 && (is_digit(s[0]) || is_lower(s[0])) && forall|i: int|
        1 <= i < s.len() ==> is_digit(#[trigger] s[i]) || is_lower(s[i]) || s[i] == '-'
}

/// `Regex::new(r"^[a-z0-9][a-z0-9\-]{2,63}$")` matched against `s`.
/// Claimed of it: it matches exactly the strings of that language (the
/// pattern is anchored at both ends and its classes are ASCII ranges).
#[verifier::external_body]
fn codename_pattern_matches(s: &str) -> (r: bool)
    ensures
        r == codename_slug(s@),
{
    match regex::Regex::new(r"^[a-z0-9][a-z0-9\-]{2,63}$") {
        Ok(re) => re.is_match(s),
        Err(_) => false,
    }
}

/// A build codename that may become part of a branch name.
pub fn is_valid_wave_codename(codename: &str) -> (b: bool)
    ensures
        b == codename_slug(codename@),
{
    codename_pattern_matches(codename)
}

/// Why a wave request is refused: an error key and a detail.
#[derive(Debug, Clone, PartialEq, Eq)]
pub struct WaveRefusal {
    pub error: &'static str,
    pub detail: String,
}

/// Screen a wave request before anything is dispatched: one to seven agents
/// and a valid codename.
pub fn validate_wave_request(body: &WaveComposerRequest) -> (r: Result<(), WaveRefusal>)
    ensures
        body.agents.len() == 0 ==> (r matches Err(w) && w.error@ == "no_agents"@ && w.detail@
            == "at least one agent required"@),
        body.agents.len() > MAX_AGENT_SLOTS ==> (r matches Err(w) && w.error@ == "too_many_agents"@
            && w.detail@ == "agent_count "@ + decimal(body.agents.len() as nat) + " exceeds max 7"@),
        0 < body.agents.len() <= MAX_AGENT_SLOTS && !codename_slug(body.codename@) ==> (r matches Err(
            w,
        ) && w.error@ == "invalid_codename"@ && w.detail@
            == "codename must be 3-64 lowercase alphanumeric or hyphen characters"@),
        0 < body.agents.len() <= MAX_AGENT_SLOTS && codename_slug(body.codename@) ==> r is Ok,
{
    let n = body.agents.len();
    if n == 0 {
        return Err(
            WaveRefusal { error: "no_agents", detail: String::from_str("at least one agent required") },
        );
    }
    if n > MAX_AGENT_SLOTS {
        let detail = String::from_str("agent_count ").concat(decimal_string(n as u64).as_str()).concat(
            " exceeds max 7",
        );
        return Err(WaveRefusal { error: "too_many_agents", detail });
    }
    if !is_valid_wave_codename(body.codename.as_str()) {
        return Err(
            WaveRefusal {
                error: "invalid_codename",
                detail: String::from_str(
                    "codename must be 3-64 lowercase alphanumeric or hyphen characters",
                ),
            },
        );
    }
    Ok(())
}

/// `base`'s components are the first components of `p` (`Path::starts_with`).
pub open spec fn path_prefix(p: Seq<char>, base: Seq<char>) -> bool {
    let a = components(p);
    let b = components(base);
    b.len() <= a.len() && a.subrange(0, b.len() as int) == b
}

/// Whether `p` starts with `base`, comparing whole components.
pub fn path_starts_with(p: &str, base: &str) -> (r: bool)
    ensures
        r == path_prefix(p@, base@),
{
    let a = path_components(p);
    let b = path_components(base);
    if b.len() > a.len() {
        return false;
    }
    let mut i: usize = 0;
    while i < b.len()
        invariant
            i <= b.len() <= a.len(),
            a.len() == components(p@).len(),
            b.len() == components(base@).len(),
            forall|k: int| 0 <= k < a.len() ==> #[trigger] a[k]@ == components(p@)[k],
            forall|k: int| 0 <= k < b.len() ==> #[trigger] b[k]@ == components(base@)[k],
            forall|k: int| 0 <= k < i ==> components(p@)[k] == #[trigger] components(base@)[k],
        decreases b.len() - i,
    {
        if !same_chars(&a[i], &b[i]) {
            assert(components(p@).subrange(0, b.len() as int)[i as int] != components(base@)[i as int]);
            return false;
        }
        i += 1;
    }
    assert(components(p@).subrange(0, b.len() as int) =~= components(base@));
    true
}

/// The shape a worktree path must have: absolute, without a `..` component.
pub open spec fn worktree_shape_error(w: Seq<char>) -> Option<Seq<char>> {
    if !(w.len() > 0 && w[0] == '/') {
        Some("worktree must be an absolute path"@)
    } else if components(w).contains(".."@) {
        Some("worktree path must not contain '..' components"@)
    } else {
        None
    }
}

/// The canonical roots a worktree may resolve under: the home directory (when
/// set), `/tmp`, `/private/tmp`, `/var/folders`, `/private/var/folders`.
pub open spec fn permitted_root(canon: Seq<char>, home: Seq<char>, home_canon: Seq<char>) -> bool {
    (home.len() > 0 && path_prefix(canon, home_canon)) || path_prefix(canon, "/tmp"@) || path_prefix(
        canon,
        "/private/tmp"@,
    ) || path_prefix(canon, "/var/folders"@) || path_prefix(canon, "/private/var/folders"@)
}

fn has_parent_component(p: &str) -> (r: bool)
    ensures
        r == components(p@).contains(".."@),
{
    let cs = path_components(p);
    let mut i: usize = 0;
    let dots = vec!['.', '.'];
    proof {
        reveal_strlit("..");
        assert(dots@ =~= ".."@);
    }
    while i < cs.len()
        invariant
            i <= cs.len() == components(p@).len(),
            dots@ == ".."@,
            forall|k: int| 0 <= k < cs.len() ==> #[trigger] cs[k]@ == components(p@)[k],
            forall|k: int| 0 <= k < i ==> components(p@)[k] != ".."@,
        decreases cs.len() - i,
    {
        if same_chars(&cs[i], &dots) {
            assert(components(p@)[i as int] == ".."@);
            return true;
        }
        i += 1;
    }
    false
}

/// Validate an operator-supplied worktree path.  `canon` is the canonical
/// form of its nearest existing ancestor (none when no ancestor resolves),
/// `home` the home directory and `home_canon` its canonical form: a resolved
/// ancestor must lie under a permitted root.
pub fn validate_worktree_path(worktree: &str, canon: Option<&str>, home: &str, home_canon: &str) -> (r:
    Result<String, &'static str>)
    ensures
        worktree_shape_error(worktree@) is Some ==> (r matches Err(m) && Some(m@)
            == worktree_shape_error(worktree@)),
        worktree_shape_error(worktree@) is None ==> match canon {
            Some(c) => if permitted_root(c@, home@, home_canon@) {
                r matches Ok(p) && p@ == worktree@
            } else {
                r matches Err(m) && m@ == "worktree path resolves outside permitted roots"@
            },
            None => r matches Ok(p) && p@ == worktree@,
        },
{
    let w = chars_of(worktree);
    if !(w.len() > 0 && w[0] == '/') {
        return Err("worktree must be an absolute path");
    }
    if has_parent_component(worktree) {
        return Err("worktree path must not contain '..' components");
    }
    if let Some(c) = canon {
        let safe = (!home.is_empty() && path_starts_with(c, home_canon)) || path_starts_with(c, "/tmp")
            || path_starts_with(c, "/private/tmp") || path_starts_with(c, "/var/folders")
            || path_starts_with(c, "/private/var/folders");
        if !safe {
            return Err("worktree path resolves outside permitted roots");
        }
    }
    Ok(String::from_str(worktree))
}

// ── Ownership gate ──────────────────────────────────────────────────────────

/// `t` claims the file `f`.
pub open spec fn owns(t: TaskSpec, f: Seq<char>) -> bool {
    str_views(t.file_ownership@).contains(f)
}

/// No file is claimed by two tasks of the wave.
pub open spec fn ownership_disjoint(s: Seq<TaskSpec>) -> bool {
    forall|i: int, j: int, f: Seq<char>|
        0 <= i < j < s.len() ==> !(#[trigger] owns(s[i], f) && #[trigger] owns(s[j], f))
}

/// The first conflict in task order is file `k` of task `j` with task `i`:
/// no two tasks before `j` share a file, no earlier file of task `j` is
/// owned by a task before it, and `i` is the first task before `j` that
/// owns that file.
pub open spec fn first_conflict(s: Seq<TaskSpec>, i: int, j: int, k: int) -> bool {
    let files = str_views(s[j].file_ownership@);
    &&& 0 <= i < j < s.len()
    &&& 0 <= k < files.len()
    &&& owns(s[i], files[k])
    &&& forall|a: int| 0 <= a < i ==> !#[trigger] owns(s[a], files[k])
    &&& forall|a: int, m: int| 0 <= a < j && 0 <= m < k ==> !#[trigger] owns(s[a], files[m])
    &&& forall|a: int, b: int, f: Seq<char>|
        0 <= a < b < j ==> !(#[trigger] owns(s[a], f) && #[trigger] owns(s[b], f))
}

/// The detail of a conflict: the file and the two tasks that claim it.
pub open spec fn conflict_detail(f: Seq<char>, a: Seq<char>, b: Seq<char>) -> Seq<char> {
    "file '"@ + f + "' claimed by tasks [\""@ + a + "\", \""@ + b + "\"]"@
}

fn owns_exec(files: &Vec<String>, f: &String) -> (b: bool)
    ensures
        b == str_views(files@).contains(f@),
{
    let mut k: usize = 0;
    while k < files.len()
        invariant
            k <= files.len(),
            forall|m: int| 0 <= m < k ==> files@[m]@ != f@,
        decreases files.len() - k,
    {
        if str_eq_string(&files[k], f) {
            assert(str_views(files@)[k as int] == f@);
            return true;
        }
        k += 1;
    }
    proof {
        if str_views(files@).contains(f@) {
            let m = choose|m: int| 0 <= m < str_views(files@).len() && str_views(files@)[m] == f@;
            assert(files@[m]@ == f@);
        }
    }
    false
}

/// Ownership check of a wave, before any worktree exists: tasks that share
/// a file are refused as an ownership conflict, which names the first such
/// file (in task order) that an earlier task already owns, and both tasks.
pub fn ownership_gate(specs: &Vec<TaskSpec>) -> (r: Result<(), WaveRefusal>)
    ensures
        r is Ok <==> ownership_disjoint(specs@),
        r matches Err(w) ==> w.error@ == "ownership_conflict"@ && exists|i: int, j: int, f: Seq<char>|
            0 <= i < j < specs@.len() && #[trigger] owns(specs@[i], f) && #[trigger] owns(specs@[j], f)
                && w.detail@ == conflict_detail(f, specs@[i].id@, specs@[j].id@),
        r matches Err(w) ==> exists|i: int, j: int, k: int|
            #[trigger] first_conflict(specs@, i, j, k) && w.detail@ == conflict_detail(
                str_views(specs@[j].file_ownership@)[k],
                specs@[i].id@,
                specs@[j].id@,
            ),
{
    let mut j: usize = 0;
    while j < specs.len()
        invariant
            j <= specs.len(),
            forall|a: int, b: int, f: Seq<char>|
                0 <= a < b < j ==> !(#[trigger] owns(specs@[a], f) && #[trigger] owns(specs@[b], f)),
        decreases specs.len() - j,
    {
        let files = &specs[j].file_ownership;
        let mut k: usize = 0;
        while k < files.len()
            invariant
                j < specs.len(),
                *files == specs@[j as int].file_ownership,
                k <= files.len(),
                forall|a: int, b: int, f: Seq<char>|
                    0 <= a < b < j ==> !(#[trigger] owns(specs@[a], f) && #[trigger] owns(specs@[b], f)),
                forall|a: int, m: int|
                    0 <= a < j && 0 <= m < k ==> !#[trigger] owns(specs@[a], files@[m]@),
            decreases files.len() - k,
        {
            let f = &files[k];
            let mut i: usize = 0;
            while i < j
                invariant
                    j < specs.len(),
                    *files == specs@[j as int].file_ownership,
                    k < files.len(),
                    *f == files@[k as int],
                    i <= j,
                    forall|a: int| 0 <= a < i ==> !owns(#[trigger] specs@[a], f@),
                    forall|a: int, b: int, g: Seq<char>|
                        0 <= a < b < j ==> !(#[trigger] owns(specs@[a], g) && #[trigger] owns(specs@[b], g)),
                    forall|a: int, m: int|
                        0 <= a < j && 0 <= m < k ==> !#[trigger] owns(specs@[a], files@[m]@),
                decreases j - i,
            {
                if owns_exec(&specs[i].file_ownership, f) {
                    let detail = String::from_str("file '").concat(f.as_str()).concat(
                        "' claimed by tasks [\"",
                    ).concat(specs[i].id.as_str()).concat("\", \"").concat(
                        specs[j].id.as_str(),
                    ).concat("\"]");
                    proof {
                        assert(str_views(files@)[k as int] == f@);
                        assert(owns(specs@[j as int], f@));
                        assert(owns(specs@[i as int], f@));
                        let sv = str_views(specs@[j as int].file_ownership@);
                        assert(sv[k as int] == f@);
                        assert forall|a: int, m: int| 0 <= a < j && 0 <= m < k implies !#[trigger] owns(
                            specs@[a],
                            sv[m],
                        ) by {
                            assert(sv[m] == files@[m]@);
                        }
                        assert forall|a: int| 0 <= a < i implies !#[trigger] owns(specs@[a], sv[k as int]) by {
                            assert(!owns(specs@[a], f@));
                        }
                        assert(first_conflict(specs@, i as int, j as int, k as int));
                    }
                    return Err(WaveRefusal { error: "ownership_conflict", detail });
                }
                i += 1;
            }
            k += 1;
        }
        proof {
            assert forall|a: int, b: int, f: Seq<char>|
                0 <= a < b < j + 1 implies !(#[trigger] owns(specs@[a], f) && #[trigger] owns(
                    specs@[b],
                    f,
                )) by {
                if b == j && owns(specs@[a], f) && owns(specs@[b], f) {
                    let m = choose|m: int|
                        0 <= m < str_views(files@).len() && str_views(files@)[m] == f;
                    assert(files@[m]@ == f);
                }
            }
        }
        j += 1;
    }
    Ok(())
}

/// A worktree path with a `..` component is always refused, whatever else
/// it holds.
pub proof fn dotdot_worktree_refused(w: Seq<char>)
    requires
        components(w).contains(".."@),
    ensures
        worktree_shape_error(w) is Some,
{
}

} // verus!
