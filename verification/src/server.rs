//! Server plumbing decisions: the walk behind file autocomplete, the port
//! retry on start-up, the preflight refresh throttle and the one-time
//! auth nonces.
use vstd::prelude::*;

use crate::text::{chars_of, has_prefix, str_eq};
use crate::think::{find_from, find_seq};

verus! {

// ── File autocomplete walk ──────────────────────────────────────────────────

/// Deepest directory level the walk reads (the root is level 0).
pub const MAX_WALK_DEPTH: usize = 5;

/// Most paths the walk returns.
pub const MAX_WALK_RESULTS: usize = 50;

/// Directory names the walk never enters.
pub open spec fn skipped_dir(name: Seq<char>) -> bool {
    name == "target"@ || name == "node_modules"@ || name == ".git"@ || name == ".svelte-kit"@
        || name == "dist"@ || name == "__pycache__"@ || name == ".cargo"@ || name == "build"@
        || name == "out"@
}

fn is_skipped_dir(name: &str) -> (b: bool)
    ensures
        b == skipped_dir(name@),
{
    str_eq(name, "target") || str_eq(name, "node_modules") || str_eq(name, ".git") || str_eq(
        name,
        ".svelte-kit",
    ) || str_eq(name, "dist") || str_eq(name, "__pycache__") || str_eq(name, ".cargo") || str_eq(
        name,
        "build",
    ) || str_eq(name, "out")
}

/// The lowercase form of a text, as `str::to_lowercase` gives it.
pub uninterp spec fn lowercase_of(s: Seq<char>) -> Seq<char>;

/// `str::to_lowercase`.  Claimed of it: the result is a function of the
/// text alone, named `lowercase_of`.
#[verifier::external_body]
fn to_lowercase(s: &str) -> (r: String)
    ensures
        r@ == lowercase_of(s@),
{
    s.to_lowercase()
}

/// The query of an autocomplete request, lowercased (empty when absent).
pub fn walk_query(q: Option<&str>) -> (r: String)
    ensures
        r@ == match q {
            Some(s) => lowercase_of(s@),
            None => Seq::empty(),
        },
{
    match q {
        Some(s) => to_lowercase(s),
        None => String::new(),
    }
}

/// A file name matches the (lowercased) query: the query is empty or
/// occurs in the lowercased name.
pub open spec fn name_matches(name: Seq<char>, query: Seq<char>) -> bool {
    query.len() == 0 || find_from(lowercase_of(name), query, 0) is Some
}

/// A breadth-first walk of a directory tree for autocomplete, driven by a
/// caller that reads the directories.
#[derive(Debug)]
pub struct FileWalk {
    queue: Vec<(String, usize)>,
    results: Vec<String>,
    query: String,
    done: bool,
}

pub open spec fn queue_view(q: Seq<(String, usize)>) -> Seq<(Seq<char>, usize)> {
    q.map_values(|p: (String, usize)| (p.0@, p.1))
}

pub open spec fn str_views(v: Seq<String>) -> Seq<Seq<char>> {
    v.map_values(|s: String| s@)
}

impl FileWalk {
    pub closed spec fn pending(&self) -> Seq<(Seq<char>, usize)> {
        queue_view(self.queue@)
    }

    pub closed spec fn found(&self) -> Seq<Seq<char>> {
        str_views(self.results@)
    }

    pub closed spec fn query_text(&self) -> Seq<char> {
        self.query@
    }

    pub closed spec fn finished(&self) -> bool {
        self.done
    }

    /// A walk of `root` for files whose names hold `query` (lowercased).
    pub fn new(root: String, query: String) -> (w: Self)
        ensures
            w.pending() == seq![(root@, 0usize)],
            w.found() == Seq::<Seq<char>>::empty(),
            w.query_text() == query@,
            !w.finished(),
    {
        let w = FileWalk { queue: vec![(root, 0)], results: Vec::new(), query, done: false };
        assert(w.pending() =~= seq![(w.queue@[0].0@, 0usize)]);
        assert(w.found() =~= Seq::<Seq<char>>::empty());
        w
    }

    /// Whether fifty paths were found.
    pub fn is_finished(&self) -> (b: bool)
        ensures
            b == self.finished(),
    {
        self.done
    }

    /// The paths found, relative to the root, in the order found.
    pub fn results(self) -> (r: Vec<String>)
        ensures
            str_views(r@) == self.found(),
    {
        self.results
    }

    /// `after` is `before` past its first entry at level five or less,
    /// which is `(d, k)`, every entry ahead of it being deeper.
    pub open spec fn dropped_until(
        before: Seq<(Seq<char>, usize)>,
        after: Seq<(Seq<char>, usize)>,
        d: Seq<char>,
        k: usize,
    ) -> bool {
        exists|i: int|
            0 <= i < before.len() && before[i] == (d, k) && (forall|j: int|
                0 <= j < i ==> (#[trigger] before[j]).1 > MAX_WALK_DEPTH) && after == before.skip(i + 1)
    }

    /// The next directory to read with its level: the front of the queue,
    /// directories deeper than level five being dropped unread; none once
    /// the queue is empty or fifty paths were found.
    pub fn next_dir(&mut self) -> (r: Option<(String, usize)>)
        ensures
            final(self).found() == old(self).found(),
            final(self).query_text() == old(self).query_text(),
            final(self).finished() == old(self).finished(),
            old(self).finished() ==> r is None && final(self).pending() == old(self).pending(),
            r matches Some((d, k)) ==> k <= MAX_WALK_DEPTH && Self::dropped_until(
                old(self).pending(),
                final(self).pending(),
                d@,
                k,
            ),
            r is None && !old(self).finished() ==> final(self).pending().len() == 0 && forall|j: int|
                0 <= j < old(self).pending().len() ==> (#[trigger] old(self).pending()[j]).1
                    > MAX_WALK_DEPTH,
    {
        if self.done {
            return None;
        }
        let ghost q0 = self.pending();
        let ghost mut dropped: int = 0;
        while self.queue.len() > 0
            invariant
                0 <= dropped <= q0.len(),
                self.pending() == q0.skip(dropped),
                forall|j: int| 0 <= j < dropped ==> (#[trigger] q0[j]).1 > MAX_WALK_DEPTH,
                self.found() == old(self).found(),
                self.query_text() == old(self).query_text(),
                self.done == old(self).done,
                !self.done,
                q0 == old(self).pending(),
            decreases self.queue.len(),
        {
            let ghost oq = self.queue@;
            let (d, k) = self.queue.remove(0);
            proof {
                assert(queue_view(oq).len() == oq.len());
                assert(self.queue@ =~= oq.remove(0));
                assert(oq[0] == (d, k));
                assert(queue_view(oq)[0] == (d@, k));
                assert(queue_view(oq)[0] == q0.skip(dropped)[0]);
                assert(q0[dropped] == (d@, k));
                assert(queue_view(self.queue@) =~= q0.skip(dropped + 1)) by {
                    assert forall|j: int| 0 <= j < queue_view(self.queue@).len() implies queue_view(
                        self.queue@,
                    )[j] == q0.skip(dropped + 1)[j] by {
                        assert(self.queue@[j] == oq[j + 1]);
                        assert(queue_view(oq)[j + 1] == q0.skip(dropped)[j + 1]);
                        assert(queue_view(self.queue@)[j] == queue_view(oq)[j + 1]);
                    }
                }
            }
            proof {
                dropped = dropped + 1;
            }
            if k <= MAX_WALK_DEPTH {
                return Some((d, k));
            }
        }
        assert(q0.skip(dropped).len() == 0);
        None
    }

    /// The pending directories and the paths found after visiting one
    /// entry of a directory at level `depth`: hidden entries are skipped;
    /// a directory is queued one level down unless its name is skipped; a
    /// file whose name matches is found at its path relative to the root
    /// (when it has one), the walk finishing at fifty.
    pub open spec fn visit_effect(
        pending: Seq<(Seq<char>, usize)>,
        found: Seq<Seq<char>>,
        query: Seq<char>,
        depth: usize,
        name: Seq<char>,
        path: Seq<char>,
        is_dir: bool,
        is_file: bool,
        rel: Option<Seq<char>>,
    ) -> (Seq<(Seq<char>, usize)>, Seq<Seq<char>>) {
        if has_prefix(name, "."@) {
            (pending, found)
        } else if is_dir {
            if skipped_dir(name) {
                (pending, found)
            } else {
                (pending.push((path, (depth + 1) as usize)), found)
            }
        } else if is_file && name_matches(name, query) {
            match rel {
                Some(r) => (pending, found.push(r)),
                None => (pending, found),
            }
        } else {
            (pending, found)
        }
    }

    /// Visit one entry of a directory read at level `depth`.
    pub fn visit(
        &mut self,
        depth: usize,
        name: &str,
        path: String,
        is_dir: bool,
        is_file: bool,
        rel: Option<String>,
    )
        requires
            depth <= MAX_WALK_DEPTH,
            !old(self).finished(),
            old(self).found().len() < MAX_WALK_RESULTS,
        ensures
            ({
                let (p, f) = Self::visit_effect(
                    old(self).pending(),
                    old(self).found(),
                    old(self).query_text(),
                    depth,
                    name@,
                    path@,
                    is_dir,
                    is_file,
                    match rel {
                        Some(r) => Some(r@),
                        None => None,
                    },
                );
                &&& final(self).pending() == p
                &&& final(self).found() == f
            }),
            final(self).query_text() == old(self).query_text(),
            final(self).finished() == (final(self).found().len() >= MAX_WALK_RESULTS),
            final(self).found().len() <= MAX_WALK_RESULTS,
    {
        let n = chars_of(name);
        proof {
            reveal_strlit(".");
        }
        if n.len() > 0 && n[0] == '.' {
            assert(name@.subrange(0, 1) =~= "."@);
            return;
        }
        assert(n.len() == 0 || name@.subrange(0, 1) != "."@) by {
            if n.len() > 0 {
                assert(name@.subrange(0, 1)[0] != "."@[0]);
            }
        }
        if is_dir {
            if !is_skipped_dir(name) {
                let ghost before = self.pending();
                self.queue.push((path, depth + 1));
                assert(self.pending() =~= before.push((path@, (depth + 1) as usize)));
            }
            return;
        }
        if is_file {
            let lower = to_lowercase(name);
            let qv = chars_of(self.query.as_str());
            let hit = qv.len() == 0 || find_seq(&chars_of(lower.as_str()), &qv).is_some();
            assert(hit == name_matches(name@, self.query@));
            if hit {
                if let Some(r) = rel {
                    let ghost before = self.found();
                    self.results.push(r);
                    assert(self.found() =~= before.push(r@));
                    if self.results.len() >= MAX_WALK_RESULTS {
                        self.done = true;
                    }
                }
            }
        }
    }
}

// ── Port retry ──────────────────────────────────────────────────────────────

/// How many ports past the configured one are tried.
pub const PORT_RETRY_LIMIT: u8 = 3;

/// What binding a port gave.
#[derive(Debug, Clone, Copy, PartialEq, Eq, Structural)]
pub enum BindOutcome {
    Bound,
    InUse,
    /// Any other failure.
    Failed,
}

/// What the start-up does next.
#[derive(Debug, Clone, Copy, PartialEq, Eq, Structural)]
pub enum PortStep {
    /// Serve on this port.
    Serve(u16),
    /// Try the next port.
    Retry,
    /// Every port of the window was in use.
    AllInUse { first_port: u16, tried: u8 },
    /// Binding this port failed otherwise.
    BindError(u16),
}

/// The port of attempt `attempt`: the configured port plus the attempt,
/// wrapping past 65535.
pub open spec fn port_of(first_port: u16, attempt: u8) -> u16 {
    ((first_port as int + attempt as int) % 65536) as u16
}

/// The port tried on attempt `attempt`.
pub fn attempt_port(first_port: u16, attempt: u8) -> (p: u16)
    ensures
        p == port_of(first_port, attempt),
{
    let sum: u32 = first_port as u32 + attempt as u32;
    if sum >= 65536 {
        (sum - 65536) as u16
    } else {
        sum as u16
    }
}

/// The step after attempt `attempt` (0 to 3) bound as `outcome`: serve on
/// success; on a port in use, retry until the last attempt, then give up
/// naming the configured port; on any other failure, stop.
pub fn port_step(first_port: u16, attempt: u8, outcome: BindOutcome) -> (s: PortStep)
    requires
        attempt <= PORT_RETRY_LIMIT,
    ensures
        s == (match outcome {
            BindOutcome::Bound => PortStep::Serve(port_of(first_port, attempt)),
            BindOutcome::InUse => if attempt < PORT_RETRY_LIMIT {
                PortStep::Retry
            } else {
                PortStep::AllInUse { first_port, tried: PORT_RETRY_LIMIT }
            },
            BindOutcome::Failed => PortStep::BindError(port_of(first_port, attempt)),
        }),
{
    match outcome {
        BindOutcome::Bound => PortStep::Serve(attempt_port(first_port, attempt)),
        BindOutcome::InUse => if attempt < PORT_RETRY_LIMIT {
            PortStep::Retry
        } else {
            PortStep::AllInUse { first_port, tried: PORT_RETRY_LIMIT }
        },
        BindOutcome::Failed => PortStep::BindError(attempt_port(first_port, attempt)),
    }
}

// ── Preflight refresh throttle ──────────────────────────────────────────────

/// A refresh is allowed when ten seconds passed since the last one
/// (a clock that went back counts as no time).
pub fn refresh_allowed(now_secs: u64, last_secs: u64) -> (b: bool)
    ensures
        b == (now_secs >= last_secs && now_secs - last_secs >= 10),
{
    now_secs >= last_secs && now_secs - last_secs >= 10
}

// ── One-time nonces ─────────────────────────────────────────────────────────

/// How long a nonce lives, in milliseconds.
pub const NONCE_TTL_MS: u64 = 60_000;

/// The nonces issued and not yet redeemed, with their expiry times (in
/// milliseconds of a monotonic clock).  No nonce occurs twice.
#[derive(Debug)]
pub struct NonceBook {
    entries: Vec<(u128, u64)>,
}

pub open spec fn nonce_ids(e: Seq<(u128, u64)>) -> Seq<u128> {
    e.map_values(|p: (u128, u64)| p.0)
}

/// The entries still live at `now`, in order.
pub open spec fn live_entries(e: Seq<(u128, u64)>, now: u64) -> Seq<(u128, u64)>
    decreases e.len(),
{
    if e.len() == 0 {
        Seq::empty()
    } else if now <= e.last().1 {
        live_entries(e.drop_last(), now).push(e.last())
    } else {
        live_entries(e.drop_last(), now)
    }
}

/// An element is in a sequence after a push exactly when it was before or
/// is the pushed one.
pub proof fn lemma_push_contains<A>(s: Seq<A>, x: A, y: A)
    ensures
        s.push(x).contains(y) <==> (s.contains(y) || x == y),
{
    if s.contains(y) {
        let j = choose|j: int| 0 <= j < s.len() && s[j] == y;
        assert(s.push(x)[j] == y);
    }
    if x == y {
        assert(s.push(x)[s.len() as int] == y);
    }
    if s.push(x).contains(y) {
        let j = choose|j: int| 0 <= j < s.push(x).len() && s.push(x)[j] == y;
        if j < s.len() {
            assert(s[j] == y);
        }
    }
}

impl NonceBook {
    pub closed spec fn entries_view(&self) -> Seq<(u128, u64)> {
        self.entries@
    }

    /// The nonce is held, expiring at `exp`.
    pub open spec fn holds(&self, nonce: u128, exp: u64) -> bool {
        self.entries_view().contains((nonce, exp))
    }

    /// An empty book.
    pub fn new() -> (b: Self)
        ensures
            b.entries_view() == Seq::<(u128, u64)>::empty(),
    {
        NonceBook { entries: Vec::new() }
    }

    /// Issue `nonce` at `now`: the expired entries are dropped first, then
    /// the nonce is held until `now` plus a minute.  A nonce already held
    /// is not issued again (`false`).
    pub fn issue(&mut self, nonce: u128, now: u64) -> (issued: bool)
        requires
            now <= u64::MAX - NONCE_TTL_MS,
        ensures
            issued == !nonce_ids(live_entries(old(self).entries_view(), now)).contains(nonce),
            issued ==> final(self).entries_view() == live_entries(old(self).entries_view(), now).push(
                (nonce, (now + NONCE_TTL_MS) as u64),
            ),
            !issued ==> final(self).entries_view() == live_entries(old(self).entries_view(), now),
    {
        let mut kept: Vec<(u128, u64)> = Vec::new();
        let mut i: usize = 0;
        let mut seen = false;
        while i < self.entries.len()
            invariant
                i <= self.entries@.len(),
                kept@ == live_entries(self.entries@.take(i as int), now),
                seen == nonce_ids(kept@).contains(nonce),
            decreases self.entries.len() - i,
        {
            assert(self.entries@.take(i + 1).drop_last() =~= self.entries@.take(i as int));
            let e = self.entries[i];
            if now <= e.1 {
                let ghost before = kept@;
                kept.push(e);
                proof {
                    assert(nonce_ids(kept@) =~= nonce_ids(before).push(e.0));
                    lemma_push_contains(nonce_ids(before), e.0, nonce);
                }
                if e.0 == nonce {
                    seen = true;
                }
            }
            i += 1;
        }
        assert(self.entries@.take(self.entries@.len() as int) =~= self.entries@);
        if seen {
            self.entries = kept;
            return false;
        }
        kept.push((nonce, now + NONCE_TTL_MS));
        self.entries = kept;
        true
    }

    /// Redeem `nonce` at `now`: it is removed if held, and the redemption
    /// succeeds only if it was held and has not expired.
    pub fn redeem(&mut self, nonce: u128, now: u64) -> (ok: bool)
        ensures
            ok == exists|exp: u64| old(self).holds(nonce, exp) && now <= exp,
            forall|n: u128, exp: u64| #[trigger] final(self).holds(n, exp) <==> old(self).holds(n, exp) && n != nonce,
    {
        let mut kept: Vec<(u128, u64)> = Vec::new();
        let mut ok = false;
        let mut i: usize = 0;
        while i < self.entries.len()
            invariant
                i <= self.entries@.len(),
                forall|n: u128, exp: u64| #[trigger] kept@.contains((n, exp)) <==> self.entries@.take(
                    i as int,
                ).contains((n, exp)) && n != nonce,
                ok == exists|exp: u64| self.entries@.take(i as int).contains((nonce, exp)) && now <= exp,
                self.entries@ == old(self).entries@,
            decreases self.entries.len() - i,
        {
            let e = self.entries[i];
            let ghost pre = self.entries@.take(i as int);
            let ghost kept0 = kept@;
            let ghost ok0 = ok;
            assert(self.entries@.take(i + 1) =~= pre.push(e));
            if e.0 == nonce {
                if now <= e.1 {
                    ok = true;
                }
            } else {
                kept.push(e);
            }
            proof {
                assert forall|n: u128, exp: u64| #[trigger] kept@.contains((n, exp)) <==> pre.push(e).contains(
                    (n, exp),
                ) && n != nonce by {
                    lemma_push_contains(pre, e, (n, exp));
                    if e.0 != nonce {
                        lemma_push_contains(kept0, e, (n, exp));
                    }
                }
                assert forall|exp: u64| #[trigger] pre.push(e).contains((nonce, exp)) == (pre.contains(
                    (nonce, exp),
                ) || e == (nonce, exp)) by {
                    lemma_push_contains(pre, e, (nonce, exp));
                }
                if ok {
                    if ok0 {
                        let exp0 = choose|exp: u64| pre.contains((nonce, exp)) && now <= exp;
                        assert(pre.push(e).contains((nonce, exp0)));
                    } else {
                        assert(pre.push(e).contains((nonce, e.1)));
                    }
                }
            }
            i += 1;
        }
        assert(self.entries@.take(self.entries@.len() as int) =~= self.entries@);
        proof {
            if ok {
                let exp0 = choose|exp: u64| self.entries@.take(self.entries@.len() as int).contains((nonce, exp)) && now <= exp;
                assert(old(self).holds(nonce, exp0));
            } else {
                assert forall|exp: u64| old(self).holds(nonce, exp) implies !(now <= exp) by {
                    assert(self.entries@.take(self.entries@.len() as int).contains((nonce, exp)));
                }
            }
        }
        self.entries = kept;
        ok
    }
}

/// A nonce is good once: after a redemption, redeeming it again fails.
pub proof fn nonce_is_single_use(before: NonceBook, after: NonceBook, nonce: u128)
    requires
        forall|n: u128, exp: u64| #[trigger] after.holds(n, exp) <==> before.holds(n, exp) && n != nonce,
    ensures
        !exists|exp: u64| after.holds(nonce, exp),
{
}

// ── Static assets ───────────────────────────────────────────────────────────

/// The bundle path a request path names: without its leading slashes, and
/// `index.html` for the root.
pub open spec fn asset_path_of(uri_path: Seq<char>) -> Seq<char> {
    let p = crate::text::trim_lead(uri_path, '/');
    if p.len() == 0 {
        "index.html"@
    } else {
        p
    }
}

/// The bundle path of a request path.
pub fn asset_path(uri_path: &str) -> (r: String)
    ensures
        r@ == asset_path_of(uri_path@),
{
    let p = crate::text::trim_leading(&chars_of(uri_path), '/');
    if p.len() == 0 {
        String::from_str("index.html")
    } else {
        crate::text::string_of(&p)
    }
}

// ── Bearer credentials ──────────────────────────────────────────────────────

/// An `Authorization` header carries the token: it is `Bearer ` followed
/// by exactly the token.
pub open spec fn bearer_matches(header: Seq<char>, token: Seq<char>) -> bool {
    header == "Bearer "@ + token
}

/// Whether an `Authorization` header carries the token.
pub fn bearer_ok(header: Option<&str>, token: &str) -> (b: bool)
    ensures
        b == match header {
            Some(h) => bearer_matches(h@, token@),
            None => false,
        },
{
    match header {
        Some(h) => {
            let expected = String::from_str("Bearer ").concat(token);
            str_eq(h, expected.as_str())
        },
        None => false,
    }
}

// ── MCP host errors ─────────────────────────────────────────────────────────

/// The kinds of MCP host failure.
#[derive(Debug, Clone, Copy, PartialEq, Eq, Structural)]
pub enum McpFailure {
    NotFound,
    NotReady,
    Scope,
    Other,
}

/// The HTTP status of an MCP host failure: unknown server or tool 404, a
/// server not ready 503, a scope refusal 403, anything else 502.
pub fn mcp_status(f: McpFailure) -> (s: u16)
    ensures
        s == match f {
            McpFailure::NotFound => 404u16,
            McpFailure::NotReady => 503u16,
            McpFailure::Scope => 403u16,
            McpFailure::Other => 502u16,
        },
{
    match f {
        McpFailure::NotFound => 404,
        McpFailure::NotReady => 503,
        McpFailure::Scope => 403,
        McpFailure::Other => 502,
    }
}

} // verus!
