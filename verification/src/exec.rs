//! Process execution: the binary allowlist and argument screening, the
//! sliding-window spawn limiter, and the rolling per-process output buffer.
use std::time::Instant;

use vstd::prelude::*;

use vstd::utf8::encode_utf8;

use crate::paths::components;
use crate::text::{chars_of, has_char, opt_chars, str_eq};

verus! {

// ── Allowlist and argument screening ────────────────────────────────────────

/// The binaries that may be spawned.
pub open spec fn allowed_binary(b: Seq<char>) -> bool {
    b == "cargo"@ || b == "cargo-nextest"@ || b == "pnpm"@ || b == "npx"@ || b == "vitest"@ || b
        == "playwright"@ || b == "node"@ || b == "rustfmt"@ || b == "clippy-driver"@
}

/// The final component of a path when it is a name: none when the path
/// has no component or ends in the root, `.` or `..`.
pub open spec fn final_name(p: Seq<char>) -> Option<Seq<char>> {
    let c = components(p);
    if c.len() > 0 && c.last() != "/"@ && c.last() != "."@ && c.last() != ".."@ {
        Some(c.last())
    } else {
        None
    }
}

/// `Path::new(p).file_name()` as a string.  Claimed of it: it is the final
/// component of the path when that is a name (as the documentation says:
/// none when the path ends in `..` or has no final component); a name holds
/// no `/`; and a path without `/` that is neither empty, `.` nor `..` is its
/// own name.
#[verifier::external_body]
fn file_name(p: &str) -> (r: Option<String>)
    ensures
        opt_chars(r) == final_name(p@),
        r is Some ==> !has_char(r->0@, '/'),
        !has_char(p@, '/') && p@.len() > 0 && p@ != "."@ && p@ != ".."@ ==> opt_chars(r) == Some(
            p@,
        ),
{
    std::path::Path::new(p).file_name().and_then(|n| n.to_str()).map(|s| s.to_string())
}

/// The name a binary path is checked by: its final component, or the path itself.
pub open spec fn binary_base(argv0: Seq<char>) -> Seq<char> {
    match final_name(argv0) {
        Some(n) => n,
        None => argv0,
    }
}

fn allowed(b: &str) -> (r: bool)
    ensures
        r == allowed_binary(b@),
{
    str_eq(b, "cargo") || str_eq(b, "cargo-nextest") || str_eq(b, "pnpm") || str_eq(b, "npx")
        || str_eq(b, "vitest") || str_eq(b, "playwright") || str_eq(b, "node") || str_eq(
        b,
        "rustfmt",
    ) || str_eq(b, "clippy-driver")
}

/// Accept a binary only when the final component of its path is allowlisted.
pub fn validate_binary(argv0: &str) -> (r: Result<(), &'static str>)
    ensures
        r is Ok <==> allowed_binary(binary_base(argv0@)),
        r matches Err(m) ==> m@ == "binary not in exec allowlist"@,
{
    let ok = match file_name(argv0) {
        Some(n) => allowed(n.as_str()),
        None => allowed(argv0),
    };
    if ok {
        Ok(())
    } else {
        Err("binary not in exec allowlist")
    }
}

/// The characters that a shell would interpret.
pub open spec fn is_shell_meta(c: char) -> bool {
    c == '&' || c == '|' || c == ';' || c == '`' || c == '$' || c == '(' || c == ')' || c == '{'
        || c == '}' || c == '<' || c == '>' || c == '\n' || c == '\r'
}

/// Refuse an argument that holds a shell metacharacter.
pub fn validate_arg(arg: &str) -> (r: Result<(), &'static str>)
    ensures
        r is Ok <==> forall|i: int| 0 <= i < arg@.len() ==> !is_shell_meta(#[trigger] arg@[i]),
        r matches Err(m) ==> m@ == "argument contains shell metacharacter"@,
{
    let v = chars_of(arg);
    let mut i: usize = 0;
    while i < v.len()
        invariant
            v@ == arg@,
            i <= v.len(),
            forall|j: int| 0 <= j < i ==> !is_shell_meta(#[trigger] v@[j]),
        decreases v.len() - i,
    {
        let c = v[i];
        if c == '&' || c == '|' || c == ';' || c == '`' || c == '$' || c == '(' || c == ')' || c
            == '{' || c == '}' || c == '<' || c == '>' || c == '\n' || c == '\r' {
            assert(is_shell_meta(arg@[i as int]));
            return Err("argument contains shell metacharacter");
        }
        i += 1;
    }
    Ok(())
}

/// Why a run request is refused.
#[derive(Debug, Clone, PartialEq, Eq)]
pub enum RunRefusal {
    /// The request is malformed (400).
    BadRequest(&'static str),
    /// The command is not allowed (403).
    Forbidden(&'static str),
}

/// Request body of a run.
#[derive(Debug, Clone)]
pub struct RunRequest {
    pub argv: Vec<String>,
    pub cwd: Option<String>,
    pub env: Option<Vec<(String, String)>>,
    pub timeout_ms: Option<u64>,
}

/// Request body of a kill.
#[derive(Debug, Clone, Copy)]
pub struct KillRequest {
    pub pid: u32,
}

/// Screen an argv: not empty, an allowlisted binary, no argument with a
/// shell metacharacter.
pub fn validate_argv(argv: &Vec<String>) -> (r: Result<(), RunRefusal>)
    ensures
        argv.len() == 0 ==> r == Err::<(), RunRefusal>(RunRefusal::BadRequest("argv is empty")),
        argv.len() > 0 && !allowed_binary(binary_base(argv@[0]@)) ==> (r matches Err(
            RunRefusal::Forbidden(m)) && m@ == "binary not in exec allowlist"@),
        argv.len() > 0 && allowed_binary(binary_base(argv@[0]@)) && (exists|k: int, i: int|
            1 <= k < argv.len() && 0 <= i < argv@[k]@.len() && is_shell_meta(#[trigger] argv@[k]@[i]))
            ==> (r matches Err(RunRefusal::Forbidden(m)) && m@ == "argument contains shell metacharacter"@),
        r is Ok <==> argv.len() > 0 && allowed_binary(binary_base(argv@[0]@)) && forall|k: int, i: int|
            1 <= k < argv.len() && 0 <= i < argv@[k]@.len() ==> !is_shell_meta(#[trigger] argv@[k]@[i]),
{
    if argv.len() == 0 {
        return Err(RunRefusal::BadRequest("argv is empty"));
    }
    if let Err(e) = validate_binary(argv[0].as_str()) {
        return Err(RunRefusal::Forbidden(e));
    }
    let mut k: usize = 1;
    while k < argv.len()
        invariant
            1 <= k <= argv.len(),
            allowed_binary(binary_base(argv@[0]@)),
            forall|j: int, i: int|
                1 <= j < k && 0 <= i < argv@[j]@.len() ==> !is_shell_meta(#[trigger] argv@[j]@[i]),
        decreases argv.len() - k,
    {
        if let Err(e) = validate_arg(argv[k].as_str()) {
            return Err(RunRefusal::Forbidden(e));
        }
        k += 1;
    }
    Ok(())
}

/// The display form of a command: its words joined by single spaces.
pub open spec fn joined(words: Seq<Seq<char>>) -> Seq<char>
    decreases words.len(),
{
    if words.len() == 0 {
        Seq::empty()
    } else if words.len() == 1 {
        words[0]
    } else {
        joined(words.drop_last()) + " "@ + words.last()
    }
}

/// `argv.join(" ")`.
pub fn command_display(argv: &Vec<String>) -> (r: String)
    ensures
        r@ == joined(argv@.map_values(|s: String| s@)),
{
    let ghost ws = argv@.map_values(|s: String| s@);
    let mut r = String::new();
    let mut i: usize = 0;
    while i < argv.len()
        invariant
            i <= argv.len(),
            ws == argv@.map_values(|s: String| s@),
            r@ == joined(ws.take(i as int)),
        decreases argv.len() - i,
    {
        assert(ws.take(i + 1).drop_last() =~= ws.take(i as int));
        if i > 0 {
            r.append(" ");
        }
        r.append(argv[i].as_str());
        i += 1;
    }
    assert(ws.take(argv.len() as int) =~= ws);
    r
}

// ── Spawn rate limiting ─────────────────────────────────────────────────────

/// At most this many spawns per window.
pub const RATE_LIMIT_MAX: usize = 50;

/// The window, in nanoseconds (ten seconds).
pub const RATE_LIMIT_WINDOW_NANOS: u128 = 10_000_000_000;

/// A sliding window of recent spawn times.
pub struct SlidingWindowLimiter {
    pub timestamps: Vec<Instant>,
}

/// `Instant::now`; nothing is known of its value.
#[verifier::external_body]
fn now() -> Instant {
    Instant::now()
}

/// `later.duration_since(earlier).as_nanos()`; it depends on the clock, so
/// nothing is stated of it.
#[verifier::external_body]
fn nanos_between(later: &Instant, earlier: &Instant) -> u128 {
    later.duration_since(*earlier).as_nanos()
}

/// The times among `ts` whose ages are under the window, in order.
pub open spec fn recent(ts: Seq<Instant>, ages: Seq<u128>) -> Seq<Instant>
    decreases ts.len(),
{
    if ts.len() == 0 || ages.len() != ts.len() {
        Seq::empty()
    } else if ages.last() < RATE_LIMIT_WINDOW_NANOS {
        recent(ts.drop_last(), ages.drop_last()).push(ts.last())
    } else {
        recent(ts.drop_last(), ages.drop_last())
    }
}

/// One step of the window at time `now`, the recorded times being of the
/// given ages: the times not under the window are forgotten, and `now` is
/// admitted (and recorded) exactly when fewer than 50 remain.
pub open spec fn window_step(
    before: Seq<Instant>,
    now: Instant,
    ages: Seq<u128>,
    admitted: bool,
    after: Seq<Instant>,
) -> bool {
    &&& ages.len() == before.len()
    &&& admitted == (recent(before, ages).len() < RATE_LIMIT_MAX)
    &&& after == if admitted {
        recent(before, ages).push(now)
    } else {
        recent(before, ages)
    }
}

impl SlidingWindowLimiter {
    /// An empty window.
    pub fn new() -> (l: Self)
        ensures
            l.timestamps@.len() == 0,
    {
        SlidingWindowLimiter { timestamps: Vec::new() }
    }

    /// Forget the times whose ages (given per time, in nanoseconds) are not
    /// under the window; then admit `now` when fewer than 50 remain.
    pub fn check_and_record_at(&mut self, now: Instant, ages: &Vec<u128>) -> (admitted: bool)
        requires
            ages.len() == old(self).timestamps.len(),
        ensures
            admitted == (recent(old(self).timestamps@, ages@).len() < RATE_LIMIT_MAX),
            admitted ==> final(self).timestamps@ == recent(old(self).timestamps@, ages@).push(now),
            !admitted ==> final(self).timestamps@ == recent(old(self).timestamps@, ages@),
    {
        let ghost old_ts = self.timestamps@;
        let mut kept: Vec<Instant> = Vec::new();
        let mut i: usize = 0;
        while i < self.timestamps.len()
            invariant
                self.timestamps@ == old_ts,
                ages.len() == old_ts.len(),
                i <= old_ts.len(),
                kept@ == recent(old_ts.take(i as int), ages@.take(i as int)),
            decreases old_ts.len() - i,
        {
            assert(old_ts.take(i + 1).drop_last() =~= old_ts.take(i as int));
            assert(ages@.take(i + 1).drop_last() =~= ages@.take(i as int));
            if ages[i] < RATE_LIMIT_WINDOW_NANOS {
                kept.push(self.timestamps[i]);
            }
            i += 1;
        }
        assert(old_ts.take(old_ts.len() as int) =~= old_ts);
        assert(ages@.take(ages.len() as int) =~= ages@);
        if kept.len() >= RATE_LIMIT_MAX {
            self.timestamps = kept;
            return false;
        }
        kept.push(now);
        self.timestamps = kept;
        true
    }

    /// Forget spawns older than the window and admit this one when fewer than
    /// 50 remain; at most 50 are ever recorded.  The ages are read from the
    /// clock, so the step is stated for the clock reading and ages it took.
    pub fn check_and_record(&mut self) -> (admitted: bool)
        ensures
            exists|now: Instant, ages: Seq<u128>|
                #[trigger] window_step(old(self).timestamps@, now, ages, admitted, final(self).timestamps@),
            old(self).timestamps.len() < RATE_LIMIT_MAX ==> admitted,
            old(self).timestamps.len() <= RATE_LIMIT_MAX ==> final(self).timestamps.len() <= RATE_LIMIT_MAX,
            admitted ==> final(self).timestamps.len() >= 1,
    {
        let t = now();
        let mut ages: Vec<u128> = Vec::new();
        let mut i: usize = 0;
        while i < self.timestamps.len()
            invariant
                i <= self.timestamps.len(),
                ages.len() == i,
            decreases self.timestamps.len() - i,
        {
            ages.push(nanos_between(&t, &self.timestamps[i]));
            i += 1;
        }
        proof {
            lemma_recent_len(self.timestamps@, ages@);
        }
        let ghost before = self.timestamps@;
        let admitted = self.check_and_record_at(t, &ages);
        proof {
            assert(window_step(before, t, ages@, admitted, self.timestamps@));
        }
        admitted
    }
}

pub proof fn lemma_recent_len(ts: Seq<Instant>, ages: Seq<u128>)
    ensures
        recent(ts, ages).len() <= ts.len(),
    decreases ts.len(),
{
    if ts.len() > 0 && ages.len() == ts.len() {
        lemma_recent_len(ts.drop_last(), ages.drop_last());
    }
}


// ── Output buffering ────────────────────────────────────────────────────────

/// A single buffered output line.
#[derive(Debug, Clone)]
pub struct OutputLine {
    /// Sequence number within the process, increasing.
    pub seq: u64,
    /// `stdout` or `stderr`.
    pub stream: String,
    pub line: String,
}

/// Per-process cap on buffered output, in accounted bytes.
pub const MAX_BUFFER_BYTES: usize = 1048576;

/// Bytes of a string as `str::len` reports them.
pub open spec fn byte_len(s: Seq<char>) -> int {
    (encode_utf8(s).len() as usize) as int
}

/// What a line counts toward the cap: its bytes, its stream's bytes, and 16.
pub open spec fn line_cost(l: OutputLine) -> int {
    byte_len(l.line@) + byte_len(l.stream@) + 16
}

/// What the lines count toward the cap together.
pub open spec fn total_cost(s: Seq<OutputLine>) -> int
    decreases s.len(),
{
    if s.len() == 0 {
        0
    } else {
        line_cost(s[0]) + total_cost(s.drop_first())
    }
}

proof fn lemma_total_cost_push(s: Seq<OutputLine>, x: OutputLine)
    ensures
        total_cost(s.push(x)) == total_cost(s) + line_cost(x),
    decreases s.len(),
{
    let p = s.push(x);
    if s.len() > 0 {
        assert(p.drop_first() =~= s.drop_first().push(x));
        assert(p[0] == s[0]);
        lemma_total_cost_push(s.drop_first(), x);
        assert(total_cost(p) == line_cost(p[0]) + total_cost(p.drop_first()));
    } else {
        assert(p.drop_first() =~= Seq::<OutputLine>::empty());
        assert(p[0] == x);
        assert(total_cost(p) == line_cost(p[0]) + total_cost(p.drop_first()));
        assert(total_cost(Seq::<OutputLine>::empty()) == 0);
    }
}

proof fn lemma_total_cost_nonneg(s: Seq<OutputLine>)
    ensures
        total_cost(s) >= 0,
    decreases s.len(),
{
    if s.len() > 0 {
        lemma_total_cost_nonneg(s.drop_first());
    }
}

/// The buffer once the oldest lines are dropped to make room for `c` more
/// (a lone line stays even when it is over the cap).
pub open spec fn make_room(s: Seq<OutputLine>, c: int) -> Seq<OutputLine>
    decreases s.len(),
{
    if s.len() > 0 && total_cost(s) + c > MAX_BUFFER_BYTES {
        make_room(s.drop_first(), c)
    } else {
        s
    }
}

/// The rolling output of one process.
#[derive(Debug)]
pub struct OutputBuffer {
    pub buffer: Vec<OutputLine>,
    pub buffer_bytes: usize,
    pub next_seq: u64,
}

impl OutputBuffer {
    /// The accounted bytes are those of the lines held, and sequence numbers
    /// increase and stay below the next one.
    pub open spec fn well_formed(&self) -> bool {
        &&& self.buffer_bytes == total_cost(self.buffer@)
        &&& forall|i: int, j: int|
            0 <= i < j < self.buffer@.len() ==> #[trigger] self.buffer@[i].seq
                < #[trigger] self.buffer@[j].seq
        &&& forall|i: int| 0 <= i < self.buffer@.len() ==> #[trigger] self.buffer@[i].seq
            < self.next_seq
    }

    /// An empty buffer.
    pub fn new() -> (b: Self)
        ensures
            b.well_formed(),
            b.buffer@.len() == 0,
            b.next_seq == 0,
    {
        OutputBuffer { buffer: Vec::new(), buffer_bytes: 0, next_seq: 0 }
    }

    /// Append a line with the next sequence number, first dropping the
    /// oldest lines until it fits under the cap (or none is left).
    pub fn append_line(&mut self, stream: &str, line: String)
        requires
            old(self).well_formed(),
            old(self).next_seq < u64::MAX,
            byte_len(line@) + byte_len(stream@) + 16 + old(self).buffer_bytes <= usize::MAX,
        ensures
            final(self).well_formed(),
            final(self).next_seq == old(self).next_seq + 1,
            final(self).buffer@.len() >= 1,
            final(self).buffer@.drop_last() == make_room(
                old(self).buffer@,
                byte_len(line@) + byte_len(stream@) + 16,
            ),
            final(self).buffer@.last().seq == old(self).next_seq,
            final(self).buffer@.last().stream@ == stream@,
            final(self).buffer@.last().line@ == line@,
    {
        let seq = self.next_seq;
        self.next_seq = self.next_seq + 1;
        let bytes = line.as_str().len() + stream.len() + 16;
        let ghost c = bytes as int;
        let ghost orig = self.buffer@;
        while self.buffer_bytes + bytes > MAX_BUFFER_BYTES && self.buffer.len() > 0
            invariant
                self.buffer_bytes == total_cost(self.buffer@),
                self.next_seq == seq + 1,
                self.buffer_bytes + bytes <= usize::MAX,
                c == bytes,
                make_room(orig, c) == make_room(self.buffer@, c),
                forall|i: int, j: int|
                    0 <= i < j < self.buffer@.len() ==> #[trigger] self.buffer@[i].seq
                        < #[trigger] self.buffer@[j].seq,
                forall|i: int| 0 <= i < self.buffer@.len() ==> #[trigger] self.buffer@[i].seq < seq,
            decreases self.buffer.len(),
        {
            let ghost before = self.buffer@;
            let removed = self.buffer.remove(0);
            proof {
                assert(before.drop_first() =~= self.buffer@);
                lemma_total_cost_nonneg(self.buffer@);
                assert forall|i: int, j: int| 0 <= i < j < self.buffer@.len() implies #[trigger] self.buffer@[i].seq
                    < #[trigger] self.buffer@[j].seq by {
                    assert(self.buffer@[i] == before[i + 1]);
                    assert(self.buffer@[j] == before[j + 1]);
                }
                assert forall|i: int| 0 <= i < self.buffer@.len() implies #[trigger] self.buffer@[i].seq < seq by {
                    assert(self.buffer@[i] == before[i + 1]);
                }
            }
            let cost = removed.line.as_str().len() + removed.stream.as_str().len() + 16;
            self.buffer_bytes = self.buffer_bytes - cost;
        }
        assert(make_room(self.buffer@, c) == self.buffer@);
        let ghost kept = self.buffer@;
        self.buffer_bytes = self.buffer_bytes + bytes;
        let nl = OutputLine { seq, stream: String::from_str(stream), line };
        proof {
            lemma_total_cost_push(kept, nl);
        }
        self.buffer.push(nl);
        assert(self.buffer@.drop_last() =~= kept);
    }

    /// The lines from sequence number `cursor` on, and the cursor that follows them.
    pub fn output_since(&self, cursor: u64) -> (r: (Vec<OutputLine>, u64))
        requires
            self.well_formed(),
        ensures
            line_views(r.0@) == line_views(from_cursor(self.buffer@, cursor)),
            r.0@.len() == 0 ==> r.1 == cursor,
            r.0@.len() > 0 ==> r.1 == r.0@.last().seq + 1,
    {
        let mut out: Vec<OutputLine> = Vec::new();
        let mut i: usize = 0;
        while i < self.buffer.len()
            invariant
                self.well_formed(),
                i <= self.buffer.len(),
                line_views(out@) == line_views(from_cursor(self.buffer@.take(i as int), cursor)),
                forall|k: int| 0 <= k < out@.len() ==> (#[trigger] out@[k]).seq < self.next_seq,
            decreases self.buffer.len() - i,
        {
            assert(self.buffer@.take(i + 1).drop_last() =~= self.buffer@.take(i as int));
            let l = &self.buffer[i];
            if l.seq >= cursor {
                let copy = OutputLine { seq: l.seq, stream: l.stream.clone(), line: l.line.clone() };
                let ghost old_out = out@;
                out.push(copy);
                assert(line_views(out@) =~= line_views(old_out).push(line_view(copy)));
            }
            i += 1;
        }
        assert(self.buffer@.take(self.buffer.len() as int) =~= self.buffer@);
        let next = if out.len() == 0 {
            cursor
        } else {
            out[out.len() - 1].seq + 1
        };
        (out, next)
    }
}

/// A line as values: sequence number, stream, text.
pub open spec fn line_view(l: OutputLine) -> (u64, Seq<char>, Seq<char>) {
    (l.seq, l.stream@, l.line@)
}

pub open spec fn line_views(s: Seq<OutputLine>) -> Seq<(u64, Seq<char>, Seq<char>)> {
    s.map_values(|l: OutputLine| line_view(l))
}

/// The lines numbered `cursor` or later, in order.
pub open spec fn from_cursor(s: Seq<OutputLine>, cursor: u64) -> Seq<OutputLine>
    decreases s.len(),
{
    if s.len() == 0 {
        Seq::empty()
    } else if s.last().seq >= cursor {
        from_cursor(s.drop_last(), cursor).push(s.last())
    } else {
        from_cursor(s.drop_last(), cursor)
    }
}

/// Making room for a line that itself fits leaves the buffer within the cap
/// once the line is added, and drops only the oldest lines: what remains is
/// a suffix of what was there.
pub proof fn room_made_fits_and_keeps_newest(s: Seq<OutputLine>, c: int)
    requires
        0 <= c <= MAX_BUFFER_BYTES,
    ensures
        total_cost(make_room(s, c)) + c <= MAX_BUFFER_BYTES,
        make_room(s, c).len() <= s.len(),
        make_room(s, c) =~= s.skip(s.len() - make_room(s, c).len()),
    decreases s.len(),
{
    if s.len() > 0 && total_cost(s) + c > MAX_BUFFER_BYTES {
        room_made_fits_and_keeps_newest(s.drop_first(), c);
        let r = make_room(s.drop_first(), c);
        assert(r.len() <= s.drop_first().len());
        assert(s.drop_first().skip(s.drop_first().len() - r.len()) =~= s.skip(s.len() - r.len()));
    } else if s.len() == 0 {
        assert(total_cost(s) == 0);
    } else {
        assert(s.skip(0) =~= s);
    }
}

} // verus!
