//! Smart dispatch: a rule engine that turns platform signals into an ordered,
//! de-duplicated and capped list of suggested actions.
use vstd::prelude::*;

use crate::northstar::Signals;
use crate::text::{decimal, decimal_string, str_eq};

verus! {

/// A single suggestion shown in the Smart Dispatch card.
#[derive(Debug, Clone)]
pub struct Suggestion {
    /// Action slug (e.g. `/BUILD`).
    pub action: &'static str,
    /// Human-readable reason.
    pub reason: String,
    /// Strand-mosaic domain code.
    pub domain: &'static str,
    /// Whether this suggestion is elevated.
    pub priority: bool,
}

/// Top-level response shape.
#[derive(Debug)]
pub struct SuggestionsResponse {
    pub suggestions: Vec<Suggestion>,
    pub evaluated_at: String,
}

/// Scope query parameter; only the platform scope exists today.
#[derive(Debug, Clone)]
pub struct WaveQuery {
    pub scope: Option<String>,
}

/// Maximum number of suggestions returned.
pub const MAX_SUGGESTIONS: usize = 6;

/// The suggestions of `s` whose priority flag is `p`, in order.
pub open spec fn with_priority(s: Seq<Suggestion>, p: bool) -> Seq<Suggestion>
    decreases s.len(),
{
    if s.len() == 0 {
        Seq::empty()
    } else if s.last().priority == p {
        with_priority(s.drop_last(), p).push(s.last())
    } else {
        with_priority(s.drop_last(), p)
    }
}

/// A stable sort that puts elevated suggestions first.
pub open spec fn priority_first(s: Seq<Suggestion>) -> Seq<Suggestion> {
    with_priority(s, true) + with_priority(s, false)
}

/// Some suggestion among the first `n` of `s` has the action `a`.
pub open spec fn action_seen(s: Seq<Suggestion>, n: int, a: Seq<char>) -> bool {
    exists|j: int| 0 <= j < n && #[trigger] s[j].action@ == a
}

/// `s` without every suggestion whose action appeared earlier.
pub open spec fn dedup_actions(s: Seq<Suggestion>) -> Seq<Suggestion>
    decreases s.len(),
{
    if s.len() == 0 {
        Seq::empty()
    } else if action_seen(s, s.len() - 1, s.last().action@) {
        dedup_actions(s.drop_last())
    } else {
        dedup_actions(s.drop_last()).push(s.last())
    }
}

/// Priority first (stable), then first occurrence per action, then at most six.
pub open spec fn ranked(s: Seq<Suggestion>) -> Seq<Suggestion> {
    let d = dedup_actions(priority_first(s));
    if d.len() <= MAX_SUGGESTIONS {
        d
    } else {
        d.take(MAX_SUGGESTIONS as int)
    }
}

/// Stable-sort priority-first, then dedupe by action, then cap.
pub fn rank_and_cap(suggestions: Vec<Suggestion>) -> (out: Vec<Suggestion>)
    ensures
        out@ == ranked(suggestions@),
{
    let ghost input = suggestions@;
    let mut rest = suggestions;
    let mut high: Vec<Suggestion> = Vec::new();
    let mut low: Vec<Suggestion> = Vec::new();
    let ghost mut taken: Seq<Suggestion> = Seq::empty();
    while rest.len() > 0
        invariant
            input == taken + rest@,
            high@ == with_priority(taken, true),
            low@ == with_priority(taken, false),
        decreases rest.len(),
    {
        let x = rest.remove(0);
        let ghost prev = taken;
        proof {
            assert(input == taken.push(x) + rest@);
            taken = taken.push(x);
            assert(taken.drop_last() =~= prev);
        }
        assert(taken.last() == x);
        if x.priority {
            high.push(x);
        } else {
            low.push(x);
        }
    }
    assert(taken =~= input);
    let ghost ordered = high@ + low@;
    assert(ordered == priority_first(input));
    let mut all = high;
    all.append(&mut low);
    assert(all@ == ordered);
    let mut out: Vec<Suggestion> = Vec::new();
    let mut seen: Vec<&'static str> = Vec::new();
    let ghost mut done: Seq<Suggestion> = Seq::empty();
    while all.len() > 0
        invariant
            ordered == done + all@,
            out@ == dedup_actions(done),
            seen.len() == out.len(),
            forall|i: int| 0 <= i < seen.len() ==> #[trigger] seen@[i]@ == out@[i].action@,
            forall|a: Seq<char>|
                action_seen(done, done.len() as int, a) <==> exists|i: int|
                    0 <= i < out.len() && #[trigger] out@[i].action@ == a,
        decreases all.len(),
    {
        let x = all.remove(0);
        let mut i: usize = 0;
        let mut dup = false;
        while i < seen.len() && !dup
            invariant
                i <= seen.len(),
                dup ==> i > 0 && seen@[i - 1]@ == x.action@,
                !dup ==> forall|j: int| 0 <= j < i ==> #[trigger] seen@[j]@ != x.action@,
            decreases seen.len() - i,
        {
            if str_eq(seen[i], x.action) {
                dup = true;
            }
            i += 1;
        }
        let ghost nd = done.push(x);
        let ghost old_out = out@;
        proof {
            assert(nd.drop_last() =~= done);
            assert(nd.last() == x);
            assert forall|a: Seq<char>| action_seen(nd, nd.len() - 1, a) <==> action_seen(done, done.len() as int, a) by {
                if action_seen(nd, nd.len() - 1, a) {
                    let j = choose|j: int| 0 <= j < nd.len() - 1 && #[trigger] nd[j].action@ == a;
                    assert(done[j] == nd[j]);
                }
                if action_seen(done, done.len() as int, a) {
                    let j = choose|j: int| 0 <= j < done.len() && #[trigger] done[j].action@ == a;
                    assert(done[j] == nd[j]);
                }
            }
            if dup {
                assert(old_out[i - 1].action@ == x.action@);
                assert(action_seen(done, done.len() as int, x.action@));
            } else {
                assert forall|k: int| 0 <= k < old_out.len() implies #[trigger] old_out[k].action@
                    != x.action@ by {
                    assert(seen@[k]@ == old_out[k].action@);
                }
                assert(!action_seen(done, done.len() as int, x.action@));
            }
            assert forall|a: Seq<char>| action_seen(nd, nd.len() as int, a) <==> (action_seen(done, done.len() as int, a) || a == x.action@) by {
                if action_seen(nd, nd.len() as int, a) {
                    let j = choose|j: int| 0 <= j < nd.len() && #[trigger] nd[j].action@ == a;
                    if j < done.len() {
                        assert(done[j] == nd[j]);
                    }
                }
                if action_seen(done, done.len() as int, a) {
                    let j = choose|j: int| 0 <= j < done.len() && #[trigger] done[j].action@ == a;
                    assert(done[j] == nd[j]);
                }
                if a == x.action@ {
                    assert(nd[done.len() as int].action@ == a);
                }
            }
        }
        if !dup {
            seen.push(x.action);
            out.push(x);
        }
        proof {
            assert(ordered == nd + all@);
            assert forall|a: Seq<char>| action_seen(nd, nd.len() as int, a) <==> exists|k: int|
                0 <= k < out.len() && #[trigger] out@[k].action@ == a by {
                if action_seen(nd, nd.len() as int, a) {
                    if action_seen(done, done.len() as int, a) {
                        let k = choose|k: int| 0 <= k < old_out.len() && #[trigger] old_out[k].action@ == a;
                        assert(out@[k] == old_out[k]);
                    } else {
                        assert(a == x.action@);
                        assert(!dup);
                        assert(out@[old_out.len() as int].action@ == a);
                    }
                }
                if exists|k: int| 0 <= k < out.len() && #[trigger] out@[k].action@ == a {
                    let k = choose|k: int| 0 <= k < out.len() && #[trigger] out@[k].action@ == a;
                    if k < old_out.len() {
                        assert(old_out[k] == out@[k]);
                    }
                }
            }
            done = nd;
        }
    }
    assert(done =~= ordered);
    if out.len() > MAX_SUGGESTIONS {
        out.truncate(MAX_SUGGESTIONS);
    }
    out
}


/// A suggestion as values: action, reason, domain, priority.
pub type SuggestionView = (Seq<char>, Seq<char>, Seq<char>, bool);

pub open spec fn suggestion_view(x: Suggestion) -> SuggestionView {
    (x.action@, x.reason@, x.domain@, x.priority)
}

pub open spec fn suggestion_views(s: Seq<Suggestion>) -> Seq<SuggestionView> {
    s.map_values(|x: Suggestion| suggestion_view(x))
}

pub open spec fn opt_one(cond: bool, v: SuggestionView) -> Seq<SuggestionView> {
    if cond {
        seq![v]
    } else {
        Seq::empty()
    }
}

/// The rule engine's candidates, in rule order: drift → `/OPTIMIZE`
/// (elevated); open HITL items → `/REVIEW` (elevated); supervisors → `/VERIFY`; no builds → `/BUILD`; SOUL →
/// `/ENRICH`; always `/OBSERVE`; active builds → `/SECURE`.
pub open spec fn candidates(s: Signals) -> Seq<SuggestionView> {
    opt_one(
        s.drift_total > 0,
        (
            "/OPTIMIZE"@,
            decimal(s.drift_total as nat)
                + " consecutive drift wave(s) across supervisors — review against northstar"@,
            "Q"@,
            true,
        ),
    ) + opt_one(
        s.hitl_open > 0,
        ("/REVIEW"@, decimal(s.hitl_open as nat) + " HITL item(s) awaiting review"@, "S"@, true),
    ) + opt_one(
        s.supervisors > 0,
        (
            "/VERIFY"@,
            decimal(s.supervisors as nat) + " supervisor state(s) tracked — re-run gate verifications"@,
            "T"@,
            false,
        ),
    ) + opt_one(
        s.active_builds == 0,
        ("/BUILD"@, "no active builds — pick the next codename from the portfolio"@, "A"@, false),
    ) + opt_one(
        s.soul_present,
        ("/ENRICH"@, "SOUL helix online — promote significance ≥7.0 sessions"@, "K"@, false),
    ) + seq![("/OBSERVE"@, "AYIN dashboard at :3742 — verify span lineage circuit"@, "O"@, false)]
        + opt_one(
        s.active_builds > 0,
        (
            "/SECURE"@,
            decimal(s.active_builds as nat) + " active build(s) — sweep for new SERAPH HIGH findings"@,
            "S"@,
            false,
        ),
    )
}

fn suggestion(action: &'static str, reason: String, domain: &'static str, priority: bool) -> (r:
    Suggestion)
    ensures
        suggestion_view(r) == (action@, reason@, domain@, priority),
{
    Suggestion { action, reason, domain, priority }
}

/// Apply the rule engine to the signals: the candidates, ranked and capped.
pub fn compose(s: &Signals) -> (out: Vec<Suggestion>)
    ensures
        exists|cand: Seq<Suggestion>|
            suggestion_views(cand) == candidates(*s) && #[trigger] ranked(cand) == out@,
{
    let mut out: Vec<Suggestion> = Vec::new();
    let ghost mut expect: Seq<SuggestionView> = Seq::empty();
    if s.drift_total > 0 {
        out.push(
            suggestion(
                "/OPTIMIZE",
                decimal_string(s.drift_total as u64).concat(
                    " consecutive drift wave(s) across supervisors — review against northstar",
                ),
                "Q",
                true,
            ),
        );
    }
    let ghost e1 = opt_one(
        s.drift_total > 0,
        (
            "/OPTIMIZE"@,
            decimal(s.drift_total as nat)
                + " consecutive drift wave(s) across supervisors — review against northstar"@,
            "Q"@,
            true,
        ),
    );
    assert(suggestion_views(out@) =~= e1);
    if s.hitl_open > 0 {
        out.push(
            suggestion(
                "/REVIEW",
                decimal_string(s.hitl_open as u64).concat(" HITL item(s) awaiting review"),
                "S",
                true,
            ),
        );
    }
    let ghost e1r = e1 + opt_one(
        s.hitl_open > 0,
        ("/REVIEW"@, decimal(s.hitl_open as nat) + " HITL item(s) awaiting review"@, "S"@, true),
    );
    assert(suggestion_views(out@) =~= e1r);
    if s.supervisors > 0 {
        out.push(
            suggestion(
                "/VERIFY",
                decimal_string(s.supervisors as u64).concat(
                    " supervisor state(s) tracked — re-run gate verifications",
                ),
                "T",
                false,
            ),
        );
    }
    let ghost e2 = e1r + opt_one(
        s.supervisors > 0,
        (
            "/VERIFY"@,
            decimal(s.supervisors as nat) + " supervisor state(s) tracked — re-run gate verifications"@,
            "T"@,
            false,
        ),
    );
    assert(suggestion_views(out@) =~= e2);
    if s.active_builds == 0 {
        out.push(
            suggestion(
                "/BUILD",
                String::from_str("no active builds — pick the next codename from the portfolio"),
                "A",
                false,
            ),
        );
    }
    let ghost e3 = e2 + opt_one(
        s.active_builds == 0,
        ("/BUILD"@, "no active builds — pick the next codename from the portfolio"@, "A"@, false),
    );
    assert(suggestion_views(out@) =~= e3);
    if s.soul_present {
        out.push(
            suggestion(
                "/ENRICH",
                String::from_str("SOUL helix online — promote significance ≥7.0 sessions"),
                "K",
                false,
            ),
        );
    }
    let ghost e4 = e3 + opt_one(
        s.soul_present,
        ("/ENRICH"@, "SOUL helix online — promote significance ≥7.0 sessions"@, "K"@, false),
    );
    assert(suggestion_views(out@) =~= e4);
    out.push(
        suggestion(
            "/OBSERVE",
            String::from_str("AYIN dashboard at :3742 — verify span lineage circuit"),
            "O",
            false,
        ),
    );
    let ghost e5 = e4 + seq![
        ("/OBSERVE"@, "AYIN dashboard at :3742 — verify span lineage circuit"@, "O"@, false),
    ];
    assert(suggestion_views(out@) =~= e5);
    if s.active_builds > 0 {
        out.push(
            suggestion(
                "/SECURE",
                decimal_string(s.active_builds as u64).concat(
                    " active build(s) — sweep for new SERAPH HIGH findings",
                ),
                "S",
                false,
            ),
        );
    }
    let ghost e6 = e5 + opt_one(
        s.active_builds > 0,
        (
            "/SECURE"@,
            decimal(s.active_builds as nat) + " active build(s) — sweep for new SERAPH HIGH findings"@,
            "S"@,
            false,
        ),
    );
    assert(suggestion_views(out@) =~= e6);
    assert(e6 =~= candidates(*s));
    let ghost cand = out@;
    let r = rank_and_cap(out);
    assert(ranked(cand) == r@);
    r
}

// ── Laws of the ranking ─────────────────────────────────────────────────────

/// Every suggestion with priority `p` kept has priority `p`.
proof fn lemma_with_priority(s: Seq<Suggestion>, p: bool)
    ensures
        forall|i: int| 0 <= i < with_priority(s, p).len() ==> (#[trigger] with_priority(s, p)[i]).priority == p,
    decreases s.len(),
{
    if s.len() > 0 {
        lemma_with_priority(s.drop_last(), p);
        let w = with_priority(s.drop_last(), p);
        assert forall|i: int| 0 <= i < with_priority(s, p).len() implies (#[trigger] with_priority(s, p)[i]).priority == p by {
            if i < w.len() {
                assert(with_priority(s, p)[i] == w[i]);
            }
        }
    }
}

/// What the dedup keeps comes from its input.
proof fn lemma_dedup_from(s: Seq<Suggestion>)
    ensures
        forall|i: int| 0 <= i < dedup_actions(s).len() ==> s.contains(#[trigger] dedup_actions(s)[i]),
    decreases s.len(),
{
    if s.len() > 0 {
        let t = s.drop_last();
        lemma_dedup_from(t);
        assert forall|i: int| 0 <= i < dedup_actions(s).len() implies s.contains(#[trigger] dedup_actions(s)[i]) by {
            if i < dedup_actions(t).len() {
                let x = dedup_actions(t)[i];
                assert(t.contains(x));
                let j = choose|j: int| 0 <= j < t.len() && t[j] == x;
                assert(s[j] == x);
            } else {
                assert(s[s.len() - 1] == s.last());
            }
        }
    }
}

/// Priority before the rest: no suggestion without priority comes before one with it.
pub open spec fn priority_ordered(s: Seq<Suggestion>) -> bool {
    forall|i: int, j: int| 0 <= i < j < s.len() && (#[trigger] s[j]).priority ==> (#[trigger] s[i]).priority
}

proof fn lemma_dedup_ordered(s: Seq<Suggestion>)
    requires
        priority_ordered(s),
    ensures
        priority_ordered(dedup_actions(s)),
    decreases s.len(),
{
    if s.len() > 0 {
        let t = s.drop_last();
        assert(priority_ordered(t)) by {
            assert forall|i: int, j: int| 0 <= i < j < t.len() && (#[trigger] t[j]).priority implies (#[trigger] t[i]).priority by {
                assert(s[i] == t[i] && s[j] == t[j]);
            }
        }
        lemma_dedup_ordered(t);
        lemma_dedup_from(t);
        let d = dedup_actions(s);
        let dt = dedup_actions(t);
        if !action_seen(s, s.len() - 1, s.last().action@) {
            assert forall|i: int, j: int| 0 <= i < j < d.len() && (#[trigger] d[j]).priority implies (#[trigger] d[i]).priority by {
                if j == d.len() - 1 {
                    assert(t.contains(dt[i]));
                    let k = choose|k: int| 0 <= k < t.len() && t[k] == dt[i];
                    assert(s[k] == dt[i]);
                    assert(s[s.len() - 1] == s.last());
                }
            }
        }
    }
}

/// The actions kept are distinct.
proof fn lemma_dedup_distinct(s: Seq<Suggestion>)
    ensures
        forall|i: int, j: int|
            0 <= i < j < dedup_actions(s).len() ==> (#[trigger] dedup_actions(s)[i]).action@
                != (#[trigger] dedup_actions(s)[j]).action@,
    decreases s.len(),
{
    if s.len() > 0 {
        let t = s.drop_last();
        lemma_dedup_distinct(t);
        lemma_dedup_from(t);
        let d = dedup_actions(s);
        let dt = dedup_actions(t);
        if !action_seen(s, s.len() - 1, s.last().action@) {
            assert forall|i: int, j: int| 0 <= i < j < d.len() implies (#[trigger] d[i]).action@ != (#[trigger] d[j]).action@ by {
                if j == d.len() - 1 {
                    assert(t.contains(dt[i]));
                    let k = choose|k: int| 0 <= k < t.len() && t[k] == dt[i];
                    assert(s[k] == dt[i]);
                    if d[i].action@ == d[j].action@ {
                        assert(action_seen(s, s.len() - 1, s.last().action@));
                    }
                }
            }
        }
    }
}

/// The suggestions shown are at most six, their actions distinct, and all
/// with priority come before any without.
pub proof fn ranked_is_capped_distinct_and_priority_first(s: Seq<Suggestion>)
    ensures
        ranked(s).len() <= MAX_SUGGESTIONS,
        forall|i: int, j: int| 0 <= i < j < ranked(s).len() ==> (#[trigger] ranked(s)[i]).action@ != (#[trigger] ranked(s)[j]).action@,
        priority_ordered(ranked(s)),
{
    let pf = priority_first(s);
    lemma_with_priority(s, true);
    lemma_with_priority(s, false);
    assert(priority_ordered(pf)) by {
        let h = with_priority(s, true);
        assert forall|i: int, j: int| 0 <= i < j < pf.len() && (#[trigger] pf[j]).priority implies (#[trigger] pf[i]).priority by {
            if j >= h.len() {
                assert(pf[j] == with_priority(s, false)[j - h.len()]);
            }
            if i < h.len() {
                assert(pf[i] == h[i]);
            }
        }
    }
    lemma_dedup_ordered(pf);
    lemma_dedup_distinct(pf);
    let d = dedup_actions(pf);
    if d.len() > MAX_SUGGESTIONS {
        assert forall|i: int, j: int| 0 <= i < j < ranked(s).len() implies (#[trigger] ranked(s)[i]).action@ != (#[trigger] ranked(s)[j]).action@ by {
            assert(ranked(s)[i] == d[i] && ranked(s)[j] == d[j]);
        }
        assert forall|i: int, j: int| 0 <= i < j < ranked(s).len() && (#[trigger] ranked(s)[j]).priority implies (#[trigger] ranked(s)[i]).priority by {
            assert(ranked(s)[i] == d[i] && ranked(s)[j] == d[j]);
        }
    }
}

} // verus!
