//! Per-address limit on SSE connection attempts: at most ten per address in
//! each sixty-second window.
use vstd::prelude::*;

use dashmap::DashMap;
use std::time::Instant;

verus! {

/// Most SSE connection attempts per address per window.
pub const MAX_SSE_PER_WINDOW: u32 = 10;

/// The window, in nanoseconds (sixty seconds).
pub const SSE_WINDOW_NANOS: u128 = 60_000_000_000;

/// `Instant::now`: the current monotonic time; nothing is known of its value.
#[verifier::external_body]
fn now() -> Instant {
    Instant::now()
}

/// `later.saturating_duration_since(earlier).as_nanos()`; it depends on the
/// clock, so nothing is stated of it.
#[verifier::external_body]
fn age_nanos(later: &Instant, earlier: &Instant) -> u128 {
    later.saturating_duration_since(*earlier).as_nanos()
}

/// One attempt on an address whose entry was `entry` (`None` when the
/// address was never seen), at time `now`, the entry's window being
/// `age` nanoseconds old: a fresh address starts a window at `now`; an
/// expired window starts over at `now` with no attempt counted; the attempt
/// is admitted while fewer than ten were counted, and then counted.
pub open spec fn sse_step(entry: Option<(u32, Instant)>, now: Instant, age: u128) -> ((u32, Instant), bool) {
    let (count, start) = match entry {
        None => (0u32, now),
        Some(e) => if age >= SSE_WINDOW_NANOS {
            (0u32, now)
        } else {
            e
        },
    };
    if count < MAX_SSE_PER_WINDOW {
        (((count + 1) as u32, start), true)
    } else {
        ((count, start), false)
    }
}

/// The entry of `ip` in `m`, if any.
pub open spec fn entry_of(m: Map<u128, (u32, Instant)>, ip: u128) -> Option<(u32, Instant)> {
    if m.contains_key(ip) {
        Some(m[ip])
    } else {
        None
    }
}

/// One attempt from `ip` at `now`, its window being `age` old, took the
/// counts `before` to `after` and answered `admitted`.
pub open spec fn attempt_step(
    before: Map<u128, (u32, Instant)>,
    ip: u128,
    now: Instant,
    age: u128,
    admitted: bool,
    after: Map<u128, (u32, Instant)>,
) -> bool {
    let (e, a) = sse_step(entry_of(before, ip), now, age);
    &&& admitted == a
    &&& after == before.insert(ip, e)
}

/// What a map of counts holds: for each address, its count and the start of
/// its window.
pub uninterp spec fn sse_counts(m: DashMap<u128, (u32, Instant)>) -> Map<u128, (u32, Instant)>;

/// `DashMap::new`: a map that holds nothing.
#[verifier::external_body]
fn counts_new() -> (fresh: DashMap<u128, (u32, Instant)>)
    ensures
        sse_counts(fresh) =~= Map::empty(),
{
    DashMap::new()
}

/// `DashMap::get`, the entry copied out of the read guard: the entry of the
/// address, if the map holds one.
#[verifier::external_body]
fn counts_get(m: &DashMap<u128, (u32, Instant)>, ip: u128) -> (r: Option<(u32, Instant)>)
    ensures
        r == entry_of(sse_counts(*m), ip),
{
    match m.get(&ip) {
        Some(e) => Some(*e.value()),
        None => None,
    }
}

/// `DashMap::insert`: the address's entry becomes `e`, the others stay.
#[verifier::external_body]
fn counts_insert(m: &mut DashMap<u128, (u32, Instant)>, ip: u128, e: (u32, Instant))
    ensures
        sse_counts(*final(m)) == sse_counts(*old(m)).insert(ip, e),
{
    m.insert(ip, e);
}

/// `DashMap::len`: the number of entries.
#[verifier::external_body]
fn counts_len(m: &DashMap<u128, (u32, Instant)>) -> (n: usize)
    ensures
        n == sse_counts(*m).len(),
{
    m.len()
}

/// The attempts counted per address (an IP address as its 128-bit number),
/// with the start of each address's window.
#[derive(Debug)]
pub struct SseRateLimiter {
    entries: DashMap<u128, (u32, Instant)>,
}

impl View for SseRateLimiter {
    type V = Map<u128, (u32, Instant)>;

    closed spec fn view(&self) -> Map<u128, (u32, Instant)> {
        sse_counts(self.entries)
    }
}

impl SseRateLimiter {
    /// No address ever counts more than ten attempts.
    pub open spec fn well_formed(&self) -> bool {
        forall|ip: u128| #[trigger] self@.contains_key(ip) ==> self@[ip].0 <= MAX_SSE_PER_WINDOW
    }

    /// The number of addresses seen.
    pub fn len(&self) -> (n: usize)
        ensures
            n == self@.len(),
    {
        counts_len(&self.entries)
    }

    /// No address seen yet.
    pub fn is_empty(&self) -> (b: bool)
        ensures
            b == (self@.len() == 0),
    {
        counts_len(&self.entries) == 0
    }

    /// The count and window start of an address, if it was seen.
    pub fn entry(&self, ip: u128) -> (r: Option<(u32, Instant)>)
        ensures
            r == (if self@.contains_key(ip) {
                Some(self@[ip])
            } else {
                None
            }),
    {
        counts_get(&self.entries, ip)
    }

    /// One attempt from `ip` at `now`, its window being `age` nanoseconds
    /// old: the address's entry becomes the step's entry, every other
    /// address is left as it was, and the result says whether the attempt
    /// is admitted.
    pub fn attempt_at(&mut self, ip: u128, now: Instant, age: u128) -> (admitted: bool)
        requires
            old(self).well_formed(),
        ensures
            final(self).well_formed(),
            ({
                let before = if old(self)@.contains_key(ip) {
                    Some(old(self)@[ip])
                } else {
                    None
                };
                let (e, a) = sse_step(before, now, age);
                &&& admitted == a
                &&& final(self)@ == old(self)@.insert(ip, e)
            }),
            forall|other: u128| other != ip && #[trigger] old(self)@.contains_key(other) ==> final(self)@.contains_key(other) && final(self)@[other] == old(self)@[other],
    {
        let (count, start) = match counts_get(&self.entries, ip) {
            None => (0u32, now),
            Some(e) => if age >= SSE_WINDOW_NANOS {
                (0u32, now)
            } else {
                e
            },
        };
        proof {
            if old(self)@.contains_key(ip) {
                assert(old(self)@[ip].0 <= MAX_SSE_PER_WINDOW);
            }
        }
        let ghost before = self@;
        let admitted = if count < MAX_SSE_PER_WINDOW {
            counts_insert(&mut self.entries, ip, (count + 1, start));
            true
        } else {
            counts_insert(&mut self.entries, ip, (count, start));
            false
        };
        proof {
            assert forall|k: u128| #[trigger] self@.contains_key(k) implies self@[k].0
                <= MAX_SSE_PER_WINDOW by {
                if k != ip {
                    assert(before.contains_key(k));
                }
            }
        }
        admitted
    }

    /// One attempt from `ip` now: the step of `attempt_at` at the current
    /// time, the window's age being read from the clock.  An address not yet
    /// seen, or counted under ten, is admitted whatever the clock says.
    pub fn attempt(&mut self, ip: u128) -> (admitted: bool)
        requires
            old(self).well_formed(),
        ensures
            final(self).well_formed(),
            exists|t: Instant, age: u128|
                #[trigger] attempt_step(old(self)@, ip, t, age, admitted, final(self)@),
            !old(self)@.contains_key(ip) || old(self)@[ip].0 < MAX_SSE_PER_WINDOW ==> admitted,
            final(self)@.dom() == old(self)@.dom().insert(ip),
            final(self)@.contains_key(ip),
            admitted ==> final(self)@[ip].0 >= 1,
            !admitted ==> final(self)@[ip].0 == MAX_SSE_PER_WINDOW,
            forall|other: u128| other != ip && #[trigger] old(self)@.contains_key(other) ==> final(self)@[other] == old(self)@[other],
    {
        let t = now();
        let age = match counts_get(&self.entries, ip) {
            Some(e) => age_nanos(&t, &e.1),
            None => 0,
        };
        let ghost before = self@;
        let admitted = self.attempt_at(ip, t, age);
        proof {
            assert(attempt_step(before, ip, t, age, admitted, self@));
        }
        admitted
    }
}

/// A limiter that has seen no address.
pub fn new_sse_rate_limiter() -> (l: SseRateLimiter)
    ensures
        l@ == Map::<u128, (u32, Instant)>::empty(),
        l.well_formed(),
{
    SseRateLimiter { entries: counts_new() }
}

/// Within one window an address is admitted exactly ten times in a row:
/// from a count under ten the step admits and adds one, and at ten it
/// refuses and leaves the entry as it was.
pub proof fn admits_until_ten(count: u32, start: Instant, now: Instant, age: u128)
    requires
        count <= MAX_SSE_PER_WINDOW,
        age < SSE_WINDOW_NANOS,
    ensures
        count < MAX_SSE_PER_WINDOW ==> sse_step(Some((count, start)), now, age) == (
            ((count + 1) as u32, start),
            true,
        ),
        count == MAX_SSE_PER_WINDOW ==> sse_step(Some((count, start)), now, age) == ((count, start), false),
{
}

/// Once a window has expired, the next attempt is admitted whatever was
/// counted, and it opens a new window at `now` with one attempt counted.
pub proof fn expired_window_admits(count: u32, start: Instant, now: Instant, age: u128)
    requires
        age >= SSE_WINDOW_NANOS,
    ensures
        sse_step(Some((count, start)), now, age) == ((1u32, now), true),
{
}

} // verus!
