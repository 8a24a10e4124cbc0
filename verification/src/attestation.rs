//! Worker attestations: the screening of a posted attestation and the
//! per-build ring that keeps the newest fifty.
use vstd::prelude::*;

use std::collections::VecDeque;

use crate::text::has_char;

verus! {

/// Most attestations kept per build.
pub const RING_CAP: usize = 50;

/// A span reference that looks like a file path: it holds `/` or `\`.
pub open spec fn looks_like_path(s: Seq<char>) -> bool {
    has_char(s, '/') || has_char(s, '\\')
}

fn holds_char(s: &str, c: char) -> (b: bool)
    ensures
        b == has_char(s@, c),
{
    crate::text::contains_char(&crate::text::chars_of(s), c)
}

/// Why a posted attestation is refused.
#[derive(Debug, Clone, Copy, PartialEq, Eq, Structural)]
pub enum AttestationRefusal {
    /// 400: the span reference is a file path.
    SpanIdIsPath,
    /// 404: no such build.
    UnknownBuild,
}

/// The message of the 400 refusal.
pub const SPAN_ID_PATH_ERROR: &'static str = "file_content_span_id must be a UUID reference, not a file path";

/// Screen a posted attestation: a span reference that looks like a path is
/// refused first (400), then an unknown build (404).
pub fn check_attestation(span_id: Option<&str>, build_known: bool) -> (r: Result<(), AttestationRefusal>)
    ensures
        r == (match span_id {
            Some(s) if looks_like_path(s@) => Err(AttestationRefusal::SpanIdIsPath),
            _ => if build_known {
                Ok(())
            } else {
                Err(AttestationRefusal::UnknownBuild)
            },
        }),
{
    if let Some(s) = span_id {
        if holds_char(s, '/') || holds_char(s, '\\') {
            return Err(AttestationRefusal::SpanIdIsPath);
        }
    }
    if build_known {
        Ok(())
    } else {
        Err(AttestationRefusal::UnknownBuild)
    }
}

/// The ring after one more attestation: the oldest is dropped when the
/// ring is full.
pub open spec fn capped_push<E>(ring: Seq<E>, ev: E) -> Seq<E> {
    if ring.len() >= RING_CAP {
        ring.drop_first().push(ev)
    } else {
        ring.push(ev)
    }
}

/// The newest fifty of the attestations `s` (all of them when fewer), oldest first.
pub open spec fn newest<E>(s: Seq<E>) -> Seq<E> {
    if s.len() <= RING_CAP {
        s
    } else {
        s.subrange(s.len() - RING_CAP, s.len() as int)
    }
}

/// The ring of one build.
#[derive(Debug)]
pub struct AttestationRing<E> {
    events: VecDeque<E>,
}

impl<E> View for AttestationRing<E> {
    type V = Seq<E>;

    closed spec fn view(&self) -> Seq<E> {
        self.events@
    }
}

impl<E> AttestationRing<E> {
    pub open spec fn well_formed(&self) -> bool {
        self@.len() <= RING_CAP
    }

    /// An empty ring.
    pub fn new() -> (r: Self)
        ensures
            r@ == Seq::<E>::empty(),
            r.well_formed(),
    {
        AttestationRing { events: VecDeque::with_capacity(RING_CAP) }
    }

    /// The number of attestations kept.
    pub fn len(&self) -> (n: usize)
        ensures
            n == self@.len(),
    {
        self.events.len()
    }

    /// The `i`-th attestation kept, oldest first.
    pub fn get(&self, i: usize) -> (e: &E)
        requires
            i < self@.len(),
        ensures
            *e == self@[i as int],
    {
        &self.events[i]
    }

    /// Append an attestation, dropping the oldest when fifty are kept.
    pub fn push(&mut self, ev: E)
        requires
            old(self).well_formed(),
        ensures
            final(self).well_formed(),
            final(self)@ == capped_push(old(self)@, ev),
    {
        if self.events.len() >= RING_CAP {
            let _ = self.events.pop_front();
        }
        self.events.push_back(ev);
    }
}

/// Whatever was posted, the ring holds exactly the newest fifty
/// attestations, oldest first: pushing onto the newest of `s` gives the
/// newest of `s` with the new one.
pub proof fn ring_keeps_newest<E>(s: Seq<E>, ev: E)
    ensures
        capped_push(newest(s), ev) == newest(s.push(ev)),
{
    if s.len() < RING_CAP {
        assert(newest(s.push(ev)) =~= s.push(ev));
    } else {
        assert(newest(s).len() == RING_CAP);
        assert(capped_push(newest(s), ev) =~= newest(s.push(ev)));
    }
}

} // verus!
