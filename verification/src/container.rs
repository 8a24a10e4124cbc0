//! Container terminal relay: the screening of a container id and the
//! decisions of the WebSocket-to-shell byte pipe.
use vstd::prelude::*;

use crate::text::is_digit;

verus! {

/// A lowercase hex digit.
pub open spec fn is_lower_hex(c: char) -> bool {
    is_digit(c) || ('a' <= c && c <= 'f')
}

/// The language of `^[a-f0-9]{12,64}$`: a Docker container id, 12 to 64
/// lowercase hex digits.
pub open spec fn container_id_ok(s: Seq<char>) -> bool {
    12 <= s.len() <= 64 && forall|i: int| 0 <= i < s.len() ==> is_lower_hex(#[trigger] s[i])
}

/// `Regex::new(r"^[a-f0-9]{12,64}$")` matched against `s`.  Claimed of it:
/// it matches exactly the strings of that language (the pattern is anchored
/// at both ends and its class is ASCII ranges).
#[verifier::external_body]
fn container_pattern_matches(s: &str) -> (r: bool)
    ensures
        r == container_id_ok(s@),
{
    match regex::Regex::new(r"^[a-f0-9]{12,64}$") {
        Ok(re) => re.is_match(s),
        Err(_) => false,
    }
}

/// A container id the relay may address.
pub fn is_valid_container_id(id: &str) -> (b: bool)
    ensures
        b == container_id_ok(id@),
{
    container_pattern_matches(id)
}

/// Why a relay request is refused before the upgrade.
#[derive(Debug, Clone, Copy, PartialEq, Eq, Structural)]
pub enum RelayRefusal {
    /// 400: the id is not a container id (checked before any auth).
    BadId,
    /// 401: no valid credential.
    Unauthorized,
}

/// Screen a relay request: the id first, then the credential.
pub fn relay_precheck(id: &str, authed: bool) -> (r: Result<(), RelayRefusal>)
    ensures
        r == (if !container_id_ok(id@) {
            Err(RelayRefusal::BadId)
        } else if !authed {
            Err(RelayRefusal::Unauthorized)
        } else {
            Ok(())
        }),
{
    if !is_valid_container_id(id) {
        Err(RelayRefusal::BadId)
    } else if !authed {
        Err(RelayRefusal::Unauthorized)
    } else {
        Ok(())
    }
}

/// What arrived from the browser side of the relay.
#[derive(Debug, Clone, PartialEq, Eq)]
pub enum RelayInput {
    /// The shell's output ended.
    ShellDone,
    Binary(Vec<u8>),
    Text(String),
    Close,
    /// The socket ended.
    End,
    /// Ping or pong.
    Control,
    Error,
}

/// What the relay does next.
#[derive(Debug, Clone, PartialEq, Eq)]
pub enum RelayAction {
    /// Write these bytes to the shell's stdin.
    Write(Vec<u8>),
    /// Keep reading.
    Skip,
    /// Close stdin and end the session.
    Stop,
}

/// One step of the relay loop: data goes to the shell as bytes (text as
/// its UTF-8), ping and pong are skipped, and the end of the shell, a
/// close, the end of the socket or a socket error stop the session.
pub fn relay_step(input: RelayInput) -> (a: RelayAction)
    ensures
        match input {
            RelayInput::Binary(b) => a == RelayAction::Write(b),
            RelayInput::Text(t) => a matches RelayAction::Write(w) && w@ == vstd::utf8::encode_utf8(t@),
            RelayInput::Control => a == RelayAction::Skip,
            _ => a == RelayAction::Stop,
        },
{
    match input {
        RelayInput::Binary(b) => RelayAction::Write(b),
        RelayInput::Text(t) => RelayAction::Write(t.as_str().as_bytes_vec()),
        RelayInput::Control => RelayAction::Skip,
        _ => RelayAction::Stop,
    }
}

/// Containers younger than this (fifteen seconds, in nanoseconds) are never reaped.
pub const MIN_AGE_FOR_REAP_NANOS: u128 = 15_000_000_000;

pub open spec fn str_views(v: Seq<String>) -> Seq<Seq<char>> {
    v.map_values(|s: String| s@)
}

/// The watched containers to evict, in order: those at least fifteen
/// seconds old that Docker no longer lists as running.
pub open spec fn stale_ids(watched: Seq<(Seq<char>, u128)>, running: Seq<Seq<char>>) -> Seq<Seq<char>>
    decreases watched.len(),
{
    if watched.len() == 0 {
        Seq::empty()
    } else {
        let (id, age) = watched.last();
        let prev = stale_ids(watched.drop_last(), running);
        if age >= MIN_AGE_FOR_REAP_NANOS && !running.contains(id) {
            prev.push(id)
        } else {
            prev
        }
    }
}

pub open spec fn watched_view(v: Seq<(String, u128)>) -> Seq<(Seq<char>, u128)> {
    v.map_values(|p: (String, u128)| (p.0@, p.1))
}

/// The containers the reaper evicts, given each watched container with its
/// age and the ids Docker lists as running.
pub fn reap_candidates(watched: &Vec<(String, u128)>, running: &Vec<String>) -> (r: Vec<String>)
    ensures
        str_views(r@) == stale_ids(watched_view(watched@), str_views(running@)),
{
    let ghost rv = str_views(running@);
    let mut out: Vec<String> = Vec::new();
    let mut i: usize = 0;
    while i < watched.len()
        invariant
            i <= watched.len(),
            rv == str_views(running@),
            str_views(out@) == stale_ids(watched_view(watched@.take(i as int)), rv),
        decreases watched.len() - i,
    {
        assert(watched_view(watched@.take(i + 1)).drop_last() =~= watched_view(watched@.take(i as int)));
        let (id, age) = &watched[i];
        if *age >= MIN_AGE_FOR_REAP_NANOS {
            let mut seen = false;
            let mut j: usize = 0;
            while j < running.len()
                invariant
                    j <= running.len(),
                    rv == str_views(running@),
                    seen == rv.take(j as int).contains(id@),
                decreases running.len() - j,
            {
                proof {
                    crate::server::lemma_push_contains(rv.take(j as int), rv[j as int], id@);
                    assert(rv.take(j + 1) =~= rv.take(j as int).push(rv[j as int]));
                }
                if crate::text::str_eq(running[j].as_str(), id.as_str()) {
                    seen = true;
                }
                j += 1;
            }
            assert(rv.take(running.len() as int) =~= rv);
            if !seen {
                let ghost before = str_views(out@);
                out.push(id.clone());
                assert(str_views(out@) =~= before.push(id@));
            }
        }
        i += 1;
    }
    assert(watched@.take(watched.len() as int) =~= watched@);
    out
}

} // verus!
