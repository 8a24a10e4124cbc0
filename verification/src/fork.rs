//! Handing a live session off to a terminal: the allowlists that make the
//! session id and working directory safe to embed in a shell command, the
//! resume command itself, and the first `cwd` recorded in a session log.
use vstd::prelude::*;

use crate::config::{AgentKind, AgentSession};
use crate::text::{alnum, chars_of, hex, is_alnum, is_hex, push_char};

verus! {

/// The session id is a UUID-like token: not empty, at most 36 bytes, and
/// only hexadecimal digits and hyphens.
pub open spec fn safe_session_id(id: &str) -> bool {
    id@.len() > 0 && id.len() <= 36 && forall|i: int|
        0 <= i < id@.len() ==> is_hex(#[trigger] id@[i]) || id@[i] == '-'
}

fn all_hex_or_hyphen(id: &str) -> (b: bool)
    ensures
        b == forall|i: int| 0 <= i < id@.len() ==> is_hex(#[trigger] id@[i]) || id@[i] == '-',
{
    let v = chars_of(id);
    let mut i: usize = 0;
    while i < v.len()
        invariant
            v@ == id@,
            i <= v.len(),
            forall|j: int| 0 <= j < i ==> is_hex(#[trigger] v@[j]) || v@[j] == '-',
        decreases v.len() - i,
    {
        if !(hex(v[i]) || v[i] == '-') {
            assert(!(is_hex(id@[i as int]) || id@[i as int] == '-'));
            return false;
        }
        i += 1;
    }
    true
}

/// Return `true` when `id` is safe to use as a filename component.
pub fn is_safe_session_id(id: &str) -> (b: bool)
    ensures
        b == safe_session_id(id),
{
    !id.is_empty() && id.len() <= 36 && all_hex_or_hyphen(id)
}

/// Allowlist validator for session ids embedded in a terminal command.
pub fn is_safe_fork_session_id(id: &str) -> (b: bool)
    ensures
        b == safe_session_id(id),
{
    !id.is_empty() && id.len() <= 36 && all_hex_or_hyphen(id)
}

/// Characters allowed in a forked session's working directory.
pub open spec fn is_cwd_char(c: char) -> bool {
    is_alnum(c) || c == '/' || c == '_' || c == '.' || c == '-' || c == ' '
}

/// The working directory is not empty, at most 512 bytes, and holds only
/// letters, digits, `/`, `_`, `.`, `-` and spaces.
pub open spec fn safe_fork_cwd(cwd: &str) -> bool {
    cwd@.len() > 0 && cwd.len() <= 512 && forall|i: int|
        0 <= i < cwd@.len() ==> is_cwd_char(#[trigger] cwd@[i])
}

/// Allowlist validator for working-directory paths embedded in a terminal command.
pub fn is_safe_fork_cwd(cwd: &str) -> (b: bool)
    ensures
        b == safe_fork_cwd(cwd),
{
    if cwd.is_empty() || cwd.len() > 512 {
        return false;
    }
    let v = chars_of(cwd);
    let mut i: usize = 0;
    while i < v.len()
        invariant
            v@ == cwd@,
            cwd@.len() > 0 && cwd.len() <= 512,
            i <= v.len(),
            forall|j: int| 0 <= j < i ==> is_cwd_char(#[trigger] v@[j]),
        decreases v.len() - i,
    {
        let c = v[i];
        if !(alnum(c) || c == '/' || c == '_' || c == '.' || c == '-' || c == ' ') {
            assert(!is_cwd_char(cwd@[i as int]));
            return false;
        }
        i += 1;
    }
    true
}


/// Successful fork response.
#[derive(Debug)]
pub struct ForkResponse {
    /// Whether a native terminal was spawned.
    pub launched: bool,
    /// The exact resume command.
    pub command: String,
    /// The session being resumed.
    pub session_id: String,
    /// Agent family of the handed-off session.
    pub agent: &'static str,
    /// Platform string.
    pub platform: &'static str,
}

/// The agent label and resume command of a session: `cd <cwd> && <bin>
/// --resume <id>` for the Lightarchitects agents (`bin` is the agent binary
/// they share), `cd <cwd> && codex exec resume <id>` for Codex; the Mistral
/// Vibe agent has no resume command.
pub open spec fn resume_of(session: AgentSession, bin: Seq<char>, cwd: Seq<char>, id: Seq<char>) -> Option<
    (Seq<char>, Seq<char>),
> {
    match session {
        AgentSession::Lightarchitects(_) => Some(
            ("lightarchitects"@, "cd "@ + cwd + " && "@ + bin + " --resume "@ + id),
        ),
        AgentSession::LightarchitectsNative(_) => Some(
            ("lightarchitects_native"@, "cd "@ + cwd + " && "@ + bin + " --resume "@ + id),
        ),
        AgentSession::Codex(_) => Some(("codex"@, "cd "@ + cwd + " && codex exec resume "@ + id)),
        AgentSession::MistralVibe(_) => None,
    }
}

/// Build the resume command for the session's agent family.
pub fn resume_command(session: &AgentSession, agent_bin: &str, cwd: &str, session_id: &str) -> (r: Option<
    (&'static str, String),
>)
    ensures
        r is Some <==> resume_of(*session, agent_bin@, cwd@, session_id@) is Some,
        r is Some ==> ({
            let (label, cmd) = r->0;
            (label@, cmd@) == resume_of(*session, agent_bin@, cwd@, session_id@)->0
        }),
{
    let prefix = String::from_str("cd ").concat(cwd);
    match session {
        AgentSession::Lightarchitects(_) => Some(
            ("lightarchitects", prefix.concat(" && ").concat(agent_bin).concat(" --resume ").concat(session_id)),
        ),
        AgentSession::LightarchitectsNative(_) => Some(
            ("lightarchitects_native", prefix.concat(" && ").concat(agent_bin).concat(" --resume ").concat(session_id)),
        ),
        AgentSession::Codex(_) => Some(
            ("codex", prefix.concat(" && codex exec resume ").concat(session_id)),
        ),
        AgentSession::MistralVibe(_) => None,
    }
}

/// `s` with each `\` doubled and each `"` preceded by `\`.
pub open spec fn quote_escaped(s: Seq<char>) -> Seq<char>
    decreases s.len(),
{
    if s.len() == 0 {
        Seq::empty()
    } else {
        quote_escaped(s.drop_last()) + if s.last() == '\\' {
            seq!['\\', '\\']
        } else if s.last() == '"' {
            seq!['\\', '"']
        } else {
            seq![s.last()]
        }
    }
}

/// The script that opens a terminal window running `command`.
pub open spec fn terminal_script(command: Seq<char>) -> Seq<char> {
    "tell application \"Terminal\" to do script \""@ + quote_escaped(command) + "\""@
}

/// The script that asks the terminal application to run `command`, with the
/// command embedded as a quoted string.
pub fn applescript_for(command: &str) -> (r: String)
    ensures
        r@ == terminal_script(command@),
{
    let v = chars_of(command);
    let mut out = String::from_str("tell application \"Terminal\" to do script \"");
    let ghost head = out@;
    let mut i: usize = 0;
    while i < v.len()
        invariant
            i <= v.len(),
            v@ == command@,
            out@ == head + quote_escaped(v@.take(i as int)),
        decreases v.len() - i,
    {
        let c = v[i];
        assert(v@.take(i + 1).drop_last() =~= v@.take(i as int));
        if c == '\\' {
            push_char(&mut out, '\\');
            push_char(&mut out, '\\');
        } else if c == '"' {
            push_char(&mut out, '\\');
            push_char(&mut out, '"');
        } else {
            push_char(&mut out, c);
        }
        i += 1;
        assert(out@ =~= head + quote_escaped(v@.take(i as int)));
    }
    assert(v@.take(v.len() as int) =~= v@);
    out.concat("\"")
}

/// Why a fork is refused.
#[derive(Debug, Clone, Copy, PartialEq, Eq, Structural)]
pub enum ForkRefusal {
    /// 404: no such build.
    BuildNotFound,
    /// 409: the copilot has no session yet (no chat turn was sent).
    NoSessionYet,
    /// 400: the session id is not a UUID.
    InvalidSessionId,
    /// 400: the working directory holds characters outside the allowlist.
    InvalidCwd,
    /// 400: the agent cannot resume a session in a terminal.
    UnsupportedAgent,
}

/// The outcome of a fork request: the build first (404), a session to
/// resume (409), a safe session id and working directory (400 each), then
/// the agent's resume command.
pub open spec fn fork_outcome(
    build_found: bool,
    session_id: Option<&str>,
    cwd: &str,
    session: AgentSession,
    bin: Seq<char>,
) -> Result<(Seq<char>, Seq<char>), ForkRefusal> {
    if !build_found {
        Err(ForkRefusal::BuildNotFound)
    } else {
        match session_id {
            None => Err(ForkRefusal::NoSessionYet),
            Some(id) => if !safe_session_id(id) {
                Err(ForkRefusal::InvalidSessionId)
            } else if !safe_fork_cwd(cwd) {
                Err(ForkRefusal::InvalidCwd)
            } else {
                match resume_of(session, bin, cwd@, id@) {
                    Some(r) => Ok(r),
                    None => Err(ForkRefusal::UnsupportedAgent),
                }
            },
        }
    }
}

/// Plan a fork of a build's agent session into a native terminal: the
/// agent label and the command to run, or why not.
pub fn fork_plan(
    build_found: bool,
    session_id: Option<&str>,
    cwd: &str,
    session: &AgentSession,
    agent_bin: &str,
) -> (r: Result<(&'static str, String), ForkRefusal>)
    ensures
        match r {
            Ok((label, cmd)) => fork_outcome(build_found, session_id, cwd, *session, agent_bin@) == Ok::<
                (Seq<char>, Seq<char>),
                ForkRefusal,
            >((label@, cmd@)),
            Err(e) => fork_outcome(build_found, session_id, cwd, *session, agent_bin@) == Err::<
                (Seq<char>, Seq<char>),
                ForkRefusal,
            >(e),
        },
{
    if !build_found {
        return Err(ForkRefusal::BuildNotFound);
    }
    let id = match session_id {
        None => {
            return Err(ForkRefusal::NoSessionYet);
        },
        Some(id) => id,
    };
    if !is_safe_fork_session_id(id) {
        return Err(ForkRefusal::InvalidSessionId);
    }
    if !is_safe_fork_cwd(cwd) {
        return Err(ForkRefusal::InvalidCwd);
    }
    match resume_command(session, agent_bin, cwd, id) {
        Some(r) => Ok(r),
        None => Err(ForkRefusal::UnsupportedAgent),
    }
}

} // verus!
