//! Session addressing: the socket and PID-file paths for a named
//! session are pure functions of the temp directory and the session
//! identifier, so every component of one session targets the same
//! files.

use vstd::prelude::*;
use vstd::string::StringExecFns;

verus! {

/// The identifier used when the environment supplies none.
pub open spec fn default_session() -> Seq<char> {
    "default"@
}

/// The socket path for a session: `<tmp>/agent-browser-<session>.sock`.
pub open spec fn spec_socket_path(tmp: Seq<char>, session: Seq<char>) -> Seq<char> {
    tmp + "/agent-browser-"@ + session + ".sock"@
}

/// The PID-file path for a session: `<tmp>/agent-browser-<session>.pid`.
pub open spec fn spec_pid_path(tmp: Seq<char>, session: Seq<char>) -> Seq<char> {
    tmp + "/agent-browser-"@ + session + ".pid"@
}

/// The effective session name: the environment's value when present,
/// the fixed default otherwise.
pub fn session_name(env_value: Option<String>) -> (r: String)
    ensures
        match env_value {
            Some(s) => r@ == s@,
            None => r@ == default_session(),
        },
{
    match env_value {
        Some(s) => s,
        None => "default".to_owned(),
    }
}

pub fn socket_path(tmp: &str, session: &str) -> (r: String)
    ensures
        r@ == spec_socket_path(tmp@, session@),
{
    let mut s = tmp.to_owned();
    s.append("/agent-browser-");
    s.append(session);
    s.append(".sock");
    s
}

pub fn pid_path(tmp: &str, session: &str) -> (r: String)
    ensures
        r@ == spec_pid_path(tmp@, session@),
{
    let mut s = tmp.to_owned();
    s.append("/agent-browser-");
    s.append(session);
    s.append(".pid");
    s
}

/// Path derivation is deterministic: equal temp directories and equal
/// session identifiers always give equal socket and PID paths, in this
/// process or any other.
pub proof fn lemma_paths_deterministic(
    tmp1: Seq<char>,
    session1: Seq<char>,
    tmp2: Seq<char>,
    session2: Seq<char>,
)
    requires
        tmp1 == tmp2,
        session1 == session2,
    ensures
        spec_socket_path(tmp1, session1) == spec_socket_path(tmp2, session2),
        spec_pid_path(tmp1, session1) == spec_pid_path(tmp2, session2),
{
}

/// Distinct session identifiers never share a socket path (with the
/// same temp directory).
pub proof fn lemma_sessions_do_not_collide(tmp: Seq<char>, session1: Seq<char>, session2: Seq<char>)
    requires
        session1 != session2,
    ensures
        spec_socket_path(tmp, session1) != spec_socket_path(tmp, session2),
{
    let p1 = spec_socket_path(tmp, session1);
    let p2 = spec_socket_path(tmp, session2);
    if p1 == p2 {
        assert(p1.len() == p2.len());
        assert(session1.len() == session2.len());
        let pre = tmp + "/agent-browser-"@;
        assert forall|i: int| 0 <= i < session1.len() implies session1[i] == session2[i] by {
            assert(p1[pre.len() + i] == session1[i]);
            assert(p2[pre.len() + i] == session2[i]);
        }
        assert(session1 =~= session2);
    }
}

} // verus!
