//! The daemon supervisor's decision rules: when the daemon counts as
//! ready, how its executable is located among ordered candidates, how
//! the PID file's content is read, and the bounded readiness poll
//! after a launch. The process operations themselves (signalling,
//! spawning, sleeping, checking the filesystem) happen outside; this
//! module decides from their observations.

use vstd::prelude::*;
use vstd::string::StringExecFns;
use crate::numparse::{spec_parse_i32, parse_i32_chars};
use crate::text::str_chars;

verus! {

/// Why ensuring a daemon failed.
#[derive(Debug, Clone, PartialEq, Eq)]
pub enum DaemonError {
    /// No candidate location held the daemon's executable.
    NotFound,
    /// Spawning the daemon process failed; carries the spawn error's
    /// text.
    SpawnFailed { detail: String },
    /// The socket did not appear within the polling budget.
    StartTimeout,
}

impl DaemonError {
    /// The single descriptive line surfaced to the user.
    pub fn message(&self) -> (r: String)
        ensures
            r@ == match self {
                DaemonError::NotFound =>
                    "Daemon not found. Run from project directory or ensure daemon.js is alongside binary."@,
                DaemonError::SpawnFailed { detail } => "Failed to start daemon: "@ + detail@,
                DaemonError::StartTimeout => "Daemon failed to start"@,
            },
    {
        match self {
            DaemonError::NotFound => (
                "Daemon not found. Run from project directory or ensure daemon.js is alongside binary.".to_owned()
            ),
            DaemonError::SpawnFailed { detail } => {
                let mut s = "Failed to start daemon: ".to_owned();
                s.append(detail.as_str());
                s
            },
            DaemonError::StartTimeout => "Daemon failed to start".to_owned(),
        }
    }
}

/// A live PID and an existing socket are together necessary and
/// sufficient to treat the daemon as already running.
pub fn daemon_ready(pid_alive: bool, socket_exists: bool) -> (r: bool)
    ensures
        r == (pid_alive && socket_exists),
{
    pid_alive && socket_exists
}

/// The characters `str::trim` strips: Unicode whitespace.
pub open spec fn is_space(c: char) -> bool {
    (9 <= c as u32 && c as u32 <= 13) || c as u32 == 32 || c as u32 == 0x85 || c as u32 == 0xA0
        || c as u32 == 0x1680 || (0x2000 <= c as u32 && c as u32 <= 0x200A) || c as u32 == 0x2028
        || c as u32 == 0x2029 || c as u32 == 0x202F || c as u32 == 0x205F || c as u32 == 0x3000
}

/// The first position at or after `i` holding a non-space, or the
/// length when there is none.
pub open spec fn first_non_space(s: Seq<char>, i: int) -> int
    decreases s.len() - i,
{
    if i < 0 || i >= s.len() {
        s.len() as int
    } else if is_space(s[i]) {
        first_non_space(s, i + 1)
    } else {
        i
    }
}

/// The position after the last non-space strictly before `j`, or zero
/// when there is none.
pub open spec fn last_non_space_end(s: Seq<char>, j: int) -> int
    decreases j,
{
    if j <= 0 || j > s.len() {
        0
    } else if is_space(s[j - 1]) {
        last_non_space_end(s, j - 1)
    } else {
        j
    }
}

/// `s` with leading and trailing whitespace removed.
pub open spec fn spec_trim(s: Seq<char>) -> Seq<char> {
    let from = first_non_space(s, 0);
    let to = last_non_space_end(s, s.len() as int);
    if from >= to {
        Seq::empty()
    } else {
        s.subrange(from, to)
    }
}

/// What the PID file's content means: its trimmed text read as an
/// `i32`, or nothing.
pub open spec fn spec_parse_pid(s: Seq<char>) -> Option<i32> {
    spec_parse_i32(spec_trim(s))
}

fn is_space_exec(c: char) -> (r: bool)
    ensures
        r == is_space(c),
{
    let u = c as u32;
    (9 <= u && u <= 13) || u == 32 || u == 0x85 || u == 0xA0 || u == 0x1680 || (0x2000 <= u && u
        <= 0x200A) || u == 0x2028 || u == 0x2029 || u == 0x202F || u == 0x205F || u == 0x3000
}

proof fn lemma_last_nse_all_spaces(s: Seq<char>, k: int)
    requires
        0 <= k <= s.len(),
        forall|j: int| 0 <= j < k ==> is_space(s[j]),
    ensures
        last_non_space_end(s, k) == 0,
    decreases k,
{
    if k > 0 {
        lemma_last_nse_all_spaces(s, k - 1);
    }
}

/// Reads a PID file's content: whitespace around the number is
/// ignored, anything that is not a plain `i32` yields nothing.
pub fn parse_pid(s: &str) -> (r: Option<i32>)
    ensures
        r == spec_parse_pid(s@),
{
    let chars = str_chars(s);
    let n = chars.len();
    let mut from: usize = 0;
    while from < n && is_space_exec(chars[from])
        invariant
            0 <= from <= n,
            n == chars@.len(),
            chars@ == s@,
            first_non_space(s@, 0) == first_non_space(s@, from as int),
            forall|j: int| 0 <= j < from ==> is_space(s@[j]),
        decreases n - from,
    {
        from += 1;
    }
    proof {
        assert(first_non_space(s@, 0) == from as int);
    }
    let mut to: usize = n;
    while to > from && is_space_exec(chars[to - 1])
        invariant
            from <= to <= n,
            n == chars@.len(),
            chars@ == s@,
            first_non_space(s@, 0) == from as int,
            forall|j: int| 0 <= j < from ==> is_space(s@[j]),
            last_non_space_end(s@, n as int) == last_non_space_end(s@, to as int),
        decreases to,
    {
        to -= 1;
    }
    proof {
        if to == from {
            lemma_last_nse_all_spaces(s@, from as int);
        }
        assert(last_non_space_end(s@, n as int) == if to == from {
            0int
        } else {
            to as int
        });
    }
    let ghost trim_end: int = last_non_space_end(s@, n as int);
    let mut trimmed: Vec<char> = Vec::new();
    let mut i: usize = from;
    while i < to
        invariant
            from <= i <= to <= n,
            n == chars@.len(),
            chars@ == s@,
            first_non_space(s@, 0) == from as int,
            trim_end == last_non_space_end(s@, n as int),
            trim_end == if to == from {
                0int
            } else {
                to as int
            },
            trimmed@ == s@.subrange(from as int, i as int),
        decreases to - i,
    {
        trimmed.push(chars[i]);
        proof {
            assert(s@.subrange(from as int, i + 1) =~= s@.subrange(from as int, i as int).push(
                s@[i as int],
            ));
        }
        i += 1;
    }
    proof {
        assert(trimmed@ =~= spec_trim(s@));
    }
    parse_i32_chars(&trimmed)
}

/// The ordered candidate locations for the daemon's executable:
/// beside the binary, one directory up under `dist`, and under the
/// working directory.
pub fn daemon_candidates(exe_dir: &str) -> (r: Vec<String>)
    ensures
        r@.len() == 3,
        r.deep_view()[0] == exe_dir@ + "/daemon.js"@,
        r.deep_view()[1] == exe_dir@ + "/../dist/daemon.js"@,
        r.deep_view()[2] == "dist/daemon.js"@,
{
    let mut v: Vec<String> = Vec::new();
    let mut a = exe_dir.to_owned();
    a.append("/daemon.js");
    v.push(a);
    let mut b = exe_dir.to_owned();
    b.append("/../dist/daemon.js");
    v.push(b);
    v.push("dist/daemon.js".to_owned());
    v
}

/// The first existing candidate wins.
pub fn first_existing(exists: &Vec<bool>) -> (r: Option<usize>)
    ensures
        match r {
            Some(i) => i < exists@.len() && exists@[i as int] && forall|j: int|
                0 <= j < i ==> !exists@[j],
            None => forall|j: int| 0 <= j < exists@.len() ==> !exists@[j],
        },
{
    let mut i: usize = 0;
    while i < exists.len()
        invariant
            0 <= i <= exists@.len(),
            forall|j: int| 0 <= j < i ==> !exists@[j],
        decreases exists@.len() - i,
    {
        if exists[i] {
            return Some(i);
        }
        i += 1;
    }
    None
}

/// The number of readiness checks made after a launch, one every
/// `POLL_INTERVAL_MS` milliseconds.
pub const POLL_ATTEMPTS: u32 = 50;

/// The pause between readiness checks, in milliseconds.
pub const POLL_INTERVAL_MS: u64 = 100;

/// What the supervisor does after one readiness observation.
#[derive(Debug, Clone, Copy, PartialEq, Eq)]
pub enum PollStep {
    /// The socket exists: the daemon is ready.
    Ready,
    /// Not yet: spend one attempt and pause for the interval.
    Sleep,
    /// The budget is exhausted: report the start timeout.
    GiveUp,
}

/// One step of the readiness poll. The caller observes the socket,
/// hands the observation in, and performs what the step says; the
/// budget bounds the number of observations.
pub fn poll_step(socket_exists: bool, attempts_left: u32) -> (r: PollStep)
    ensures
        r == (if attempts_left == 0 {
            PollStep::GiveUp
        } else if socket_exists {
            PollStep::Ready
        } else {
            PollStep::Sleep
        }),
{
    if attempts_left == 0 {
        PollStep::GiveUp
    } else if socket_exists {
        PollStep::Ready
    } else {
        PollStep::Sleep
    }
}

/// The first attempt index in `[i, max)` at which the socket was
/// observed, or nothing when the whole budget saw none.
pub open spec fn first_ready(obs: Seq<bool>, i: int, max: int) -> Option<int>
    decreases max - i,
{
    if i >= max || i < 0 {
        None
    } else if obs[i] {
        Some(i)
    } else {
        first_ready(obs, i + 1, max)
    }
}

/// The outcome of the readiness poll.
#[derive(Debug, Clone, Copy, PartialEq, Eq)]
pub enum PollOutcome {
    /// The socket appeared at this attempt index.
    Ready { attempt: usize },
    /// The budget was exhausted without seeing the socket.
    TimedOut,
}

/// Runs the readiness poll over a sequence of socket observations:
/// one observation per attempt, at most `max` attempts, stopping at
/// the first attempt that sees the socket.
pub fn run_poll(obs: &Vec<bool>, max: usize) -> (r: PollOutcome)
    requires
        max <= obs@.len(),
    ensures
        match r {
            PollOutcome::Ready { attempt } => first_ready(obs@, 0, max as int) == Some(
                attempt as int,
            ),
            PollOutcome::TimedOut => first_ready(obs@, 0, max as int) is None,
        },
{
    let mut i: usize = 0;
    while i < max
        invariant
            0 <= i <= max <= obs@.len(),
            first_ready(obs@, 0, max as int) == first_ready(obs@, i as int, max as int),
        decreases max - i,
    {
        if obs[i] {
            return PollOutcome::Ready { attempt: i };
        }
        i += 1;
    }
    PollOutcome::TimedOut
}

proof fn lemma_first_ready_appearing(obs: Seq<bool>, d: int, i: int, max: int)
    requires
        0 <= i <= max <= obs.len(),
        i <= d,
        forall|j: int| 0 <= j < obs.len() ==> (obs[j] <==> j >= d),
    ensures
        first_ready(obs, i, max) == if d < max {
            Some(d)
        } else {
            None::<int>
        },
    decreases d - i,
{
    if i < max {
        if i == d {
        } else {
            lemma_first_ready_appearing(obs, d, i + 1, max);
        }
    }
}

/// Bounded readiness: when the socket appears at attempt `d`, polling
/// with budget `max` succeeds exactly when `d` lies within the
/// budget, at attempt `d` itself; a later appearance times out. The
/// poll never runs past its budget.
pub proof fn lemma_poll_bounded(obs: Seq<bool>, d: int, max: int)
    requires
        0 <= d,
        0 <= max <= obs.len(),
        forall|j: int| 0 <= j < obs.len() ==> (obs[j] <==> j >= d),
    ensures
        d < max ==> first_ready(obs, 0, max) == Some(d),
        d >= max ==> first_ready(obs, 0, max) is None,
{
    lemma_first_ready_appearing(obs, d, 0, max);
}

} // verus!
