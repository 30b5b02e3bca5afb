//! The command translator: a fixed table from command-line tokens to
//! one structured action request. Unknown commands and missing
//! required positional arguments translate to nothing.

use vstd::prelude::*;
use crate::request::{Action, ActionModel, Request, RequestModel, view_opt_request};
use crate::numparse::{spec_parse_u64, spec_parse_i32, parse_u64_chars, parse_i32_chars};
use crate::text::{str_eq, str_chars};
use vstd::string::StringExecFns;

verus! {

/// A URL already carrying an `http` prefix is kept; any other gets
/// `https://` prepended.
pub open spec fn starts_with_http(u: Seq<char>) -> bool {
    u.len() >= 4 && u[0] == 'h' && u[1] == 't' && u[2] == 't' && u[3] == 'p'
}

pub open spec fn normalize_url(u: Seq<char>) -> Seq<char> {
    if starts_with_http(u) {
        u
    } else {
        "https://"@ + u
    }
}

/// The remaining tokens joined with single spaces.
pub open spec fn spec_join(parts: Seq<Seq<char>>) -> Seq<char>
    decreases parts.len(),
{
    if parts.len() == 0 {
        Seq::empty()
    } else if parts.len() == 1 {
        parts[0]
    } else {
        spec_join(parts.drop_last()) + seq![' '] + parts.last()
    }
}

pub open spec fn is_interactive_flag(t: Seq<char>) -> bool {
    t == "-i"@ || t == "--interactive"@
}

pub open spec fn is_compact_flag(t: Seq<char>) -> bool {
    t == "-c"@ || t == "--compact"@
}

pub open spec fn is_depth_flag(t: Seq<char>) -> bool {
    t == "-d"@ || t == "--depth"@
}

pub open spec fn is_selector_flag(t: Seq<char>) -> bool {
    t == "-s"@ || t == "--selector"@
}

/// Whether an interactive flag stands anywhere among the first `n`
/// snapshot arguments.
pub open spec fn snap_interactive_upto(rest: Seq<Seq<char>>, n: int) -> bool
    decreases n,
{
    if n <= 0 {
        false
    } else {
        is_interactive_flag(rest[n - 1]) || snap_interactive_upto(rest, n - 1)
    }
}

pub open spec fn snap_interactive(rest: Seq<Seq<char>>) -> bool {
    snap_interactive_upto(rest, rest.len() as int)
}

pub open spec fn snap_compact_upto(rest: Seq<Seq<char>>, n: int) -> bool
    decreases n,
{
    if n <= 0 {
        false
    } else {
        is_compact_flag(rest[n - 1]) || snap_compact_upto(rest, n - 1)
    }
}

pub open spec fn snap_compact(rest: Seq<Seq<char>>) -> bool {
    snap_compact_upto(rest, rest.len() as int)
}

/// The depth set by the last depth flag among the first `n` snapshot
/// arguments that is followed by a token parsing as an `i32`; later
/// occurrences win.
pub open spec fn snap_depth_upto(rest: Seq<Seq<char>>, n: int) -> Option<i32>
    decreases n,
{
    if n <= 0 {
        None
    } else if is_depth_flag(rest[n - 1]) && n < rest.len() && spec_parse_i32(rest[n]) is Some {
        spec_parse_i32(rest[n])
    } else {
        snap_depth_upto(rest, n - 1)
    }
}

pub open spec fn snap_depth(rest: Seq<Seq<char>>) -> Option<i32> {
    snap_depth_upto(rest, rest.len() as int)
}

/// The selector set by the last selector flag among the first `n`
/// snapshot arguments that is followed by any token.
pub open spec fn snap_selector_upto(rest: Seq<Seq<char>>, n: int) -> Option<Seq<char>>
    decreases n,
{
    if n <= 0 {
        None
    } else if is_selector_flag(rest[n - 1]) && n < rest.len() {
        Some(rest[n])
    } else {
        snap_selector_upto(rest, n - 1)
    }
}

pub open spec fn snap_selector(rest: Seq<Seq<char>>) -> Option<Seq<char>> {
    snap_selector_upto(rest, rest.len() as int)
}

/// The translation table: the action for a command word and its
/// remaining tokens, or `None` when the word is unknown or a required
/// positional argument is missing.
pub open spec fn spec_action(cmd: Seq<char>, rest: Seq<Seq<char>>) -> Option<ActionModel> {
    if cmd == "open"@ || cmd == "goto"@ || cmd == "navigate"@ {
        if rest.len() >= 1 {
            Some(ActionModel::Navigate { url: normalize_url(rest[0]) })
        } else {
            None
        }
    } else if cmd == "click"@ {
        if rest.len() >= 1 {
            Some(ActionModel::Click { selector: rest[0] })
        } else {
            None
        }
    } else if cmd == "fill"@ {
        if rest.len() >= 1 {
            Some(ActionModel::Fill {
                selector: rest[0],
                value: spec_join(rest.subrange(1, rest.len() as int)),
            })
        } else {
            None
        }
    } else if cmd == "type"@ {
        if rest.len() >= 1 {
            Some(ActionModel::Type {
                selector: rest[0],
                text: spec_join(rest.subrange(1, rest.len() as int)),
            })
        } else {
            None
        }
    } else if cmd == "hover"@ {
        if rest.len() >= 1 {
            Some(ActionModel::Hover { selector: rest[0] })
        } else {
            None
        }
    } else if cmd == "snapshot"@ {
        Some(ActionModel::Snapshot {
            interactive: snap_interactive(rest),
            compact: snap_compact(rest),
            max_depth: snap_depth(rest),
            selector: snap_selector(rest),
        })
    } else if cmd == "screenshot"@ {
        Some(ActionModel::Screenshot {
            path: if rest.len() >= 1 {
                Some(rest[0])
            } else {
                None
            },
        })
    } else if cmd == "close"@ || cmd == "quit"@ || cmd == "exit"@ {
        Some(ActionModel::Close)
    } else if cmd == "get"@ {
        if rest.len() >= 1 && rest[0] == "text"@ {
            if rest.len() >= 2 {
                Some(ActionModel::GetText { selector: rest[1] })
            } else {
                None
            }
        } else if rest.len() >= 1 && rest[0] == "url"@ {
            Some(ActionModel::GetUrl)
        } else if rest.len() >= 1 && rest[0] == "title"@ {
            Some(ActionModel::GetTitle)
        } else {
            None
        }
    } else if cmd == "press"@ {
        if rest.len() >= 1 {
            Some(ActionModel::Press { key: rest[0] })
        } else {
            None
        }
    } else if cmd == "wait"@ {
        if rest.len() >= 1 {
            match spec_parse_u64(rest[0]) {
                Some(t) => Some(ActionModel::WaitTimeout { timeout: t }),
                None => Some(ActionModel::WaitSelector { selector: rest[0] }),
            }
        } else {
            None
        }
    } else if cmd == "back"@ {
        Some(ActionModel::Back)
    } else if cmd == "forward"@ {
        Some(ActionModel::Forward)
    } else if cmd == "reload"@ {
        Some(ActionModel::Reload)
    } else if cmd == "eval"@ {
        Some(ActionModel::Evaluate { script: spec_join(rest) })
    } else {
        None
    }
}

/// What `translate` returns: the table's action for the first token,
/// carrying the given id.
pub open spec fn spec_translate(tokens: Seq<Seq<char>>, id: Seq<char>) -> Option<RequestModel> {
    if tokens.len() == 0 {
        None
    } else {
        match spec_action(tokens[0], tokens.subrange(1, tokens.len() as int)) {
            Some(a) => Some(RequestModel { id: id, action: a }),
            None => None,
        }
    }
}

fn normalize_url_exec(u: &str) -> (r: String)
    ensures
        r@ == normalize_url(u@),
{
    let chars = str_chars(u);
    let has_http = chars.len() >= 4 && chars[0] == 'h' && chars[1] == 't' && chars[2] == 't'
        && chars[3] == 'p';
    if has_http {
        u.to_owned()
    } else {
        let mut s = "https://".to_owned();
        s.append(u);
        s
    }
}

/// Joins the tokens from position `from` on with single spaces.
fn join_tokens(tokens: &Vec<String>, from: usize) -> (r: String)
    requires
        from <= tokens@.len(),
    ensures
        r@ == spec_join(tokens.deep_view().subrange(from as int, tokens@.len() as int)),
{
    let ghost toks = tokens.deep_view();
    let mut s = String::new();
    let mut i: usize = from;
    while i < tokens.len()
        invariant
            from <= i <= tokens@.len(),
            toks == tokens.deep_view(),
            toks.len() == tokens@.len(),
            s@ == spec_join(toks.subrange(from as int, i as int)),
        decreases tokens@.len() - i,
    {
        if i > from {
            s.append(" ");
        }
        s.append(tokens[i].as_str());
        proof {
            reveal_strlit(" ");
            let sub1 = toks.subrange(from as int, i + 1);
            assert(sub1.drop_last() =~= toks.subrange(from as int, i as int));
            assert(sub1.last() == toks[i as int]);
            assert(" "@ =~= seq![' ']);
        }
        i += 1;
    }
    proof {
        assert(toks.subrange(from as int, i as int) =~= toks.subrange(
            from as int,
            tokens@.len() as int,
        ));
    }
    s
}

pub open spec fn view_opt_str(o: Option<String>) -> Option<Seq<char>> {
    match o {
        Some(s) => Some(s@),
        None => None,
    }
}

/// Scans every snapshot argument for the recognized flags;
/// unrecognized tokens are ignored, and a later occurrence of a
/// value-taking flag wins.
fn snapshot_action(tokens: &Vec<String>) -> (r: Action)
    requires
        tokens@.len() >= 1,
    ensures
        r@ == (ActionModel::Snapshot {
            interactive: snap_interactive(
                tokens.deep_view().subrange(1, tokens@.len() as int),
            ),
            compact: snap_compact(tokens.deep_view().subrange(1, tokens@.len() as int)),
            max_depth: snap_depth(tokens.deep_view().subrange(1, tokens@.len() as int)),
            selector: snap_selector(tokens.deep_view().subrange(1, tokens@.len() as int)),
        }),
{
    let ghost toks = tokens.deep_view();
    let ghost rest = toks.subrange(1, toks.len() as int);
    let mut interactive = false;
    let mut compact = false;
    let mut max_depth: Option<i32> = None;
    let mut selector: Option<String> = None;
    let mut i: usize = 1;
    while i < tokens.len()
        invariant
            1 <= i <= tokens@.len(),
            toks == tokens.deep_view(),
            toks.len() == tokens@.len(),
            rest == toks.subrange(1, toks.len() as int),
            interactive == snap_interactive_upto(rest, i - 1),
            compact == snap_compact_upto(rest, i - 1),
            max_depth == snap_depth_upto(rest, i - 1),
            view_opt_str(selector) == snap_selector_upto(rest, i - 1),
        decreases tokens@.len() - i,
    {
        let t = tokens[i].as_str();
        proof {
            assert(rest[i - 1] == toks[i as int]);
        }
        let f_interactive = str_eq(t, "-i") || str_eq(t, "--interactive");
        let f_compact = str_eq(t, "-c") || str_eq(t, "--compact");
        let f_depth = str_eq(t, "-d") || str_eq(t, "--depth");
        let f_selector = str_eq(t, "-s") || str_eq(t, "--selector");
        if f_interactive {
            interactive = true;
        }
        if f_compact {
            compact = true;
        }
        if f_depth {
            if i + 1 < tokens.len() {
                proof {
                    assert(rest[i as int] == toks[i + 1]);
                }
                let chars = str_chars(tokens[i + 1].as_str());
                match parse_i32_chars(&chars) {
                    Some(n) => {
                        max_depth = Some(n);
                    },
                    None => {},
                }
            }
        }
        if f_selector {
            if i + 1 < tokens.len() {
                proof {
                    assert(rest[i as int] == toks[i + 1]);
                }
                selector = Some(tokens[i + 1].clone());
            }
        }
        i += 1;
    }
    proof {
        assert(rest.len() == toks.len() - 1);
    }
    Action::Snapshot { interactive, compact, max_depth, selector }
}

/// Maps a command-line token sequence to the request it stands for,
/// carrying `id`, exactly as the translation table says; `None` for an
/// unknown command or a missing required argument.
pub fn translate(tokens: &Vec<String>, id: String) -> (r: Option<Request>)
    ensures
        view_opt_request(r) == spec_translate(tokens.deep_view(), id@),
{
    let ghost toks = tokens.deep_view();
    let ghost rest = toks.subrange(1, toks.len() as int);
    if tokens.len() == 0 {
        return None;
    }
    let cmd = tokens[0].as_str();
    proof {
        assert(toks[0] == tokens@[0]@);
        assert forall|j: int| 0 <= j < rest.len() implies rest[j] == toks[j + 1] by {}
    }
    if str_eq(cmd, "open") || str_eq(cmd, "goto") || str_eq(cmd, "navigate") {
        if tokens.len() >= 2 {
            let url = normalize_url_exec(tokens[1].as_str());
            Some(Request { id, action: Action::Navigate { url } })
        } else {
            None
        }
    } else if str_eq(cmd, "click") {
        if tokens.len() >= 2 {
            Some(Request { id, action: Action::Click { selector: tokens[1].clone() } })
        } else {
            None
        }
    } else if str_eq(cmd, "fill") {
        if tokens.len() >= 2 {
            let value = join_tokens(tokens, 2);
            proof {
                assert(toks.subrange(2, toks.len() as int) =~= rest.subrange(
                    1,
                    rest.len() as int,
                ));
            }
            Some(Request { id, action: Action::Fill { selector: tokens[1].clone(), value } })
        } else {
            None
        }
    } else if str_eq(cmd, "type") {
        if tokens.len() >= 2 {
            let text = join_tokens(tokens, 2);
            proof {
                assert(toks.subrange(2, toks.len() as int) =~= rest.subrange(
                    1,
                    rest.len() as int,
                ));
            }
            Some(Request { id, action: Action::Type { selector: tokens[1].clone(), text } })
        } else {
            None
        }
    } else if str_eq(cmd, "hover") {
        if tokens.len() >= 2 {
            Some(Request { id, action: Action::Hover { selector: tokens[1].clone() } })
        } else {
            None
        }
    } else if str_eq(cmd, "snapshot") {
        let action = snapshot_action(tokens);
        Some(Request { id, action })
    } else if str_eq(cmd, "screenshot") {
        let path = if tokens.len() >= 2 {
            Some(tokens[1].clone())
        } else {
            None
        };
        Some(Request { id, action: Action::Screenshot { path } })
    } else if str_eq(cmd, "close") || str_eq(cmd, "quit") || str_eq(cmd, "exit") {
        Some(Request { id, action: Action::Close })
    } else if str_eq(cmd, "get") {
        if tokens.len() >= 2 && str_eq(tokens[1].as_str(), "text") {
            if tokens.len() >= 3 {
                Some(Request { id, action: Action::GetText { selector: tokens[2].clone() } })
            } else {
                None
            }
        } else if tokens.len() >= 2 && str_eq(tokens[1].as_str(), "url") {
            Some(Request { id, action: Action::GetUrl })
        } else if tokens.len() >= 2 && str_eq(tokens[1].as_str(), "title") {
            Some(Request { id, action: Action::GetTitle })
        } else {
            None
        }
    } else if str_eq(cmd, "press") {
        if tokens.len() >= 2 {
            Some(Request { id, action: Action::Press { key: tokens[1].clone() } })
        } else {
            None
        }
    } else if str_eq(cmd, "wait") {
        if tokens.len() >= 2 {
            let chars = str_chars(tokens[1].as_str());
            match parse_u64_chars(&chars) {
                Some(t) => Some(Request { id, action: Action::WaitTimeout { timeout: t } }),
                None => Some(
                    Request { id, action: Action::WaitSelector { selector: tokens[1].clone() } },
                ),
            }
        } else {
            None
        }
    } else if str_eq(cmd, "back") {
        Some(Request { id, action: Action::Back })
    } else if str_eq(cmd, "forward") {
        Some(Request { id, action: Action::Forward })
    } else if str_eq(cmd, "reload") {
        Some(Request { id, action: Action::Reload })
    } else if str_eq(cmd, "eval") {
        let script = join_tokens(tokens, 1);
        proof {
            assert(toks.subrange(1, toks.len() as int) =~= rest);
        }
        Some(Request { id, action: Action::Evaluate { script } })
    } else {
        None
    }
}

/// Whenever a token sequence translates at all, its first token picks
/// the documented action, and exactly one command prefix can have
/// produced each action kind; the request carries the given id.
#[verifier::rlimit(60)]
pub proof fn lemma_translate_action_table(tokens: Seq<Seq<char>>, id: Seq<char>)
    requires
        spec_translate(tokens, id) is Some,
    ensures
        ({
            let req = spec_translate(tokens, id).unwrap();
            let cmd = tokens[0];
            &&& req.id == id
            &&& (req.action is Navigate <==> (cmd == "open"@ || cmd == "goto"@ || cmd
                == "navigate"@))
            &&& (req.action is Click <==> cmd == "click"@)
            &&& (req.action is Fill <==> cmd == "fill"@)
            &&& (req.action is Type <==> cmd == "type"@)
            &&& (req.action is Hover <==> cmd == "hover"@)
            &&& (req.action is Snapshot <==> cmd == "snapshot"@)
            &&& (req.action is Screenshot <==> cmd == "screenshot"@)
            &&& (req.action is Close <==> (cmd == "close"@ || cmd == "quit"@ || cmd == "exit"@))
            &&& ((req.action is GetText || req.action is GetUrl || req.action is GetTitle) <==> cmd
                == "get"@)
            &&& (req.action is Press <==> cmd == "press"@)
            &&& ((req.action is WaitTimeout || req.action is WaitSelector) <==> cmd == "wait"@)
            &&& (req.action is Back <==> cmd == "back"@)
            &&& (req.action is Forward <==> cmd == "forward"@)
            &&& (req.action is Reload <==> cmd == "reload"@)
            &&& (req.action is Evaluate <==> cmd == "eval"@)
        }),
{
    reveal_strlit("open");
    reveal_strlit("goto");
    reveal_strlit("navigate");
    reveal_strlit("click");
    reveal_strlit("fill");
    reveal_strlit("type");
    reveal_strlit("hover");
    reveal_strlit("snapshot");
    reveal_strlit("screenshot");
    reveal_strlit("close");
    reveal_strlit("quit");
    reveal_strlit("exit");
    reveal_strlit("get");
    reveal_strlit("press");
    reveal_strlit("wait");
    reveal_strlit("back");
    reveal_strlit("forward");
    reveal_strlit("reload");
    reveal_strlit("eval");
    assert("open"@[0] == 'o' && "open"@[1] == 'p' && "open"@[2] == 'e');
    assert("goto"@[0] == 'g' && "goto"@[1] == 'o' && "goto"@[2] == 't');
    assert("navigate"@[0] == 'n' && "navigate"@[1] == 'a' && "navigate"@[2] == 'v');
    assert("click"@[0] == 'c' && "click"@[1] == 'l' && "click"@[2] == 'i');
    assert("fill"@[0] == 'f' && "fill"@[1] == 'i' && "fill"@[2] == 'l');
    assert("type"@[0] == 't' && "type"@[1] == 'y' && "type"@[2] == 'p');
    assert("hover"@[0] == 'h' && "hover"@[1] == 'o' && "hover"@[2] == 'v');
    assert("snapshot"@[0] == 's' && "snapshot"@[1] == 'n' && "snapshot"@[2] == 'a');
    assert("screenshot"@[0] == 's' && "screenshot"@[1] == 'c' && "screenshot"@[2] == 'r');
    assert("close"@[0] == 'c' && "close"@[1] == 'l' && "close"@[2] == 'o');
    assert("quit"@[0] == 'q' && "quit"@[1] == 'u' && "quit"@[2] == 'i');
    assert("exit"@[0] == 'e' && "exit"@[1] == 'x' && "exit"@[2] == 'i');
    assert("get"@[0] == 'g' && "get"@[1] == 'e' && "get"@[2] == 't');
    assert("press"@[0] == 'p' && "press"@[1] == 'r' && "press"@[2] == 'e');
    assert("wait"@[0] == 'w' && "wait"@[1] == 'a' && "wait"@[2] == 'i');
    assert("back"@[0] == 'b' && "back"@[1] == 'a' && "back"@[2] == 'c');
    assert("forward"@[0] == 'f' && "forward"@[1] == 'o' && "forward"@[2] == 'r');
    assert("reload"@[0] == 'r' && "reload"@[1] == 'e' && "reload"@[2] == 'l');
    assert("eval"@[0] == 'e' && "eval"@[1] == 'v' && "eval"@[2] == 'a');
    let req = spec_translate(tokens, id).unwrap();
    let cmd = tokens[0];
    assert(req.id == id);
    assert(req.action is Navigate <==> (cmd == "open"@ || cmd == "goto"@ || cmd == "navigate"@));
    assert(req.action is Click <==> cmd == "click"@);
    assert(req.action is Fill <==> cmd == "fill"@);
    assert(req.action is Type <==> cmd == "type"@);
    assert(req.action is Hover <==> cmd == "hover"@);
    assert(req.action is Snapshot <==> cmd == "snapshot"@);
    assert(req.action is Screenshot <==> cmd == "screenshot"@);
    assert(req.action is Close <==> (cmd == "close"@ || cmd == "quit"@ || cmd == "exit"@));
    assert((req.action is GetText || req.action is GetUrl || req.action is GetTitle) <==> cmd
        == "get"@);
    assert(req.action is Press <==> cmd == "press"@);
    assert((req.action is WaitTimeout || req.action is WaitSelector) <==> cmd == "wait"@);
    assert(req.action is Back <==> cmd == "back"@);
    assert(req.action is Forward <==> cmd == "forward"@);
    assert(req.action is Reload <==> cmd == "reload"@);
    assert(req.action is Evaluate <==> cmd == "eval"@);
}

/// The snapshot flags may come in any order: with a boolean flag on
/// either side of a depth flag and its argument, the extracted fields
/// agree (the argument itself must not be a selector flag, which
/// would consume the token after it).
pub proof fn lemma_snapshot_flag_order(d: Seq<char>)
    requires
        !is_selector_flag(d),
    ensures
        ({
            let before = seq!["-i"@, "-d"@, d];
            let after = seq!["-d"@, d, "-i"@];
            &&& snap_interactive(before) == snap_interactive(after)
            &&& snap_compact(before) == snap_compact(after)
            &&& snap_depth(before) == snap_depth(after)
            &&& snap_selector(before) == snap_selector(after)
        }),
{
    reveal_strlit("-i");
    reveal_strlit("-d");
    reveal_strlit("-c");
    reveal_strlit("-s");
    reveal_strlit("--interactive");
    reveal_strlit("--depth");
    reveal_strlit("--compact");
    reveal_strlit("--selector");
    reveal_with_fuel(snap_interactive_upto, 5);
    reveal_with_fuel(snap_compact_upto, 5);
    reveal_with_fuel(snap_depth_upto, 5);
    reveal_with_fuel(snap_selector_upto, 5);
    let before = seq!["-i"@, "-d"@, d];
    let after = seq!["-d"@, d, "-i"@];
    assert(snap_interactive_upto(before, 3) == snap_interactive_upto(after, 3));
    assert(snap_compact_upto(before, 3) == snap_compact_upto(after, 3));
    assert(snap_depth_upto(before, 3) == snap_depth_upto(after, 3));
    assert(snap_selector_upto(before, 3) == snap_selector_upto(after, 3));
}

} // verus!
