//! The wire encoding of a request: one JSON object on one line, in a
//! fixed canonical shape — `id`, `action`, then the action's fields
//! in declaration order, with strings escaped. The decoder below
//! reads exactly this canonical shape back; together they form the
//! round trip a mock daemon exercises.

use vstd::prelude::*;
use crate::request::{Action, ActionModel, Request, RequestModel};
use crate::text::{dec_digits, push_dec, chars_to_string, str_chars};

verus! {

/// The lowercase hex digit for a value below sixteen.
pub open spec fn hex_lo_char(d: nat) -> char {
    if d == 0 { '0' }
    else if d == 1 { '1' }
    else if d == 2 { '2' }
    else if d == 3 { '3' }
    else if d == 4 { '4' }
    else if d == 5 { '5' }
    else if d == 6 { '6' }
    else if d == 7 { '7' }
    else if d == 8 { '8' }
    else if d == 9 { '9' }
    else if d == 10 { 'a' }
    else if d == 11 { 'b' }
    else if d == 12 { 'c' }
    else if d == 13 { 'd' }
    else if d == 14 { 'e' }
    else { 'f' }
}

/// How one character is written inside a JSON string: the named
/// two-character escapes, `\u00XX` for the remaining control
/// characters, the character itself otherwise.
pub open spec fn esc_char(c: char) -> Seq<char> {
    if c == '"' {
        seq!['\\', '"']
    } else if c == '\\' {
        seq!['\\', '\\']
    } else if c == '\n' {
        seq!['\\', 'n']
    } else if c == '\r' {
        seq!['\\', 'r']
    } else if c == '\t' {
        seq!['\\', 't']
    } else if (c as u32) < 32 {
        seq!['\\', 'u', '0', '0', hex_lo_char((c as u32 / 16) as nat), hex_lo_char(
            (c as u32 % 16) as nat,
        )]
    } else {
        seq![c]
    }
}

fn exec_hex_lo(d: u32) -> (c: char)
    requires
        d < 16,
    ensures
        c == hex_lo_char(d as nat),
{
    if d == 0 { '0' }
    else if d == 1 { '1' }
    else if d == 2 { '2' }
    else if d == 3 { '3' }
    else if d == 4 { '4' }
    else if d == 5 { '5' }
    else if d == 6 { '6' }
    else if d == 7 { '7' }
    else if d == 8 { '8' }
    else if d == 9 { '9' }
    else if d == 10 { 'a' }
    else if d == 11 { 'b' }
    else if d == 12 { 'c' }
    else if d == 13 { 'd' }
    else if d == 14 { 'e' }
    else { 'f' }
}

pub open spec fn escape(s: Seq<char>) -> Seq<char>
    decreases s.len(),
{
    if s.len() == 0 {
        Seq::empty()
    } else {
        escape(s.drop_last()) + esc_char(s.last())
    }
}

/// A JSON string literal: quoted, escaped text.
pub open spec fn jstr(s: Seq<char>) -> Seq<char> {
    seq!['"'] + escape(s) + seq!['"']
}

/// A signed decimal.
pub open spec fn int_chars(n: int) -> Seq<char> {
    if n < 0 {
        seq!['-'] + dec_digits((0 - n) as nat)
    } else {
        dec_digits(n as nat)
    }
}

/// The wire name of each action.
pub open spec fn action_name(a: ActionModel) -> Seq<char> {
    match a {
        ActionModel::Navigate { .. } => "navigate"@,
        ActionModel::Click { .. } => "click"@,
        ActionModel::Fill { .. } => "fill"@,
        ActionModel::Type { .. } => "type"@,
        ActionModel::Hover { .. } => "hover"@,
        ActionModel::Snapshot { .. } => "snapshot"@,
        ActionModel::Screenshot { .. } => "screenshot"@,
        ActionModel::Close => "close"@,
        ActionModel::GetText { .. } => "gettext"@,
        ActionModel::GetUrl => "url"@,
        ActionModel::GetTitle => "title"@,
        ActionModel::Press { .. } => "press"@,
        ActionModel::WaitTimeout { .. } => "wait"@,
        ActionModel::WaitSelector { .. } => "wait"@,
        ActionModel::Back => "back"@,
        ActionModel::Forward => "forward"@,
        ActionModel::Reload => "reload"@,
        ActionModel::Evaluate { .. } => "evaluate"@,
    }
}

/// One string-valued field, with its leading comma.
pub open spec fn str_field_enc(name: Seq<char>, val: Seq<char>) -> Seq<char> {
    seq![','] + jstr(name) + seq![':'] + jstr(val)
}

/// The action-specific fields, in their fixed order; unset snapshot
/// flags are omitted, a missing screenshot path is written as `null`.
pub open spec fn action_fields(a: ActionModel) -> Seq<char> {
    match a {
        ActionModel::Navigate { url } => str_field_enc("url"@, url),
        ActionModel::Click { selector } => str_field_enc("selector"@, selector),
        ActionModel::Fill { selector, value } => str_field_enc("selector"@, selector)
            + str_field_enc("value"@, value),
        ActionModel::Type { selector, text } => str_field_enc("selector"@, selector)
            + str_field_enc("text"@, text),
        ActionModel::Hover { selector } => str_field_enc("selector"@, selector),
        ActionModel::Snapshot { interactive, compact, max_depth, selector } => (if interactive {
            seq![','] + jstr("interactive"@) + seq![':'] + "true"@
        } else {
            Seq::empty()
        }) + (if compact {
            seq![','] + jstr("compact"@) + seq![':'] + "true"@
        } else {
            Seq::empty()
        }) + (match max_depth {
            Some(n) => seq![','] + jstr("maxDepth"@) + seq![':'] + int_chars(n as int),
            None => Seq::empty(),
        }) + (match selector {
            Some(s) => str_field_enc("selector"@, s),
            None => Seq::empty(),
        }),
        ActionModel::Screenshot { path } => match path {
            Some(p) => str_field_enc("path"@, p),
            None => seq![','] + jstr("path"@) + seq![':'] + "null"@,
        },
        ActionModel::Close => Seq::empty(),
        ActionModel::GetText { selector } => str_field_enc("selector"@, selector),
        ActionModel::GetUrl => Seq::empty(),
        ActionModel::GetTitle => Seq::empty(),
        ActionModel::Press { key } => str_field_enc("key"@, key),
        ActionModel::WaitTimeout { timeout } => seq![','] + jstr("timeout"@) + seq![':']
            + dec_digits(timeout as nat),
        ActionModel::WaitSelector { selector } => str_field_enc("selector"@, selector),
        ActionModel::Back => Seq::empty(),
        ActionModel::Forward => Seq::empty(),
        ActionModel::Reload => Seq::empty(),
        ActionModel::Evaluate { script } => str_field_enc("script"@, script),
    }
}

/// The full wire line (without the trailing newline).
pub open spec fn spec_encode(m: RequestModel) -> Seq<char> {
    seq!['{'] + jstr("id"@) + seq![':'] + jstr(m.id) + seq![','] + jstr("action"@) + seq![':']
        + jstr(action_name(m.action)) + action_fields(m.action) + seq!['}']
}

fn push_str_chars(out: &mut Vec<char>, s: &str)
    ensures
        final(out)@ == old(out)@ + s@,
{
    let chars = str_chars(s);
    let mut i: usize = 0;
    while i < chars.len()
        invariant
            0 <= i <= chars@.len(),
            chars@ == s@,
            out@ == old(out)@ + s@.subrange(0, i as int),
        decreases chars@.len() - i,
    {
        out.push(chars[i]);
        proof {
            assert(old(out)@ + s@.subrange(0, i + 1) =~= (old(out)@ + s@.subrange(
                0,
                i as int,
            )).push(s@[i as int]));
        }
        i += 1;
    }
    proof {
        assert(s@.subrange(0, s@.len() as int) =~= s@);
    }
}

fn push_escaped(out: &mut Vec<char>, s: &str)
    ensures
        final(out)@ == old(out)@ + escape(s@),
{
    let chars = str_chars(s);
    let mut i: usize = 0;
    while i < chars.len()
        invariant
            0 <= i <= chars@.len(),
            chars@ == s@,
            out@ == old(out)@ + escape(s@.subrange(0, i as int)),
        decreases chars@.len() - i,
    {
        let c = chars[i];
        if c == '"' {
            out.push('\\');
            out.push('"');
        } else if c == '\\' {
            out.push('\\');
            out.push('\\');
        } else if c == '\n' {
            out.push('\\');
            out.push('n');
        } else if c == '\r' {
            out.push('\\');
            out.push('r');
        } else if c == '\t' {
            out.push('\\');
            out.push('t');
        } else {
            let u = c as u32;
            if u < 32 {
                out.push('\\');
                out.push('u');
                out.push('0');
                out.push('0');
                out.push(exec_hex_lo(u / 16));
                out.push(exec_hex_lo(u % 16));
            } else {
                out.push(c);
            }
        }
        proof {
            let pre = s@.subrange(0, i as int);
            let cur = s@.subrange(0, i + 1);
            assert(cur.drop_last() =~= pre);
            assert(cur.last() == s@[i as int]);
            assert(escape(cur) == escape(pre) + esc_char(s@[i as int]));
            assert(out@ =~= old(out)@ + escape(cur));
        }
        i += 1;
    }
    proof {
        assert(s@.subrange(0, s@.len() as int) =~= s@);
    }
}

fn push_jstr(out: &mut Vec<char>, s: &str)
    ensures
        final(out)@ == old(out)@ + jstr(s@),
{
    out.push('"');
    push_escaped(out, s);
    out.push('"');
    proof {
        assert(out@ =~= old(out)@ + jstr(s@));
    }
}

fn push_str_field(out: &mut Vec<char>, name: &str, val: &str)
    ensures
        final(out)@ == old(out)@ + str_field_enc(name@, val@),
{
    out.push(',');
    push_jstr(out, name);
    out.push(':');
    push_jstr(out, val);
    proof {
        assert(out@ =~= old(out)@ + str_field_enc(name@, val@));
    }
}

fn push_i32(out: &mut Vec<char>, n: i32)
    ensures
        final(out)@ == old(out)@ + int_chars(n as int),
{
    if n < 0 {
        out.push('-');
        let mag: u64 = (-(n as i64)) as u64;
        push_dec(mag, out);
        proof {
            assert(out@ =~= old(out)@ + int_chars(n as int));
        }
    } else {
        push_dec(n as u64, out);
    }
}

/// Writes `req` in the canonical wire shape.
#[verifier::rlimit(100)]
pub fn encode_request(req: &Request) -> (r: String)
    ensures
        r@ == spec_encode(req@),
{
    let mut out: Vec<char> = Vec::new();
    out.push('{');
    push_jstr(&mut out, "id");
    out.push(':');
    push_jstr(&mut out, req.id.as_str());
    out.push(',');
    push_jstr(&mut out, "action");
    out.push(':');
    let ghost head = seq!['{'] + jstr("id"@) + seq![':'] + jstr(req.id@) + seq![','] + jstr(
        "action"@,
    ) + seq![':'];
    proof {
        assert(out@ =~= head);
    }
    match &req.action {
        Action::Navigate { url } => {
            push_jstr(&mut out, "navigate");
            push_str_field(&mut out, "url", url.as_str());
        },
        Action::Click { selector } => {
            push_jstr(&mut out, "click");
            push_str_field(&mut out, "selector", selector.as_str());
        },
        Action::Fill { selector, value } => {
            push_jstr(&mut out, "fill");
            push_str_field(&mut out, "selector", selector.as_str());
            push_str_field(&mut out, "value", value.as_str());
        },
        Action::Type { selector, text } => {
            push_jstr(&mut out, "type");
            push_str_field(&mut out, "selector", selector.as_str());
            push_str_field(&mut out, "text", text.as_str());
        },
        Action::Hover { selector } => {
            push_jstr(&mut out, "hover");
            push_str_field(&mut out, "selector", selector.as_str());
        },
        Action::Snapshot { interactive, compact, max_depth, selector } => {
            push_jstr(&mut out, "snapshot");
            let ghost base = out@;
            let ghost p1 = if *interactive {
                seq![','] + jstr("interactive"@) + seq![':'] + "true"@
            } else {
                Seq::<char>::empty()
            };
            if *interactive {
                out.push(',');
                push_jstr(&mut out, "interactive");
                out.push(':');
                push_str_chars(&mut out, "true");
            }
            proof {
                assert(out@ =~= base + p1);
            }
            let ghost p2 = if *compact {
                seq![','] + jstr("compact"@) + seq![':'] + "true"@
            } else {
                Seq::<char>::empty()
            };
            if *compact {
                out.push(',');
                push_jstr(&mut out, "compact");
                out.push(':');
                push_str_chars(&mut out, "true");
            }
            proof {
                assert(out@ =~= base + p1 + p2);
            }
            let ghost p3 = match *max_depth {
                Some(n) => seq![','] + jstr("maxDepth"@) + seq![':'] + int_chars(n as int),
                None => Seq::<char>::empty(),
            };
            match max_depth {
                Some(n) => {
                    out.push(',');
                    push_jstr(&mut out, "maxDepth");
                    out.push(':');
                    push_i32(&mut out, *n);
                },
                None => {},
            }
            proof {
                assert(out@ =~= base + p1 + p2 + p3);
            }
            match selector {
                Some(s) => {
                    push_str_field(&mut out, "selector", s.as_str());
                },
                None => {},
            }
        },
        Action::Screenshot { path } => {
            push_jstr(&mut out, "screenshot");
            match path {
                Some(p) => {
                    push_str_field(&mut out, "path", p.as_str());
                },
                None => {
                    out.push(',');
                    push_jstr(&mut out, "path");
                    out.push(':');
                    push_str_chars(&mut out, "null");
                },
            }
        },
        Action::Close => {
            push_jstr(&mut out, "close");
        },
        Action::GetText { selector } => {
            push_jstr(&mut out, "gettext");
            push_str_field(&mut out, "selector", selector.as_str());
        },
        Action::GetUrl => {
            push_jstr(&mut out, "url");
        },
        Action::GetTitle => {
            push_jstr(&mut out, "title");
        },
        Action::Press { key } => {
            push_jstr(&mut out, "press");
            push_str_field(&mut out, "key", key.as_str());
        },
        Action::WaitTimeout { timeout } => {
            push_jstr(&mut out, "wait");
            out.push(',');
            push_jstr(&mut out, "timeout");
            out.push(':');
            push_dec(*timeout, &mut out);
        },
        Action::WaitSelector { selector } => {
            push_jstr(&mut out, "wait");
            push_str_field(&mut out, "selector", selector.as_str());
        },
        Action::Back => {
            push_jstr(&mut out, "back");
        },
        Action::Forward => {
            push_jstr(&mut out, "forward");
        },
        Action::Reload => {
            push_jstr(&mut out, "reload");
        },
        Action::Evaluate { script } => {
            push_jstr(&mut out, "evaluate");
            push_str_field(&mut out, "script", script.as_str());
        },
    }
    proof {
        assert(out@ =~= head + jstr(action_name(req@.action)) + action_fields(req@.action));
    }
    out.push('}');
    proof {
        assert(out@ =~= spec_encode(req@));
    }
    chars_to_string(&out)
}

} // verus!
