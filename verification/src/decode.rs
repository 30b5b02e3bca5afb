//! The canonical-form decoder for the wire encoding: it reads back
//! exactly the shape `encode_request` writes (a test double standing
//! in for the daemon uses it to check what arrived). Each executable
//! parser mirrors a specification parser over the character sequence
//! and a position.

use vstd::prelude::*;
use crate::request::{Action, ActionModel, Request, RequestModel, view_opt_request};
use crate::translate::view_opt_str;
use crate::numparse::{is_digit, digit_val, dec_val, lemma_dec_val_prefix};
use crate::text::{str_eq, chars_to_string};

verus! {

/// A lowercase hexadecimal digit.
pub open spec fn is_hex_lo(c: char) -> bool {
    is_digit(c) || (97 <= c as u32 && c as u32 <= 102)
}

/// Its value.
pub open spec fn hex_val(c: char) -> nat {
    if is_digit(c) {
        digit_val(c)
    } else {
        (c as u32 - 87) as nat
    }
}

/// The character a two-character escape stands for.
pub open spec fn unesc(e: char) -> Option<char> {
    if e == '"' {
        Some('"')
    } else if e == '\\' {
        Some('\\')
    } else if e == 'n' {
        Some('\n')
    } else if e == 'r' {
        Some('\r')
    } else if e == 't' {
        Some('\t')
    } else {
        None
    }
}

/// Reads string content from position `k` (just past the opening
/// quote) to the closing quote: the content and the position after
/// the closing quote.
pub open spec fn scan_content_at(s: Seq<char>, k: int) -> Option<(Seq<char>, int)>
    decreases s.len() - k,
{
    if k < 0 || k >= s.len() {
        None
    } else if s[k] == '"' {
        Some((Seq::empty(), k + 1))
    } else if s[k] == '\\' {
        if k + 1 < s.len() {
            if s[k + 1] == 'u' {
                if k + 5 < s.len() && s[k + 2] == '0' && s[k + 3] == '0' && (s[k + 4] == '0' || s[k
                    + 4] == '1') && is_hex_lo(s[k + 5]) {
                    let v = hex_val(s[k + 4]) * 16 + hex_val(s[k + 5]);
                    match scan_content_at(s, k + 6) {
                        Some((t, j)) => Some((seq![(v as u32) as char] + t, j)),
                        None => None,
                    }
                } else {
                    None
                }
            } else {
                match unesc(s[k + 1]) {
                    Some(c) => match scan_content_at(s, k + 2) {
                        Some((t, j)) => Some((seq![c] + t, j)),
                        None => None,
                    },
                    None => None,
                }
            }
        } else {
            None
        }
    } else {
        match scan_content_at(s, k + 1) {
            Some((t, j)) => Some((seq![s[k]] + t, j)),
            None => None,
        }
    }
}

/// Reads a quoted string starting at `k`.
pub open spec fn scan_jstr_at(s: Seq<char>, k: int) -> Option<(Seq<char>, int)> {
    if 0 <= k < s.len() && s[k] == '"' {
        scan_content_at(s, k + 1)
    } else {
        None
    }
}

/// Reads `,"name":` starting at `k`; the position after the colon.
pub open spec fn scan_key_at(s: Seq<char>, k: int, name: Seq<char>) -> Option<int> {
    if 0 <= k < s.len() && s[k] == ',' {
        match scan_jstr_at(s, k + 1) {
            Some((key, j)) => if key == name && j < s.len() && s[j] == ':' {
                Some(j + 1)
            } else {
                None
            },
            None => None,
        }
    } else {
        None
    }
}

/// Reads a whole string-valued field `,"name":"value"`.
pub open spec fn scan_str_field_at(s: Seq<char>, k: int, name: Seq<char>) -> Option<
    (Seq<char>, int),
> {
    match scan_key_at(s, k, name) {
        Some(j) => scan_jstr_at(s, j),
        None => None,
    }
}

/// The end of the digit run starting at `k`.
pub open spec fn digit_run_end(s: Seq<char>, k: int) -> int
    decreases s.len() - k,
{
    if k < 0 || k >= s.len() {
        if k < 0 {
            k
        } else {
            s.len() as int
        }
    } else if is_digit(s[k]) {
        digit_run_end(s, k + 1)
    } else {
        k
    }
}

/// Reads an unsigned decimal at `k` in the canonical form the encoder
/// writes: at least one digit, no leading zero, within `u64`.
pub open spec fn scan_u64_at(s: Seq<char>, k: int) -> Option<(u64, int)> {
    let e = digit_run_end(s, k);
    if k < 0 || e <= k {
        None
    } else if s[k] == '0' && e > k + 1 {
        None
    } else if dec_val(s.subrange(k, e)) > u64::MAX {
        None
    } else {
        Some((dec_val(s.subrange(k, e)) as u64, e))
    }
}

/// Reads a signed decimal at `k`, within `i32`.
pub open spec fn scan_i32_at(s: Seq<char>, k: int) -> Option<(i32, int)> {
    if 0 <= k < s.len() && s[k] == '-' {
        match scan_u64_at(s, k + 1) {
            Some((v, e)) => if v <= 2147483648 {
                Some(((0 - v as int) as i32, e))
            } else {
                None
            },
            None => None,
        }
    } else {
        match scan_u64_at(s, k) {
            Some((v, e)) => if v <= 2147483647 {
                Some((v as i32, e))
            } else {
                None
            },
            None => None,
        }
    }
}

/// The literal `lit` stands at position `k`.
pub open spec fn lit_at(s: Seq<char>, k: int, lit: Seq<char>) -> bool {
    0 <= k && k + lit.len() <= s.len() && s.subrange(k, k + lit.len() as int) == lit
}

/// An optional `,"name":true` flag: the flag and the position after
/// what was consumed (unchanged when the flag is not next).
pub open spec fn try_bool_flag_at(s: Seq<char>, k: int, name: Seq<char>) -> (bool, int) {
    match scan_key_at(s, k, name) {
        Some(j) => if lit_at(s, j, "true"@) {
            (true, j + "true"@.len() as int)
        } else {
            (false, k)
        },
        None => (false, k),
    }
}

/// An optional `,"maxDepth":<n>` field.
pub open spec fn try_depth_at(s: Seq<char>, k: int) -> (Option<i32>, int) {
    match scan_key_at(s, k, "maxDepth"@) {
        Some(j) => match scan_i32_at(s, j) {
            Some((n, e)) => (Some(n), e),
            None => (None, k),
        },
        None => (None, k),
    }
}

/// An optional `,"selector":"<sel>"` field.
pub open spec fn try_sel_at(s: Seq<char>, k: int) -> (Option<Seq<char>>, int) {
    match scan_key_at(s, k, "selector"@) {
        Some(j) => match scan_jstr_at(s, j) {
            Some((v, e)) => (Some(v), e),
            None => (None, k),
        },
        None => (None, k),
    }
}

/// The object closes at `k` and the line ends with it.
pub open spec fn end_at(s: Seq<char>, k: int) -> bool {
    0 <= k < s.len() && s[k] == '}' && k + 1 == s.len()
}

pub open spec fn end_req(s: Seq<char>, k: int, id: Seq<char>, a: ActionModel) -> Option<
    RequestModel,
> {
    if end_at(s, k) {
        Some(RequestModel { id: id, action: a })
    } else {
        None
    }
}

/// The fields and closing brace for an action named `act`, starting
/// at `k`.
pub open spec fn spec_decode_action(s: Seq<char>, k: int, act: Seq<char>, id: Seq<char>) -> Option<
    RequestModel,
> {
    if act == "navigate"@ {
        match scan_str_field_at(s, k, "url"@) {
            Some((url, j)) => end_req(s, j, id, ActionModel::Navigate { url }),
            None => None,
        }
    } else if act == "click"@ {
        match scan_str_field_at(s, k, "selector"@) {
            Some((selector, j)) => end_req(s, j, id, ActionModel::Click { selector }),
            None => None,
        }
    } else if act == "fill"@ {
        match scan_str_field_at(s, k, "selector"@) {
            Some((selector, j)) => match scan_str_field_at(s, j, "value"@) {
                Some((value, j2)) => end_req(s, j2, id, ActionModel::Fill { selector, value }),
                None => None,
            },
            None => None,
        }
    } else if act == "type"@ {
        match scan_str_field_at(s, k, "selector"@) {
            Some((selector, j)) => match scan_str_field_at(s, j, "text"@) {
                Some((text, j2)) => end_req(s, j2, id, ActionModel::Type { selector, text }),
                None => None,
            },
            None => None,
        }
    } else if act == "hover"@ {
        match scan_str_field_at(s, k, "selector"@) {
            Some((selector, j)) => end_req(s, j, id, ActionModel::Hover { selector }),
            None => None,
        }
    } else if act == "snapshot"@ {
        let (interactive, k1) = try_bool_flag_at(s, k, "interactive"@);
        let (compact, k2) = try_bool_flag_at(s, k1, "compact"@);
        let (max_depth, k3) = try_depth_at(s, k2);
        let (selector, k4) = try_sel_at(s, k3);
        end_req(s, k4, id, ActionModel::Snapshot { interactive, compact, max_depth, selector })
    } else if act == "screenshot"@ {
        match scan_key_at(s, k, "path"@) {
            Some(j) => if lit_at(s, j, "null"@) {
                end_req(s, j + "null"@.len() as int, id, ActionModel::Screenshot { path: None })
            } else {
                match scan_jstr_at(s, j) {
                    Some((p, e)) => end_req(s, e, id, ActionModel::Screenshot { path: Some(p) }),
                    None => None,
                }
            },
            None => None,
        }
    } else if act == "close"@ {
        end_req(s, k, id, ActionModel::Close)
    } else if act == "gettext"@ {
        match scan_str_field_at(s, k, "selector"@) {
            Some((selector, j)) => end_req(s, j, id, ActionModel::GetText { selector }),
            None => None,
        }
    } else if act == "url"@ {
        end_req(s, k, id, ActionModel::GetUrl)
    } else if act == "title"@ {
        end_req(s, k, id, ActionModel::GetTitle)
    } else if act == "press"@ {
        match scan_str_field_at(s, k, "key"@) {
            Some((key, j)) => end_req(s, j, id, ActionModel::Press { key }),
            None => None,
        }
    } else if act == "wait"@ {
        match scan_key_at(s, k, "timeout"@) {
            Some(j) => match scan_u64_at(s, j) {
                Some((t, e)) => end_req(s, e, id, ActionModel::WaitTimeout { timeout: t }),
                None => None,
            },
            None => match scan_str_field_at(s, k, "selector"@) {
                Some((selector, j)) => end_req(s, j, id, ActionModel::WaitSelector { selector }),
                None => None,
            },
        }
    } else if act == "back"@ {
        end_req(s, k, id, ActionModel::Back)
    } else if act == "forward"@ {
        end_req(s, k, id, ActionModel::Forward)
    } else if act == "reload"@ {
        end_req(s, k, id, ActionModel::Reload)
    } else if act == "evaluate"@ {
        match scan_str_field_at(s, k, "script"@) {
            Some((script, j)) => end_req(s, j, id, ActionModel::Evaluate { script }),
            None => None,
        }
    } else {
        None
    }
}

/// The whole canonical request line.
pub open spec fn spec_decode(s: Seq<char>) -> Option<RequestModel> {
    if s.len() >= 1 && s[0] == '{' {
        match scan_jstr_at(s, 1) {
            Some((k1, p1)) => if k1 == "id"@ && p1 < s.len() && s[p1] == ':' {
                match scan_jstr_at(s, p1 + 1) {
                    Some((id, p2)) => match scan_key_at(s, p2, "action"@) {
                        Some(p3) => match scan_jstr_at(s, p3) {
                            Some((act, p4)) => spec_decode_action(s, p4, act, id),
                            None => None,
                        },
                        None => None,
                    },
                    None => None,
                }
            } else {
                None
            },
            None => None,
        }
    } else {
        None
    }
}

pub open spec fn prepend_content(a: Seq<char>, o: Option<(Seq<char>, int)>) -> Option<
    (Seq<char>, int),
> {
    match o {
        Some((t, j)) => Some((a + t, j)),
        None => None,
    }
}

fn hex_lo_at(chars: &Vec<char>, j: usize) -> (r: bool)
    requires
        j < chars@.len(),
    ensures
        r == is_hex_lo(chars@[j as int]),
{
    let u = chars[j] as u32;
    (48 <= u && u <= 57) || (97 <= u && u <= 102)
}

fn hexv(c: char) -> (r: u32)
    requires
        is_hex_lo(c),
    ensures
        r as nat == hex_val(c),
        r < 16,
{
    let u = c as u32;
    if u <= 57 {
        u - 48
    } else {
        u - 87
    }
}

fn exec_ctl(v: u32) -> (r: char)
    requires
        v < 32,
    ensures
        r == ((v as u32) as char),
{
    let c: char = if v == 0 { '\u{0}' }
    else if v == 1 { '\u{1}' }
    else if v == 2 { '\u{2}' }
    else if v == 3 { '\u{3}' }
    else if v == 4 { '\u{4}' }
    else if v == 5 { '\u{5}' }
    else if v == 6 { '\u{6}' }
    else if v == 7 { '\u{7}' }
    else if v == 8 { '\u{8}' }
    else if v == 9 { '\u{9}' }
    else if v == 10 { '\u{a}' }
    else if v == 11 { '\u{b}' }
    else if v == 12 { '\u{c}' }
    else if v == 13 { '\u{d}' }
    else if v == 14 { '\u{e}' }
    else if v == 15 { '\u{f}' }
    else if v == 16 { '\u{10}' }
    else if v == 17 { '\u{11}' }
    else if v == 18 { '\u{12}' }
    else if v == 19 { '\u{13}' }
    else if v == 20 { '\u{14}' }
    else if v == 21 { '\u{15}' }
    else if v == 22 { '\u{16}' }
    else if v == 23 { '\u{17}' }
    else if v == 24 { '\u{18}' }
    else if v == 25 { '\u{19}' }
    else if v == 26 { '\u{1a}' }
    else if v == 27 { '\u{1b}' }
    else if v == 28 { '\u{1c}' }
    else if v == 29 { '\u{1d}' }
    else if v == 30 { '\u{1e}' }
    else { '\u{1f}' };
    proof {
        assert(c as u32 == v);
        vstd::utf8::char_u32_cast(c, v);
    }
    c
}

/// Reads string content from `k` to the closing quote.
fn scan_string_exec(chars: &Vec<char>, k: usize) -> (r: Option<(String, usize)>)
    requires
        k <= chars@.len(),
    ensures
        match r {
            Some(v) => k <= v.1 <= chars@.len() && scan_content_at(chars@, k as int) == Some(
                (v.0@, v.1 as int),
            ),
            None => scan_content_at(chars@, k as int) is None,
        },
{
    let mut acc: Vec<char> = Vec::new();
    let mut i: usize = k;
    proof {
        let x = scan_content_at(chars@, k as int);
        if x is Some {
            assert(Seq::<char>::empty() + x.unwrap().0 =~= x.unwrap().0);
        }
    }
    while i < chars.len()
        invariant
            k <= i <= chars@.len(),
            scan_content_at(chars@, k as int) == prepend_content(
                acc@,
                scan_content_at(chars@, i as int),
            ),
        decreases chars@.len() - i,
    {
        let c = chars[i];
        if c == '"' {
            proof {
                assert(scan_content_at(chars@, i as int) == Some((Seq::<char>::empty(), i + 1)));
                assert(acc@ + Seq::<char>::empty() =~= acc@);
                assert(scan_content_at(chars@, k as int) == Some((acc@, i + 1)));
            }
            let out = chars_to_string(&acc);
            return Some((out, i + 1));
        } else if c == '\\' {
            if i + 1 < chars.len() && chars[i + 1] == 'u' {
                if chars.len() - i > 5 && chars[i + 2] == '0' && chars[i + 3] == '0' && (chars[i
                    + 4] == '0' || chars[i + 4] == '1') && hex_lo_at(chars, i + 5) {
                    let v: u32 = hexv(chars[i + 4]) * 16 + hexv(chars[i + 5]);
                    let c2 = exec_ctl(v);
                    proof {
                        assert(seq![c2] =~= seq![
                            ((hex_val(chars@[i + 4]) * 16 + hex_val(chars@[i + 5])) as u32) as char,
                        ]);
                        let x = scan_content_at(chars@, i + 6);
                        if x is Some {
                            assert(acc@ + (seq![c2] + x.unwrap().0) =~= acc@.push(c2)
                                + x.unwrap().0);
                        }
                    }
                    acc.push(c2);
                    i = i + 6;
                } else {
                    return None;
                }
            } else if i + 1 < chars.len() {
                let e = chars[i + 1];
                let u: Option<char> = if e == '"' {
                    Some('"')
                } else if e == '\\' {
                    Some('\\')
                } else if e == 'n' {
                    Some('\n')
                } else if e == 'r' {
                    Some('\r')
                } else if e == 't' {
                    Some('\t')
                } else {
                    None
                };
                match u {
                    Some(c2) => {
                        proof {
                            assert(unesc(chars@[i + 1]) == Some(c2));
                            let x = scan_content_at(chars@, i + 2);
                            if x is Some {
                                assert(acc@ + (seq![c2] + x.unwrap().0) =~= acc@.push(c2)
                                    + x.unwrap().0);
                            }
                        }
                        acc.push(c2);
                        i = i + 2;
                    },
                    None => {
                        proof {
                            assert(unesc(chars@[i + 1]) is None);
                            assert(scan_content_at(chars@, i as int) is None);
                        }
                        return None;
                    },
                }
            } else {
                proof {
                    assert(scan_content_at(chars@, i as int) is None);
                }
                return None;
            }
        } else {
            proof {
                let x = scan_content_at(chars@, i + 1);
                if x is Some {
                    assert(acc@ + (seq![chars@[i as int]] + x.unwrap().0) =~= acc@.push(chars@[i as int])
                        + x.unwrap().0);
                }
            }
            acc.push(c);
            i = i + 1;
        }
    }
    None
}

/// Reads `,"name":`.
fn scan_key_exec(chars: &Vec<char>, k: usize, name: &str) -> (r: Option<usize>)
    ensures
        match r {
            Some(j) => k <= j <= chars@.len() && scan_key_at(chars@, k as int, name@) == Some(
                j as int,
            ),
            None => scan_key_at(chars@, k as int, name@) is None,
        },
{
    if k < chars.len() && chars[k] == ',' {
        if k + 1 < chars.len() && chars[k + 1] == '"' {
            match scan_string_exec(chars, k + 2) {
                Some((key, j)) => {
                    if str_eq(key.as_str(), name) && j < chars.len() && chars[j] == ':' {
                        Some(j + 1)
                    } else {
                        None
                    }
                },
                None => None,
            }
        } else {
            None
        }
    } else {
        None
    }
}

/// Reads `,"name":"value"`.
fn scan_str_field_exec(chars: &Vec<char>, k: usize, name: &str) -> (r: Option<(String, usize)>)
    ensures
        match r {
            Some(v) => k <= v.1 <= chars@.len() && scan_str_field_at(chars@, k as int, name@)
                == Some((v.0@, v.1 as int)),
            None => scan_str_field_at(chars@, k as int, name@) is None,
        },
{
    match scan_key_exec(chars, k, name) {
        Some(j) => {
            if j < chars.len() && chars[j] == '"' {
                match scan_string_exec(chars, j + 1) {
                    Some((v, e)) => Some((v, e)),
                    None => None,
                }
            } else {
                None
            }
        },
        None => None,
    }
}

fn digit_at(chars: &Vec<char>, e: usize) -> (r: bool)
    requires
        e < chars@.len(),
    ensures
        r == is_digit(chars@[e as int]),
{
    let u = chars[e] as u32;
    48 <= u && u <= 57
}

fn scan_u64_exec(chars: &Vec<char>, k: usize) -> (r: Option<(u64, usize)>)
    requires
        k <= chars@.len(),
    ensures
        match r {
            Some(v) => k <= v.1 <= chars@.len() && scan_u64_at(chars@, k as int) == Some(
                (v.0, v.1 as int),
            ),
            None => scan_u64_at(chars@, k as int) is None,
        },
{
    let mut e: usize = k;
    while e < chars.len() && digit_at(chars, e)
        invariant
            k <= e <= chars@.len(),
            digit_run_end(chars@, k as int) == digit_run_end(chars@, e as int),
            forall|j: int| k <= j < e ==> is_digit(chars@[j]),
        decreases chars@.len() - e,
    {
        e += 1;
    }
    proof {
        assert(digit_run_end(chars@, e as int) == e as int);
    }
    if e == k {
        return None;
    }
    if chars[k] == '0' && e > k + 1 {
        return None;
    }
    let ghost run = chars@.subrange(k as int, e as int);
    let mut i: usize = k;
    let mut value: u128 = 0;
    while i < e
        invariant
            k <= i <= e <= chars@.len(),
            k < e,
            digit_run_end(chars@, k as int) == e as int,
            !(chars@[k as int] == '0' && e > k + 1),
            run == chars@.subrange(k as int, e as int),
            forall|j: int| k <= j < e ==> is_digit(chars@[j]),
            value == dec_val(chars@.subrange(k as int, i as int)),
            value <= u64::MAX,
        decreases e - i,
    {
        let c = chars[i];
        let d: u128 = (c as u32 - 48) as u128;
        let new_value: u128 = value * 10 + d;
        proof {
            assert(chars@.subrange(k as int, i + 1).drop_last() =~= chars@.subrange(k as int, i as int));
            assert(chars@.subrange(k as int, i + 1).last() == chars@[i as int]);
        }
        if new_value > 0xffff_ffff_ffff_ffff {
            proof {
                let upto = chars@.subrange(k as int, i + 1);
                assert(upto =~= run.subrange(0, i + 1 - k));
                lemma_dec_val_prefix(run, i + 1 - k);
                assert(dec_val(run) >= new_value);
            }
            return None;
        }
        value = new_value;
        i += 1;
    }
    proof {
        assert(chars@.subrange(k as int, i as int) =~= run);
    }
    Some((value as u64, e))
}

fn scan_i32_exec(chars: &Vec<char>, k: usize) -> (r: Option<(i32, usize)>)
    requires
        k <= chars@.len(),
    ensures
        match r {
            Some(v) => k <= v.1 <= chars@.len() && scan_i32_at(chars@, k as int) == Some(
                (v.0, v.1 as int),
            ),
            None => scan_i32_at(chars@, k as int) is None,
        },
{
    if k < chars.len() && chars[k] == '-' {
        match scan_u64_exec(chars, k + 1) {
            Some((v, e)) => {
                if v <= 2147483648 {
                    let neg: i64 = 0 - (v as i64);
                    Some((neg as i32, e))
                } else {
                    None
                }
            },
            None => None,
        }
    } else {
        match scan_u64_exec(chars, k) {
            Some((v, e)) => {
                if v <= 2147483647 {
                    Some((v as i32, e))
                } else {
                    None
                }
            },
            None => None,
        }
    }
}

fn lit_true_exec(chars: &Vec<char>, j: usize) -> (r: bool)
    ensures
        r == lit_at(chars@, j as int, "true"@),
{
    proof {
        reveal_strlit("true");
    }
    let ok = chars.len() >= 4 && j <= chars.len() - 4 && chars[j] == 't' && chars[j + 1] == 'r'
        && chars[j + 2] == 'u' && chars[j + 3] == 'e';
    proof {
        if ok {
            assert(chars@.subrange(j as int, j + 4) =~= "true"@);
        } else if lit_at(chars@, j as int, "true"@) {
            let sub = chars@.subrange(j as int, j + 4);
            assert(sub[0] == chars@[j as int] && sub[1] == chars@[j + 1] && sub[2] == chars@[j + 2]
                && sub[3] == chars@[j + 3]);
            assert(sub[0] == 't' && sub[1] == 'r' && sub[2] == 'u' && sub[3] == 'e');
        }
    }
    ok
}

fn lit_null_exec(chars: &Vec<char>, j: usize) -> (r: bool)
    ensures
        r == lit_at(chars@, j as int, "null"@),
{
    proof {
        reveal_strlit("null");
    }
    let ok = chars.len() >= 4 && j <= chars.len() - 4 && chars[j] == 'n' && chars[j + 1] == 'u'
        && chars[j + 2] == 'l' && chars[j + 3] == 'l';
    proof {
        if ok {
            assert(chars@.subrange(j as int, j + 4) =~= "null"@);
        } else if lit_at(chars@, j as int, "null"@) {
            let sub = chars@.subrange(j as int, j + 4);
            assert(sub[0] == chars@[j as int] && sub[1] == chars@[j + 1] && sub[2] == chars@[j + 2]
                && sub[3] == chars@[j + 3]);
            assert(sub[0] == 'n' && sub[1] == 'u' && sub[2] == 'l' && sub[3] == 'l');
        }
    }
    ok
}

fn try_bool_flag_exec(chars: &Vec<char>, k: usize, name: &str) -> (r: (bool, usize))
    requires
        k <= chars@.len(),
    ensures
        ({
            let (b, j) = try_bool_flag_at(chars@, k as int, name@);
            r.0 == b && r.1 as int == j && r.1 <= chars@.len()
        }),
{
    proof {
        reveal_strlit("true");
    }
    match scan_key_exec(chars, k, name) {
        Some(j) => {
            if lit_true_exec(chars, j) {
                let n = chars.len();
                proof {
                    assert("true"@.len() == 4);
                    assert(j + 4 <= n);
                }
                (true, j + 4)
            } else {
                (false, k)
            }
        },
        None => (false, k),
    }
}

fn try_depth_exec(chars: &Vec<char>, k: usize) -> (r: (Option<i32>, usize))
    requires
        k <= chars@.len(),
    ensures
        ({
            let (n, j) = try_depth_at(chars@, k as int);
            r.0 == n && r.1 as int == j && r.1 <= chars@.len()
        }),
{
    match scan_key_exec(chars, k, "maxDepth") {
        Some(j) => match scan_i32_exec(chars, j) {
            Some((n, e)) => (Some(n), e),
            None => (None, k),
        },
        None => (None, k),
    }
}

fn try_sel_exec(chars: &Vec<char>, k: usize) -> (r: (Option<String>, usize))
    requires
        k <= chars@.len(),
    ensures
        ({
            let (v, j) = try_sel_at(chars@, k as int);
            view_opt_str(r.0) == v && r.1 as int == j && r.1 <= chars@.len()
        }),
{
    match scan_key_exec(chars, k, "selector") {
        Some(j) => {
            if j < chars.len() && chars[j] == '"' {
                match scan_string_exec(chars, j + 1) {
                    Some((v, e)) => (Some(v), e),
                    None => (None, k),
                }
            } else {
                (None, k)
            }
        },
        None => (None, k),
    }
}

fn end_obj_exec(chars: &Vec<char>, k: usize) -> (r: bool)
    ensures
        r == end_at(chars@, k as int),
{
    k < chars.len() && chars[k] == '}' && k + 1 == chars.len()
}

/// The fields and closing brace for action `act`.
#[verifier::rlimit(100)]
fn decode_action_exec(chars: &Vec<char>, k: usize, act: &str, id: String) -> (r: Option<Request>)
    requires
        k <= chars@.len(),
    ensures
        view_opt_request(r) == spec_decode_action(chars@, k as int, act@, id@),
{
    if str_eq(act, "navigate") {
        match scan_str_field_exec(chars, k, "url") {
            Some((url, j)) => {
                if end_obj_exec(chars, j) {
                    Some(Request { id, action: Action::Navigate { url } })
                } else {
                    None
                }
            },
            None => None,
        }
    } else if str_eq(act, "click") {
        match scan_str_field_exec(chars, k, "selector") {
            Some((selector, j)) => {
                if end_obj_exec(chars, j) {
                    Some(Request { id, action: Action::Click { selector } })
                } else {
                    None
                }
            },
            None => None,
        }
    } else if str_eq(act, "fill") {
        match scan_str_field_exec(chars, k, "selector") {
            Some((selector, j)) => match scan_str_field_exec(chars, j, "value") {
                Some((value, j2)) => {
                    if end_obj_exec(chars, j2) {
                        Some(Request { id, action: Action::Fill { selector, value } })
                    } else {
                        None
                    }
                },
                None => None,
            },
            None => None,
        }
    } else if str_eq(act, "type") {
        match scan_str_field_exec(chars, k, "selector") {
            Some((selector, j)) => match scan_str_field_exec(chars, j, "text") {
                Some((text, j2)) => {
                    if end_obj_exec(chars, j2) {
                        Some(Request { id, action: Action::Type { selector, text } })
                    } else {
                        None
                    }
                },
                None => None,
            },
            None => None,
        }
    } else if str_eq(act, "hover") {
        match scan_str_field_exec(chars, k, "selector") {
            Some((selector, j)) => {
                if end_obj_exec(chars, j) {
                    Some(Request { id, action: Action::Hover { selector } })
                } else {
                    None
                }
            },
            None => None,
        }
    } else if str_eq(act, "snapshot") {
        let (interactive, k1) = try_bool_flag_exec(chars, k, "interactive");
        let (compact, k2) = try_bool_flag_exec(chars, k1, "compact");
        let (max_depth, k3) = try_depth_exec(chars, k2);
        let (selector, k4) = try_sel_exec(chars, k3);
        if end_obj_exec(chars, k4) {
            Some(
                Request {
                    id,
                    action: Action::Snapshot { interactive, compact, max_depth, selector },
                },
            )
        } else {
            None
        }
    } else if str_eq(act, "screenshot") {
        match scan_key_exec(chars, k, "path") {
            Some(j) => {
                if lit_null_exec(chars, j) {
                    let n = chars.len();
                    proof {
                        reveal_strlit("null");
                        assert("null"@.len() == 4);
                        assert(j + 4 <= n);
                    }
                    if end_obj_exec(chars, j + 4) {
                        Some(Request { id, action: Action::Screenshot { path: None } })
                    } else {
                        None
                    }
                } else {
                    if j < chars.len() && chars[j] == '"' {
                        match scan_string_exec(chars, j + 1) {
                            Some((p, e)) => {
                                if end_obj_exec(chars, e) {
                                    Some(
                                        Request {
                                            id,
                                            action: Action::Screenshot { path: Some(p) },
                                        },
                                    )
                                } else {
                                    None
                                }
                            },
                            None => None,
                        }
                    } else {
                        None
                    }
                }
            },
            None => None,
        }
    } else if str_eq(act, "close") {
        if end_obj_exec(chars, k) {
            Some(Request { id, action: Action::Close })
        } else {
            None
        }
    } else if str_eq(act, "gettext") {
        match scan_str_field_exec(chars, k, "selector") {
            Some((selector, j)) => {
                if end_obj_exec(chars, j) {
                    Some(Request { id, action: Action::GetText { selector } })
                } else {
                    None
                }
            },
            None => None,
        }
    } else if str_eq(act, "url") {
        if end_obj_exec(chars, k) {
            Some(Request { id, action: Action::GetUrl })
        } else {
            None
        }
    } else if str_eq(act, "title") {
        if end_obj_exec(chars, k) {
            Some(Request { id, action: Action::GetTitle })
        } else {
            None
        }
    } else if str_eq(act, "press") {
        match scan_str_field_exec(chars, k, "key") {
            Some((key, j)) => {
                if end_obj_exec(chars, j) {
                    Some(Request { id, action: Action::Press { key } })
                } else {
                    None
                }
            },
            None => None,
        }
    } else if str_eq(act, "wait") {
        match scan_key_exec(chars, k, "timeout") {
            Some(j) => match scan_u64_exec(chars, j) {
                Some((t, e)) => {
                    if end_obj_exec(chars, e) {
                        Some(Request { id, action: Action::WaitTimeout { timeout: t } })
                    } else {
                        None
                    }
                },
                None => None,
            },
            None => match scan_str_field_exec(chars, k, "selector") {
                Some((selector, j)) => {
                    if end_obj_exec(chars, j) {
                        Some(Request { id, action: Action::WaitSelector { selector } })
                    } else {
                        None
                    }
                },
                None => None,
            },
        }
    } else if str_eq(act, "back") {
        if end_obj_exec(chars, k) {
            Some(Request { id, action: Action::Back })
        } else {
            None
        }
    } else if str_eq(act, "forward") {
        if end_obj_exec(chars, k) {
            Some(Request { id, action: Action::Forward })
        } else {
            None
        }
    } else if str_eq(act, "reload") {
        if end_obj_exec(chars, k) {
            Some(Request { id, action: Action::Reload })
        } else {
            None
        }
    } else if str_eq(act, "evaluate") {
        match scan_str_field_exec(chars, k, "script") {
            Some((script, j)) => {
                if end_obj_exec(chars, j) {
                    Some(Request { id, action: Action::Evaluate { script } })
                } else {
                    None
                }
            },
            None => None,
        }
    } else {
        None
    }
}

/// Reads one canonical request line, given as its characters.
pub fn decode_request(chars: &Vec<char>) -> (r: Option<Request>)
    ensures
        view_opt_request(r) == spec_decode(chars@),
{
    if !(chars.len() >= 1 && chars[0] == '{') {
        return None;
    }
    if !(chars.len() >= 2 && chars[1] == '"') {
        return None;
    }
    let (k1, p1) = match scan_string_exec(chars, 2) {
        Some(x) => x,
        None => {
            return None;
        },
    };
    if !str_eq(k1.as_str(), "id") {
        return None;
    }
    if !(p1 < chars.len() && chars[p1] == ':') {
        return None;
    }
    if !(p1 + 1 < chars.len() && chars[p1 + 1] == '"') {
        return None;
    }
    let (id, p2) = match scan_string_exec(chars, p1 + 2) {
        Some(x) => x,
        None => {
            return None;
        },
    };
    let p3 = match scan_key_exec(chars, p2, "action") {
        Some(j) => j,
        None => {
            return None;
        },
    };
    if !(p3 < chars.len() && chars[p3] == '"') {
        return None;
    }
    let (act, p4) = match scan_string_exec(chars, p3 + 1) {
        Some(x) => x,
        None => {
            return None;
        },
    };
    decode_action_exec(chars, p4, act.as_str(), id)
}

} // verus!
