//! The wire round trip: decoding what `encode_request` writes gives
//! back the very request, field for field, for every request. The
//! proof walks the canonical shape piece by piece.

use vstd::prelude::*;
use crate::request::{ActionModel, RequestModel};
use crate::codec::{
    esc_char, escape, jstr, int_chars, str_field_enc, action_name, action_fields, spec_encode,
    hex_lo_char,
};
use crate::decode::{
    unesc, is_hex_lo, hex_val, scan_content_at, scan_jstr_at, scan_key_at, scan_str_field_at,
    digit_run_end, scan_u64_at, scan_i32_at, lit_at, try_bool_flag_at, try_depth_at, try_sel_at,
    end_at, spec_decode_action, spec_decode,
};
use crate::text::{digit_char, dec_digits};
use crate::numparse::{is_digit, digit_val, dec_val};

verus! {

/// Escaping read from the front: the first character's escape, then
/// the rest.
proof fn lemma_escape_head(t: Seq<char>)
    requires
        t.len() > 0,
    ensures
        escape(t) == esc_char(t[0]) + escape(t.subrange(1, t.len() as int)),
    decreases t.len(),
{
    if t.len() == 1 {
        assert(t.drop_last() =~= Seq::<char>::empty());
        assert(t.subrange(1, t.len() as int) =~= Seq::<char>::empty());
        assert(escape(t) =~= esc_char(t[0]) + escape(t.subrange(1, t.len() as int)));
    } else {
        let u = t.drop_last();
        lemma_escape_head(u);
        assert(t.subrange(1, t.len() as int).drop_last() =~= u.subrange(1, u.len() as int));
        assert(t.subrange(1, t.len() as int).last() == t.last());
        assert(u[0] == t[0]);
        assert(escape(t.subrange(1, t.len() as int)) == escape(u.subrange(1, u.len() as int))
            + esc_char(t.last()));
        assert(escape(t) =~= esc_char(t[0]) + escape(t.subrange(1, t.len() as int)));
    }
}

/// Scanning undoes escaping: content written as `escape(t)` and a
/// closing quote reads back as exactly `t`.
proof fn lemma_scan_escaped(s: Seq<char>, k: int, t: Seq<char>, rest: Seq<char>)
    requires
        0 <= k <= s.len(),
        s.subrange(k, s.len() as int) == escape(t) + seq!['"'] + rest,
    ensures
        scan_content_at(s, k) == Some((t, k + escape(t).len() + 1)),
    decreases t.len(),
{
    let suf = s.subrange(k, s.len() as int);
    assert(suf.len() == escape(t).len() + 1 + rest.len());
    if t.len() == 0 {
        assert(escape(t) == Seq::<char>::empty());
        assert(suf =~= seq!['"'] + rest);
        assert(suf[0] == (seq!['"'] + rest)[0]);
        assert((seq!['"'] + rest)[0] == '"');
        assert(s[k] == suf[0]);
        assert(t =~= Seq::<char>::empty());
    } else {
        lemma_escape_head(t);
        let c = t[0];
        let t1 = t.subrange(1, t.len() as int);
        assert(escape(t) == esc_char(c) + escape(t1));
        if c == '"' || c == '\\' || c == '\n' || c == '\r' || c == '\t' {
            let tail = escape(t1) + seq!['"'] + rest;
            assert(esc_char(c).len() == 2 && esc_char(c)[0] == '\\' && unesc(esc_char(c)[1])
                == Some(c));
            assert(suf =~= esc_char(c) + tail);
            assert(s[k] == suf[0] && suf[0] == (esc_char(c) + tail)[0] && (esc_char(c) + tail)[0]
                == esc_char(c)[0]);
            assert(s[k + 1] == suf[1] && suf[1] == (esc_char(c) + tail)[1] && (esc_char(c)
                + tail)[1] == esc_char(c)[1]);
            assert(s[k] == '\\');
            assert(unesc(s[k + 1]) == Some(c));
            assert(s.subrange(k + 2, s.len() as int) =~= suf.subrange(2, suf.len() as int));
            assert(suf.subrange(2, suf.len() as int) =~= tail);
            lemma_scan_escaped(s, k + 2, t1, rest);
            assert(seq![c] + t1 =~= t);
        } else if (c as u32) < 32 {
            let v = c as u32;
            let tail = escape(t1) + seq!['"'] + rest;
            let h1 = hex_lo_char((v / 16) as nat);
            let h2 = hex_lo_char((v % 16) as nat);
            assert(esc_char(c) == seq!['\\', 'u', '0', '0', h1, h2]);
            assert(suf =~= esc_char(c) + tail);
            assert(s[k] == suf[0] && suf[0] == (esc_char(c) + tail)[0] && (esc_char(c) + tail)[0]
                == '\\');
            assert(s[k + 1] == suf[1] && suf[1] == (esc_char(c) + tail)[1] && (esc_char(c)
                + tail)[1] == 'u');
            assert(s[k + 2] == suf[2] && suf[2] == (esc_char(c) + tail)[2] && (esc_char(c)
                + tail)[2] == '0');
            assert(s[k + 3] == suf[3] && suf[3] == (esc_char(c) + tail)[3] && (esc_char(c)
                + tail)[3] == '0');
            assert(s[k + 4] == suf[4] && suf[4] == (esc_char(c) + tail)[4] && (esc_char(c)
                + tail)[4] == h1);
            assert(s[k + 5] == suf[5] && suf[5] == (esc_char(c) + tail)[5] && (esc_char(c)
                + tail)[5] == h2);
            assert(v / 16 == 0 || v / 16 == 1);
            assert(h1 == '0' || h1 == '1');
            assert(is_hex_lo(h2));
            assert(hex_val(h1) == v / 16 && hex_val(h2) == v % 16);
            assert(hex_val(s[k + 4]) * 16 + hex_val(s[k + 5]) == v);
            vstd::utf8::char_u32_cast(c, v);
            assert(((hex_val(s[k + 4]) * 16 + hex_val(s[k + 5])) as u32) as char == c);
            assert(s.subrange(k + 6, s.len() as int) =~= suf.subrange(6, suf.len() as int));
            assert(suf.subrange(6, suf.len() as int) =~= tail);
            lemma_scan_escaped(s, k + 6, t1, rest);
            assert(seq![c] + t1 =~= t);
        } else {
            let tail = escape(t1) + seq!['"'] + rest;
            assert(esc_char(c) == seq![c]);
            assert(suf =~= seq![c] + tail);
            assert(s[k] == suf[0] && suf[0] == (seq![c] + tail)[0] && (seq![c] + tail)[0] == c);
            assert(s.subrange(k + 1, s.len() as int) =~= suf.subrange(1, suf.len() as int));
            assert(suf.subrange(1, suf.len() as int) =~= tail);
            lemma_scan_escaped(s, k + 1, t1, rest);
            assert(seq![c] + t1 =~= t);
        }
    }
}

/// A written string literal reads back as itself.
proof fn lemma_scan_jstr(s: Seq<char>, k: int, t: Seq<char>, rest: Seq<char>)
    requires
        0 <= k <= s.len(),
        s.subrange(k, s.len() as int) == jstr(t) + rest,
    ensures
        scan_jstr_at(s, k) == Some((t, k + jstr(t).len())),
{
    let suf = s.subrange(k, s.len() as int);
    let tail = escape(t) + seq!['"'] + rest;
    assert(suf =~= seq!['"'] + tail);
    assert(s[k] == suf[0] && suf[0] == (seq!['"'] + tail)[0] && (seq!['"'] + tail)[0] == '"');
    assert(s.subrange(k + 1, s.len() as int) =~= suf.subrange(1, suf.len() as int));
    assert(suf.subrange(1, suf.len() as int) =~= tail);
    lemma_scan_escaped(s, k + 1, t, rest);
}

/// A written `,"name":` reads back as that key.
proof fn lemma_scan_key(s: Seq<char>, k: int, name: Seq<char>, rest: Seq<char>)
    requires
        0 <= k <= s.len(),
        s.subrange(k, s.len() as int) == seq![','] + jstr(name) + seq![':'] + rest,
    ensures
        scan_key_at(s, k, name) == Some(k + jstr(name).len() + 2),
{
    let suf = s.subrange(k, s.len() as int);
    let tail = jstr(name) + (seq![':'] + rest);
    assert(suf =~= seq![','] + tail);
    assert(s[k] == suf[0] && suf[0] == (seq![','] + tail)[0] && (seq![','] + tail)[0] == ',');
    assert(s.subrange(k + 1, s.len() as int) =~= suf.subrange(1, suf.len() as int));
    assert(suf.subrange(1, suf.len() as int) =~= tail);
    lemma_scan_jstr(s, k + 1, name, seq![':'] + rest);
    let j = k + 1 + jstr(name).len();
    assert(s.subrange(j, s.len() as int) =~= suf.subrange(j - k, suf.len() as int));
    assert(suf.subrange(j - k, suf.len() as int) =~= seq![':'] + rest);
    assert(s[j] == s.subrange(j, s.len() as int)[0] && (seq![':'] + rest)[0] == ':');
}

/// A written string field reads back as its value.
proof fn lemma_scan_str_field(s: Seq<char>, k: int, name: Seq<char>, val: Seq<char>, rest: Seq<char>)
    requires
        0 <= k <= s.len(),
        s.subrange(k, s.len() as int) == str_field_enc(name, val) + rest,
    ensures
        scan_str_field_at(s, k, name) == Some((val, k + str_field_enc(name, val).len())),
{
    assert(s.subrange(k, s.len() as int) =~= seq![','] + jstr(name) + seq![':'] + (jstr(val)
        + rest));
    lemma_scan_key(s, k, name, jstr(val) + rest);
    let j = k + jstr(name).len() + 2;
    let suf = s.subrange(k, s.len() as int);
    assert(s.subrange(j, s.len() as int) =~= suf.subrange(j - k, suf.len() as int));
    assert(suf.subrange(j - k, suf.len() as int) =~= jstr(val) + rest);
    lemma_scan_jstr(s, j, val, rest);
}

/// The decimal rendering of `n` is digits only, starts with a nonzero
/// digit unless it is the single `'0'`, and evaluates back to `n`.
proof fn lemma_dec_digits(n: nat)
    ensures
        dec_digits(n).len() >= 1,
        forall|i: int| 0 <= i < dec_digits(n).len() ==> is_digit(#[trigger] dec_digits(n)[i]),
        dec_val(dec_digits(n)) == n,
        dec_digits(n).len() > 1 ==> dec_digits(n)[0] != '0',
        n >= 10 ==> dec_digits(n).len() >= 2,
    decreases n,
{
    if n < 10 {
        let d = dec_digits(n);
        assert(d == seq![digit_char(n)]);
        assert(is_digit(digit_char(n)) && digit_val(digit_char(n)) == n);
        assert(d.drop_last() =~= Seq::<char>::empty());
        assert(dec_val(d) == dec_val(Seq::<char>::empty()) * 10 + digit_val(digit_char(n)));
    } else {
        lemma_dec_digits(n / 10);
        let d = dec_digits(n);
        let h = dec_digits(n / 10);
        assert(d == h + seq![digit_char(n % 10)]);
        assert(d.drop_last() =~= h);
        assert(d.last() == digit_char(n % 10));
        assert(is_digit(digit_char(n % 10)) && digit_val(digit_char(n % 10)) == n % 10);
        assert(dec_val(d) == dec_val(h) * 10 + n % 10);
        assert(dec_val(d) == n);
        assert(d[0] == (h + seq![digit_char(n % 10)])[0]);
        assert(d[0] == h[0]);
        if n / 10 >= 10 {
            assert(h.len() >= 2);
        } else {
            assert(h == seq![digit_char(n / 10)]);
            assert(n / 10 >= 1);
            assert(digit_char(n / 10) != '0');
        }
    }
}

/// A digit run followed by a non-digit ends exactly where the digits
/// end.
proof fn lemma_digit_run(s: Seq<char>, k: int, d: Seq<char>, rest: Seq<char>)
    requires
        0 <= k <= s.len(),
        s.subrange(k, s.len() as int) == d + rest,
        forall|i: int| 0 <= i < d.len() ==> is_digit(#[trigger] d[i]),
        rest.len() == 0 || !is_digit(rest[0]),
    ensures
        digit_run_end(s, k) == k + d.len(),
    decreases d.len(),
{
    let suf = s.subrange(k, s.len() as int);
    if d.len() == 0 {
        if k < s.len() {
            assert(suf =~= rest);
            assert(s[k] == suf[0] && suf[0] == rest[0]);
        }
    } else {
        assert(suf =~= d + rest);
        assert(suf.len() == d.len() + rest.len());
        assert(s[k] == suf[0]);
        assert(suf[0] == (d + rest)[0]);
        assert((d + rest)[0] == d[0]);
        assert(is_digit(s[k]));
        assert(s.subrange(k + 1, s.len() as int) =~= suf.subrange(1, suf.len() as int));
        assert(suf.subrange(1, suf.len() as int) =~= d.subrange(1, d.len() as int) + rest);
        lemma_digit_run(s, k + 1, d.subrange(1, d.len() as int), rest);
        assert(digit_run_end(s, k) == digit_run_end(s, k + 1));
    }
}

/// A written unsigned decimal reads back as itself when what follows
/// is not a digit.
proof fn lemma_scan_u64(s: Seq<char>, k: int, n: u64, rest: Seq<char>)
    requires
        0 <= k <= s.len(),
        s.subrange(k, s.len() as int) == dec_digits(n as nat) + rest,
        rest.len() == 0 || !is_digit(rest[0]),
    ensures
        scan_u64_at(s, k) == Some((n, k + dec_digits(n as nat).len())),
{
    let d = dec_digits(n as nat);
    let suf = s.subrange(k, s.len() as int);
    lemma_dec_digits(n as nat);
    lemma_digit_run(s, k, d, rest);
    let e = k + d.len();
    assert(suf.len() == d.len() + rest.len());
    assert forall|x: int| 0 <= x < d.len() implies s.subrange(k, e as int)[x] == suf.subrange(
        0,
        d.len() as int,
    )[x] by {
        assert(s.subrange(k, e as int)[x] == s[k + x]);
        assert(suf.subrange(0, d.len() as int)[x] == suf[x]);
        assert(suf[x] == s[k + x]);
    }
    assert(s.subrange(k, e as int) =~= suf.subrange(0, d.len() as int));
    assert(suf.subrange(0, d.len() as int) =~= d);
    if s[k] == '0' && e > k + 1 {
        assert(s[k] == suf[0] && suf[0] == (d + rest)[0] && (d + rest)[0] == d[0]);
        assert(d[0] == '0' && d.len() > 1);
        assert(false);
    }
    assert(dec_val(s.subrange(k, e as int)) == n as nat);
}

/// A written signed decimal reads back as itself.
proof fn lemma_scan_i32(s: Seq<char>, k: int, n: i32, rest: Seq<char>)
    requires
        0 <= k <= s.len(),
        s.subrange(k, s.len() as int) == int_chars(n as int) + rest,
        rest.len() == 0 || !is_digit(rest[0]),
    ensures
        scan_i32_at(s, k) == Some((n, k + int_chars(n as int).len())),
{
    let suf = s.subrange(k, s.len() as int);
    if n < 0 {
        let mag = (0 - n as int) as nat;
        let tail = dec_digits(mag) + rest;
        assert(int_chars(n as int) == seq!['-'] + dec_digits(mag));
        assert(suf =~= seq!['-'] + tail);
        assert(s[k] == suf[0] && suf[0] == (seq!['-'] + tail)[0] && (seq!['-'] + tail)[0] == '-');
        assert(s.subrange(k + 1, s.len() as int) =~= suf.subrange(1, suf.len() as int));
        assert(suf.subrange(1, suf.len() as int) =~= tail);
        assert(mag <= 2147483648);
        lemma_scan_u64(s, k + 1, mag as u64, rest);
        assert((0 - (mag as u64) as int) as i32 == n);
    } else {
        let d = dec_digits(n as nat);
        assert(int_chars(n as int) == d);
        lemma_dec_digits(n as nat);
        assert(s[k] == suf[0] && suf[0] == (d + rest)[0] && (d + rest)[0] == d[0]);
        assert(is_digit(s[k]));
        assert(s[k] != '-');
        lemma_scan_u64(s, k, n as u64, rest);
    }
}

/// A literal written at `k` is found there.
proof fn lemma_lit_at(s: Seq<char>, k: int, lit: Seq<char>, rest: Seq<char>)
    requires
        0 <= k <= s.len(),
        s.subrange(k, s.len() as int) == lit + rest,
    ensures
        lit_at(s, k, lit),
{
    let suf = s.subrange(k, s.len() as int);
    assert(suf.len() == lit.len() + rest.len());
    assert(s.subrange(k, k + lit.len() as int) =~= suf.subrange(0, lit.len() as int));
    assert(suf.subrange(0, lit.len() as int) =~= lit);
}

/// When the stream continues with a different key (or the closing
/// brace), an optional-field probe consumes nothing.
proof fn lemma_try_miss(s: Seq<char>, k: int, name: Seq<char>, k2: Seq<char>, rest: Seq<char>)
    requires
        0 <= k <= s.len(),
        s.subrange(k, s.len() as int) == seq![','] + jstr(k2) + seq![':'] + rest,
        k2 != name,
    ensures
        scan_key_at(s, k, name) is None,
{
    let suf = s.subrange(k, s.len() as int);
    let tail = jstr(k2) + (seq![':'] + rest);
    assert(suf =~= seq![','] + tail);
    assert(s[k] == suf[0] && suf[0] == (seq![','] + tail)[0] && (seq![','] + tail)[0] == ',');
    assert(s.subrange(k + 1, s.len() as int) =~= suf.subrange(1, suf.len() as int));
    assert(suf.subrange(1, suf.len() as int) =~= tail);
    lemma_scan_jstr(s, k + 1, k2, seq![':'] + rest);
}

/// The closing brace stops every optional-field probe.
proof fn lemma_try_at_brace(s: Seq<char>, k: int, name: Seq<char>)
    requires
        0 <= k < s.len(),
        s[k] == '}',
    ensures
        scan_key_at(s, k, name) is None,
{
}

/// The closing brace of the object stands right after `pre` and ends
/// the line.
proof fn lemma_end_brace(s: Seq<char>, k: int, j: int, pre: Seq<char>)
    requires
        0 <= k <= s.len(),
        s.subrange(k, s.len() as int) == pre + seq!['}'],
        j == k + pre.len(),
    ensures
        end_at(s, j),
{
    let suf = s.subrange(k, s.len() as int);
    assert(suf.len() == pre.len() + 1);
    assert(s[j] == suf[j - k]);
    assert(suf[j - k] == (pre + seq!['}'])[pre.len() as int]);
    assert((pre + seq!['}'])[pre.len() as int] == '}');
}

/// One string field and then the closing brace.
proof fn lemma_field_end(s: Seq<char>, k: int, name: Seq<char>, val: Seq<char>)
    requires
        0 <= k <= s.len(),
        s.subrange(k, s.len() as int) == str_field_enc(name, val) + seq!['}'],
    ensures
        scan_str_field_at(s, k, name) == Some((val, k + str_field_enc(name, val).len())),
        end_at(s, k + str_field_enc(name, val).len()),
{
    lemma_scan_str_field(s, k, name, val, seq!['}']);
    lemma_end_brace(s, k, k + str_field_enc(name, val).len() as int, str_field_enc(name, val));
}

/// One optional boolean snapshot flag: consumed when present,
/// untouched when the stream continues with another key or the brace.
proof fn lemma_bool_probe(s: Seq<char>, k: int, name: Seq<char>, present: bool, rest: Seq<char>)
    requires
        0 <= k <= s.len(),
        present ==> s.subrange(k, s.len() as int) == (seq![','] + jstr(name) + seq![':']
            + "true"@) + rest,
        !present ==> s.subrange(k, s.len() as int) == rest,
        !present ==> rest.len() >= 1,
        !present ==> (rest[0] == '}' || exists|k2: Seq<char>, tail: Seq<char>|
            rest == #[trigger] (seq![','] + jstr(k2) + seq![':'] + tail) && k2 != name),
    ensures
        try_bool_flag_at(s, k, name) == (present, if present {
            k + (seq![','] + jstr(name) + seq![':'] + "true"@).len() as int
        } else {
            k
        }),
{
    let suf = s.subrange(k, s.len() as int);
    if present {
        assert(suf =~= seq![','] + jstr(name) + seq![':'] + ("true"@ + rest));
        lemma_scan_key(s, k, name, "true"@ + rest);
        let j = k + jstr(name).len() + 2;
        assert(s.subrange(j, s.len() as int) =~= suf.subrange(j - k, suf.len() as int));
        assert(suf.subrange(j - k, suf.len() as int) =~= "true"@ + rest);
        lemma_lit_at(s, j, "true"@, rest);
        assert(try_bool_flag_at(s, k, name) == (true, j + "true"@.len()));
    } else {
        if rest[0] == '}' {
            assert(s[k] == suf[0] && suf[0] == rest[0]);
            lemma_try_at_brace(s, k, name);
        } else {
            let (k2, tail) = choose|k2: Seq<char>, tail: Seq<char>|
                rest == seq![','] + jstr(k2) + seq![':'] + tail && k2 != name;
            lemma_try_miss(s, k, name, k2, tail);
        }
        assert(try_bool_flag_at(s, k, name) == (false, k));
    }
}

/// The optional depth field.
proof fn lemma_depth_probe(s: Seq<char>, k: int, d: Option<i32>, rest: Seq<char>)
    requires
        0 <= k <= s.len(),
        d matches Some(n) ==> s.subrange(k, s.len() as int) == (seq![','] + jstr("maxDepth"@)
            + seq![':'] + int_chars(n as int)) + rest && rest.len() >= 1 && !is_digit(rest[0]),
        d is None ==> s.subrange(k, s.len() as int) == rest && rest.len() >= 1 && (rest[0] == '}'
            || exists|k2: Seq<char>, tail: Seq<char>|
            rest == #[trigger] (seq![','] + jstr(k2) + seq![':'] + tail) && k2 != "maxDepth"@),
    ensures
        ({
            let adv: int = match d {
                Some(n) => (seq![','] + jstr("maxDepth"@) + seq![':'] + int_chars(
                    n as int,
                )).len() as int,
                None => 0,
            };
            try_depth_at(s, k) == (d, k + adv)
        }),
{
    let suf = s.subrange(k, s.len() as int);
    match d {
        Some(n) => {
            assert(suf =~= seq![','] + jstr("maxDepth"@) + seq![':'] + (int_chars(n as int)
                + rest));
            lemma_scan_key(s, k, "maxDepth"@, int_chars(n as int) + rest);
            let j = k + jstr("maxDepth"@).len() + 2;
            assert(s.subrange(j, s.len() as int) =~= suf.subrange(j - k, suf.len() as int));
            assert(suf.subrange(j - k, suf.len() as int) =~= int_chars(n as int) + rest);
            lemma_scan_i32(s, j, n, rest);
            assert(try_depth_at(s, k) == (Some(n), j + int_chars(n as int).len()));
        },
        None => {
            if rest[0] == '}' {
                assert(s[k] == suf[0] && suf[0] == rest[0]);
                lemma_try_at_brace(s, k, "maxDepth"@);
            } else {
                let (k2, tail) = choose|k2: Seq<char>, tail: Seq<char>|
                    rest == seq![','] + jstr(k2) + seq![':'] + tail && k2 != "maxDepth"@;
                lemma_try_miss(s, k, "maxDepth"@, k2, tail);
            }
            assert(try_depth_at(s, k) == (None::<i32>, k));
        },
    }
}

/// The optional scoping selector.
proof fn lemma_sel_probe(s: Seq<char>, k: int, sel: Option<Seq<char>>, rest: Seq<char>)
    requires
        0 <= k <= s.len(),
        sel matches Some(v) ==> s.subrange(k, s.len() as int) == str_field_enc("selector"@, v)
            + rest,
        sel is None ==> s.subrange(k, s.len() as int) == rest && rest.len() >= 1 && rest[0] == '}',
    ensures
        ({
            let adv: int = match sel {
                Some(v) => str_field_enc("selector"@, v).len() as int,
                None => 0,
            };
            try_sel_at(s, k) == (sel, k + adv)
        }),
{
    let suf = s.subrange(k, s.len() as int);
    match sel {
        Some(v) => {
            assert(suf =~= seq![','] + jstr("selector"@) + seq![':'] + (jstr(v) + rest));
            lemma_scan_key(s, k, "selector"@, jstr(v) + rest);
            let j = k + jstr("selector"@).len() + 2;
            assert(s.subrange(j, s.len() as int) =~= suf.subrange(j - k, suf.len() as int));
            assert(suf.subrange(j - k, suf.len() as int) =~= jstr(v) + rest);
            lemma_scan_jstr(s, j, v, rest);
            assert(try_sel_at(s, k) == (Some(v), j + jstr(v).len()));
        },
        None => {
            assert(s[k] == suf[0] && suf[0] == rest[0]);
            lemma_try_at_brace(s, k, "selector"@);
            assert(try_sel_at(s, k) == (None::<Seq<char>>, k));
        },
    }
}

/// The pieces a snapshot's field list is made of.
spec fn snap_p1(interactive: bool) -> Seq<char> {
    if interactive {
        seq![','] + jstr("interactive"@) + seq![':'] + "true"@
    } else {
        Seq::empty()
    }
}

spec fn snap_p2(compact: bool) -> Seq<char> {
    if compact {
        seq![','] + jstr("compact"@) + seq![':'] + "true"@
    } else {
        Seq::empty()
    }
}

spec fn snap_p3(max_depth: Option<i32>) -> Seq<char> {
    match max_depth {
        Some(n) => seq![','] + jstr("maxDepth"@) + seq![':'] + int_chars(n as int),
        None => Seq::empty(),
    }
}

spec fn snap_p4(selector: Option<Seq<char>>) -> Seq<char> {
    match selector {
        Some(sel) => str_field_enc("selector"@, sel),
        None => Seq::empty(),
    }
}

proof fn lemma_snap_step_interactive(
    s: Seq<char>,
    k: int,
    interactive: bool,
    compact: bool,
    max_depth: Option<i32>,
    selector: Option<Seq<char>>,
)
    requires
        0 <= k <= s.len(),
        s.subrange(k, s.len() as int) == snap_p1(interactive) + (snap_p2(compact) + snap_p3(
            max_depth,
        ) + snap_p4(selector) + seq!['}']),
    ensures
        try_bool_flag_at(s, k, "interactive"@) == (interactive, k + snap_p1(
            interactive,
        ).len() as int),
        s.subrange(k + snap_p1(interactive).len() as int, s.len() as int) == snap_p2(compact)
            + snap_p3(max_depth) + snap_p4(selector) + seq!['}'],
{
    reveal_strlit("interactive");
    reveal_strlit("compact");
    reveal_strlit("maxDepth");
    reveal_strlit("selector");
    let suf = s.subrange(k, s.len() as int);
    let rest = snap_p2(compact) + snap_p3(max_depth) + snap_p4(selector) + seq!['}'];
    if !interactive {
        assert(suf =~= rest);
        if compact {
            assert(rest =~= seq![','] + jstr("compact"@) + seq![':'] + ("true"@ + (snap_p3(
                max_depth,
            ) + snap_p4(selector) + seq!['}'])));
        } else if max_depth is Some {
            let n = max_depth.unwrap();
            assert(rest =~= seq![','] + jstr("maxDepth"@) + seq![':'] + (int_chars(n as int) + (
            snap_p4(selector) + seq!['}'])));
        } else if selector is Some {
            let v = selector.unwrap();
            assert(rest =~= seq![','] + jstr("selector"@) + seq![':'] + (jstr(v) + seq!['}']));
        } else {
            assert(rest =~= seq!['}']);
        }
        assert(rest[0] == '}' || exists|x: Seq<char>, tail: Seq<char>|
            rest == #[trigger] (seq![','] + jstr(x) + seq![':'] + tail) && x != "interactive"@);
    }
    lemma_bool_probe(s, k, "interactive"@, interactive, rest);
    let k1 = k + snap_p1(interactive).len() as int;
    assert(s.subrange(k1, s.len() as int) =~= suf.subrange(k1 - k, suf.len() as int));
    assert(suf.subrange(k1 - k, suf.len() as int) =~= rest);
}

proof fn lemma_snap_step_compact(
    s: Seq<char>,
    k: int,
    compact: bool,
    max_depth: Option<i32>,
    selector: Option<Seq<char>>,
)
    requires
        0 <= k <= s.len(),
        s.subrange(k, s.len() as int) == snap_p2(compact) + snap_p3(max_depth) + snap_p4(selector)
            + seq!['}'],
    ensures
        try_bool_flag_at(s, k, "compact"@) == (compact, k + snap_p2(compact).len() as int),
        s.subrange(k + snap_p2(compact).len() as int, s.len() as int) == snap_p3(max_depth)
            + snap_p4(selector) + seq!['}'],
{
    reveal_strlit("compact");
    reveal_strlit("maxDepth");
    reveal_strlit("selector");
    let suf = s.subrange(k, s.len() as int);
    let rest = snap_p3(max_depth) + snap_p4(selector) + seq!['}'];
    if compact {
        assert(suf =~= (seq![','] + jstr("compact"@) + seq![':'] + "true"@) + rest);
    } else {
        assert(suf =~= rest);
        if max_depth is Some {
            let n = max_depth.unwrap();
            assert(rest =~= seq![','] + jstr("maxDepth"@) + seq![':'] + (int_chars(n as int) + (
            snap_p4(selector) + seq!['}'])));
        } else if selector is Some {
            let v = selector.unwrap();
            assert(rest =~= seq![','] + jstr("selector"@) + seq![':'] + (jstr(v) + seq!['}']));
        } else {
            assert(rest =~= seq!['}']);
        }
        assert(rest[0] == '}' || exists|x: Seq<char>, tail: Seq<char>|
            rest == #[trigger] (seq![','] + jstr(x) + seq![':'] + tail) && x != "compact"@);
    }
    lemma_bool_probe(s, k, "compact"@, compact, rest);
    let k2 = k + snap_p2(compact).len() as int;
    assert(s.subrange(k2, s.len() as int) =~= suf.subrange(k2 - k, suf.len() as int));
    assert(suf.subrange(k2 - k, suf.len() as int) =~= rest);
}

proof fn lemma_snap_step_depth(
    s: Seq<char>,
    k: int,
    max_depth: Option<i32>,
    selector: Option<Seq<char>>,
)
    requires
        0 <= k <= s.len(),
        s.subrange(k, s.len() as int) == snap_p3(max_depth) + snap_p4(selector) + seq!['}'],
    ensures
        try_depth_at(s, k) == (max_depth, k + snap_p3(max_depth).len() as int),
        s.subrange(k + snap_p3(max_depth).len() as int, s.len() as int) == snap_p4(selector)
            + seq!['}'],
{
    reveal_strlit("maxDepth");
    reveal_strlit("selector");
    assert("maxDepth"@[0] == 'm' && "selector"@[0] == 's');
    let suf = s.subrange(k, s.len() as int);
    let rest = snap_p4(selector) + seq!['}'];
    if max_depth is Some {
        let n = max_depth.unwrap();
        assert(suf =~= (seq![','] + jstr("maxDepth"@) + seq![':'] + int_chars(n as int)) + rest);
        if selector is Some {
            let v = selector.unwrap();
            assert(rest[0] == (str_field_enc("selector"@, v) + seq!['}'])[0]);
            assert(str_field_enc("selector"@, v)[0] == ',');
            assert(!is_digit(','));
        } else {
            assert(rest =~= seq!['}']);
            assert(!is_digit('}'));
        }
    } else {
        assert(suf =~= rest);
        if selector is Some {
            let v = selector.unwrap();
            assert(rest =~= seq![','] + jstr("selector"@) + seq![':'] + (jstr(v) + seq!['}']));
        } else {
            assert(rest =~= seq!['}']);
        }
        assert(rest[0] == '}' || exists|x: Seq<char>, tail: Seq<char>|
            rest == #[trigger] (seq![','] + jstr(x) + seq![':'] + tail) && x != "maxDepth"@);
    }
    lemma_depth_probe(s, k, max_depth, rest);
    let k3 = k + snap_p3(max_depth).len() as int;
    assert(s.subrange(k3, s.len() as int) =~= suf.subrange(k3 - k, suf.len() as int));
    assert(suf.subrange(k3 - k, suf.len() as int) =~= rest);
}

proof fn lemma_snap_step_sel(s: Seq<char>, k: int, selector: Option<Seq<char>>)
    requires
        0 <= k <= s.len(),
        s.subrange(k, s.len() as int) == snap_p4(selector) + seq!['}'],
    ensures
        try_sel_at(s, k) == (selector, k + snap_p4(selector).len() as int),
        end_at(s, k + snap_p4(selector).len() as int),
{
    reveal_strlit("selector");
    let suf = s.subrange(k, s.len() as int);
    if selector is Some {
        let v = selector.unwrap();
        assert(s.subrange(k, s.len() as int) =~= str_field_enc("selector"@, v) + seq!['}']);
        lemma_sel_probe(s, k, selector, seq!['}']);
    } else {
        assert(s.subrange(k, s.len() as int) =~= seq!['}']);
        lemma_sel_probe(s, k, selector, seq!['}']);
    }
    lemma_end_brace(s, k, k + snap_p4(selector).len() as int, snap_p4(selector));
}

/// The four optional snapshot fields read back exactly as written,
/// whichever of them are present.
proof fn lemma_decode_snapshot(
    s: Seq<char>,
    k: int,
    interactive: bool,
    compact: bool,
    max_depth: Option<i32>,
    selector: Option<Seq<char>>,
)
    requires
        0 <= k <= s.len(),
        s.subrange(k, s.len() as int) == action_fields(
            ActionModel::Snapshot { interactive, compact, max_depth, selector },
        ) + seq!['}'],
    ensures
        ({
            let (b1, k1) = try_bool_flag_at(s, k, "interactive"@);
            let (b2, k2) = try_bool_flag_at(s, k1, "compact"@);
            let (d3, k3) = try_depth_at(s, k2);
            let (s4, k4) = try_sel_at(s, k3);
            b1 == interactive && b2 == compact && d3 == max_depth && s4 == selector && end_at(
                s,
                k4,
            )
        }),
{
    assert(s.subrange(k, s.len() as int) =~= snap_p1(interactive) + (snap_p2(compact) + snap_p3(
        max_depth,
    ) + snap_p4(selector) + seq!['}']));
    lemma_snap_step_interactive(s, k, interactive, compact, max_depth, selector);
    let k1 = k + snap_p1(interactive).len() as int;
    lemma_snap_step_compact(s, k1, compact, max_depth, selector);
    let k2 = k1 + snap_p2(compact).len() as int;
    lemma_snap_step_depth(s, k2, max_depth, selector);
    let k3 = k2 + snap_p3(max_depth).len() as int;
    lemma_snap_step_sel(s, k3, selector);
}

/// The fields of every action read back as themselves, with the line
/// ending at the closing brace.
#[verifier::rlimit(100)]
proof fn lemma_decode_fields(s: Seq<char>, k: int, m: RequestModel)
    requires
        0 <= k <= s.len(),
        s.subrange(k, s.len() as int) == action_fields(m.action) + seq!['}'],
    ensures
        spec_decode_action(s, k, action_name(m.action), m.id) == Some(m),
{
    reveal_strlit("navigate");
    reveal_strlit("click");
    reveal_strlit("fill");
    reveal_strlit("type");
    reveal_strlit("hover");
    reveal_strlit("snapshot");
    reveal_strlit("screenshot");
    reveal_strlit("close");
    reveal_strlit("gettext");
    reveal_strlit("url");
    reveal_strlit("title");
    reveal_strlit("press");
    reveal_strlit("wait");
    reveal_strlit("back");
    reveal_strlit("forward");
    reveal_strlit("reload");
    reveal_strlit("evaluate");
    assert("navigate"@[0] == 'n' && "navigate"@[1] == 'a' && "navigate"@[2] == 'v');
    assert("click"@[0] == 'c' && "click"@[1] == 'l' && "click"@[2] == 'i');
    assert("fill"@[0] == 'f' && "fill"@[1] == 'i' && "fill"@[2] == 'l');
    assert("type"@[0] == 't' && "type"@[1] == 'y' && "type"@[2] == 'p');
    assert("hover"@[0] == 'h' && "hover"@[1] == 'o' && "hover"@[2] == 'v');
    assert("snapshot"@[0] == 's' && "snapshot"@[1] == 'n' && "snapshot"@[2] == 'a');
    assert("screenshot"@[0] == 's' && "screenshot"@[1] == 'c' && "screenshot"@[2] == 'r');
    assert("close"@[0] == 'c' && "close"@[1] == 'l' && "close"@[2] == 'o');
    assert("gettext"@[0] == 'g' && "gettext"@[1] == 'e' && "gettext"@[2] == 't');
    assert("url"@[0] == 'u' && "url"@[1] == 'r' && "url"@[2] == 'l');
    assert("title"@[0] == 't' && "title"@[1] == 'i' && "title"@[2] == 't');
    assert("press"@[0] == 'p' && "press"@[1] == 'r' && "press"@[2] == 'e');
    assert("wait"@[0] == 'w' && "wait"@[1] == 'a' && "wait"@[2] == 'i');
    assert("back"@[0] == 'b' && "back"@[1] == 'a' && "back"@[2] == 'c');
    assert("forward"@[0] == 'f' && "forward"@[1] == 'o' && "forward"@[2] == 'r');
    assert("reload"@[0] == 'r' && "reload"@[1] == 'e' && "reload"@[2] == 'l');
    assert("evaluate"@[0] == 'e' && "evaluate"@[1] == 'v' && "evaluate"@[2] == 'a');
    assert(m == (RequestModel { id: m.id, action: m.action }));
    match m.action {
        ActionModel::Navigate { url } => {
            lemma_field_end(s, k, "url"@, url);
        },
        ActionModel::Click { selector } => {
            lemma_field_end(s, k, "selector"@, selector);
        },
        ActionModel::Fill { selector, value } => {
            let e1 = str_field_enc("selector"@, selector);
            let e2 = str_field_enc("value"@, value);
            let suf = s.subrange(k, s.len() as int);
            assert(suf =~= e1 + (e2 + seq!['}']));
            lemma_scan_str_field(s, k, "selector"@, selector, e2 + seq!['}']);
            let j = k + e1.len();
            assert(s.subrange(j, s.len() as int) =~= suf.subrange(j - k, suf.len() as int));
            assert(suf.subrange(j - k, suf.len() as int) =~= e2 + seq!['}']);
            lemma_scan_str_field(s, j, "value"@, value, seq!['}']);
            assert(s.subrange(k, s.len() as int) =~= (e1 + e2) + seq!['}']);
            lemma_end_brace(s, k, j + e2.len(), e1 + e2);
        },
        ActionModel::Type { selector, text } => {
            let e1 = str_field_enc("selector"@, selector);
            let e2 = str_field_enc("text"@, text);
            let suf = s.subrange(k, s.len() as int);
            assert(suf =~= e1 + (e2 + seq!['}']));
            lemma_scan_str_field(s, k, "selector"@, selector, e2 + seq!['}']);
            let j = k + e1.len();
            assert(s.subrange(j, s.len() as int) =~= suf.subrange(j - k, suf.len() as int));
            assert(suf.subrange(j - k, suf.len() as int) =~= e2 + seq!['}']);
            lemma_scan_str_field(s, j, "text"@, text, seq!['}']);
            assert(s.subrange(k, s.len() as int) =~= (e1 + e2) + seq!['}']);
            lemma_end_brace(s, k, j + e2.len(), e1 + e2);
        },
        ActionModel::Hover { selector } => {
            lemma_field_end(s, k, "selector"@, selector);
        },
        ActionModel::Snapshot { interactive, compact, max_depth, selector } => {
            lemma_decode_snapshot(s, k, interactive, compact, max_depth, selector);
        },
        ActionModel::Screenshot { path } => {
            reveal_strlit("null");
            match path {
                Some(p) => {
                    let suf = s.subrange(k, s.len() as int);
                    assert(suf =~= seq![','] + jstr("path"@) + seq![':'] + (jstr(p) + seq!['}']));
                    lemma_scan_key(s, k, "path"@, jstr(p) + seq!['}']);
                    let j = k + jstr("path"@).len() + 2;
                    assert(s.subrange(j, s.len() as int) =~= suf.subrange(
                        j - k,
                        suf.len() as int,
                    ));
                    assert(suf.subrange(j - k, suf.len() as int) =~= jstr(p) + seq!['}']);
                    lemma_scan_jstr(s, j, p, seq!['}']);
                    if lit_at(s, j, "null"@) {
                        assert(s.subrange(j, j + "null"@.len() as int)[0] == s[j]);
                        assert(s.subrange(j, j + "null"@.len() as int)[0] == "null"@[0]);
                        assert(s[j] == s.subrange(j, s.len() as int)[0]);
                        assert((jstr(p) + seq!['}'])[0] == '"');
                        assert(false);
                    }
                    assert(s.subrange(k, s.len() as int) =~= str_field_enc("path"@, p)
                        + seq!['}']);
                    lemma_end_brace(s, k, j + jstr(p).len(), str_field_enc("path"@, p));
                },
                None => {
                    let suf = s.subrange(k, s.len() as int);
                    assert(suf =~= seq![','] + jstr("path"@) + seq![':'] + ("null"@
                        + seq!['}']));
                    lemma_scan_key(s, k, "path"@, "null"@ + seq!['}']);
                    let j = k + jstr("path"@).len() + 2;
                    assert(s.subrange(j, s.len() as int) =~= suf.subrange(
                        j - k,
                        suf.len() as int,
                    ));
                    assert(suf.subrange(j - k, suf.len() as int) =~= "null"@ + seq!['}']);
                    lemma_lit_at(s, j, "null"@, seq!['}']);
                    assert(s.subrange(k, s.len() as int) =~= (seq![','] + jstr("path"@)
                        + seq![':'] + "null"@) + seq!['}']);
                    lemma_end_brace(s, k, j + "null"@.len(), seq![','] + jstr("path"@)
                        + seq![':'] + "null"@);
                },
            }
        },
        ActionModel::Close => {
            assert(s.subrange(k, s.len() as int) =~= Seq::<char>::empty() + seq!['}']);
            lemma_end_brace(s, k, k, Seq::<char>::empty());
        },
        ActionModel::GetText { selector } => {
            lemma_field_end(s, k, "selector"@, selector);
        },
        ActionModel::GetUrl => {
            assert(s.subrange(k, s.len() as int) =~= Seq::<char>::empty() + seq!['}']);
            lemma_end_brace(s, k, k, Seq::<char>::empty());
        },
        ActionModel::GetTitle => {
            assert(s.subrange(k, s.len() as int) =~= Seq::<char>::empty() + seq!['}']);
            lemma_end_brace(s, k, k, Seq::<char>::empty());
        },
        ActionModel::Press { key } => {
            lemma_field_end(s, k, "key"@, key);
        },
        ActionModel::WaitTimeout { timeout } => {
            reveal_strlit("timeout");
            let suf = s.subrange(k, s.len() as int);
            assert(suf =~= seq![','] + jstr("timeout"@) + seq![':'] + (dec_digits(
                timeout as nat,
            ) + seq!['}']));
            lemma_scan_key(s, k, "timeout"@, dec_digits(timeout as nat) + seq!['}']);
            let j = k + jstr("timeout"@).len() + 2;
            assert(s.subrange(j, s.len() as int) =~= suf.subrange(j - k, suf.len() as int));
            assert(suf.subrange(j - k, suf.len() as int) =~= dec_digits(timeout as nat)
                + seq!['}']);
            assert((seq!['}'])[0] == '}' && !is_digit('}'));
            lemma_scan_u64(s, j, timeout, seq!['}']);
            assert(s.subrange(k, s.len() as int) =~= (seq![','] + jstr("timeout"@) + seq![':']
                + dec_digits(timeout as nat)) + seq!['}']);
            lemma_end_brace(s, k, j + dec_digits(timeout as nat).len(), seq![','] + jstr(
                "timeout"@,
            ) + seq![':'] + dec_digits(timeout as nat));
        },
        ActionModel::WaitSelector { selector } => {
            reveal_strlit("timeout");
            reveal_strlit("selector");
            assert(s.subrange(k, s.len() as int) =~= seq![','] + jstr("selector"@) + seq![':'] + (
            jstr(selector) + seq!['}']));
            lemma_try_miss(s, k, "timeout"@, "selector"@, jstr(selector) + seq!['}']);
            lemma_field_end(s, k, "selector"@, selector);
        },
        ActionModel::Back => {
            assert(s.subrange(k, s.len() as int) =~= Seq::<char>::empty() + seq!['}']);
            lemma_end_brace(s, k, k, Seq::<char>::empty());
        },
        ActionModel::Forward => {
            assert(s.subrange(k, s.len() as int) =~= Seq::<char>::empty() + seq!['}']);
            lemma_end_brace(s, k, k, Seq::<char>::empty());
        },
        ActionModel::Reload => {
            assert(s.subrange(k, s.len() as int) =~= Seq::<char>::empty() + seq!['}']);
            lemma_end_brace(s, k, k, Seq::<char>::empty());
        },
        ActionModel::Evaluate { script } => {
            lemma_field_end(s, k, "script"@, script);
        },
    }
}

/// The wire round trip: every request, once encoded, decodes back to
/// itself, field for field.
#[verifier::rlimit(100)]
pub proof fn lemma_wire_round_trip(m: RequestModel)
    ensures
        spec_decode(spec_encode(m)) == Some(m),
{
    let s = spec_encode(m);
    let name = action_name(m.action);
    let fields = action_fields(m.action);
    let a1: int = 1 + jstr("id"@).len() as int;
    let a2: int = a1 + 1 + jstr(m.id).len() as int;
    let a3: int = a2 + jstr("action"@).len() as int + 2;
    let a4: int = a3 + jstr(name).len() as int;
    assert(s.len() == 1 + jstr("id"@).len() + 1 + jstr(m.id).len() + 1 + jstr("action"@).len() + 1
        + jstr(name).len() + fields.len() + 1);
    assert(s[0] == '{');
    let r1 = seq![':'] + jstr(m.id) + seq![','] + jstr("action"@) + seq![':'] + jstr(name) + fields
        + seq!['}'];
    assert(s.subrange(1, s.len() as int) =~= jstr("id"@) + r1);
    lemma_scan_jstr(s, 1, "id"@, r1);
    assert(s.subrange(a1, s.len() as int) =~= r1.subrange(0, r1.len() as int));
    assert(s[a1] == r1[0] && r1[0] == ':');
    let r3 = seq![','] + jstr("action"@) + seq![':'] + (jstr(name) + (fields + seq!['}']));
    assert(s.subrange(a1 + 1, s.len() as int) =~= jstr(m.id) + r3);
    lemma_scan_jstr(s, a1 + 1, m.id, r3);
    assert(s.subrange(a2, s.len() as int) =~= seq![','] + jstr("action"@) + seq![':'] + (jstr(
        name,
    ) + (fields + seq!['}'])));
    lemma_scan_key(s, a2, "action"@, jstr(name) + (fields + seq!['}']));
    assert(s.subrange(a3, s.len() as int) =~= jstr(name) + (fields + seq!['}']));
    lemma_scan_jstr(s, a3, name, fields + seq!['}']);
    assert(s.subrange(a4, s.len() as int) =~= fields + seq!['}']);
    lemma_decode_fields(s, a4, m);
}

} // verus!
