//! Decimal integer parsing with the exact acceptance rules the
//! translator needs: an optional sign, one or more digits, and a
//! range check, matching how the command arguments are read.

use vstd::prelude::*;

verus! {

pub open spec fn is_digit(c: char) -> bool {
    48 <= c as u32 && c as u32 <= 57
}

pub open spec fn digit_val(c: char) -> nat {
    (c as u32 - 48) as nat
}

/// `s` is one or more decimal digits.
pub open spec fn all_digits(s: Seq<char>) -> bool {
    s.len() > 0 && forall|i: int| 0 <= i < s.len() ==> is_digit(s[i])
}

/// The value of a digit string, most significant digit first.
pub open spec fn dec_val(s: Seq<char>) -> nat
    decreases s.len(),
{
    if s.len() == 0 {
        0
    } else {
        dec_val(s.drop_last()) * 10 + digit_val(s.last())
    }
}

/// An unsigned decimal with an optional leading `'+'`, within `u64`.
pub open spec fn spec_parse_u64(s: Seq<char>) -> Option<u64> {
    let body = if s.len() >= 1 && s[0] == '+' {
        s.subrange(1, s.len() as int)
    } else {
        s
    };
    if all_digits(body) && dec_val(body) <= u64::MAX {
        Some(dec_val(body) as u64)
    } else {
        None
    }
}

/// A signed decimal with an optional leading `'+'` or `'-'`, within
/// `i32`.
pub open spec fn spec_parse_i32(s: Seq<char>) -> Option<i32> {
    if s.len() >= 1 && s[0] == '-' {
        let body = s.subrange(1, s.len() as int);
        if all_digits(body) && dec_val(body) <= 2147483648 {
            Some((0 - dec_val(body)) as i32)
        } else {
            None
        }
    } else {
        let body = if s.len() >= 1 && s[0] == '+' {
            s.subrange(1, s.len() as int)
        } else {
            s
        };
        if all_digits(body) && dec_val(body) <= 2147483647 {
            Some(dec_val(body) as i32)
        } else {
            None
        }
    }
}

/// A digit string's value only grows as more digits are read.
pub proof fn lemma_dec_val_prefix(s: Seq<char>, n: int)
    requires
        0 <= n <= s.len(),
    ensures
        dec_val(s) >= dec_val(s.subrange(0, n)),
    decreases s.len(),
{
    if n == s.len() {
        assert(s.subrange(0, n) =~= s);
    } else {
        assert(s.drop_last().subrange(0, n) =~= s.subrange(0, n));
        lemma_dec_val_prefix(s.drop_last(), n);
    }
}

/// Reads the digits of `chars` from position `from` on.
fn parse_digits(chars: &Vec<char>, from: usize) -> (r: Option<u64>)
    requires
        from <= chars@.len(),
    ensures
        ({
            let body = chars@.subrange(from as int, chars@.len() as int);
            &&& (r matches Some(v) ==> all_digits(body) && dec_val(body) == v)
            &&& (r is None ==> !all_digits(body) || dec_val(body) > u64::MAX)
        }),
{
    let ghost body = chars@.subrange(from as int, chars@.len() as int);
    if from == chars.len() {
        return None;
    }
    let mut i: usize = from;
    let mut value: u128 = 0;
    while i < chars.len()
        invariant
            from <= i <= chars@.len(),
            from < chars@.len(),
            body == chars@.subrange(from as int, chars@.len() as int),
            forall|j: int| from <= j < i ==> is_digit(chars@[j]),
            value == dec_val(chars@.subrange(from as int, i as int)),
            value <= u64::MAX,
        decreases chars@.len() - i,
    {
        let c = chars[i];
        let u = c as u32;
        if !(48 <= u && u <= 57) {
            assert(body[i - from] == chars@[i as int]);
            return None;
        }
        let d: u128 = (u - 48) as u128;
        let new_value: u128 = value * 10 + d;
        proof {
            assert(chars@.subrange(from as int, i + 1).drop_last() =~= chars@.subrange(
                from as int,
                i as int,
            ));
            assert(chars@.subrange(from as int, i + 1).last() == chars@[i as int]);
        }
        if new_value > 0xffff_ffff_ffff_ffff {
            proof {
                let upto = chars@.subrange(from as int, i + 1);
                assert(dec_val(upto) == value * 10 + digit_val(chars@[i as int]));
                assert(upto =~= body.subrange(0, i + 1 - from));
                lemma_dec_val_prefix(body, i + 1 - from);
                assert(dec_val(body) >= new_value);
            }
            return None;
        }
        value = new_value;
        i += 1;
    }
    proof {
        assert(chars@.subrange(from as int, i as int) =~= body);
    }
    Some(value as u64)
}

/// Reads `chars` as Rust reads a `u64`.
pub fn parse_u64_chars(chars: &Vec<char>) -> (r: Option<u64>)
    ensures
        r == spec_parse_u64(chars@),
{
    let from: usize = if chars.len() >= 1 && chars[0] == '+' {
        1
    } else {
        0
    };
    proof {
        if !(chars@.len() >= 1 && chars@[0] == '+') {
            assert(chars@.subrange(0, chars@.len() as int) =~= chars@);
        }
    }
    parse_digits(chars, from)
}

/// Reads `chars` as Rust reads an `i32`.
pub fn parse_i32_chars(chars: &Vec<char>) -> (r: Option<i32>)
    ensures
        r == spec_parse_i32(chars@),
{
    if chars.len() >= 1 && chars[0] == '-' {
        match parse_digits(chars, 1) {
            Some(v) => {
                if v <= 2147483648 {
                    let neg: i64 = 0 - (v as i64);
                    Some(neg as i32)
                } else {
                    None
                }
            },
            None => None,
        }
    } else {
        let from: usize = if chars.len() >= 1 && chars[0] == '+' {
            1
        } else {
            0
        };
        proof {
            if !(chars@.len() >= 1 && chars@[0] == '+') {
                assert(chars@.subrange(0, chars@.len() as int) =~= chars@);
            }
        }
        match parse_digits(chars, from) {
            Some(v) => {
                if v <= 2147483647 {
                    Some(v as i32)
                } else {
                    None
                }
            },
            None => None,
        }
    }
}

} // verus!
