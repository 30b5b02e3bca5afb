//! Request identifiers: a best-effort unique id derived from the
//! wall clock, used only for client-side correlation. Uniqueness is
//! not guaranteed (the value is reduced modulo a narrow bound) and
//! nothing depends on it.

use vstd::prelude::*;
use crate::text::{dec_digits, push_dec, chars_to_string};

verus! {

/// The modulus that keeps generated ids short.
pub open spec fn id_modulus() -> nat {
    1000000
}

/// The id text for a clock reading: `'r'` followed by the reading
/// reduced modulo the id bound, in decimal.
pub open spec fn spec_id(micros: nat) -> Seq<char> {
    seq!['r'] + dec_digits(micros % id_modulus())
}

/// Holds of every id this module generates.
pub open spec fn is_request_id(s: Seq<char>) -> bool {
    exists|micros: nat| s == spec_id(micros)
}

/// Relies on `std::time::SystemTime::now` and
/// `SystemTime::duration_since`: the microseconds since the epoch, or
/// `None` when the clock reads earlier than the epoch. Nothing is
/// promised of the value.
#[verifier::external_body]
fn now_micros() -> (r: Option<u128>)
{
    match std::time::SystemTime::now().duration_since(std::time::UNIX_EPOCH) {
        Ok(d) => Some(d.as_micros()),
        Err(_) => None,
    }
}

/// The id for a given clock reading.
pub fn make_id(micros: u128) -> (r: String)
    ensures
        r@ == spec_id(micros as nat),
{
    let reduced: u64 = (micros % 1000000) as u64;
    let mut v: Vec<char> = Vec::new();
    v.push('r');
    push_dec(reduced, &mut v);
    proof {
        assert(v@ =~= spec_id(micros as nat));
    }
    chars_to_string(&v)
}

/// A fresh id from the current clock; a clock before the epoch is
/// read as zero.
pub fn gen_id() -> (r: String)
    ensures
        is_request_id(r@),
{
    let micros = match now_micros() {
        Some(m) => m,
        None => 0,
    };
    let r = make_id(micros);
    proof {
        assert(r@ == spec_id(micros as nat));
    }
    r
}

} // verus!
