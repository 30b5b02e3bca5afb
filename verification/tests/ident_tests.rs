use agent_browser::ident::{gen_id, make_id};
use agent_browser::text::u64_to_string;

#[test]
fn make_id_reduces_modulo_bound() {
    assert_eq!(make_id(123456789), "r456789");
    assert_eq!(make_id(0), "r0");
    assert_eq!(make_id(999999), "r999999");
    assert_eq!(make_id(1000000), "r0");
}

#[test]
fn gen_id_is_short_and_tagged() {
    let id = gen_id();
    let chars: Vec<char> = id.chars().collect();
    assert_eq!(chars[0], 'r');
    assert!(chars.len() >= 2 && chars.len() <= 7);
    assert!(chars[1..].iter().all(|c| c.is_ascii_digit()));
}

#[test]
fn decimal_rendering() {
    assert_eq!(u64_to_string(0), "0");
    assert_eq!(u64_to_string(42), "42");
    assert_eq!(u64_to_string(u64::MAX), "18446744073709551615");
}
