use webterm::random::RandomSource;
use webterm::terminal_fs::normalize_target;
use webterm::text::{
    basename_chars, chars_of, concat_strs, decimal_string, is_whitespace, join_strings,
    parse_u8_chars, repeat_str, same_text, split_command, string_of, trim_str,
};

fn xorshift(s: u64) -> u64 {
    let a = s ^ (s << 13);
    let b = a ^ (a >> 7);
    b ^ (b << 17)
}

#[test]
fn trim_removes_unicode_whitespace_on_both_sides() {
    assert_eq!(trim_str("  a b \t\n"), "a b");
    assert_eq!(trim_str("\u{3000}x\u{00A0}"), "x");
    assert_eq!(trim_str("   "), "");
    assert_eq!(trim_str(""), "");
}

#[test]
fn whitespace_is_unicode_white_space() {
    assert!(is_whitespace(' '));
    assert!(is_whitespace('\u{2029}'));
    assert!(is_whitespace('\u{85}'));
    assert!(!is_whitespace('a'));
    assert!(!is_whitespace('\u{200B}'));
}

#[test]
fn paths_are_lower_cased_with_the_unicode_mapping() {
    assert_eq!(normalize_target("HeLLo"), "hello");
    assert_eq!(normalize_target("ÄÖ"), "äö");
    assert_eq!(normalize_target("DOCS/Readme.TXT"), "docs/readme.txt");
}

#[test]
fn parse_u8_accepts_only_digits_in_range() {
    assert_eq!(parse_u8_chars(&chars_of("0")), Some(0));
    assert_eq!(parse_u8_chars(&chars_of("255")), Some(255));
    assert_eq!(parse_u8_chars(&chars_of("007")), Some(7));
    assert_eq!(parse_u8_chars(&chars_of("256")), None);
    assert_eq!(parse_u8_chars(&chars_of("")), None);
    assert_eq!(parse_u8_chars(&chars_of("12a")), None);
    assert_eq!(parse_u8_chars(&chars_of("-1")), None);
}

#[test]
fn decimal_and_joining() {
    assert_eq!(decimal_string(0), "0");
    assert_eq!(decimal_string(305), "305");
    assert_eq!(decimal_string(4294967295), "4294967295");
    let parts = vec!["a".to_string(), "b".to_string(), "c".to_string()];
    assert_eq!(join_strings(&parts, "  "), "a  b  c");
    assert_eq!(join_strings(&Vec::new(), ", "), "");
    assert_eq!(repeat_str("ab", 3), "ababab");
    assert_eq!(concat_strs("foo", "bar"), "foobar");
}

#[test]
fn basename_and_split() {
    assert_eq!(string_of(&basename_chars(&chars_of("a/b/c.txt"))), "c.txt");
    assert_eq!(string_of(&basename_chars(&chars_of("plain"))), "plain");
    let (name, target) = split_command(&chars_of("ls   docs  x"));
    assert_eq!(string_of(&name), "ls");
    assert_eq!(string_of(&target), "docs  x");
    assert!(same_text("abc", "abc"));
    assert!(!same_text("abc", "abd"));
}

#[test]
fn random_source_is_xorshift_from_the_seed() {
    let mut rng = RandomSource::from_seed(42);
    let first = rng.next_u64();
    assert_eq!(first, xorshift(42));
    assert_eq!(rng.next_u64(), xorshift(first));
    let mut zero = RandomSource::from_seed(0);
    assert_eq!(zero.next_u64(), xorshift(0x9E37_79B9_7F4A_7C15));
    let mut bounded = RandomSource::from_seed(7);
    let x = bounded.next_below(10);
    assert_eq!(x as u64, xorshift(7) % 10);
}
