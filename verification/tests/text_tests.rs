use mightypie::paths::join_str;
use mightypie::paths::parent_or_dot_str;
use mightypie::text::contains_sub;
use mightypie::text::find_sub;
use mightypie::text::parse_u16;
use mightypie::text::parse_u64;
use mightypie::text::parse_usize;
use mightypie::text::str_to_chars;
use mightypie::text::to_lower_chars;
use mightypie::text::trim_chars;
use mightypie::text::trim_quote_chars;
use mightypie::text::u64_to_chars;

fn chars(s: &str) -> Vec<char> {
    str_to_chars(s)
}

fn string(v: &Vec<char>) -> String {
    v.iter().collect()
}

#[test]
fn decimal_formatting_is_exact() {
    assert_eq!(string(&u64_to_chars(0)), "0");
    assert_eq!(string(&u64_to_chars(7)), "7");
    assert_eq!(string(&u64_to_chars(1234)), "1234");
    assert_eq!(string(&u64_to_chars(u64::MAX)), "18446744073709551615");
}

#[test]
fn decimal_parsing_accepts_digits_and_one_plus() {
    assert_eq!(parse_u64(&chars("123")), Some(123));
    assert_eq!(parse_u64(&chars("+8")), Some(8));
    assert_eq!(parse_u64(&chars("0")), Some(0));
    assert_eq!(parse_u64(&chars("")), None);
    assert_eq!(parse_u64(&chars("+")), None);
    assert_eq!(parse_u64(&chars("12a")), None);
    assert_eq!(parse_u64(&chars("-3")), None);
    assert_eq!(parse_u64(&chars("18446744073709551615")), Some(u64::MAX));
    assert_eq!(parse_u64(&chars("18446744073709551616")), None);
}

#[test]
fn narrow_parses_reject_overflow() {
    assert_eq!(parse_u16(&chars("65535")), Some(65535));
    assert_eq!(parse_u16(&chars("65536")), None);
    assert_eq!(parse_usize(&chars("1024")), Some(1024));
}

#[test]
fn trimming_strips_blanks_and_quotes() {
    assert_eq!(string(&trim_chars(&chars("  a b\t"))), "a b");
    assert_eq!(string(&trim_chars(&chars("\r\n"))), "");
    assert_eq!(string(&trim_quote_chars(&chars("\"quoted\""))), "quoted");
    assert_eq!(string(&trim_quote_chars(&chars("'a'b'"))), "a'b");
    assert_eq!(string(&trim_quote_chars(&chars("none"))), "none");
}

#[test]
fn case_folding_touches_ascii_only() {
    assert_eq!(string(&to_lower_chars(&chars("MiXeD 42!"))), "mixed 42!");
}

#[test]
fn substring_search_finds_first_occurrence() {
    assert_eq!(find_sub(&chars("abcabc"), &chars("bc")), Some(1));
    assert_eq!(find_sub(&chars("abc"), &chars("zz")), None);
    assert_eq!(find_sub(&chars("abc"), &chars("")), Some(0));
    assert!(contains_sub(&chars("hay needle stack"), &chars("needle")));
    assert!(!contains_sub(&chars("haystack"), &chars("needle")));
}

#[test]
fn paths_join_and_take_parents() {
    assert_eq!(join_str("/a/b", "c"), "/a/b/c");
    assert_eq!(join_str("/a/b/", "c"), "/a/b/c");
    assert_eq!(join_str("", "c"), "c");
    assert_eq!(join_str("C:\\dir\\", "f.log"), "C:\\dir\\f.log");
    assert_eq!(parent_or_dot_str("/a/b/c"), "/a/b");
    assert_eq!(parent_or_dot_str("C:\\x\\y.exe"), "C:\\x");
    assert_eq!(parent_or_dot_str("lonely"), ".");
}
