use auralink::text::{
    begins_with, chars_of, decimal_of, digit, find_in, includes, join_first, joined, matches_at,
    position, push_all, push_str, rest_after, slice, string_of, trimmed,
};

fn cs(s: &str) -> Vec<char> {
    s.chars().collect()
}

#[test]
fn chars_and_strings_convert_both_ways() {
    assert_eq!(chars_of("a\u{e9}\u{2026}z"), vec!['a', '\u{e9}', '\u{2026}', 'z']);
    assert_eq!(chars_of(""), Vec::<char>::new());
    assert_eq!(string_of(&vec!['h', 'i', '\u{2019}']), "hi\u{2019}");
    assert_eq!(string_of(&vec![]), "");
    assert_eq!(string_of(&chars_of("round trip")), "round trip");
}

#[test]
fn pushing_appends() {
    let mut v = cs("ab");
    push_str(&mut v, "cd");
    assert_eq!(v, cs("abcd"));
    push_all(&mut v, &cs("ef"));
    assert_eq!(v, cs("abcdef"));
    push_str(&mut v, "");
    assert_eq!(v, cs("abcdef"));
}

#[test]
fn slice_takes_a_range() {
    assert_eq!(slice(&cs("hello"), 1, 3), cs("el"));
    assert_eq!(slice(&cs("hello"), 0, 5), cs("hello"));
    assert_eq!(slice(&cs("hello"), 2, 2), cs(""));
}

#[test]
fn matches_at_compares_in_place() {
    assert!(matches_at(&cs("hello"), &cs("ell"), 1));
    assert!(!matches_at(&cs("hello"), &cs("ell"), 0));
    assert!(!matches_at(&cs("hello"), &cs("lo!"), 3));
    assert!(matches_at(&cs("hello"), &cs(""), 5));
    assert!(!matches_at(&cs("hello"), &cs(""), 6));
    assert!(!matches_at(&cs("hi"), &cs("hello"), 0));
}

#[test]
fn find_in_gives_the_first_position() {
    assert_eq!(find_in(&cs("abcabc"), &cs("bc")), Some(1));
    assert_eq!(find_in(&cs("abcabc"), &cs("abc")), Some(0));
    assert_eq!(find_in(&cs("abcabc"), &cs("c")), Some(2));
    assert_eq!(find_in(&cs("abcabc"), &cs("cb")), None);
    assert_eq!(find_in(&cs("abc"), &cs("")), Some(0));
    assert_eq!(find_in(&cs(""), &cs("")), Some(0));
    assert_eq!(find_in(&cs(""), &cs("a")), None);
    assert_eq!(find_in(&cs("aab"), &cs("ab")), Some(1));
    assert_eq!(find_in(&cs("xyz"), &cs("xyz")), Some(0));
    assert_eq!(position(&cs("a metadata: b"), "metadata:"), Some(2));
}

#[test]
fn includes_and_begins_with() {
    assert!(includes(&cs("make a ppt"), "ppt"));
    assert!(!includes(&cs("make a pp"), "ppt"));
    assert!(includes(&cs("x"), ""));
    assert!(begins_with(&cs("objects: x"), "objects:"));
    assert!(!begins_with(&cs(" objects: x"), "objects:"));
    assert!(!begins_with(&cs("obj"), "objects:"));
}

#[test]
fn trimmed_removes_white_space_at_both_ends() {
    assert_eq!(trimmed(&cs("  a b \t\n")), cs("a b"));
    assert_eq!(trimmed(&cs("a")), cs("a"));
    assert_eq!(trimmed(&cs("   ")), cs(""));
    assert_eq!(trimmed(&cs("")), cs(""));
    assert_eq!(trimmed(&cs("\u{a0}x\u{3000}")), cs("x"));
}

#[test]
fn rest_after_cuts_behind_the_first_occurrence() {
    assert_eq!(rest_after(&cs("a:b:c"), ':'), cs("b:c"));
    assert_eq!(rest_after(&cs("abc"), ':'), cs(""));
    assert_eq!(rest_after(&cs(":"), ':'), cs(""));
    assert_eq!(rest_after(&cs(""), ':'), cs(""));
}

#[test]
fn joined_puts_line_feeds_between() {
    assert_eq!(joined(&vec![]), cs(""));
    assert_eq!(joined(&vec![cs("a")]), cs("a"));
    assert_eq!(joined(&vec![cs("a"), cs(""), cs("c")]), cs("a\n\nc"));
}

#[test]
fn join_first_joins_a_prefix() {
    let items = vec!["a".to_string(), "b".to_string(), "c".to_string()];
    assert_eq!(join_first(&items, 0, ", "), cs(""));
    assert_eq!(join_first(&items, 1, ", "), cs("a"));
    assert_eq!(join_first(&items, 2, ", "), cs("a, b"));
    assert_eq!(join_first(&items, 3, "-"), cs("a-b-c"));
}

#[test]
fn decimal_of_writes_numbers() {
    assert_eq!(decimal_of(0), cs("0"));
    assert_eq!(decimal_of(7), cs("7"));
    assert_eq!(decimal_of(10), cs("10"));
    assert_eq!(decimal_of(1234567890), cs("1234567890"));
    assert_eq!(decimal_of(usize::MAX), cs(&usize::MAX.to_string()));
    assert_eq!(digit(0), '0');
    assert_eq!(digit(9), '9');
}
