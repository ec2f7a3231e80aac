use syms::text::{chars_of, contains_chars, push_decimal, starts_with, str_eq, string_from_chars, strip_both, trailing_run, CharClass};

#[test]
fn decimal_numbers() {
    let mut s = String::new();
    push_decimal(&mut s, 0);
    s.push(' ');
    push_decimal(&mut s, 7);
    s.push(' ');
    push_decimal(&mut s, 1203);
    s.push(' ');
    push_decimal(&mut s, usize::MAX);
    assert_eq!(s, format!("0 7 1203 {}", usize::MAX));
}

#[test]
fn characters_and_trimming() {
    assert_eq!(chars_of("héllo"), vec!['h', 'é', 'l', 'l', 'o']);
    assert_eq!(string_from_chars(&['a', 'ß']), "aß");
    assert!(str_eq("abc", "abc"));
    assert!(!str_eq("abc", "abd"));
    assert!(starts_with(&chars_of("useAuth"), "use"));
    assert!(!starts_with(&chars_of("us"), "use"));
    assert!(contains_chars(&chars_of("#[tokio::test]"), &chars_of("test")));
    assert!(!contains_chars(&chars_of("#[inline]"), &chars_of("test")));
    assert!(contains_chars(&chars_of("x"), &[]));
    assert_eq!(strip_both(&chars_of("\u{3000} a b \n"), CharClass::Space), chars_of("a b"));
    assert_eq!(strip_both(&chars_of("((x))"), CharClass::Paren), chars_of("x"));
    assert_eq!(trailing_run(&chars_of("A.b.c"), CharClass::NonDot), chars_of("c"));
    assert_eq!(trailing_run(&chars_of("abc"), CharClass::NonDot), chars_of("abc"));
}
