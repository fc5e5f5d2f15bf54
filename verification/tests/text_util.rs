use procdash::text::{
    chars_of, chars_to_string, contains_chars, ends_with_chars, eq_chars, lower_vec,
    remove_all_chars, split_lines_chars, starts_with_chars, str_lex_le, trim_chars,
};

#[test]
fn string_building_round_trip() {
    let v = vec!['h', 'e', 'l', 'l', 'o'];
    assert_eq!(chars_to_string(&v), "hello".to_string());
    assert_eq!(chars_of("hello"), v);
    assert_eq!(chars_to_string(&chars_of("")), String::new());
}

#[test]
fn case_folding() {
    assert_eq!(chars_to_string(&lower_vec(&chars_of("MiXeD-42"))), "mixed-42".to_string());
}

#[test]
fn substring_search() {
    assert!(contains_chars(&chars_of("kworker/0:1"), &chars_of("work")));
    assert!(!contains_chars(&chars_of("short"), &chars_of("longer-needle")));
    assert!(contains_chars(&chars_of("abc"), &chars_of("")));
    assert!(starts_with_chars(&chars_of("Server: x"), &chars_of("Server:")));
    assert!(!starts_with_chars(&chars_of("xServer:"), &chars_of("Server:")));
    assert!(ends_with_chars(&chars_of("mysqld"), &chars_of("d")));
    assert!(eq_chars(&chars_of("init"), &chars_of("init")));
    assert!(!eq_chars(&chars_of("init"), &chars_of("init2")));
}

#[test]
fn trimming() {
    assert_eq!(chars_to_string(&trim_chars(&chars_of("  a b\t\r\n"))), "a b".to_string());
    assert_eq!(chars_to_string(&trim_chars(&chars_of("   "))), String::new());
    assert_eq!(chars_to_string(&trim_chars(&chars_of("none"))), "none".to_string());
}

#[test]
fn token_removal() {
    let out = remove_all_chars(&chars_of("Server: Server:x"), &chars_of("Server:"));
    assert_eq!(chars_to_string(&out), " x".to_string());
    let none = remove_all_chars(&chars_of("abc"), &chars_of("zz"));
    assert_eq!(chars_to_string(&none), "abc".to_string());
}

#[test]
fn line_splitting() {
    let lines = split_lines_chars(&chars_of("a\nbc\n\nd"));
    let texts: Vec<String> = lines.iter().map(chars_to_string).collect();
    assert_eq!(texts, vec!["a".to_string(), "bc".to_string(), String::new(), "d".to_string()]);
    let single = split_lines_chars(&chars_of("plain"));
    assert_eq!(single.len(), 1);
}

#[test]
fn lexicographic_order() {
    assert!(str_lex_le("alpha", "beta"));
    assert!(!str_lex_le("beta", "alpha"));
    assert!(str_lex_le("abc", "abc"));
    assert!(str_lex_le("ab", "abc"));
    assert!(!str_lex_le("abc", "ab"));
    assert!(str_lex_le("", "a"));
    assert!(str_lex_le("Zoo", "apple"));
}
