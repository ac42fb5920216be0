use zzz::text::{decimal_string, lines_of, split_whitespace, trim_str, join_strs};

#[test]
fn decimal_string_writes_digits() {
    assert_eq!(decimal_string(0), "0");
    assert_eq!(decimal_string(907), "907");
}

#[test]
fn lines_follow_str_lines() {
    let ls = lines_of("a\r\nb\n\nc\n");
    assert_eq!(ls, vec!["a".to_string(), "b".to_string(), "".to_string(), "c".to_string()]);
}

#[test]
fn words_split_on_white_space() {
    assert_eq!(split_whitespace("  cd   src \t"), vec!["cd".to_string(), "src".to_string()]);
    assert!(split_whitespace("   ").is_empty());
}

#[test]
fn trim_and_join() {
    assert_eq!(trim_str("  x y \n"), "x y");
    let parts = vec!["a".to_string(), "b".to_string()];
    assert_eq!(join_strs(&parts, "\n\n"), "a\n\nb");
}
