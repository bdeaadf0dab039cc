use jinx::text::{contains_text, i64_to_string, replace_all, split_on_colon, split_two_fields, to_chars};

#[test]
fn split_at_first_colon() {
    assert_eq!(split_on_colon("a:b"), Some(("a".to_string(), "b".to_string())));
    assert_eq!(split_on_colon("a:b:ro"), Some(("a".to_string(), "b:ro".to_string())));
    assert_eq!(split_on_colon(":x"), Some((String::new(), "x".to_string())));
    assert_eq!(split_on_colon("none"), None);
}

#[test]
fn substring_search() {
    assert!(contains_text("node_modules", "mod"));
    assert!(contains_text("abc", ""));
    assert!(!contains_text("ab", "abc"));
    assert!(!contains_text("abc", "ac"));
}

#[test]
fn replace_slashes() {
    assert_eq!(replace_all("a/b/c", '/', '_'), "a_b_c");
    assert_eq!(replace_all("", '/', '_'), "");
}

#[test]
fn chars_of_unicode() {
    assert_eq!(to_chars("añb"), vec!['a', 'ñ', 'b']);
}

#[test]
fn first_two_fields() {
    assert_eq!(split_two_fields("/a:/b:ro"), Some(("/a".to_string(), "/b".to_string())));
    assert_eq!(split_two_fields("a:b"), Some(("a".to_string(), "b".to_string())));
    assert_eq!(split_two_fields("a::b"), Some(("a".to_string(), String::new())));
    assert_eq!(split_two_fields("ab"), None);
}

#[test]
fn decimal_text() {
    assert_eq!(i64_to_string(0), "0");
    assert_eq!(i64_to_string(8080), "8080");
    assert_eq!(i64_to_string(-42), "-42");
    assert_eq!(i64_to_string(i64::MIN), "-9223372036854775808");
    assert_eq!(i64_to_string(i64::MAX), "9223372036854775807");
}
