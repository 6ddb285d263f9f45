use common_models::text::{append_slashes_to_dashes, contains, same_text, starts_with, u16_to_decimal};

#[test]
fn decimal_rendering_matches_display() {
    for n in [0u16, 1, 7, 10, 99, 100, 1883, 8883, 65535] {
        assert_eq!(u16_to_decimal(n), n.to_string());
    }
}

#[test]
fn prefix_and_substring_tests() {
    assert!(starts_with("ssl://x", "ssl://"));
    assert!(!starts_with("ssl:/", "ssl://"));
    assert!(starts_with("anything", ""));
    assert!(contains("a://b", "://"));
    assert!(!contains("a:/b", "://"));
    assert!(contains("", ""));
    assert!(!contains("", "a"));
    assert!(contains("ab", "ab"));
}

#[test]
fn equality_of_texts() {
    assert!(same_text("žluť", "žluť"));
    assert!(!same_text("abc", "abd"));
    assert!(!same_text("abc", "ab"));
}

#[test]
fn slashes_become_dashes() {
    let mut s = String::from(">");
    append_slashes_to_dashes(&mut s, "/a/b//č/");
    assert_eq!(s, ">-a-b--č-");
}
