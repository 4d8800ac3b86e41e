use status_server::text::{chars_of, contains, join, same_text, starts_with};

#[test]
fn text_functions_agree_with_the_standard_library() {
    let texts = ["", "a", "b", "ab", "aab", "abab", "\u{e9}a", "\u{e9}", "a\u{1f600}b", "/fail", "/fail/x"];
    for a in texts {
        assert_eq!(chars_of(a), a.chars().collect::<Vec<char>>());
        for b in texts {
            assert_eq!(same_text(a, b), a == b);
            assert_eq!(starts_with(a, b), a.starts_with(b));
            assert_eq!(contains(a, b), a.contains(b));
        }
    }
}

#[test]
fn joining() {
    assert_eq!(join(&vec![], ";"), "");
    assert_eq!(join(&vec!["a".to_string()], ";"), "a");
    assert_eq!(join(&vec!["a".to_string(), "".to_string(), "b".to_string()], ", "), "a, , b");
}
