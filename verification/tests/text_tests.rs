use video_smart_downloader::text::{has_substring, last_token_of, split_lines, trim_spaces};

#[test]
fn substring_found_and_missed() {
    assert!(has_substring("HTTPEnable : 1", "Enable : 1"));
    assert!(has_substring("abc", "abc"));
    assert!(has_substring("abc", ""));
    assert!(!has_substring("HTTPEnable : 0", "Enable : 1"));
    assert!(!has_substring("ab", "abc"));
}

#[test]
fn lines_are_split_on_newlines() {
    assert_eq!(split_lines("a\nb\nc"), vec!["a", "b", "c"]);
    assert_eq!(split_lines(""), vec![""]);
    assert_eq!(split_lines("one line"), vec!["one line"]);
    assert_eq!(split_lines("trailing\n"), vec!["trailing", ""]);
}

#[test]
fn trim_removes_surrounding_whitespace() {
    assert_eq!(trim_spaces("  127.0.0.1\t"), "127.0.0.1");
    assert_eq!(trim_spaces("x"), "x");
    assert_eq!(trim_spaces(" \t\r\n"), "");
    assert_eq!(trim_spaces("a b"), "a b");
}

#[test]
fn last_token_takes_the_final_word() {
    assert_eq!(
        last_token_of("    ProxyServer    REG_SZ    127.0.0.1:7890").as_deref(),
        Some("127.0.0.1:7890")
    );
    assert_eq!(last_token_of("solo").as_deref(), Some("solo"));
    assert_eq!(last_token_of("ends with space ").as_deref(), Some("space"));
    assert!(last_token_of("   ").is_none());
    assert!(last_token_of("").is_none());
}
