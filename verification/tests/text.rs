use bookmark_hub::ident::fresh_token;
use bookmark_hub::text::{
    after_last_dot, bytes_contain, bytes_eq, bytes_start_with, contains, joined, lowercase,
    starts_with, str_eq,
};

#[test]
fn str_eq_compares_characters() {
    assert!(str_eq("abc", "abc"));
    assert!(!str_eq("abc", "abd"));
    assert!(!str_eq("abc", "ab"));
    assert!(!str_eq("ab", "abc"));
    assert!(str_eq("", ""));
    assert!(str_eq("héllo", "héllo"));
    assert!(!str_eq("héllo", "hello"));
}

#[test]
fn bytes_eq_compares_bytes() {
    assert!(bytes_eq(&[1, 2, 3], &[1, 2, 3]));
    assert!(!bytes_eq(&[1, 2, 3], &[1, 2]));
    assert!(!bytes_eq(&[1, 2, 3], &[1, 2, 4]));
    assert!(bytes_eq(&[], &[]));
}

#[test]
fn bytes_start_with_a_prefix() {
    assert!(bytes_start_with(&[1, 2, 3], &[1, 2]));
    assert!(bytes_start_with(&[1, 2, 3], &[]));
    assert!(bytes_start_with(&[1, 2, 3], &[1, 2, 3]));
    assert!(!bytes_start_with(&[1, 2, 3], &[2]));
    assert!(!bytes_start_with(&[1, 2], &[1, 2, 3]));
}

#[test]
fn joined_puts_one_after_the_other() {
    assert_eq!(joined("ab", "cd"), "abcd");
    assert_eq!(joined("", "cd"), "cd");
    assert_eq!(joined("ab", ""), "ab");
}

#[test]
fn after_last_dot_takes_the_tail() {
    assert_eq!(after_last_dot("a.b.c"), "c");
    assert_eq!(after_last_dot("abc"), "abc");
    assert_eq!(after_last_dot("é.ü"), "ü");
}

#[test]
fn fresh_tokens_are_uuid_texts() {
    let a = fresh_token();
    let b = fresh_token();
    assert_eq!(a.len(), 36);
    assert_ne!(a, b);
    let dashes: Vec<usize> = a.char_indices().filter(|(_, c)| *c == '-').map(|(i, _)| i).collect();
    assert_eq!(dashes, vec![8, 13, 18, 23]);
    assert!(a.chars().all(|c| c == '-' || c.is_ascii_hexdigit()));
    assert_eq!(a.chars().nth(14), Some('4'));
}

#[test]
fn starts_with_compares_the_opening() {
    assert!(starts_with("https://x", "https://"));
    assert!(starts_with("abc", ""));
    assert!(starts_with("", ""));
    assert!(starts_with("abc", "abc"));
    assert!(!starts_with("abc", "abcd"));
    assert!(!starts_with("abc", "b"));
    assert!(!starts_with("Abc", "a"));
    assert!(starts_with("éa", "é"));
    assert!(!starts_with("éa", "e"));
}

#[test]
fn contains_finds_a_run() {
    assert!(contains("favicon", "icon"));
    assert!(contains("icon", "icon"));
    assert!(contains("abc", ""));
    assert!(contains("", ""));
    assert!(contains("a<svg", "<svg"));
    assert!(!contains("ico", "icon"));
    assert!(!contains("i-con", "icon"));
    assert!(!contains("", "a"));
    assert!(contains("añb", "ñ"));
    assert!(!contains("añb", "n"));
}

#[test]
fn bytes_contain_finds_a_run() {
    assert!(bytes_contain(&[1, 2, 3, 4], &[2, 3]));
    assert!(bytes_contain(&[1, 2, 3, 4], &[4]));
    assert!(bytes_contain(&[1, 2, 3, 4], &[1, 2, 3, 4]));
    assert!(bytes_contain(&[1, 2], &[]));
    assert!(bytes_contain(&[], &[]));
    assert!(!bytes_contain(&[1, 2, 3, 4], &[3, 2]));
    assert!(!bytes_contain(&[1, 2], &[1, 2, 3]));
    assert!(!bytes_contain(&[1, 1, 2], &[1, 2, 2]));
}

#[test]
fn lowercase_of_ascii_text() {
    assert_eq!(lowercase("Hello, WORLD! <SVG> 123"), "hello, world! <svg> 123");
    assert_eq!(lowercase(""), "");
    for code in 0u8..128 {
        let c = code as char;
        let expected = if c.is_ascii_uppercase() { (code + 32) as char } else { c };
        assert_eq!(lowercase(&c.to_string()), expected.to_string());
    }
    let all: String = (0u8..128).map(|code| code as char).collect();
    let lowered: String = (0u8..128)
        .map(|code| if (b'A'..=b'Z').contains(&code) { (code + 32) as char } else { code as char })
        .collect();
    assert_eq!(lowercase(&all), lowered);
}

#[test]
fn lowercase_of_other_text() {
    assert_eq!(lowercase("ÉCOLE"), "école");
    assert_eq!(lowercase("ΣΑΣ"), "σας");
}
