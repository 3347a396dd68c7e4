use behavior_scorer::contains_substr;
use behavior_scorer::u64_to_string;

#[test]
fn test_contains_substr() {
    assert!(contains_substr("hello world", "world"));
    assert!(contains_substr("hello world", "hello"));
    assert!(contains_substr("hello world", "o w"));
    assert!(contains_substr("hello world", ""));
    assert!(!contains_substr("hello world", "worlds"));
    assert!(!contains_substr("", "a"));
    assert!(contains_substr("aaab", "aab"));
}

#[test]
fn test_u64_to_string() {
    assert_eq!(u64_to_string(0), "0");
    assert_eq!(u64_to_string(7), "7");
    assert_eq!(u64_to_string(10), "10");
    assert_eq!(u64_to_string(12345), "12345");
    assert_eq!(u64_to_string(u64::MAX), "18446744073709551615");
}
