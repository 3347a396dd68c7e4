use behavior_scorer::sanitize_path;
use behavior_scorer::validate_session_id;
use behavior_scorer::validate_transcript;

#[test]
fn test_security_path_traversal() {
    let base = "/safe/path";

    assert!(sanitize_path(base, "../etc/passwd").is_none());
    assert!(sanitize_path(base, "~/.ssh/id_rsa").is_none());
    assert!(sanitize_path(base, "/etc/passwd").is_none());

    assert!(sanitize_path(base, "sessions/2026-02-15.md").is_some());
}

#[test]
fn test_security_session_id_validation() {
    assert!(validate_session_id("valid-session-123"));
    assert!(validate_session_id("test_2026_02_15"));

    assert!(!validate_session_id("../etc/passwd"));
    assert!(!validate_session_id(""));
    assert!(!validate_session_id("a".repeat(300).as_str()));
}

#[test]
fn test_session_id_boundaries() {
    assert!(validate_session_id("a".repeat(256).as_str()));
    assert!(!validate_session_id("a".repeat(257).as_str()));
    assert!(!validate_session_id("has space"));
    assert!(!validate_session_id("slash/inside"));
    assert!(!validate_session_id("null\0byte"));
}

#[test]
fn test_session_id_accepts_unicode_alphanumerics() {
    assert!(validate_session_id("sessi\u{f3}n-1"));
    assert!(validate_session_id("\u{65e5}\u{672c}\u{8a9e}_42"));
    // 256 two-byte letters: 256 characters, within the character bound
    assert!(validate_session_id("\u{e9}".repeat(256).as_str()));
    assert!(!validate_session_id("\u{e9}".repeat(257).as_str()));
    // punctuation outside the set is still rejected
    assert!(!validate_session_id("caf\u{e9}!"));
}

#[test]
fn test_sanitize_path_joins_and_trims() {
    assert_eq!(
        sanitize_path("/base", "  sessions/a.md  ").as_deref(),
        Some("/base/sessions/a.md")
    );
    assert_eq!(sanitize_path("/base", "plain").as_deref(), Some("/base/plain"));
    assert!(sanitize_path("/base", "a/../b").is_none());
    assert!(sanitize_path("/base", "  /abs  ").is_none());
}

#[test]
fn test_transcript_validation() {
    assert_eq!(validate_transcript("fine content"), Ok("fine content"));
    assert_eq!(validate_transcript(""), Ok(""));

    let oversized = "a".repeat(10 * 1024 * 1024 + 1);
    assert_eq!(validate_transcript(&oversized), Err("Transcript exceeds maximum size of 10MB"));

    let exactly_max = "a".repeat(10 * 1024 * 1024);
    assert!(validate_transcript(&exactly_max).is_ok());

    assert_eq!(validate_transcript("bad\0byte"), Err("Transcript contains invalid characters"));
}

#[test]
fn test_oversized_transcript_rejected_by_scorer() {
    let scorer = behavior_scorer::BehaviorScorer::new();
    let oversized = "a".repeat(10 * 1024 * 1024 + 1);
    let r = scorer.score_session("ok-id", &oversized);
    assert_eq!(r.unwrap_err(), "Transcript exceeds maximum size of 10MB");
}
