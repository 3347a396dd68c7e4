use behavior_scorer::BehaviorScorer;
use behavior_scorer::ScoreCache;
use behavior_scorer::score_sessions_batch;

#[test]
fn test_score_cache() {
    let mut cache = ScoreCache::new(60);
    let scorer = BehaviorScorer::new();

    let transcript = "Confidence level: Confident";
    let score = scorer.score_session("cached-session", transcript).unwrap();

    let now = 1_000_000;
    cache.set("cached-session", score.clone(), now);

    let cached = cache.get("cached-session", now);
    assert!(cached.is_some());
    assert_eq!(cached.unwrap().session_id, score.session_id);
}

#[test]
fn test_cache_round_trip_preserves_score() {
    let mut cache = ScoreCache::new(60);
    let scorer = BehaviorScorer::new();
    let score = scorer.score_session("round-trip", "OBJECTIVE: test").unwrap();

    cache.set("round-trip", score.clone(), 500);
    let back = cache.get("round-trip", 500).unwrap();
    assert_eq!(back.session_id, score.session_id);
    assert_eq!(back.total_rules, score.total_rules);
    assert_eq!(back.passed_rules, score.passed_rules);
    assert_eq!(back.score_percentage_hundredths, score.score_percentage_hundredths);
    assert_eq!(back.summary, score.summary);
    assert_eq!(back.timestamp_millis, score.timestamp_millis);
    assert_eq!(back.rules.len(), score.rules.len());
    for (x, y) in back.rules.iter().zip(score.rules.iter()) {
        assert_eq!(x.rule_id, y.rule_id);
        assert_eq!(x.passed, y.passed);
        assert_eq!(x.evidence, y.evidence);
    }
}

#[test]
fn test_cache_ttl_expiry() {
    let mut cache = ScoreCache::new(60);
    let scorer = BehaviorScorer::new();
    let score = scorer.score_session("expiring", "text").unwrap();

    let stored_at = 10_000;
    cache.set("expiring", score, stored_at);

    assert!(cache.get("expiring", stored_at).is_some());
    assert!(cache.get("expiring", stored_at + 59_999).is_some());
    assert!(cache.get("expiring", stored_at + 60_000).is_none());
    assert!(cache.get("expiring", stored_at + 120_000).is_none());
}

#[test]
fn test_cache_overwrite_takes_last_score() {
    let mut cache = ScoreCache::new(60);
    let scorer = BehaviorScorer::new();
    let a = scorer.score_session("same-key", "nothing matches here").unwrap();
    let b = scorer.score_session("same-key", "Confidence level: Confident").unwrap();
    assert_ne!(a.passed_rules, b.passed_rules);

    cache.set("same-key", a, 1000);
    cache.set("same-key", b.clone(), 2000);
    let got = cache.get("same-key", 2000).unwrap();
    assert_eq!(got.passed_rules, b.passed_rules);
}

#[test]
fn test_cache_cleanup_removes_expired() {
    let mut cache = ScoreCache::new(60);
    let scorer = BehaviorScorer::new();
    let s1 = scorer.score_session("old-entry", "x").unwrap();
    let s2 = scorer.score_session("fresh-entry", "x").unwrap();

    cache.set("old-entry", s1, 0);
    cache.set("fresh-entry", s2, 50_000);
    cache.cleanup(70_000);

    assert!(cache.get("old-entry", 70_000).is_none());
    assert!(cache.get("fresh-entry", 70_000).is_some());
}

#[test]
fn test_batch_scores_each_input_once() {
    let scorer = BehaviorScorer::new();
    let mut cache = ScoreCache::new(60);
    let sessions = vec![
        ("batch-a".to_string(), "Confidence level: Confident".to_string()),
        ("bad/id".to_string(), "whatever".to_string()),
        ("batch-b".to_string(), "OBJECTIVE: work".to_string()),
    ];
    let results = score_sessions_batch(&scorer, sessions, &mut cache, 1000);
    assert_eq!(results.len(), 3);
    assert!(results[0].is_ok());
    assert_eq!(results[1].as_ref().unwrap_err(), "Invalid session ID");
    assert!(results[2].is_ok());

    // successful results were stored in the cache; the failure was not
    assert!(cache.get("batch-a", 1000).is_some());
    assert!(cache.get("batch-b", 1000).is_some());
}

#[test]
fn test_batch_uses_cache_hit() {
    let scorer = BehaviorScorer::new();
    let mut cache = ScoreCache::new(60);
    let precomputed = scorer.score_session("warm", "Confidence level: Confident").unwrap();
    cache.set("warm", precomputed.clone(), 1000);

    // the cached entry wins even though the new transcript would score
    // differently
    let sessions = vec![("warm".to_string(), "nothing matches".to_string())];
    let results = score_sessions_batch(&scorer, sessions, &mut cache, 1000);
    assert_eq!(results.len(), 1);
    let got = results[0].as_ref().unwrap();
    assert_eq!(got.passed_rules, precomputed.passed_rules);
}
