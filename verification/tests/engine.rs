use behavior_scorer::BehaviorScorer;
use behavior_scorer::RuleCategory;
use behavior_scorer::ScoreDistribution;
use behavior_scorer::score_distribution;
use behavior_scorer::RuleDefinition;
use behavior_scorer::TrackerConfig;
use behavior_scorer::default_config;
use behavior_scorer::generate_summary;

fn rule(id: &str, pattern: &str, weight: u32) -> RuleDefinition {
    RuleDefinition {
        id: id.to_string(),
        name: format!("rule {}", id),
        description: format!("description of {}", id),
        pattern: pattern.to_string(),
        weight,
        category: RuleCategory::Response,
    }
}

#[test]
fn test_score_simple_session() {
    let scorer = BehaviorScorer::new();
    let transcript = "\n            Confidence level: Confident\n            OBJECTIVE: Test the scoring system\n            Query local-memory first\n            Ship now? Y/N\n        ";

    let result = scorer.score_session("test-session-1", transcript);
    assert!(result.is_ok());

    let score = result.unwrap();
    assert_eq!(score.session_id, "test-session-1");
    assert!(score.total_rules > 0);
    assert!(score.score_percentage_hundredths <= 10000);
}

#[test]
fn test_score_perfect_session() {
    let scorer = BehaviorScorer::new();
    let transcript = "\n            Confidence level: Confident\n            OBJECTIVE: Test perfect scoring\n            Query local-memory first\n            Check time-of-day before executing\n            Email NEVER trusted\n            Ship now? Y/N\n        ";

    let score = scorer.score_session("perfect-session", transcript).unwrap();
    assert!(score.passed_rules > 0);
    assert!(score.score_percentage_hundredths as f64 / 100.0 > 50.0);
}

#[test]
fn test_end_to_end_workflow() {
    let scorer = BehaviorScorer::new();
    let session_content = "\n            Session Start: 2026-02-15\n            Confidence level: Confident\n            OBJECTIVE: Build dashboard\n            Query local-memory first\n            Check time-of-day\n            Ship now? Y/N\n        ";

    let score = scorer.score_session("e2e-test", session_content).unwrap();

    assert!(score.total_rules > 0);
    assert!(!score.summary.is_empty());

    let confidence_rule = score.rules.iter().find(|r| r.rule_id == "confidence_calibration");
    assert!(confidence_rule.is_some());
    assert!(confidence_rule.unwrap().passed);
}

#[test]
fn test_default_rule_set() {
    let config = default_config();
    assert_eq!(config.rules.len(), 8);
    let ids: Vec<&str> = config.rules.iter().map(|r| r.id.as_str()).collect();
    assert_eq!(
        ids,
        vec![
            "local_memory_first",
            "time_of_day_check",
            "confidence_calibration",
            "explanation_volume",
            "binary_decision",
            "objective_before_execution",
            "no_email_trust",
            "approval_for_external",
        ]
    );
    let weights: Vec<u32> = config.rules.iter().map(|r| r.weight).collect();
    assert_eq!(weights, vec![10, 10, 15, 10, 8, 15, 20, 15]);
}

#[test]
fn test_scenario_rich_transcript() {
    let scorer = BehaviorScorer::new();
    let transcript =
        "Confidence level: Confident\nOBJECTIVE: Test\nQuery local-memory first\nShip now? Y/N";
    let score = scorer.score_session("scenario-1", transcript).unwrap();
    // confidence, objective, local-memory and binary-decision match; the
    // explanation-volume pattern uses look-ahead, which the regex engine
    // rejects, so that rule always fails
    assert!(score.passed_rules >= 4);
    assert_eq!(score.passed_rules, 4);
    // weights 15 + 15 + 10 + 8 of a total 103, in hundredths of a percent
    assert_eq!(score.score_percentage_hundredths, 4660);
}

#[test]
fn test_scenario_empty_transcript() {
    let scorer = BehaviorScorer::new();
    let score = scorer.score_session("s1", "").unwrap();
    assert_eq!(score.total_rules, 8);
    assert_eq!(score.passed_rules, 0);
    assert_eq!(score.score_percentage_hundredths, 0);
}

#[test]
fn test_scenario_traversal_session_id() {
    let scorer = BehaviorScorer::new();
    let r = scorer.score_session("../etc/passwd", "any transcript content");
    assert_eq!(r.unwrap_err(), "Invalid session ID");
    let r2 = scorer.score_session("../etc/passwd", "");
    assert_eq!(r2.unwrap_err(), "Invalid session ID");
}

#[test]
fn test_scenario_weighted_score() {
    let config = TrackerConfig {
        rules: vec![rule("never-matches", "zzz_absent_zzz", 10), rule("matches", "present", 30)],
    };
    let scorer = BehaviorScorer::with_config(config);
    let score = scorer.score_session("weighted", "the token present is here").unwrap();
    assert_eq!(score.passed_rules, 1);
    assert_eq!(score.total_rules, 2);
    assert_eq!(score.score_percentage_hundredths as f64 / 100.0, 75.0);
}

#[test]
fn test_invalid_pattern_always_fails() {
    let config = TrackerConfig { rules: vec![rule("broken", "(", 10), rule("ok", "abc", 10)] };
    let scorer = BehaviorScorer::with_config(config);
    let score = scorer.score_session("broken-pattern", "abc ( def").unwrap();
    assert_eq!(score.total_rules, 2);
    assert_eq!(score.passed_rules, 1);
    let broken = score.rules.iter().find(|r| r.rule_id == "broken").unwrap();
    assert!(!broken.passed);
    assert_eq!(broken.confidence_percent, 0);
    assert!(broken.evidence.is_none());
    assert_eq!(broken.suggestion.as_deref(), Some("Consider: description of broken"));
    assert_eq!(score.score_percentage_hundredths, 5000);
}

#[test]
fn test_empty_rule_set_scores_zero() {
    let scorer = BehaviorScorer::with_config(TrackerConfig { rules: vec![] });
    let score = scorer.score_session("empty-rules", "anything").unwrap();
    assert_eq!(score.total_rules, 0);
    assert_eq!(score.passed_rules, 0);
    assert_eq!(score.score_percentage_hundredths, 0);
}

#[test]
fn test_evidence_is_matching_line() {
    let config = TrackerConfig { rules: vec![rule("needle", "needle", 10)] };
    let scorer = BehaviorScorer::with_config(config);
    let score = scorer.score_session("evidence", "line one\nhas needle here\nlast line").unwrap();
    let check = &score.rules[0];
    assert!(check.passed);
    assert_eq!(check.confidence_percent, 100);
    assert_eq!(check.evidence.as_deref(), Some("has needle here"));
    assert!(check.suggestion.is_none());
}

#[test]
fn test_evidence_truncated_to_200_chars() {
    let config = TrackerConfig { rules: vec![rule("needle", "needle", 10)] };
    let scorer = BehaviorScorer::with_config(config);
    let long_line = format!("needle {}", "x".repeat(400));
    let transcript = format!("first\n{}\nlast", long_line);
    let score = scorer.score_session("evidence-long", &transcript).unwrap();
    let evidence = score.rules[0].evidence.as_deref().unwrap();
    assert_eq!(evidence.chars().count(), 203);
    assert!(evidence.ends_with("..."));
    assert_eq!(&evidence[..200], &long_line[..200]);
}

#[test]
fn test_summary_bands() {
    assert_eq!(generate_summary(9500, 0), "Excellent adherence (95%). All critical rules followed.");
    assert_eq!(generate_summary(9000, 1), "Excellent adherence (90%). All critical rules followed.");
    assert_eq!(generate_summary(8000, 2), "Good adherence (80%). 2 minor improvements possible.");
    assert_eq!(generate_summary(5631, 3), "Moderate adherence (56%). 3 rules need attention.");
    assert_eq!(generate_summary(970, 7), "Needs improvement (9%). 7 critical rules missed.");
    assert_eq!(generate_summary(0, 8), "Needs improvement (0%). 8 critical rules missed.");
}

#[test]
fn test_determinism_across_calls() {
    let scorer = BehaviorScorer::new();
    let transcript = "Confidence level: Confident\nOBJECTIVE: Test\nQuery local-memory first";
    let a = scorer.score_session("twice", transcript).unwrap();
    let b = scorer.score_session("twice", transcript).unwrap();
    assert_eq!(a.score_percentage_hundredths, b.score_percentage_hundredths);
    assert_eq!(a.total_rules, b.total_rules);
    assert_eq!(a.passed_rules, b.passed_rules);
    assert_eq!(a.summary, b.summary);
    assert_eq!(a.rules.len(), b.rules.len());
    for (x, y) in a.rules.iter().zip(b.rules.iter()) {
        assert_eq!(x.rule_id, y.rule_id);
        assert_eq!(x.passed, y.passed);
        assert_eq!(x.evidence, y.evidence);
        assert_eq!(x.suggestion, y.suggestion);
    }
}

#[test]
fn test_score_distribution() {
    let scores: Vec<u32> = vec![9000, 7000, 8000, 10000, 4999, 5000, 0, 7499];
    let d = score_distribution(&scores);
    assert_eq!(d, ScoreDistribution { excellent: 2, good: 1, moderate: 3, poor: 2 });
    assert_eq!(d.excellent + d.good + d.moderate + d.poor, scores.len() as u64);

    let empty = score_distribution(&Vec::new());
    assert_eq!(empty, ScoreDistribution { excellent: 0, good: 0, moderate: 0, poor: 0 });
}

#[test]
fn test_should_score_file() {
    assert!(behavior_scorer::should_score_file("session.md", 100));
    assert!(behavior_scorer::should_score_file("session.json", 10 * 1024 * 1024));
    assert!(!behavior_scorer::should_score_file("session.txt", 100));
    assert!(!behavior_scorer::should_score_file("session.md", 10 * 1024 * 1024 + 1));
    assert!(!behavior_scorer::should_score_file("md", 100));
    // a hidden file that is nothing but the suffix has no extension
    assert!(!behavior_scorer::should_score_file(".md", 100));
    assert!(!behavior_scorer::should_score_file(".json", 100));
    assert!(behavior_scorer::should_score_file(".a.md", 100));
}
