use behavior_scorer::BehaviorScorer;
use behavior_scorer::OutcomeClass;
use behavior_scorer::RetryConfig;
use behavior_scorer::RetryError;
use behavior_scorer::ScriptedOperation;
use behavior_scorer::classify_error;
use behavior_scorer::next_delay;
use behavior_scorer::retry_with_backoff;
use behavior_scorer::score_session_with_retry;

fn fast_config() -> RetryConfig {
    RetryConfig {
        max_attempts: 3,
        base_delay_ms: 10,
        max_delay_ms: 100,
        backoff_multiplier_hundredths: 200,
    }
}

#[test]
fn test_retry_with_backoff() {
    let config = fast_config();

    let mut op: ScriptedOperation<i32> = ScriptedOperation::new(vec![Ok(42)]);
    let result = retry_with_backoff(&config, &mut op);
    assert_eq!(result.unwrap(), 42);
    assert!(op.script.is_empty());
}

#[test]
fn test_retry_succeeds_after_transient() {
    let config = fast_config();
    let mut op: ScriptedOperation<i32> = ScriptedOperation::new(vec![
        Err(RetryError::Transient("database busy".to_string())),
        Ok(7),
    ]);
    let result = retry_with_backoff(&config, &mut op);
    assert_eq!(result.unwrap(), 7);
    assert!(op.script.is_empty());
}

#[test]
fn test_retry_exhausts_on_transient_failures() {
    let config = fast_config();
    let mut op: ScriptedOperation<i32> = ScriptedOperation::new(vec![
        Err(RetryError::Transient("one".to_string())),
        Err(RetryError::Transient("two".to_string())),
        Err(RetryError::Transient("three".to_string())),
        Ok(99),
    ]);
    let result = retry_with_backoff(&config, &mut op);
    match result {
        Err(RetryError::MaxRetriesExceeded(m)) => assert_eq!(m, "Transient error: three"),
        other => panic!("expected MaxRetriesExceeded, got {:?}", other),
    }
    // exactly max_attempts outcomes were consumed; the fourth never ran
    assert_eq!(op.script.len(), 1);
}

#[test]
fn test_retry_stops_on_permanent_failure() {
    let config = fast_config();
    let mut op: ScriptedOperation<i32> = ScriptedOperation::new(vec![
        Err(RetryError::Permanent("boom".to_string())),
        Ok(1),
    ]);
    let result = retry_with_backoff(&config, &mut op);
    match result {
        Err(RetryError::Permanent(m)) => assert_eq!(m, "boom"),
        other => panic!("expected Permanent, got {:?}", other),
    }
    // exactly one invocation happened
    assert_eq!(op.script.len(), 1);
}

#[test]
fn test_classify_error() {
    assert_eq!(classify_error("database connection lost"), OutcomeClass::Transient);
    assert_eq!(classify_error("operation timeout after 3s"), OutcomeClass::Transient);
    assert_eq!(classify_error("Invalid session ID"), OutcomeClass::Permanent);
    assert_eq!(classify_error(""), OutcomeClass::Permanent);
}

#[test]
fn test_next_delay_growth_and_cap() {
    let config = RetryConfig {
        max_attempts: 3,
        base_delay_ms: 1000,
        max_delay_ms: 30000,
        backoff_multiplier_hundredths: 200,
    };
    assert_eq!(next_delay(1000, &config), 2000);
    assert_eq!(next_delay(2000, &config), 4000);
    assert_eq!(next_delay(20000, &config), 30000);

    let fractional = RetryConfig {
        max_attempts: 3,
        base_delay_ms: 1000,
        max_delay_ms: 30000,
        backoff_multiplier_hundredths: 150,
    };
    assert_eq!(next_delay(1000, &fractional), 1500);
}

#[test]
fn test_retry_error_messages() {
    assert_eq!(
        RetryError::MaxRetriesExceeded("x".to_string()).message(),
        "Max retry attempts exceeded: x"
    );
    assert_eq!(RetryError::Transient("y".to_string()).message(), "Transient error: y");
    assert_eq!(RetryError::Permanent("z".to_string()).message(), "Permanent error: z");
}

#[test]
fn test_score_session_with_retry_success() {
    let scorer = BehaviorScorer::new();
    let r = score_session_with_retry(&scorer, "retry-ok", "Confidence level: Confident");
    let score = r.unwrap();
    assert_eq!(score.session_id, "retry-ok");
    assert!(score.passed_rules > 0);
}

#[test]
fn test_score_session_with_retry_invalid_input() {
    let scorer = BehaviorScorer::new();
    let r = score_session_with_retry(&scorer, "../etc/passwd", "content");
    match r {
        Err(RetryError::Permanent(m)) => assert_eq!(m, "Invalid session ID"),
        other => panic!("expected a permanent failure, got {:?}", other),
    }
}
