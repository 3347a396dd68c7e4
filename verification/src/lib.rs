//! A rule-based conformance scorer for free-text session transcripts.
//!
//! The library compiles a set of weighted, pattern-based operating rules,
//! evaluates a transcript against them, and produces a normalized score with
//! per-rule evidence and a textual summary.  A TTL-bounded score cache and a
//! bounded exponential-backoff retry executor support repeated and batched
//! scoring.

pub mod analytics;
mod clock;
pub mod pattern;
pub mod performance;
pub mod retry;
pub mod rules;
pub mod scorer;
pub mod security;
pub mod strutil;

pub use analytics::ScoreDistribution;
pub use analytics::score_distribution;
pub use performance::ScoreCache;
pub use performance::score_sessions_batch;
pub use retry::OutcomeClass;
pub use retry::RetryConfig;
pub use retry::RetryError;
pub use retry::RetryOperation;
pub use retry::ScoringOperation;
pub use retry::ScriptedOperation;
pub use retry::classify_error;
pub use retry::next_delay;
pub use retry::retry_with_backoff;
pub use retry::score_session_with_retry;
pub use scorer::BehaviorScorer;
pub use scorer::RuleCheck;
pub use scorer::SessionScore;
pub use scorer::generate_summary;
pub use scorer::should_score_file;
pub use rules::RuleCategory;
pub use rules::RuleDefinition;
pub use rules::TrackerConfig;
pub use rules::default_config;
pub use security::sanitize_path;
pub use security::validate_session_id;
pub use security::validate_transcript;
pub use strutil::contains_substr;
pub use strutil::u64_to_string;
