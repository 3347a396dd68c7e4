//! The retry executor: bounded exponential-backoff retry around a fallible
//! operation, with transient failures retried and permanent ones surfaced
//! immediately.

use vstd::prelude::*;
use vstd::string::StringExecFns;
use vstd::string::StringSliceAdditionalSpecFns;
use crate::scorer::BehaviorScorer;
use crate::scorer::SessionScore;
use crate::scorer::eval_model;
use crate::scorer::score_error_seq;
use crate::scorer::score_model;
use crate::security::valid_session_id_chars;
use crate::security::valid_transcript_bytes;
use crate::strutil::contains_seq;
use crate::strutil::contains_substr;
use crate::strutil::lemma_concat_cancel_left;

verus! {

/// Error values the retry executor works with.
#[derive(Debug)]
pub enum RetryError {
    /// The retry budget was exhausted; carries the message of the last
    /// transient failure.
    MaxRetriesExceeded(String),
    /// A failure eligible for retry.
    Transient(String),
    /// A failure not eligible for retry.
    Permanent(String),
}

/// The rendered text of a retry error.
pub open spec fn retry_error_message_seq(e: RetryError) -> Seq<char> {
    match e {
        RetryError::MaxRetriesExceeded(m) => "Max retry attempts exceeded: "@ + m@,
        RetryError::Transient(m) => "Transient error: "@ + m@,
        RetryError::Permanent(m) => "Permanent error: "@ + m@,
    }
}

impl RetryError {
    /// The error rendered as text, naming its kind and its message.
    pub fn message(&self) -> (r: String)
        ensures
            r@ == retry_error_message_seq(*self),
    {
        match self {
            RetryError::MaxRetriesExceeded(m) => {
                let mut s = String::from_str("Max retry attempts exceeded: ");
                s.append(m.as_str());
                s
            },
            RetryError::Transient(m) => {
                let mut s = String::from_str("Transient error: ");
                s.append(m.as_str());
                s
            },
            RetryError::Permanent(m) => {
                let mut s = String::from_str("Permanent error: ");
                s.append(m.as_str());
                s
            },
        }
    }
}

/// How one outcome of an operation is classified by the executor.
#[derive(Clone, Copy, Debug, PartialEq, Eq, Structural)]
pub enum OutcomeClass {
    Success,
    Transient,
    Permanent,
}

/// The classification of a result: successes stop the executor, permanent
/// errors stop it, everything else is retried.
pub open spec fn class_of_result<T>(r: Result<T, RetryError>) -> OutcomeClass {
    match r {
        Ok(_) => OutcomeClass::Success,
        Err(RetryError::Permanent(_)) => OutcomeClass::Permanent,
        Err(_) => OutcomeClass::Transient,
    }
}

/// Retry configuration.  The backoff multiplier is a fixed-point factor in
/// hundredths, so 200 doubles the delay on each retry.
#[derive(Clone, Debug)]
pub struct RetryConfig {
    pub max_attempts: u32,
    pub base_delay_ms: u64,
    pub max_delay_ms: u64,
    pub backoff_multiplier_hundredths: u32,
}

impl Default for RetryConfig {
    /// Three attempts, starting at one second, doubling, capped at thirty
    /// seconds.
    fn default() -> (r: Self)
        ensures
            r.max_attempts == 3,
            r.base_delay_ms == 1000,
            r.max_delay_ms == 30000,
            r.backoff_multiplier_hundredths == 200,
    {
        RetryConfig {
            max_attempts: 3,
            base_delay_ms: 1000,
            max_delay_ms: 30000,
            backoff_multiplier_hundredths: 200,
        }
    }
}

/// The delay after one backoff step: the current delay grown by the
/// multiplier, capped at the configured maximum.
pub open spec fn next_delay_spec(delay_ms: u64, multiplier_hundredths: u32, max_delay_ms: u64) -> int {
    let grown = delay_ms * multiplier_hundredths / 100;
    if grown > max_delay_ms {
        max_delay_ms as int
    } else {
        grown
    }
}

/// Grows a backoff delay by the configured multiplier, capped at the
/// configured maximum delay.
pub fn next_delay(delay_ms: u64, config: &RetryConfig) -> (r: u64)
    ensures
        r == next_delay_spec(delay_ms, config.backoff_multiplier_hundredths, config.max_delay_ms),
{
    proof {
        assert(delay_ms as int * config.backoff_multiplier_hundredths as int <= u64::MAX as int
            * u32::MAX as int) by (nonlinear_arith)
            requires
                delay_ms <= u64::MAX,
                config.backoff_multiplier_hundredths <= u32::MAX,
        ;
    }
    let grown: u128 = delay_ms as u128 * config.backoff_multiplier_hundredths as u128 / 100;
    if grown > config.max_delay_ms as u128 {
        config.max_delay_ms
    } else {
        grown as u64
    }
}

/// An operation the retry executor can run repeatedly.
///
/// The plan functions fix, for each upcoming call, how its outcome will be
/// classified, the text of a failure, and what may be returned on success;
/// `calls` counts the attempts made so far.  An attempt consumes its plan
/// index and leaves the plan of later indices unchanged.
pub trait RetryOperation<T> {
    /// How many attempts have been made.
    spec fn calls(&self) -> nat;

    /// The classification the `i`-th call's outcome will have.
    spec fn plan_class(&self, i: nat) -> OutcomeClass;

    /// The rendered text of the error the `i`-th call returns, if it fails.
    spec fn plan_msg(&self, i: nat) -> Seq<char>;

    /// What holds of a value the `i`-th call returns successfully.
    spec fn ok_post(&self, i: nat, v: T) -> bool;

    /// Runs one attempt of the operation.
    fn attempt(&mut self) -> (r: Result<T, RetryError>)
        ensures
            final(self).calls() == old(self).calls() + 1,
            forall|i: nat|
                i >= final(self).calls() ==> (#[trigger] final(self).plan_class(i)) == old(self).plan_class(i),
            forall|i: nat|
                i >= final(self).calls() ==> (#[trigger] final(self).plan_msg(i)) == old(self).plan_msg(i),
            forall|i: nat, v: T|
                i >= final(self).calls() ==> (#[trigger] final(self).ok_post(i, v)) == old(self).ok_post(i, v),
            class_of_result(r) == old(self).plan_class(old(self).calls()),
            r matches Err(e) ==> retry_error_message_seq(e) == old(self).plan_msg(
                old(self).calls(),
            ),
            r matches Ok(v) ==> old(self).ok_post(old(self).calls(), v),
    ;

    /// Waits out a backoff delay between attempts.
    fn backoff(&mut self, delay_ms: u64)
        ensures
            final(self).calls() == old(self).calls(),
            forall|i: nat|
                (#[trigger] final(self).plan_class(i)) == old(self).plan_class(i),
            forall|i: nat|
                (#[trigger] final(self).plan_msg(i)) == old(self).plan_msg(i),
            forall|i: nat, v: T| #[trigger] final(self).ok_post(i, v) == old(self).ok_post(i, v),
    ;
}

/// Runs the operation until it succeeds, fails permanently, or the attempt
/// budget is spent; between attempts it backs off with an exponentially
/// growing, capped delay.
///
/// The contract states the retry bound: the operation is invoked at least
/// once and at most `max_attempts` times, every attempt before the last
/// comes out transient, a permanent failure or a success stops the executor
/// at once, and the budget is exhausted only on transient failures, whose
/// last message is wrapped in the result.
pub fn retry_with_backoff<T, Op: RetryOperation<T>>(config: &RetryConfig, op: &mut Op) -> (r:
    Result<T, RetryError>)
    requires
        config.max_attempts >= 1,
    ensures
        old(op).calls() < final(op).calls() <= old(op).calls() + config.max_attempts,
        forall|i: nat|
            i >= final(op).calls() ==> (#[trigger] final(op).plan_class(i)) == old(op).plan_class(
                i,
            ),
        forall|i: nat|
            i >= final(op).calls() ==> (#[trigger] final(op).plan_msg(i)) == old(op).plan_msg(i),
        forall|i: nat, v: T|
            i >= final(op).calls() ==> (#[trigger] final(op).ok_post(i, v)) == old(op).ok_post(
                i,
                v,
            ),
        forall|j: nat|
            old(op).calls() <= j < final(op).calls() - 1 ==> #[trigger] old(op).plan_class(j)
                == OutcomeClass::Transient,
        r is Ok <==> old(op).plan_class((final(op).calls() - 1) as nat) == OutcomeClass::Success,
        r matches Ok(v) ==> old(op).ok_post((final(op).calls() - 1) as nat, v),
        r matches Err(e) ==> match e {
            RetryError::Permanent(m) => old(op).plan_class((final(op).calls() - 1) as nat)
                == OutcomeClass::Permanent && "Permanent error: "@ + m@ == old(op).plan_msg(
                (final(op).calls() - 1) as nat,
            ),
            RetryError::MaxRetriesExceeded(m) => old(op).plan_class(
                (final(op).calls() - 1) as nat,
            ) == OutcomeClass::Transient && final(op).calls() == old(op).calls()
                + config.max_attempts && m@ == old(op).plan_msg((final(op).calls() - 1) as nat),
            RetryError::Transient(_) => false,
        },
{
    let mut attempts: u32 = 0;
    let mut delay_ms: u64 = config.base_delay_ms;
    loop
        invariant
            config.max_attempts >= 1,
            attempts < config.max_attempts,
            op.calls() == old(op).calls() + attempts,
            forall|i: nat|
                i >= op.calls() ==> (#[trigger] op.plan_class(i)) == old(op).plan_class(i),
            forall|i: nat|
                i >= op.calls() ==> (#[trigger] op.plan_msg(i)) == old(op).plan_msg(i),
            forall|i: nat, v: T|
                i >= op.calls() ==> (#[trigger] op.ok_post(i, v)) == old(op).ok_post(i, v),
            forall|j: nat|
                old(op).calls() <= j < op.calls() ==> #[trigger] old(op).plan_class(j)
                    == OutcomeClass::Transient,
        decreases config.max_attempts - attempts,
    {
        attempts += 1;
        match op.attempt() {
            Ok(v) => {
                return Ok(v);
            },
            Err(e) => {
                match e {
                    RetryError::Permanent(m) => {
                        return Err(RetryError::Permanent(m));
                    },
                    e => {
                        if attempts >= config.max_attempts {
                            return Err(RetryError::MaxRetriesExceeded(e.message()));
                        }
                        op.backoff(delay_ms);
                        delay_ms = next_delay(delay_ms, config);
                    },
                }
            },
        }
    }
}

/// The planned entry for the `i`-th call of a scripted operation: with the
/// remaining outcomes in `script` (next outcome last) after `calls` calls,
/// the `i`-th call replays the matching script position, if any.
pub open spec fn scripted_entry<T>(
    script: Seq<Result<T, RetryError>>,
    calls: nat,
    i: nat,
) -> Option<Result<T, RetryError>> {
    if i >= calls && i - calls < script.len() {
        Some(script[script.len() - 1 - (i - calls)])
    } else {
        None
    }
}

proof fn lemma_scripted_shift<T>(script: Seq<Result<T, RetryError>>, calls: nat, i: nat)
    requires
        script.len() > 0,
        i >= calls + 1,
    ensures
        scripted_entry(script.drop_last(), (calls + 1) as nat, i) == scripted_entry(
            script,
            calls,
            i,
        ),
{
}

/// An operation that replays a fixed script of outcomes, in order; once the
/// script is spent, every further call fails permanently with an empty
/// message.
pub struct ScriptedOperation<T> {
    /// The outcomes not yet replayed, the next one last.
    pub script: Vec<Result<T, RetryError>>,
    /// How many calls have been made.
    pub calls: Ghost<nat>,
}

impl<T> ScriptedOperation<T> {
    /// An operation that replays the given outcomes, in order.
    pub fn new(outcomes: Vec<Result<T, RetryError>>) -> (r: Self)
        ensures
            r.calls@ == 0,
            forall|i: nat|
                i < outcomes@.len() ==> #[trigger] scripted_entry(r.script@, 0nat, i) == Some(
                    outcomes@[i as int],
                ),
            forall|i: nat|
                i >= outcomes@.len() ==> #[trigger] scripted_entry(r.script@, 0nat, i) is None,
    {
        let mut src = outcomes;
        let mut script: Vec<Result<T, RetryError>> = Vec::new();
        while src.len() > 0
            invariant
                script@.len() + src@.len() == outcomes@.len(),
                src@ == outcomes@.take(src@.len() as int),
                forall|k: int|
                    0 <= k < script@.len() ==> script@[k] == outcomes@[outcomes@.len() - 1 - k],
            decreases src@.len(),
        {
            proof {
                assert(src@.drop_last() =~= outcomes@.take(src@.len() - 1));
                assert(src@.last() == outcomes@[src@.len() - 1]);
            }
            let item = src.pop().unwrap();
            script.push(item);
        }
        ScriptedOperation { script, calls: Ghost(0nat) }
    }
}

impl<T> RetryOperation<T> for ScriptedOperation<T> {
    open spec fn calls(&self) -> nat {
        self.calls@
    }

    open spec fn plan_class(&self, i: nat) -> OutcomeClass {
        match scripted_entry(self.script@, self.calls@, i) {
            Some(r) => class_of_result(r),
            None => OutcomeClass::Permanent,
        }
    }

    open spec fn plan_msg(&self, i: nat) -> Seq<char> {
        match scripted_entry(self.script@, self.calls@, i) {
            Some(r) => match r {
                Ok(_) => Seq::empty(),
                Err(e) => retry_error_message_seq(e),
            },
            None => "Permanent error: "@,
        }
    }

    open spec fn ok_post(&self, i: nat, v: T) -> bool {
        scripted_entry(self.script@, self.calls@, i) == Some(Ok::<T, RetryError>(v))
    }

    fn attempt(&mut self) -> (r: Result<T, RetryError>) {
        let ghost script0 = self.script@;
        let ghost calls0 = self.calls@;
        self.calls = Ghost(self.calls@ + 1);
        let popped = self.script.pop();
        proof {
            if script0.len() > 0 {
                assert forall|i: nat| i >= calls0 + 1 implies scripted_entry(
                    self.script@,
                    self.calls@,
                    i,
                ) == scripted_entry(script0, calls0, i) by {
                    lemma_scripted_shift(script0, calls0, i);
                }
            }
        }
        match popped {
            Some(outcome) => outcome,
            None => {
                let failure = RetryError::Permanent(String::new());
                proof {
                    assert(retry_error_message_seq(failure) =~= "Permanent error: "@);
                }
                Err(failure)
            },
        }
    }

    fn backoff(&mut self, _delay_ms: u64) {
    }
}

/// The class of a scoring failure message: messages naming storage or
/// timeout conditions are transient, everything else is permanent.
pub open spec fn classify_seq(m: Seq<char>) -> OutcomeClass {
    if contains_seq(m, "database"@) || contains_seq(m, "timeout"@) {
        OutcomeClass::Transient
    } else {
        OutcomeClass::Permanent
    }
}

/// Classifies a failure message for the retry executor.
pub fn classify_error(msg: &str) -> (r: OutcomeClass)
    ensures
        r == classify_seq(msg@),
{
    if contains_substr(msg, "database") || contains_substr(msg, "timeout") {
        OutcomeClass::Transient
    } else {
        OutcomeClass::Permanent
    }
}

/// One scoring call as a retryable operation.  Scoring is deterministic, so
/// every attempt has the same planned outcome: success on valid inputs, and
/// the classified validation failure otherwise.
pub struct ScoringOperation<'a> {
    pub scorer: &'a BehaviorScorer,
    pub session_id: &'a str,
    pub transcript: &'a str,
    /// How many scoring attempts have been made.
    pub calls: Ghost<nat>,
}

impl<'a> ScoringOperation<'a> {
    /// Both inputs pass validation.
    pub open spec fn inputs_valid(&self) -> bool {
        valid_session_id_chars(self.session_id@) && valid_transcript_bytes(
            self.transcript.spec_bytes(),
        )
    }

    /// The validation error message for these inputs.
    pub open spec fn error_seq(&self) -> Seq<char> {
        score_error_seq(self.session_id@, self.transcript.spec_bytes())
    }
}

impl<'a> RetryOperation<SessionScore> for ScoringOperation<'a> {
    open spec fn calls(&self) -> nat {
        self.calls@
    }

    open spec fn plan_class(&self, i: nat) -> OutcomeClass {
        if self.inputs_valid() {
            OutcomeClass::Success
        } else {
            classify_seq(self.error_seq())
        }
    }

    open spec fn plan_msg(&self, i: nat) -> Seq<char> {
        if classify_seq(self.error_seq()) == OutcomeClass::Transient {
            "Transient error: "@ + self.error_seq()
        } else {
            "Permanent error: "@ + self.error_seq()
        }
    }

    open spec fn ok_post(&self, i: nat, v: SessionScore) -> bool {
        score_model(v) == eval_model(self.scorer.rules_spec(), self.session_id@, self.transcript@)
    }

    fn attempt(&mut self) -> (r: Result<SessionScore, RetryError>) {
        self.calls = Ghost(self.calls@ + 1);
        match self.scorer.score_session(self.session_id, self.transcript) {
            Ok(s) => Ok(s),
            Err(e) => {
                if contains_substr(e.as_str(), "database") || contains_substr(
                    e.as_str(),
                    "timeout",
                ) {
                    Err(RetryError::Transient(e))
                } else {
                    Err(RetryError::Permanent(e))
                }
            },
        }
    }

    fn backoff(&mut self, _delay_ms: u64) {
        // validation failures are permanent, so the executor never backs off
        // between scoring attempts; there is nothing to wait for
    }
}

proof fn lemma_message_permanent(m: Seq<char>)
    requires
        forall|j: int| 0 <= j < m.len() ==> m[j] != 'b',
        forall|j: int| 0 <= j < m.len() - 1 ==> !((#[trigger] m[j]) == 't' && m[j + 1] == 'i'),
    ensures
        classify_seq(m) == OutcomeClass::Permanent,
{
    reveal_strlit("database");
    reveal_strlit("timeout");
    crate::strutil::lemma_missing_char_no_substring(m, "database"@, 'b', 4);
    crate::strutil::lemma_missing_pair_no_substring(m, "timeout"@, 't', 'i');
}

/// Every validation failure is permanent: no validation message names a
/// storage or timeout condition, so the retry executor never retries one.
pub proof fn lemma_validation_errors_permanent(sid: Seq<char>, t_bytes: Seq<u8>)
    ensures
        classify_seq(score_error_seq(sid, t_bytes)) == OutcomeClass::Permanent,
{
    reveal_strlit("Invalid session ID");
    reveal_strlit("Transcript exceeds maximum size of 10MB");
    reveal_strlit("Transcript contains invalid characters");
    lemma_message_permanent(score_error_seq(sid, t_bytes));
}

/// Scores a session under the default retry policy.
///
/// Scoring fails only on invalid inputs, and a validation message names
/// neither a storage nor a timeout condition, so the failure is classified
/// permanent and surfaced after a single attempt; a valid input yields its
/// deterministic evaluation.
pub fn score_session_with_retry(
    scorer: &BehaviorScorer,
    session_id: &str,
    transcript: &str,
) -> (r: Result<SessionScore, RetryError>)
    ensures
        r is Ok <==> valid_session_id_chars(session_id@) && valid_transcript_bytes(
            transcript.spec_bytes(),
        ),
        r matches Ok(s) ==> score_model(s) == eval_model(
            scorer.rules_spec(),
            session_id@,
            transcript@,
        ),
        r matches Err(e) ==> e matches RetryError::Permanent(_),
        r matches Err(RetryError::Permanent(m)) ==> m@ == score_error_seq(
            session_id@,
            transcript.spec_bytes(),
        ),
{
    let config = RetryConfig::default();
    let mut op = ScoringOperation { scorer, session_id, transcript, calls: Ghost(0nat) };
    let r = retry_with_backoff(&config, &mut op);
    proof {
        let msg = score_error_seq(session_id@, transcript.spec_bytes());
        lemma_validation_errors_permanent(session_id@, transcript.spec_bytes());
        match &r {
            Ok(_) => {},
            Err(RetryError::Permanent(m)) => {
                lemma_concat_cancel_left("Permanent error: "@, m@, msg);
            },
            Err(_) => {},
        }
    }
    r
}

} // verus!
