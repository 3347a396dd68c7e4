//! The evaluation engine: compiles the configured rules and scores
//! transcripts against them.

use vstd::prelude::*;
use vstd::string::StringExecFns;
use vstd::string::StrSliceExecFns;
use vstd::string::StringSliceAdditionalSpecFns;
use crate::pattern::regex_compiles;
use crate::pattern::regex_matches;
use crate::pattern::regex_find;
use crate::pattern::regex_source;
use crate::pattern::compile_pattern;
use crate::pattern::pattern_matches;
use crate::pattern::pattern_find;
use crate::rules::RuleDefinition;
use crate::rules::TrackerConfig;
use crate::rules::is_default_rules;
use crate::security::valid_session_id_chars;
use crate::security::valid_transcript_bytes;
use crate::security::transcript_error_seq;
use crate::security::validate_session_id;
use crate::security::validate_transcript;
use crate::strutil::dec_str;
use crate::strutil::u64_to_string;

verus! {

/// The outcome of checking one rule against one transcript.
#[derive(Clone, Debug)]
pub struct RuleCheck {
    pub rule_id: String,
    pub rule_name: String,
    pub description: String,
    pub passed: bool,
    /// Binary for now: 100 when the rule passed, 0 otherwise.
    pub confidence_percent: u8,
    pub evidence: Option<String>,
    pub suggestion: Option<String>,
}

/// Aggregate result of scoring one transcript.
#[derive(Clone, Debug)]
pub struct SessionScore {
    pub session_id: String,
    /// Wall-clock time of the evaluation, in milliseconds since the Unix
    /// epoch.  The one field two evaluations of the same input may differ in.
    pub timestamp_millis: i64,
    pub total_rules: usize,
    pub passed_rules: usize,
    /// The weighted score, in hundredths of a percent (0 ..= 10000).
    pub score_percentage_hundredths: u32,
    pub rules: Vec<RuleCheck>,
    pub summary: String,
}

/// The observable content of a rule check.
#[verifier::ext_equal]
pub ghost struct CheckModel {
    pub rule_id: Seq<char>,
    pub rule_name: Seq<char>,
    pub description: Seq<char>,
    pub passed: bool,
    pub confidence_percent: int,
    pub evidence: Option<Seq<char>>,
    pub suggestion: Option<Seq<char>>,
}

/// The observable content of a session score, excluding the timestamp.
#[verifier::ext_equal]
pub ghost struct ScoreModel {
    pub session_id: Seq<char>,
    pub total_rules: int,
    pub passed_rules: int,
    pub score_percentage_hundredths: int,
    pub checks: Seq<CheckModel>,
    pub summary: Seq<char>,
}

/// The view of an optional string.
pub open spec fn view_opt_str(o: Option<String>) -> Option<Seq<char>> {
    match o {
        Some(s) => Some(s@),
        None => None,
    }
}

/// The model of a rule check value.
pub open spec fn check_model(c: RuleCheck) -> CheckModel {
    CheckModel {
        rule_id: c.rule_id@,
        rule_name: c.rule_name@,
        description: c.description@,
        passed: c.passed,
        confidence_percent: c.confidence_percent as int,
        evidence: view_opt_str(c.evidence),
        suggestion: view_opt_str(c.suggestion),
    }
}

/// The model of a session score value, excluding the timestamp.
pub open spec fn score_model(s: SessionScore) -> ScoreModel {
    ScoreModel {
        session_id: s.session_id@,
        total_rules: s.total_rules as int,
        passed_rules: s.passed_rules as int,
        score_percentage_hundredths: s.score_percentage_hundredths as int,
        checks: Seq::new(s.rules@.len(), |i: int| check_model(s.rules@[i])),
        summary: s.summary@,
    }
}

/// A rule passes when its pattern compiled and matches the transcript; a rule
/// whose pattern did not compile always fails.
pub open spec fn rule_passes(rd: RuleDefinition, t: Seq<char>) -> bool {
    regex_compiles(rd.pattern@) && regex_matches(rd.pattern@, t)
}

/// How many rules pass against the transcript.
pub open spec fn count_passing(rules: Seq<RuleDefinition>, t: Seq<char>) -> int
    decreases rules.len(),
{
    if rules.len() == 0 {
        0
    } else {
        count_passing(rules.drop_last(), t) + if rule_passes(rules.last(), t) {
            1int
        } else {
            0int
        }
    }
}

/// How many rules have a pattern the regex engine accepts.
pub open spec fn count_compiled(rules: Seq<RuleDefinition>) -> int
    decreases rules.len(),
{
    if rules.len() == 0 {
        0
    } else {
        count_compiled(rules.drop_last()) + if regex_compiles(rules.last().pattern@) {
            1int
        } else {
            0int
        }
    }
}

/// The sum of all rule weights.
pub open spec fn total_weight(rules: Seq<RuleDefinition>) -> int
    decreases rules.len(),
{
    if rules.len() == 0 {
        0
    } else {
        total_weight(rules.drop_last()) + rules.last().weight
    }
}

/// The sum of the weights of the passing rules.
pub open spec fn passed_weight(rules: Seq<RuleDefinition>, t: Seq<char>) -> int
    decreases rules.len(),
{
    if rules.len() == 0 {
        0
    } else {
        passed_weight(rules.drop_last(), t) + if rule_passes(rules.last(), t) {
            rules.last().weight as int
        } else {
            0int
        }
    }
}

/// The weighted score in hundredths of a percent: passed weight over total
/// weight, or zero for an empty (or zero-weight) rule set.
pub open spec fn score_hundredths(rules: Seq<RuleDefinition>, t: Seq<char>) -> int {
    if total_weight(rules) > 0 {
        passed_weight(rules, t) * 10000 / total_weight(rules)
    } else {
        0
    }
}

/// The start of the line containing position `p`: the position after the
/// previous newline, or the start of the text.
pub open spec fn line_start_at(t: Seq<char>, p: int) -> int
    decreases p,
{
    if p <= 0 {
        0
    } else if t[p - 1] == '\n' {
        p
    } else {
        line_start_at(t, p - 1)
    }
}

/// The end of the line containing position `p`: the position of the next
/// newline, or the end of the text.
pub open spec fn line_end_at(t: Seq<char>, p: int) -> int
    decreases t.len() - p,
{
    if p >= t.len() {
        t.len() as int
    } else if t[p] == '\n' {
        p
    } else {
        line_end_at(t, p + 1)
    }
}

/// The evidence excerpt for a match spanning `ms..me`: the surrounding line,
/// truncated to 200 characters with a trailing ellipsis if longer.
pub open spec fn excerpt_at(t: Seq<char>, ms: int, me: int) -> Seq<char> {
    let line = t.subrange(line_start_at(t, ms), line_end_at(t, me));
    if line.len() > 200 {
        line.subrange(0, 200) + "..."@
    } else {
        line
    }
}

/// The evidence produced for a pattern: the excerpt around the leftmost
/// match, if the pattern matches at all.
pub open spec fn evidence_spec(pattern: Seq<char>, t: Seq<char>) -> Option<Seq<char>> {
    if regex_matches(pattern, t) {
        match regex_find(pattern, t) {
            Some(span) => Some(excerpt_at(t, span.0, span.1)),
            None => None,
        }
    } else {
        None
    }
}

/// The model of the check produced for one rule.
pub open spec fn check_model_of(rd: RuleDefinition, t: Seq<char>) -> CheckModel {
    CheckModel {
        rule_id: rd.id@,
        rule_name: rd.name@,
        description: rd.description@,
        passed: rule_passes(rd, t),
        confidence_percent: if rule_passes(rd, t) {
            100
        } else {
            0
        },
        evidence: if rule_passes(rd, t) {
            evidence_spec(rd.pattern@, t)
        } else {
            None
        },
        suggestion: if rule_passes(rd, t) {
            None
        } else {
            Some("Consider: "@ + rd.description@)
        },
    }
}

/// The one-sentence summary for a score, chosen by percentage band; it
/// reports the integer-truncated percentage and the failed-rule count.
pub open spec fn summary_seq(score_h: int, failed: int) -> Seq<char> {
    let pct = dec_str((score_h / 100) as nat);
    let failed_str = dec_str(failed as nat);
    if score_h >= 9000 {
        "Excellent adherence ("@ + pct + "%). All critical rules followed."@
    } else if score_h >= 7500 {
        "Good adherence ("@ + pct + "%). "@ + failed_str + " minor improvements possible."@
    } else if score_h >= 5000 {
        "Moderate adherence ("@ + pct + "%). "@ + failed_str + " rules need attention."@
    } else {
        "Needs improvement ("@ + pct + "%). "@ + failed_str + " critical rules missed."@
    }
}

/// The full model of evaluating a rule set against a transcript.
pub open spec fn eval_model(rules: Seq<RuleDefinition>, sid: Seq<char>, t: Seq<char>) -> ScoreModel {
    ScoreModel {
        session_id: sid,
        total_rules: rules.len() as int,
        passed_rules: count_passing(rules, t),
        score_percentage_hundredths: score_hundredths(rules, t),
        checks: Seq::new(rules.len(), |i: int| check_model_of(rules[i], t)),
        summary: summary_seq(score_hundredths(rules, t), rules.len() - count_passing(rules, t)),
    }
}

/// The error message `score_session` reports for invalid inputs: the session
/// identifier is checked first, then the transcript.
pub open spec fn score_error_seq(sid: Seq<char>, t_bytes: Seq<u8>) -> Seq<char> {
    if !valid_session_id_chars(sid) {
        "Invalid session ID"@
    } else {
        transcript_error_seq(t_bytes)
    }
}

/// Builds the summary sentence for a score and a failed-rule count.
pub fn generate_summary(score_h: u32, failed: u64) -> (r: String)
    ensures
        r@ == summary_seq(score_h as int, failed as int),
{
    let pct = u64_to_string((score_h / 100) as u64);
    let failed_str = u64_to_string(failed);
    if score_h >= 9000 {
        let mut s = String::from_str("Excellent adherence (");
        s.append(pct.as_str());
        s.append("%). All critical rules followed.");
        s
    } else if score_h >= 7500 {
        let mut s = String::from_str("Good adherence (");
        s.append(pct.as_str());
        s.append("%). ");
        s.append(failed_str.as_str());
        s.append(" minor improvements possible.");
        s
    } else if score_h >= 5000 {
        let mut s = String::from_str("Moderate adherence (");
        s.append(pct.as_str());
        s.append("%). ");
        s.append(failed_str.as_str());
        s.append(" rules need attention.");
        s
    } else {
        let mut s = String::from_str("Needs improvement (");
        s.append(pct.as_str());
        s.append("%). ");
        s.append(failed_str.as_str());
        s.append(" critical rules missed.");
        s
    }
}

/// The evaluation engine: a rule configuration with its compiled matchers.
pub struct BehaviorScorer {
    config: TrackerConfig,
    compiled: Vec<Option<regex::Regex>>,
    base_path: String,
}

impl BehaviorScorer {
    /// Each rule is paired with its compiled matcher; patterns the regex
    /// engine rejects are paired with `None` and fail every check.
    #[verifier::type_invariant]
    spec fn wf(self) -> bool {
        &&& self.compiled@.len() == self.config.rules@.len()
        &&& forall|i: int|
            0 <= i < self.compiled@.len() ==> (#[trigger] self.compiled@[i] is Some
                <==> regex_compiles(self.config.rules@[i].pattern@))
        &&& forall|i: int|
            0 <= i < self.compiled@.len() ==> match #[trigger] self.compiled@[i] {
                Some(re) => regex_source(re) == self.config.rules@[i].pattern@,
                None => true,
            }
    }

    /// The configured rules, in order.
    pub closed spec fn rules_spec(&self) -> Seq<RuleDefinition> {
        self.config.rules@
    }

    /// The configured base directory for directory-scanning callers.
    pub closed spec fn base_path_spec(&self) -> Seq<char> {
        self.base_path@
    }

    fn compile_rules(config: &TrackerConfig) -> (r: Vec<Option<regex::Regex>>)
        ensures
            r@.len() == config.rules@.len(),
            forall|i: int|
                0 <= i < r@.len() ==> (#[trigger] r@[i] is Some <==> regex_compiles(
                    config.rules@[i].pattern@,
                )),
            forall|i: int|
                0 <= i < r@.len() ==> match #[trigger] r@[i] {
                    Some(re) => regex_source(re) == config.rules@[i].pattern@,
                    None => true,
                },
    {
        let mut compiled: Vec<Option<regex::Regex>> = Vec::new();
        let mut i: usize = 0;
        while i < config.rules.len()
            invariant
                i <= config.rules@.len(),
                compiled@.len() == i,
                forall|k: int|
                    0 <= k < i ==> (#[trigger] compiled@[k] is Some <==> regex_compiles(
                        config.rules@[k].pattern@,
                    )),
                forall|k: int|
                    0 <= k < i ==> match #[trigger] compiled@[k] {
                        Some(re) => regex_source(re) == config.rules@[k].pattern@,
                        None => true,
                    },
            decreases config.rules@.len() - i,
        {
            let c = compile_pattern(config.rules[i].pattern.as_str());
            compiled.push(c);
            i += 1;
        }
        compiled
    }

    /// An engine over the built-in default rule set, with no base directory
    /// configured.
    pub fn new() -> (r: Self)
        ensures
            is_default_rules(r.rules_spec()),
            r.base_path_spec() == Seq::<char>::empty(),
    {
        Self::with_config(crate::rules::default_config())
    }

    /// An engine over the given rule set, with no base directory configured.
    pub fn with_config(config: TrackerConfig) -> (r: Self)
        ensures
            r.rules_spec() == config.rules@,
            r.base_path_spec() == Seq::<char>::empty(),
    {
        let compiled = Self::compile_rules(&config);
        BehaviorScorer { config, compiled, base_path: String::new() }
    }

    /// The same engine with the base directory replaced.
    pub fn with_base_path(self, path: String) -> (r: Self)
        ensures
            r.rules_spec() == self.rules_spec(),
            r.base_path_spec() == path@,
    {
        proof {
            use_type_invariant(&self);
        }
        BehaviorScorer { base_path: path, ..self }
    }

    /// The configured base directory.
    pub fn base_path(&self) -> (r: &String)
        ensures
            r@ == self.base_path_spec(),
    {
        &self.base_path
    }

    /// The excerpt justifying a pass: the line around the leftmost match,
    /// truncated to 200 characters.
    fn extract_evidence(re: &regex::Regex, transcript: &str) -> (r: Option<String>)
        ensures
            view_opt_str(r) == evidence_spec(regex_source(*re), transcript@),
    {
        match pattern_find(re, transcript) {
            Some((ms, me)) => {
                let n = transcript.unicode_len();
                let mut s: usize = ms;
                while s > 0 && transcript.get_char(s - 1) != '\n'
                    invariant
                        s <= ms <= transcript@.len(),
                        line_start_at(transcript@, ms as int) == line_start_at(
                            transcript@,
                            s as int,
                        ),
                    decreases s,
                {
                    s -= 1;
                }
                let mut e: usize = me;
                while e < n && transcript.get_char(e) != '\n'
                    invariant
                        me <= e <= n,
                        n == transcript@.len(),
                        line_end_at(transcript@, me as int) == line_end_at(transcript@, e as int),
                    decreases n - e,
                {
                    e += 1;
                }
                proof {
                    assert(line_start_at(transcript@, s as int) == s as int);
                    assert(line_end_at(transcript@, e as int) == e as int);
                }
                let line = transcript.substring_char(s, e);
                if line.unicode_len() > 200 {
                    let mut ev = String::from_str(line.substring_char(0, 200));
                    ev.append("...");
                    Some(ev)
                } else {
                    Some(String::from_str(line))
                }
            }
            None => None,
        }
    }

    /// Scores one transcript against the configured rules.
    ///
    /// The session identifier and the transcript are validated first; on
    /// success every field of the result except the timestamp is the
    /// deterministic evaluation of the rules against the transcript.
    pub fn score_session(&self, session_id: &str, transcript: &str) -> (r: Result<
        SessionScore,
        String,
    >)
        ensures
            r is Ok <==> valid_session_id_chars(session_id@) && valid_transcript_bytes(
                transcript.spec_bytes(),
            ),
            r matches Ok(s) ==> score_model(s) == eval_model(
                self.rules_spec(),
                session_id@,
                transcript@,
            ),
            r matches Ok(s) ==> s.passed_rules <= count_compiled(self.rules_spec())
                <= s.total_rules == self.rules_spec().len(),
            r matches Ok(s) ==> s.score_percentage_hundredths <= 10000,
            r matches Err(e) ==> e@ == score_error_seq(session_id@, transcript.spec_bytes()),
    {
        proof {
            use_type_invariant(self);
        }
        if !validate_session_id(session_id) {
            return Err(String::from_str("Invalid session ID"));
        }
        let text = match validate_transcript(transcript) {
            Ok(t) => t,
            Err(m) => {
                return Err(String::from_str(m));
            },
        };
        let ghost rules = self.config.rules@;
        let n = self.config.rules.len();
        let mut checks: Vec<RuleCheck> = Vec::new();
        let mut passed_count: usize = 0;
        let mut total_w: u128 = 0;
        let mut passed_w: u128 = 0;
        let mut i: usize = 0;
        while i < n
            invariant
                self.wf(),
                rules == self.config.rules@,
                n == rules.len(),
                text@ == transcript@,
                i <= n,
                checks@.len() == i,
                forall|k: int|
                    0 <= k < i ==> check_model(#[trigger] checks@[k]) == check_model_of(
                        rules[k],
                        transcript@,
                    ),
                passed_count <= i,
                passed_count == count_passing(rules.take(i as int), transcript@),
                total_w == total_weight(rules.take(i as int)),
                passed_w == passed_weight(rules.take(i as int), transcript@),
                total_w <= (i as u128) * 0x1_0000_0000,
                passed_w <= total_w,
            decreases n - i,
        {
            let rd = &self.config.rules[i];
            let (passed, evidence) = match &self.compiled[i] {
                Some(re) => {
                    let p = pattern_matches(re, text);
                    let ev = if p {
                        Self::extract_evidence(re, text)
                    } else {
                        None
                    };
                    (p, ev)
                },
                None => (false, None),
            };
            let suggestion = if !passed {
                let mut sg = String::from_str("Consider: ");
                sg.append(rd.description.as_str());
                Some(sg)
            } else {
                None
            };
            let check = RuleCheck {
                rule_id: rd.id.clone(),
                rule_name: rd.name.clone(),
                description: rd.description.clone(),
                passed,
                confidence_percent: if passed {
                    100
                } else {
                    0
                },
                evidence,
                suggestion,
            };
            checks.push(check);
            if passed {
                passed_count += 1;
                passed_w += rd.weight as u128;
            }
            total_w += rd.weight as u128;
            proof {
                let pre = rules.take(i + 1);
                assert(pre.drop_last() =~= rules.take(i as int));
                assert(pre.last() == rules[i as int]);
                assert(check_model(checks@[i as int]) =~= check_model_of(
                    rules[i as int],
                    transcript@,
                ));
            }
            i += 1;
        }
        proof {
            assert(rules.take(n as int) =~= rules);
        }
        let score_h: u32 = if total_w > 0 {
            proof {
                assert((passed_w as int) * 10000 <= (total_w as int) * 10000);
                assert((passed_w as int) * 10000 / (total_w as int) <= 10000) by (nonlinear_arith)
                    requires
                        0 <= (passed_w as int) <= (total_w as int),
                        (total_w as int) > 0,
                ;
            }
            let q = passed_w * 10000 / total_w;
            q as u32
        } else {
            0
        };
        let failed = n - passed_count;
        let summary = generate_summary(score_h, failed as u64);
        let score = SessionScore {
            session_id: String::from_str(session_id),
            timestamp_millis: crate::clock::now_timestamp_millis(),
            total_rules: n,
            passed_rules: passed_count,
            score_percentage_hundredths: score_h,
            rules: checks,
            summary,
        };
        proof {
            assert(score_model(score).checks =~= eval_model(
                self.rules_spec(),
                session_id@,
                transcript@,
            ).checks);
            assert(score_model(score) =~= eval_model(self.rules_spec(), session_id@, transcript@));
            lemma_counts_monotonic(self.rules_spec(), transcript@);
        }
        Ok(score)
    }
}

/// Whether a directory scan should score a file: session logs carry a
/// `.md` or `.json` extension after a non-empty stem (a name that is nothing
/// but the suffix, such as a hidden `.md` file, has no extension), and
/// anything above the transcript size bound is skipped before it is read.
pub open spec fn file_eligible(name: Seq<char>, size: int) -> bool {
    &&& {
        ||| crate::strutil::ends_with_seq(name, ".md"@) && name.len() > ".md"@.len()
        ||| crate::strutil::ends_with_seq(name, ".json"@) && name.len() > ".json"@.len()
    }
    &&& size <= crate::security::TRANSCRIPT_MAX_BYTES
}

/// Decides whether a directory scan should read and score a file, from its
/// name and its size in bytes.
pub fn should_score_file(name: &str, size: u64) -> (r: bool)
    ensures
        r == file_eligible(name@, size as int),
{
    proof {
        reveal_strlit(".md");
        reveal_strlit(".json");
    }
    let n = name.unicode_len();
    let ext_ok = (crate::strutil::ends_with_substr(name, ".md") && n > 3)
        || (crate::strutil::ends_with_substr(name, ".json") && n > 5);
    ext_ok && size <= 10 * 1024 * 1024
}

proof fn lemma_weight_bounds(rules: Seq<RuleDefinition>, t: Seq<char>)
    ensures
        0 <= passed_weight(rules, t) <= total_weight(rules),
    decreases rules.len(),
{
    if rules.len() > 0 {
        lemma_weight_bounds(rules.drop_last(), t);
    }
}

/// Bounded percentage: for every rule set and transcript the weighted score
/// lies between 0 and 100 percent.
pub proof fn lemma_score_percentage_bounded(rules: Seq<RuleDefinition>, t: Seq<char>)
    ensures
        0 <= score_hundredths(rules, t) <= 10000,
{
    lemma_weight_bounds(rules, t);
    let pw = passed_weight(rules, t);
    let tw = total_weight(rules);
    if tw > 0 {
        assert(pw * 10000 / tw <= 10000) by (nonlinear_arith)
            requires
                0 <= pw <= tw,
                tw > 0,
        ;
        assert(pw * 10000 / tw >= 0) by (nonlinear_arith)
            requires
                0 <= pw,
                tw > 0,
        ;
    }
}

/// Monotonic identity: the passing rules are among the rules whose pattern
/// compiled, which are among all configured rules.
pub proof fn lemma_counts_monotonic(rules: Seq<RuleDefinition>, t: Seq<char>)
    ensures
        0 <= count_passing(rules, t) <= count_compiled(rules) <= rules.len(),
    decreases rules.len(),
{
    if rules.len() > 0 {
        lemma_counts_monotonic(rules.drop_last(), t);
    }
}

/// When every configured pattern compiles, the compiled-rule count is the
/// whole rule count.
pub proof fn lemma_all_compiled(rules: Seq<RuleDefinition>)
    requires
        forall|i: int| 0 <= i < rules.len() ==> regex_compiles(#[trigger] rules[i].pattern@),
    ensures
        count_compiled(rules) == rules.len(),
    decreases rules.len(),
{
    if rules.len() > 0 {
        lemma_all_compiled(rules.drop_last());
    }
}

/// The invariants every score the engine produces satisfies: the passed count
/// is bounded by the compiled count and the rule count, and the percentage is
/// bounded.
pub proof fn lemma_score_model_invariants(
    rules: Seq<RuleDefinition>,
    sid: Seq<char>,
    t: Seq<char>,
    m: ScoreModel,
)
    requires
        m == eval_model(rules, sid, t),
    ensures
        0 <= m.passed_rules <= count_compiled(rules) <= m.total_rules,
        0 <= m.score_percentage_hundredths <= 10000,
        m.total_rules == rules.len(),
        m.checks.len() == rules.len(),
{
    lemma_counts_monotonic(rules, t);
    lemma_score_percentage_bounded(rules, t);
}

/// Bounded evidence: an excerpt is never longer than 200 characters plus the
/// three-character ellipsis, whatever the transcript's length.
pub proof fn lemma_evidence_bounded(pattern: Seq<char>, t: Seq<char>)
    ensures
        match evidence_spec(pattern, t) {
            Some(e) => e.len() <= 203,
            None => true,
        },
{
    if regex_matches(pattern, t) {
        match regex_find(pattern, t) {
            Some(span) => {
                assert("..."@.len() == 3) by {
                    reveal_strlit("...");
                }
            },
            None => {},
        }
    }
}

/// Determinism: evaluation is a function of the rule set, the session
/// identifier and the transcript, so two scores of the same inputs agree on
/// every observable field; only their timestamps may differ.
pub proof fn lemma_score_session_deterministic(
    rules: Seq<RuleDefinition>,
    sid: Seq<char>,
    t: Seq<char>,
    s1: SessionScore,
    s2: SessionScore,
)
    requires
        score_model(s1) == eval_model(rules, sid, t),
        score_model(s2) == eval_model(rules, sid, t),
    ensures
        s1.score_percentage_hundredths == s2.score_percentage_hundredths,
        s1.total_rules == s2.total_rules,
        s1.passed_rules == s2.passed_rules,
        score_model(s1).checks == score_model(s2).checks,
        s1.summary@ == s2.summary@,
{
}

fn duplicate_opt_string(o: &Option<String>) -> (r: Option<String>)
    ensures
        view_opt_str(r) == view_opt_str(*o),
{
    match o {
        Some(s) => Some(s.clone()),
        None => None,
    }
}

impl RuleCheck {
    /// A copy with exactly this check's observable content.
    pub fn duplicate(&self) -> (r: RuleCheck)
        ensures
            check_model(r) == check_model(*self),
    {
        RuleCheck {
            rule_id: self.rule_id.clone(),
            rule_name: self.rule_name.clone(),
            description: self.description.clone(),
            passed: self.passed,
            confidence_percent: self.confidence_percent,
            evidence: duplicate_opt_string(&self.evidence),
            suggestion: duplicate_opt_string(&self.suggestion),
        }
    }
}

impl SessionScore {
    /// A copy with exactly this score's observable content and timestamp.
    pub fn duplicate(&self) -> (r: SessionScore)
        ensures
            score_model(r) == score_model(*self),
            r.timestamp_millis == self.timestamp_millis,
    {
        let mut checks: Vec<RuleCheck> = Vec::new();
        let mut i: usize = 0;
        while i < self.rules.len()
            invariant
                i <= self.rules@.len(),
                checks@.len() == i,
                forall|k: int|
                    0 <= k < i ==> check_model(#[trigger] checks@[k]) == check_model(
                        self.rules@[k],
                    ),
            decreases self.rules@.len() - i,
        {
            checks.push(self.rules[i].duplicate());
            i += 1;
        }
        let r = SessionScore {
            session_id: self.session_id.clone(),
            timestamp_millis: self.timestamp_millis,
            total_rules: self.total_rules,
            passed_rules: self.passed_rules,
            score_percentage_hundredths: self.score_percentage_hundredths,
            rules: checks,
            summary: self.summary.clone(),
        };
        proof {
            assert(score_model(r).checks =~= score_model(*self).checks);
            assert(score_model(r) =~= score_model(*self));
        }
        r
    }
}

impl Default for BehaviorScorer {
    /// The same engine `new` builds.
    fn default() -> (r: Self)
        ensures
            is_default_rules(r.rules_spec()),
            r.base_path_spec() == Seq::<char>::empty(),
    {
        Self::new()
    }
}

} // verus!
