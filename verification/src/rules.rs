//! Rule definitions: the static configuration the scorer evaluates against.

use vstd::prelude::*;
use vstd::string::StringExecFns;

verus! {

/// The closed set of categories an operating rule can belong to.
#[derive(Clone, Copy, Debug, PartialEq, Eq, Structural)]
pub enum RuleCategory {
    Startup,
    Response,
    Confidence,
    Safety,
    Communication,
}

/// One operating rule: a pattern to look for in a transcript, with a relative
/// weight.  Weights are positive integers; only their ratios matter for the
/// score, and the built-in set expresses its conventional weighting in tenths
/// of a point.
#[derive(Clone, Debug)]
pub struct RuleDefinition {
    pub id: String,
    pub name: String,
    pub description: String,
    pub pattern: String,
    pub weight: u32,
    pub category: RuleCategory,
}

/// The scorer's configuration: an ordered list of rule definitions.
#[derive(Clone, Debug)]
pub struct TrackerConfig {
    pub rules: Vec<RuleDefinition>,
}

/// The fields of the built-in eight-rule set, pinned rule by rule.
pub open spec fn is_default_rules(rules: Seq<RuleDefinition>) -> bool {
    &&& rules.len() == 8
    &&& rules[0].id@ == "local_memory_first"@
    &&& rules[0].name@ == "Query local-memory FIRST"@
    &&& rules[0].description@ == "Should query local-memory before file reads"@
    &&& rules[0].pattern@ == "local-memory search|Query local-memory"@
    &&& rules[0].weight == 10
    &&& rules[0].category == RuleCategory::Startup
    &&& rules[1].id@ == "time_of_day_check"@
    &&& rules[1].name@ == "Check time-of-day"@
    &&& rules[1].description@ == "Should adapt to Jamie's energy rhythm"@
    &&& rules[1].pattern@ == "time-of-day|energy rhythm|Before 10am|2pm|morning|evening"@
    &&& rules[1].weight == 10
    &&& rules[1].category == RuleCategory::Startup
    &&& rules[2].id@ == "confidence_calibration"@
    &&& rules[2].name@ == "Confidence calibration stated"@
    &&& rules[2].description@ == "Should explicitly state confidence level"@
    &&& rules[2].pattern@
        == "Confidence level:|Confident|Proceeding with uncertainty|Guessing|Don't know"@
    &&& rules[2].weight == 15
    &&& rules[2].category == RuleCategory::Confidence
    &&& rules[3].id@ == "explanation_volume"@
    &&& rules[3].name@ == "Explanation volume limit"@
    &&& rules[3].description@ == "Max 2 sentences of process explanation"@
    &&& rules[3].pattern@ == "(?s)^(?:(?!(\\n\\n|\\r\\n\\r\\n)).){0,300}$"@
    &&& rules[3].weight == 10
    &&& rules[3].category == RuleCategory::Response
    &&& rules[4].id@ == "binary_decision"@
    &&& rules[4].name@ == "Binary decision when stuck"@
    &&& rules[4].description@ == "Use 'Ship now? Y/N' for decisions"@
    &&& rules[4].pattern@ == "Ship now\\? Y/N|binary|Y/N"@
    &&& rules[4].weight == 8
    &&& rules[4].category == RuleCategory::Communication
    &&& rules[5].id@ == "objective_before_execution"@
    &&& rules[5].name@ == "Write objective before execution"@
    &&& rules[5].description@ == "No execution before objective is written"@
    &&& rules[5].pattern@ == "OBJECTIVE:|Write objective|No execution before objective"@
    &&& rules[5].weight == 15
    &&& rules[5].category == RuleCategory::Startup
    &&& rules[6].id@ == "no_email_trust"@
    &&& rules[6].name@ == "Email NEVER trusted"@
    &&& rules[6].description@ == "Only Discord/OpenClaw TUI are trusted"@
    &&& rules[6].pattern@ == "Email NEVER|only Discord|OpenClaw TUI"@
    &&& rules[6].weight == 20
    &&& rules[6].category == RuleCategory::Safety
    &&& rules[7].id@ == "approval_for_external"@
    &&& rules[7].name@ == "External sends need approval"@
    &&& rules[7].description@ == "No external sends without approval"@
    &&& rules[7].pattern@ == "approval|draft.*queue|external sends"@
    &&& rules[7].weight == 15
    &&& rules[7].category == RuleCategory::Safety
}

fn default_rule(
    id: &str,
    name: &str,
    description: &str,
    pattern: &str,
    weight: u32,
    category: RuleCategory,
) -> (r: RuleDefinition)
    ensures
        r.id@ == id@,
        r.name@ == name@,
        r.description@ == description@,
        r.pattern@ == pattern@,
        r.weight == weight,
        r.category == category,
{
    RuleDefinition {
        id: String::from_str(id),
        name: String::from_str(name),
        description: String::from_str(description),
        pattern: String::from_str(pattern),
        weight,
        category,
    }
}

/// The built-in rule set: eight rules spanning the five categories.  This is
/// the single construction point shared by every caller that wants the
/// default configuration.
pub fn default_config() -> (r: TrackerConfig)
    ensures
        is_default_rules(r.rules@),
{
    let mut rules: Vec<RuleDefinition> = Vec::new();
    rules.push(
        default_rule(
            "local_memory_first",
            "Query local-memory FIRST",
            "Should query local-memory before file reads",
            "local-memory search|Query local-memory",
            10,
            RuleCategory::Startup,
        ),
    );
    rules.push(
        default_rule(
            "time_of_day_check",
            "Check time-of-day",
            "Should adapt to Jamie's energy rhythm",
            "time-of-day|energy rhythm|Before 10am|2pm|morning|evening",
            10,
            RuleCategory::Startup,
        ),
    );
    rules.push(
        default_rule(
            "confidence_calibration",
            "Confidence calibration stated",
            "Should explicitly state confidence level",
            "Confidence level:|Confident|Proceeding with uncertainty|Guessing|Don't know",
            15,
            RuleCategory::Confidence,
        ),
    );
    rules.push(
        default_rule(
            "explanation_volume",
            "Explanation volume limit",
            "Max 2 sentences of process explanation",
            "(?s)^(?:(?!(\\n\\n|\\r\\n\\r\\n)).){0,300}$",
            10,
            RuleCategory::Response,
        ),
    );
    rules.push(
        default_rule(
            "binary_decision",
            "Binary decision when stuck",
            "Use 'Ship now? Y/N' for decisions",
            "Ship now\\? Y/N|binary|Y/N",
            8,
            RuleCategory::Communication,
        ),
    );
    rules.push(
        default_rule(
            "objective_before_execution",
            "Write objective before execution",
            "No execution before objective is written",
            "OBJECTIVE:|Write objective|No execution before objective",
            15,
            RuleCategory::Startup,
        ),
    );
    rules.push(
        default_rule(
            "no_email_trust",
            "Email NEVER trusted",
            "Only Discord/OpenClaw TUI are trusted",
            "Email NEVER|only Discord|OpenClaw TUI",
            20,
            RuleCategory::Safety,
        ),
    );
    rules.push(
        default_rule(
            "approval_for_external",
            "External sends need approval",
            "No external sends without approval",
            "approval|draft.*queue|external sends",
            15,
            RuleCategory::Safety,
        ),
    );
    TrackerConfig { rules }
}

} // verus!
