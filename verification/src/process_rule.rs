//! The counts of one attempt, what is observed from them, and the narrow rule
//! that suggests a review.

use crate::text;
use vstd::prelude::*;

verus! {

pub const PROCESS_RULE_VERSION: &'static str = "process-review-v1";

/// Characters inserted on a forward path, by origin.
#[derive(Clone, Copy, Debug, PartialEq, Eq, Structural)]
pub struct OriginScalars {
    pub keyboard: u64,
    pub internal_paste: u64,
    pub historical_paste: u64,
    pub completion: u64,
    pub formatter: u64,
    pub dependency_tool: u64,
    pub unknown: u64,
    pub other: u64,
}

pub open spec fn no_scalars() -> OriginScalars {
    OriginScalars {
        keyboard: 0,
        internal_paste: 0,
        historical_paste: 0,
        completion: 0,
        formatter: 0,
        dependency_tool: 0,
        unknown: 0,
        other: 0,
    }
}

impl Default for OriginScalars {
    fn default() -> (r: OriginScalars)
        ensures
            r == no_scalars(),
    {
        OriginScalars {
            keyboard: 0,
            internal_paste: 0,
            historical_paste: 0,
            completion: 0,
            formatter: 0,
            dependency_tool: 0,
            unknown: 0,
            other: 0,
        }
    }
}

/// The counts of one attempt.
#[derive(Clone, Copy, Debug, PartialEq, Eq, Structural)]
pub struct ProcessValues {
    pub inserted_keyboard_scalars: u64,
    pub keyboard_transactions: u64,
    pub appended_keyboard_scalars: u64,
    pub removed_keyboard_scalars: u64,
    pub forward_inserted_scalars: u64,
    pub before_first_build_scalars: u64,
    pub feedback_opportunities: u64,
    pub error_edit_rebuild_sequences: u64,
    pub complete_check_test_commands: u64,
    pub compiler_error_commands: u64,
    pub failed_test_commands: u64,
    pub origins: OriginScalars,
}

pub open spec fn no_values() -> ProcessValues {
    ProcessValues {
        inserted_keyboard_scalars: 0,
        keyboard_transactions: 0,
        appended_keyboard_scalars: 0,
        removed_keyboard_scalars: 0,
        forward_inserted_scalars: 0,
        before_first_build_scalars: 0,
        feedback_opportunities: 0,
        error_edit_rebuild_sequences: 0,
        complete_check_test_commands: 0,
        compiler_error_commands: 0,
        failed_test_commands: 0,
        origins: no_scalars(),
    }
}

impl Default for ProcessValues {
    fn default() -> (r: ProcessValues)
        ensures
            r == no_values(),
    {
        ProcessValues {
            inserted_keyboard_scalars: 0,
            keyboard_transactions: 0,
            appended_keyboard_scalars: 0,
            removed_keyboard_scalars: 0,
            forward_inserted_scalars: 0,
            before_first_build_scalars: 0,
            feedback_opportunities: 0,
            error_edit_rebuild_sequences: 0,
            complete_check_test_commands: 0,
            compiler_error_commands: 0,
            failed_test_commands: 0,
            origins: OriginScalars::default(),
        }
    }
}

/// What the counts show: entry that was mostly appended, few rounds of error and
/// repair, and entry that mostly came before the first build.
#[derive(Clone, Copy, Debug, PartialEq, Eq, Structural)]
pub struct ProcessObservations {
    pub entry: bool,
    pub feedback: bool,
    pub before_build: bool,
}

impl Default for ProcessObservations {
    fn default() -> (r: ProcessObservations)
        ensures
            !r.entry && !r.feedback && !r.before_build,
    {
        ProcessObservations { entry: false, feedback: false, before_build: false }
    }
}

/// What the rule says of an attempt.
#[derive(Clone, Debug, PartialEq, Eq)]
pub enum ProcessRuleOutcome {
    Suggested,
    NotEligible { reason: String },
    Unavailable { reason: String },
}

pub enum RuleOutcome {
    Suggested,
    NotEligible(Seq<char>),
    Unavailable(Seq<char>),
}

impl ProcessRuleOutcome {
    pub open spec fn view(&self) -> RuleOutcome {
        match self {
            ProcessRuleOutcome::Suggested => RuleOutcome::Suggested,
            ProcessRuleOutcome::NotEligible { reason } => RuleOutcome::NotEligible(reason@),
            ProcessRuleOutcome::Unavailable { reason } => RuleOutcome::Unavailable(reason@),
        }
    }
}

/// `value / denominator >= numerator / divisor`, over a positive denominator.
pub open spec fn at_least(value: int, denominator: int, numerator: int, divisor: int) -> bool {
    denominator > 0 && value * divisor >= denominator * numerator
}

/// `value / denominator <= numerator / divisor`, over a positive denominator.
pub open spec fn no_more(value: int, denominator: int, numerator: int, divisor: int) -> bool {
    denominator > 0 && value * divisor <= denominator * numerator
}

fn product(a: u64, b: u64) -> (r: u128)
    ensures
        r == a * b,
{
    assert(a * b <= 0xffff_ffff_ffff_ffff * 0xffff_ffff_ffff_ffff) by (nonlinear_arith)
        requires
            a <= 0xffff_ffff_ffff_ffff,
            b <= 0xffff_ffff_ffff_ffff,
    ;
    (a as u128) * (b as u128)
}

/// Whether a ratio reaches a threshold.
pub fn ratio_at_least(value: u64, denominator: u64, numerator: u64, divisor: u64) -> (r: bool)
    ensures
        r == at_least(value as int, denominator as int, numerator as int, divisor as int),
{
    denominator > 0 && product(value, divisor) >= product(denominator, numerator)
}

/// Whether a ratio stays within a threshold.
pub fn ratio_at_most(value: u64, denominator: u64, numerator: u64, divisor: u64) -> (r: bool)
    ensures
        r == no_more(value as int, denominator as int, numerator as int, divisor as int),
{
    denominator > 0 && product(value, divisor) <= product(denominator, numerator)
}

/// What is observed from the counts. All thresholds count as reached when met
/// exactly.
pub open spec fn observed(v: ProcessValues) -> ProcessObservations {
    let i = v.inserted_keyboard_scalars as int;
    let o = v.feedback_opportunities as int;
    ProcessObservations {
        entry: at_least(v.appended_keyboard_scalars as int, i, 4, 5) && no_more(
            v.removed_keyboard_scalars as int,
            i,
            1,
            10,
        ),
        feedback: o >= 2 && no_more(v.error_edit_rebuild_sequences as int, o, 1, 4),
        before_build: at_least(v.before_first_build_scalars as int, i, 4, 5),
    }
}

/// Reads the observations off the counts.
pub fn observations(values: &ProcessValues) -> (r: ProcessObservations)
    ensures
        r == observed(*values),
{
    let i: u64 = values.inserted_keyboard_scalars;
    let o: u64 = values.feedback_opportunities;
    ProcessObservations {
        entry: ratio_at_least(values.appended_keyboard_scalars, i, 4, 5) && ratio_at_most(
            values.removed_keyboard_scalars,
            i,
            1,
            10,
        ),
        feedback: o >= 2 && ratio_at_most(values.error_edit_rebuild_sequences, o, 1, 4),
        before_build: ratio_at_least(values.before_first_build_scalars, i, 4, 5),
    }
}

/// Why the sample is too small for the rule, or nothing where it is large enough.
pub open spec fn sample_gap(v: ProcessValues) -> Option<Seq<char>> {
    let i = v.inserted_keyboard_scalars;
    let j = v.forward_inserted_scalars;
    if i < 1000 {
        Some("I="@ + text::decimal(i as nat) + " is below the 1,000-scalar sample"@)
    } else if v.keyboard_transactions < 20 {
        Some(
            "N="@ + text::decimal(v.keyboard_transactions as nat)
                + " is below the 20-transaction sample"@,
        )
    } else if j == 0 {
        Some("J=0 provides no forward-insertion denominator"@)
    } else if !at_least(i as int, j as int, 4, 5) {
        Some(
            "I/J="@ + text::decimal(i as nat) + "/"@ + text::decimal(j as nat) + " is below 0.8"@,
        )
    } else if v.complete_check_test_commands < 2 {
        Some(
            "only "@ + text::decimal(v.complete_check_test_commands as nat)
                + " complete Check/Test command(s) were observed"@,
        )
    } else if v.feedback_opportunities == 0 {
        Some("O=0 provides no feedback opportunity"@)
    } else {
        None
    }
}

/// What the rule says of an attempt: nothing where its evidence is unavailable or
/// its sample too small, and a suggestion only where entry and one of the two
/// other observations are supported.
pub open spec fn rule_outcome(v: ProcessValues, unavailable: Option<Seq<char>>) -> RuleOutcome {
    match unavailable {
        Some(reason) => RuleOutcome::Unavailable(reason),
        None => match sample_gap(v) {
            Some(reason) => RuleOutcome::NotEligible(reason),
            None => {
                let seen = observed(v);
                if seen.entry && (seen.feedback || seen.before_build) {
                    RuleOutcome::Suggested
                } else if !seen.entry {
                    RuleOutcome::NotEligible("entry observation E is not supported"@)
                } else {
                    RuleOutcome::NotEligible(
                        "neither feedback observation C nor before-build observation P is supported"@,
                    )
                }
            },
        },
    }
}

fn counted(before: &str, n: u64, after: &str) -> (r: String)
    ensures
        r@ == before@ + text::decimal(n as nat) + after@,
{
    let mut s = before.to_owned();
    s.push_str(text::write_decimal(n).as_str());
    s.push_str(after);
    s
}

fn gap(values: &ProcessValues) -> (r: Option<String>)
    ensures
        r is Some <==> sample_gap(*values) is Some,
        r is Some ==> r->0@ == sample_gap(*values)->0,
{
    let i: u64 = values.inserted_keyboard_scalars;
    let j: u64 = values.forward_inserted_scalars;
    if i < 1000 {
        Some(counted("I=", i, " is below the 1,000-scalar sample"))
    } else if values.keyboard_transactions < 20 {
        Some(counted("N=", values.keyboard_transactions, " is below the 20-transaction sample"))
    } else if j == 0 {
        Some("J=0 provides no forward-insertion denominator".to_owned())
    } else if !ratio_at_least(i, j, 4, 5) {
        let mut s = counted("I/J=", i, "/");
        s.push_str(text::write_decimal(j).as_str());
        s.push_str(" is below 0.8");
        Some(s)
    } else if values.complete_check_test_commands < 2 {
        Some(
            counted(
                "only ",
                values.complete_check_test_commands,
                " complete Check/Test command(s) were observed",
            ),
        )
    } else if values.feedback_opportunities == 0 {
        Some("O=0 provides no feedback opportunity".to_owned())
    } else {
        None
    }
}

pub open spec fn opt_view(o: Option<String>) -> Option<Seq<char>> {
    match o {
        Some(s) => Some(s@),
        None => None,
    }
}

/// Applies the rule.
pub fn evaluate(values: &ProcessValues, unavailable: Option<String>) -> (r: ProcessRuleOutcome)
    ensures
        r.view() == rule_outcome(*values, opt_view(unavailable)),
{
    if let Some(reason) = unavailable {
        return ProcessRuleOutcome::Unavailable { reason };
    }
    if let Some(reason) = gap(values) {
        return ProcessRuleOutcome::NotEligible { reason };
    }
    let seen = observations(values);
    if seen.entry && (seen.feedback || seen.before_build) {
        ProcessRuleOutcome::Suggested
    } else if !seen.entry {
        ProcessRuleOutcome::NotEligible {
            reason: "entry observation E is not supported".to_owned(),
        }
    } else {
        ProcessRuleOutcome::NotEligible {
            reason:
                "neither feedback observation C nor before-build observation P is supported".to_owned(),
        }
    }
}

/// An attempt whose evidence is unavailable is never suggested.
pub proof fn unavailable_never_suggests(v: ProcessValues, reason: Seq<char>)
    ensures
        rule_outcome(v, Some(reason)) == RuleOutcome::Unavailable(reason),
{
}

/// A suggestion is made exactly where the evidence is available, every sample is
/// reached, and entry holds together with feedback or order.
pub proof fn suggestion_needs_every_guard(v: ProcessValues, unavailable: Option<Seq<char>>)
    ensures
        rule_outcome(v, unavailable) == RuleOutcome::Suggested <==> {
            &&& unavailable is None
            &&& v.inserted_keyboard_scalars >= 1000
            &&& v.keyboard_transactions >= 20
            &&& v.forward_inserted_scalars > 0
            &&& 5 * v.inserted_keyboard_scalars >= 4 * v.forward_inserted_scalars
            &&& v.complete_check_test_commands >= 2
            &&& v.feedback_opportunities >= 1
            &&& 5 * v.appended_keyboard_scalars >= 4 * v.inserted_keyboard_scalars
            &&& 10 * v.removed_keyboard_scalars <= v.inserted_keyboard_scalars
            &&& {
                ||| v.feedback_opportunities >= 2 && 4 * v.error_edit_rebuild_sequences
                    <= v.feedback_opportunities
                ||| 5 * v.before_first_build_scalars >= 4 * v.inserted_keyboard_scalars
            }
        },
{
}

/// What other origins contributed changes an attempt only through the total of
/// forward insertions, never through an observation.
pub proof fn origins_are_no_observation(v: ProcessValues, origins: OriginScalars)
    ensures
        observed(ProcessValues { origins, ..v }) == observed(v),
        forall|u: Option<Seq<char>>|
            rule_outcome(ProcessValues { origins, ..v }, u) == #[trigger] rule_outcome(v, u),
{
}

} // verus!
