//! What holds of every attempt, whatever events it saw.

use crate::attempt;
use crate::attempt::Acc;
use crate::model::EventEnvelope;
use crate::process_indicators::{Facts, MAX_RETAINED_INDICATOR_LINKS};
use vstd::prelude::*;

verus! {

/// No list of links is longer than it may be.
pub open spec fn links_bounded(a: Acc) -> bool {
    &&& a.edit_links.len() <= MAX_RETAINED_INDICATOR_LINKS
    &&& a.command_links.len() <= MAX_RETAINED_INDICATOR_LINKS
    &&& facts_bounded(a.factual)
}

pub open spec fn facts_bounded(f: Facts) -> bool {
    &&& f.allowed_internal_paste.links.len() <= MAX_RETAINED_INDICATOR_LINKS
    &&& f.historical_origin_unverified_paste.links.len() <= MAX_RETAINED_INDICATOR_LINKS
    &&& f.unknown_origin_edit.links.len() <= MAX_RETAINED_INDICATOR_LINKS
    &&& f.rejected_external_change.links.len() <= MAX_RETAINED_INDICATOR_LINKS
    &&& f.rejected_paste.links.len() <= MAX_RETAINED_INDICATOR_LINKS
    &&& f.commands.len() == 10
    &&& forall|i: int|
        0 <= i < f.commands.len() ==> (#[trigger] f.commands[i]).links.len()
            <= MAX_RETAINED_INDICATOR_LINKS
}

/// However many events an attempt sees, the links that it keeps stay within their
/// bound.
pub proof fn kept_links_stay_bounded(a: Acc, envelope: EventEnvelope, pre: Option<Seq<char>>)
    requires
        links_bounded(a),
    ensures
        attempt::observed(a, envelope, pre) matches Ok(b) ==> links_bounded(b),
{
}

/// Once the evidence of an attempt is unavailable it stays so, with the first
/// reason.
pub proof fn unavailable_evidence_is_permanent(
    a: Acc,
    envelope: EventEnvelope,
    pre: Option<Seq<char>>,
)
    requires
        a.unavailable is Some,
    ensures
        attempt::observed(a, envelope, pre) matches Ok(b) ==> b.unavailable == a.unavailable,
        attempt::closed(a) matches Ok(b) ==> b.unavailable == a.unavailable,
{
}

/// An event never lowers a count of what was typed, built or repaired.
pub proof fn counts_never_fall(a: Acc, envelope: EventEnvelope, pre: Option<Seq<char>>)
    ensures
        attempt::observed(a, envelope, pre) matches Ok(b) ==> {
            &&& a.values.inserted_keyboard_scalars <= b.values.inserted_keyboard_scalars
            &&& a.values.keyboard_transactions <= b.values.keyboard_transactions
            &&& a.values.appended_keyboard_scalars <= b.values.appended_keyboard_scalars
            &&& a.values.removed_keyboard_scalars <= b.values.removed_keyboard_scalars
            &&& a.values.forward_inserted_scalars <= b.values.forward_inserted_scalars
            &&& a.values.before_first_build_scalars <= b.values.before_first_build_scalars
            &&& a.values.feedback_opportunities <= b.values.feedback_opportunities
            &&& a.values.error_edit_rebuild_sequences <= b.values.error_edit_rebuild_sequences
            &&& a.values.complete_check_test_commands <= b.values.complete_check_test_commands
        },
{
}

/// An event never lowers a count of failures.
pub proof fn failures_never_fall(a: Acc, envelope: EventEnvelope, pre: Option<Seq<char>>)
    ensures
        attempt::observed(a, envelope, pre) matches Ok(b) ==> {
            &&& a.values.compiler_error_commands <= b.values.compiler_error_commands
            &&& a.values.failed_test_commands <= b.values.failed_test_commands
        },
{
}

/// Rounds of repair are opportunities for feedback, characters appended or typed
/// before the first build are characters typed.
pub open spec fn counts_agree(a: Acc) -> bool {
    &&& a.values.error_edit_rebuild_sequences <= a.values.feedback_opportunities
    &&& a.values.appended_keyboard_scalars <= a.values.inserted_keyboard_scalars
    &&& a.values.before_first_build_scalars <= a.values.inserted_keyboard_scalars
    &&& a.values.compiler_error_commands <= a.values.complete_check_test_commands
    &&& a.values.failed_test_commands <= a.values.complete_check_test_commands
    &&& a.values.feedback_opportunities <= a.values.complete_check_test_commands
}

/// The counts of an attempt agree with each other after every event.
pub proof fn counts_keep_agreeing(a: Acc, envelope: EventEnvelope, pre: Option<Seq<char>>)
    requires
        counts_agree(a),
    ensures
        attempt::observed(a, envelope, pre) matches Ok(b) ==> counts_agree(b),
{
}

/// A resumed session breaks the chain between two builds: the next complete Check
/// or Test is no opportunity for feedback.
pub proof fn resuming_breaks_feedback(a: Acc, envelope: EventEnvelope, pre: Option<Seq<char>>)
    requires
        envelope.event is SessionResumed,
    ensures
        attempt::observed(a, envelope, pre) matches Ok(b) && b.last_complete is None && !b.edited
            && b.values == a.values && b.unavailable == a.unavailable,
{
}

} // verus!
