//! What is told of the facts of a recording.

use crate::process_display;
use crate::process_indicators::{CommandFacts, EventLink, Facts};
use crate::process_rule::{ProcessObservations, RuleOutcome};
use crate::text;
use vstd::prelude::*;

verus! {

/// Up to eight links are shown. Of more the first eight are, and the others are
/// counted.
pub proof fn eight_links_are_shown(links: Seq<EventLink>)
    ensures
        links.len() == 0 ==> process_display::links_text(links) == "—"@,
        1 <= links.len() <= 8 ==> process_display::links_text(links) == process_display::link_list(
            links,
            links.len(),
        ),
        links.len() > 8 ==> process_display::links_text(links) == process_display::links_text(
            links.take(8),
        ) + ", +"@ + text::decimal((links.len() - 8) as nat) + " more in event list"@,
{
    if links.len() > 8 {
        lemma_list_of_prefix(links, links.take(8), 8);
    }
}

proof fn lemma_list_of_prefix(a: Seq<EventLink>, b: Seq<EventLink>, n: nat)
    requires
        n <= a.len(),
        n <= b.len(),
        forall|i: int| 0 <= i < n ==> #[trigger] a[i] == b[i],
    ensures
        process_display::link_list(a, n) == process_display::link_list(b, n),
    decreases n,
{
    if n > 0 {
        lemma_list_of_prefix(a, b, (n - 1) as nat);
        assert(a[n - 1] == b[n - 1]);
        assert(a[0] == b[0]);
    }
}

/// Links are listed one behind the other, each by its segment, its session and its
/// number.
pub proof fn links_are_listed(links: Seq<EventLink>, l: EventLink)
    ensures
        process_display::link_text(l) == "segment:"@ + text::decimal(l.segment as nat)
            + " session:"@ + l.session_id + " seq:"@ + text::decimal(l.sequence as nat),
        process_display::link_list(seq![l], 1) == process_display::link_text(l),
        links.len() > 0 ==> process_display::link_list(links.push(l), links.len() + 1)
            == process_display::link_list(links, links.len()) + ", "@ + process_display::link_text(
            l,
        ),
{
    lemma_list_of_prefix(links.push(l), links, links.len());
}

/// The outcome of the rule is told in words: what was seen with a suggestion, and the
/// reason where there is none.
pub proof fn an_outcome_is_told_with_its_reason(o: ProcessObservations, reason: Seq<char>)
    ensures
        process_display::outcome_text(RuleOutcome::NotEligible(reason), o) == "not eligible: "@
            + reason,
        process_display::outcome_text(RuleOutcome::Unavailable(reason), o) == "unavailable: "@
            + reason,
        o.feedback && !o.before_build ==> process_display::support_text(o)
            == "few observed error/edit/rebuild sequences among known opportunities"@,
        !o.feedback && o.before_build ==> process_display::support_text(o)
            == "most qualifying entry preceded the first recorded Check/Test"@,
        o.feedback && o.before_build ==> process_display::support_text(o)
            == "few observed error/edit/rebuild sequences among known opportunities and most qualifying entry preceded the first recorded Check/Test"@,
{
}

/// Every fact is told once, with its own counts and links: the edits, the rejections,
/// what was rejected more than once, and each kind of command in order.
pub proof fn every_fact_is_told(f: Facts)
    ensures
        ({
            let lines = process_display::fact_lines(f);
            let again = (if f.rejected_external_change.attempts >= 2 {
                1int
            } else {
                0int
            }) + (if f.rejected_paste.attempts >= 2 {
                1int
            } else {
                0int
            });
            &&& lines.len() == 5 + again + f.commands.len()
            &&& lines[0] == process_display::edit_text(
                "allowed internal paste"@,
                f.allowed_internal_paste,
                process_display::links_text(f.allowed_internal_paste.links),
            )
            &&& lines[1] == process_display::edit_text(
                "historical origin-unverified paste"@,
                f.historical_origin_unverified_paste,
                process_display::links_text(f.historical_origin_unverified_paste.links),
            )
            &&& lines[2] == process_display::edit_text(
                "unknown-origin edits"@,
                f.unknown_origin_edit,
                process_display::links_text(f.unknown_origin_edit.links),
            )
            &&& lines[3] == process_display::rejection_text(
                "external-change observations"@,
                f.rejected_external_change.attempts,
                " rejected attempts"@,
                process_display::links_text(f.rejected_external_change.links),
            )
            &&& lines[4] == process_display::rejection_text(
                "rejected paste attempts"@,
                f.rejected_paste.attempts,
                ""@,
                process_display::links_text(f.rejected_paste.links),
            )
            &&& forall|i: int|
                0 <= i < f.commands.len() ==> lines[5 + again + i] == #[trigger] command_told(
                    f.commands[i],
                )
        }),
{
    let lines = process_display::fact_lines(f);
    let again = process_display::repeated_lines(f, false).len();
    assert forall|i: int| 0 <= i < f.commands.len() implies lines[5 + again + i]
        == #[trigger] command_told(f.commands[i]) by {
        assert(lines[5 + again + i] == process_display::command_lines(f.commands, false)[i]);
    }
}

/// What is told of one kind of command: how often it was started, completed, exited
/// with zero, exited otherwise, met compiler errors and ended unknown.
pub open spec fn command_told(c: CommandFacts) -> Seq<char> {
    "Cargo "@ + crate::attempt::action_word(c.action) + ": started "@ + text::decimal(
        c.started as nat,
    ) + " complete "@ + text::decimal(c.complete as nat) + " exit-0 "@ + text::decimal(
        c.exit_zero as nat,
    ) + " nonzero "@ + text::decimal(c.nonzero_exit as nat) + " compiler-errors "@ + text::decimal(
        c.compiler_errors as nat,
    ) + " unknown "@ + text::decimal(c.unknown as nat) + " ["@ + process_display::links_text(
        Seq::new(c.links.len(), |i: int| c.links[i].start),
    ) + "]"@
}

} // verus!
