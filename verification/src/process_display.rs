//! The words in which indicators are shown, and the events that they lead to.

use crate::attempt;
use crate::attempt::ProcessAttempt;
use crate::process_indicators::{
    command_links_view, commands_view, links_view, CommandEventLink, CommandFacts,
    CommandIndicator, CommandLink, EditFacts, EditIndicator, EventLink, FactualIndicators, Facts,
    IndicatorEventLink,
};
use crate::process_rule::{ProcessObservations, ProcessRuleOutcome, ProcessValues, RuleOutcome};
use crate::text;
use vstd::prelude::*;

verus! {

pub const DISPLAYED_INDICATOR_LINKS: usize = 8;

pub const INDICATOR_EXPLANATION: &'static str =
    "Unknown means a missing origin explanation, not established external input. Internal paste is allowed and not inherently suspicious. Rejected paste records metadata only, never content size.";

/// What supports a suggestion besides entry.
pub open spec fn support_text(o: ProcessObservations) -> Seq<char> {
    if o.feedback && o.before_build {
        "few observed error/edit/rebuild sequences among known opportunities and most qualifying entry preceded the first recorded Check/Test"@
    } else if o.feedback {
        "few observed error/edit/rebuild sequences among known opportunities"@
    } else if o.before_build {
        "most qualifying entry preceded the first recorded Check/Test"@
    } else {
        "the required feedback/order observation"@
    }
}

/// The outcome of an attempt in words.
pub open spec fn outcome_text(outcome: RuleOutcome, o: ProcessObservations) -> Seq<char> {
    match outcome {
        RuleOutcome::Suggested => "Review suggested: substantial predominantly append entry with limited recorded revision, together with "@
            + support_text(o)
            + ". Planned or familiar work can show the same pattern; these observations do not establish transcription, AI use or intent."@,
        RuleOutcome::NotEligible(reason) => "not eligible: "@ + reason,
        RuleOutcome::Unavailable(reason) => "unavailable: "@ + reason,
    }
}

/// Shows the outcome of an attempt.
pub fn display_process_attempt(attempt: &ProcessAttempt) -> (r: String)
    ensures
        r@ == outcome_text(attempt.outcome.view(), attempt.observations),
{
    let o = attempt.observations;
    match &attempt.outcome {
        ProcessRuleOutcome::Suggested => {
            let support = if o.feedback && o.before_build {
                "few observed error/edit/rebuild sequences among known opportunities and most qualifying entry preceded the first recorded Check/Test"
            } else if o.feedback {
                "few observed error/edit/rebuild sequences among known opportunities"
            } else if o.before_build {
                "most qualifying entry preceded the first recorded Check/Test"
            } else {
                "the required feedback/order observation"
            };
            let mut out =
                "Review suggested: substantial predominantly append entry with limited recorded revision, together with ".to_owned();
            out.push_str(support);
            out.push_str(
                ". Planned or familiar work can show the same pattern; these observations do not establish transcription, AI use or intent.",
            );
            out
        },
        ProcessRuleOutcome::NotEligible { reason } => {
            let mut out = "not eligible: ".to_owned();
            out.push_str(reason.as_str());
            out
        },
        ProcessRuleOutcome::Unavailable { reason } => {
            let mut out = "unavailable: ".to_owned();
            out.push_str(reason.as_str());
            out
        },
    }
}

pub open spec fn link_text(l: EventLink) -> Seq<char> {
    "segment:"@ + text::decimal(l.segment as nat) + " session:"@ + l.session_id + " seq:"@
        + text::decimal(l.sequence as nat)
}

/// The first `n` links with a comma between each two.
pub open spec fn link_list(links: Seq<EventLink>, n: nat) -> Seq<char>
    decreases n,
{
    if n == 0 {
        Seq::empty()
    } else if n == 1 {
        link_text(links[0])
    } else {
        link_list(links, (n - 1) as nat) + ", "@ + link_text(links[n - 1])
    }
}

/// The links that are shown, how many more there are, and a dash for none.
pub open spec fn links_text(links: Seq<EventLink>) -> Seq<char> {
    if links.len() == 0 {
        "—"@
    } else if links.len() <= DISPLAYED_INDICATOR_LINKS {
        link_list(links, links.len())
    } else {
        link_list(links, DISPLAYED_INDICATOR_LINKS as nat) + ", +"@ + text::decimal(
            (links.len() - DISPLAYED_INDICATOR_LINKS) as nat,
        ) + " more in event list"@
    }
}

/// The first link in short form, and a dash for none.
pub open spec fn compact_text(l: Option<EventLink>) -> Seq<char> {
    match l {
        None => "—"@,
        Some(l) => "segment:"@ + text::decimal(l.segment as nat) + " seq:"@ + text::decimal(
            l.sequence as nat,
        ),
    }
}

pub open spec fn first_of<T>(s: Seq<T>) -> Option<T> {
    if s.len() == 0 {
        None
    } else {
        Some(s[0])
    }
}

fn display_link(l: &IndicatorEventLink) -> (r: String)
    ensures
        r@ == link_text(l.view()),
{
    let mut out = "segment:".to_owned();
    out.push_str(text::write_decimal(l.segment as u64).as_str());
    out.push_str(" session:");
    out.push_str(l.session_id.as_str());
    out.push_str(" seq:");
    out.push_str(text::write_decimal(l.sequence).as_str());
    out
}

/// Shows links.
pub fn display_links(links: &Vec<IndicatorEventLink>) -> (r: String)
    ensures
        r@ == links_text(links_view(links@)),
{
    let ghost all = links_view(links@);
    if links.len() == 0 {
        return "—".to_owned();
    }
    let n: usize = if links.len() <= DISPLAYED_INDICATOR_LINKS {
        links.len()
    } else {
        DISPLAYED_INDICATOR_LINKS
    };
    assert(all[0] == links@[0].view());
    let mut out = display_link(&links[0]);
    let mut i: usize = 1;
    while i < n
        invariant
            1 <= i <= n <= links@.len(),
            all == links_view(links@),
            out@ == link_list(all, i as nat),
        decreases n - i,
    {
        assert(all[i as int] == links@[i as int].view());
        out.push_str(", ");
        out.push_str(display_link(&links[i]).as_str());
        i += 1;
    }
    if links.len() > DISPLAYED_INDICATOR_LINKS {
        out.push_str(", +");
        out.push_str(text::write_decimal((links.len() - DISPLAYED_INDICATOR_LINKS) as u64).as_str());
        out.push_str(" more in event list");
    }
    out
}

fn display_compact_link(l: Option<&IndicatorEventLink>) -> (r: String)
    ensures
        r@ == compact_text(
            match l {
                Some(x) => Some(x.view()),
                None => None,
            },
        ),
{
    match l {
        None => "—".to_owned(),
        Some(l) => {
            let mut out = "segment:".to_owned();
            out.push_str(text::write_decimal(l.segment as u64).as_str());
            out.push_str(" seq:");
            out.push_str(text::write_decimal(l.sequence).as_str());
            out
        },
    }
}

fn display_first_compact_link(links: &Vec<IndicatorEventLink>) -> (r: String)
    ensures
        r@ == compact_text(first_of(links_view(links@))),
{
    if links.len() == 0 {
        display_compact_link(None)
    } else {
        assert(links_view(links@)[0] == links@[0].view());
        display_compact_link(Some(&links[0]))
    }
}

/// An attempt in full.
pub open spec fn details_text(
    version: Seq<char>,
    attempt: u32,
    outcome: Seq<char>,
    session: Seq<char>,
    v: ProcessValues,
    edits: Seq<char>,
    commands: Seq<char>,
) -> Seq<char> {
    version
        + " attempt "@
        + text::decimal(attempt as nat)
        + ": "@
        + outcome
        + " | session="@
        + session
        + "; I="@
        + text::decimal(v.inserted_keyboard_scalars as nat)
        + " N="@
        + text::decimal(v.keyboard_transactions as nat)
        + " A="@
        + text::decimal(v.appended_keyboard_scalars as nat)
        + " R="@
        + text::decimal(v.removed_keyboard_scalars as nat)
        + " J="@
        + text::decimal(v.forward_inserted_scalars as nat)
        + " B="@
        + text::decimal(v.before_first_build_scalars as nat)
        + " O="@
        + text::decimal(v.feedback_opportunities as nat)
        + " F="@
        + text::decimal(v.error_edit_rebuild_sequences as nat)
        + "; complete Check/Test="@
        + text::decimal(v.complete_check_test_commands as nat)
        + " compiler-error="@
        + text::decimal(v.compiler_error_commands as nat)
        + " failed-test="@
        + text::decimal(v.failed_test_commands as nat)
        + "; ratios I/J="@
        + text::decimal(v.inserted_keyboard_scalars as nat)
        + "/"@
        + text::decimal(v.forward_inserted_scalars as nat)
        + " A/I="@
        + text::decimal(v.appended_keyboard_scalars as nat)
        + "/"@
        + text::decimal(v.inserted_keyboard_scalars as nat)
        + " R/I="@
        + text::decimal(v.removed_keyboard_scalars as nat)
        + "/"@
        + text::decimal(v.inserted_keyboard_scalars as nat)
        + " F/O="@
        + text::decimal(v.error_edit_rebuild_sequences as nat)
        + "/"@
        + text::decimal(v.feedback_opportunities as nat)
        + " B/I="@
        + text::decimal(v.before_first_build_scalars as nat)
        + "/"@
        + text::decimal(v.inserted_keyboard_scalars as nat)
        + "; thresholds I>=1000 N>=20 J>0 I/J>=0.8 complete>=2 O>=1 E:A/I>=0.8,R/I<=0.1 C:O>=2,F/O<=0.25 P:B/I>=0.8; origins keyboard="@
        + text::decimal(v.origins.keyboard as nat)
        + " internal-paste="@
        + text::decimal(v.origins.internal_paste as nat)
        + " historical-paste="@
        + text::decimal(v.origins.historical_paste as nat)
        + " completion="@
        + text::decimal(v.origins.completion as nat)
        + " formatter="@
        + text::decimal(v.origins.formatter as nat)
        + " dependency-tool="@
        + text::decimal(v.origins.dependency_tool as nat)
        + " unknown="@
        + text::decimal(v.origins.unknown as nat)
        + " other="@
        + text::decimal(v.origins.other as nat)
        + "; edit links "@
        + edits
        + "; command links "@
        + commands
}

/// Shows an attempt with its counts, ratios, thresholds and links.
pub fn display_process_attempt_details(attempt: &ProcessAttempt) -> (r: String)
    ensures
        r@ == details_text(
            attempt.rule_version@,
            attempt.attempt,
            outcome_text(attempt.outcome.view(), attempt.observations),
            attempt.session_id@,
            attempt.values,
            links_text(links_view(attempt.edit_links@)),
            links_text(links_view(attempt.command_links@)),
        ),
{
    let v = attempt.values;
    let outcome = display_process_attempt(attempt);
    let edits = display_links(&attempt.edit_links);
    let commands = display_links(&attempt.command_links);
    let mut out = attempt.rule_version.to_owned();
    out.push_str(" attempt ");
    out.push_str(text::write_decimal(attempt.attempt as u64).as_str());
    out.push_str(": ");
    out.push_str(outcome.as_str());
    out.push_str(" | session=");
    out.push_str(attempt.session_id.as_str());
    out.push_str("; I=");
    out.push_str(text::write_decimal(v.inserted_keyboard_scalars).as_str());
    out.push_str(" N=");
    out.push_str(text::write_decimal(v.keyboard_transactions).as_str());
    out.push_str(" A=");
    out.push_str(text::write_decimal(v.appended_keyboard_scalars).as_str());
    out.push_str(" R=");
    out.push_str(text::write_decimal(v.removed_keyboard_scalars).as_str());
    out.push_str(" J=");
    out.push_str(text::write_decimal(v.forward_inserted_scalars).as_str());
    out.push_str(" B=");
    out.push_str(text::write_decimal(v.before_first_build_scalars).as_str());
    out.push_str(" O=");
    out.push_str(text::write_decimal(v.feedback_opportunities).as_str());
    out.push_str(" F=");
    out.push_str(text::write_decimal(v.error_edit_rebuild_sequences).as_str());
    out.push_str("; complete Check/Test=");
    out.push_str(text::write_decimal(v.complete_check_test_commands).as_str());
    out.push_str(" compiler-error=");
    out.push_str(text::write_decimal(v.compiler_error_commands).as_str());
    out.push_str(" failed-test=");
    out.push_str(text::write_decimal(v.failed_test_commands).as_str());
    out.push_str("; ratios I/J=");
    out.push_str(text::write_decimal(v.inserted_keyboard_scalars).as_str());
    out.push_str("/");
    out.push_str(text::write_decimal(v.forward_inserted_scalars).as_str());
    out.push_str(" A/I=");
    out.push_str(text::write_decimal(v.appended_keyboard_scalars).as_str());
    out.push_str("/");
    out.push_str(text::write_decimal(v.inserted_keyboard_scalars).as_str());
    out.push_str(" R/I=");
    out.push_str(text::write_decimal(v.removed_keyboard_scalars).as_str());
    out.push_str("/");
    out.push_str(text::write_decimal(v.inserted_keyboard_scalars).as_str());
    out.push_str(" F/O=");
    out.push_str(text::write_decimal(v.error_edit_rebuild_sequences).as_str());
    out.push_str("/");
    out.push_str(text::write_decimal(v.feedback_opportunities).as_str());
    out.push_str(" B/I=");
    out.push_str(text::write_decimal(v.before_first_build_scalars).as_str());
    out.push_str("/");
    out.push_str(text::write_decimal(v.inserted_keyboard_scalars).as_str());
    out.push_str("; thresholds I>=1000 N>=20 J>0 I/J>=0.8 complete>=2 O>=1 E:A/I>=0.8,R/I<=0.1 C:O>=2,F/O<=0.25 P:B/I>=0.8; origins keyboard=");
    out.push_str(text::write_decimal(v.origins.keyboard).as_str());
    out.push_str(" internal-paste=");
    out.push_str(text::write_decimal(v.origins.internal_paste).as_str());
    out.push_str(" historical-paste=");
    out.push_str(text::write_decimal(v.origins.historical_paste).as_str());
    out.push_str(" completion=");
    out.push_str(text::write_decimal(v.origins.completion).as_str());
    out.push_str(" formatter=");
    out.push_str(text::write_decimal(v.origins.formatter).as_str());
    out.push_str(" dependency-tool=");
    out.push_str(text::write_decimal(v.origins.dependency_tool).as_str());
    out.push_str(" unknown=");
    out.push_str(text::write_decimal(v.origins.unknown).as_str());
    out.push_str(" other=");
    out.push_str(text::write_decimal(v.origins.other).as_str());
    out.push_str("; edit links ");
    out.push_str(edits.as_str());
    out.push_str("; command links ");
    out.push_str(commands.as_str());
    out
}

/// A kind of edit in words.
pub open spec fn edit_text(label: Seq<char>, e: EditFacts, links: Seq<char>) -> Seq<char> {
    label + ": "@ + text::decimal(e.transactions as nat) + " / "@ + text::decimal(
        e.inserted_scalars as nat,
    ) + " chars (Unicode scalars) ["@ + links + "]"@
}

fn display_edit(label: &str, e: &EditIndicator, links: &str) -> (r: String)
    ensures
        r@ == edit_text(label@, e.view(), links@),
{
    let mut out = label.to_owned();
    out.push_str(": ");
    out.push_str(text::write_decimal(e.transactions).as_str());
    out.push_str(" / ");
    out.push_str(text::write_decimal(e.inserted_scalars).as_str());
    out.push_str(" chars (Unicode scalars) [");
    out.push_str(links);
    out.push_str("]");
    out
}

/// A kind of rejection in words.
pub open spec fn rejection_text(
    label: Seq<char>,
    attempts: u64,
    context: Seq<char>,
    links: Seq<char>,
) -> Seq<char> {
    label + ": "@ + text::decimal(attempts as nat) + context + " ["@ + links + "]"@
}

fn display_rejection(label: &str, attempts: u64, context: &str, links: &str) -> (r: String)
    ensures
        r@ == rejection_text(label@, attempts, context@, links@),
{
    let mut out = label.to_owned();
    out.push_str(": ");
    out.push_str(text::write_decimal(attempts).as_str());
    out.push_str(context);
    out.push_str(" [");
    out.push_str(links);
    out.push_str("]");
    out
}

/// The commands of one action in words.
pub open spec fn command_text(c: CommandFacts, links: Seq<char>) -> Seq<char> {
    "Cargo "@ + attempt::action_word(c.action) + ": started "@ + text::decimal(c.started as nat)
        + " complete "@ + text::decimal(c.complete as nat) + " exit-0 "@ + text::decimal(
        c.exit_zero as nat,
    ) + " nonzero "@ + text::decimal(c.nonzero_exit as nat) + " compiler-errors "@ + text::decimal(
        c.compiler_errors as nat,
    ) + " unknown "@ + text::decimal(c.unknown as nat) + " ["@ + links + "]"@
}

fn display_command(c: &CommandIndicator, links: &str) -> (r: String)
    ensures
        r@ == command_text(c.view(), links@),
{
    let mut out = "Cargo ".to_owned();
    out.push_str(attempt::action_name(c.action));
    out.push_str(": started ");
    out.push_str(text::write_decimal(c.started).as_str());
    out.push_str(" complete ");
    out.push_str(text::write_decimal(c.complete).as_str());
    out.push_str(" exit-0 ");
    out.push_str(text::write_decimal(c.exit_zero).as_str());
    out.push_str(" nonzero ");
    out.push_str(text::write_decimal(c.nonzero_exit).as_str());
    out.push_str(" compiler-errors ");
    out.push_str(text::write_decimal(c.compiler_errors).as_str());
    out.push_str(" unknown ");
    out.push_str(text::write_decimal(c.unknown).as_str());
    out.push_str(" [");
    out.push_str(links);
    out.push_str("]");
    out
}

pub open spec fn starts_of(links: Seq<CommandLink>) -> Seq<EventLink> {
    Seq::new(links.len(), |i: int| links[i].start)
}

fn command_starts(links: &Vec<CommandEventLink>) -> (r: Vec<IndicatorEventLink>)
    ensures
        links_view(r@) == starts_of(command_links_view(links@)),
{
    let mut r: Vec<IndicatorEventLink> = Vec::new();
    let mut i: usize = 0;
    while i < links.len()
        invariant
            i <= links@.len(),
            r@.len() == i,
            forall|j: int| 0 <= j < i ==> (#[trigger] r@[j]).view() == links@[j].start.view(),
        decreases links@.len() - i,
    {
        r.push(links[i].start.copy());
        i += 1;
    }
    assert(links_view(r@) =~= starts_of(command_links_view(links@)));
    r
}

/// How links are shown: with sessions, or only the first in short form.
pub open spec fn shown_links(links: Seq<EventLink>, compact: bool) -> Seq<char> {
    if compact {
        compact_text(first_of(links))
    } else {
        links_text(links)
    }
}

fn show_links(links: &Vec<IndicatorEventLink>, compact: bool) -> (r: String)
    ensures
        r@ == shown_links(links_view(links@), compact),
{
    if compact {
        display_first_compact_link(links)
    } else {
        display_links(links)
    }
}

/// Lines on repeated rejections, where there were at least two.
pub open spec fn repeated_lines(f: Facts, compact: bool) -> Seq<Seq<char>> {
    let external = f.rejected_external_change;
    let paste = f.rejected_paste;
    (if external.attempts >= 2 {
        seq![
            rejection_text(
                "repeated rejected external-change attempts"@,
                external.attempts,
                ""@,
                shown_links(external.links, compact),
            ),
        ]
    } else {
        Seq::empty()
    }) + (if paste.attempts >= 2 {
        seq![
            rejection_text(
                "repeated rejected paste attempts"@,
                paste.attempts,
                ""@,
                shown_links(paste.links, compact),
            ),
        ]
    } else {
        Seq::empty()
    })
}

pub open spec fn command_lines(commands: Seq<CommandFacts>, compact: bool) -> Seq<Seq<char>> {
    Seq::new(
        commands.len(),
        |i: int| command_text(commands[i], shown_links(starts_of(commands[i].links), compact)),
    )
}

/// The facts line by line.
pub open spec fn fact_lines(f: Facts) -> Seq<Seq<char>> {
    seq![
        edit_text(
            "allowed internal paste"@,
            f.allowed_internal_paste,
            links_text(f.allowed_internal_paste.links),
        ),
        edit_text(
            "historical origin-unverified paste"@,
            f.historical_origin_unverified_paste,
            links_text(f.historical_origin_unverified_paste.links),
        ),
        edit_text(
            "unknown-origin edits"@,
            f.unknown_origin_edit,
            links_text(f.unknown_origin_edit.links),
        ),
        rejection_text(
            "external-change observations"@,
            f.rejected_external_change.attempts,
            " rejected attempts"@,
            links_text(f.rejected_external_change.links),
        ),
        rejection_text(
            "rejected paste attempts"@,
            f.rejected_paste.attempts,
            ""@,
            links_text(f.rejected_paste.links),
        ),
    ] + repeated_lines(f, false) + command_lines(f.commands, false)
}

fn append_repeated(out: &mut Vec<String>, f: &FactualIndicators, compact: bool)
    ensures
        text::texts(final(out)@) == text::texts(old(out)@) + repeated_lines(f.view(), compact),
{
    let ghost first = text::texts(out@);
    if f.rejected_external_change.attempts >= 2 {
        let links = show_links(&f.rejected_external_change.links, compact);
        out.push(
            display_rejection(
                "repeated rejected external-change attempts",
                f.rejected_external_change.attempts,
                "",
                links.as_str(),
            ),
        );
    }
    if f.rejected_paste.attempts >= 2 {
        let links = show_links(&f.rejected_paste.links, compact);
        out.push(
            display_rejection(
                "repeated rejected paste attempts",
                f.rejected_paste.attempts,
                "",
                links.as_str(),
            ),
        );
    }
    assert(text::texts(out@) =~= first + repeated_lines(f.view(), compact));
}

fn append_commands(out: &mut Vec<String>, commands: &Vec<CommandIndicator>, compact: bool)
    ensures
        text::texts(final(out)@) == text::texts(old(out)@) + command_lines(
            commands_view(commands@),
            compact,
        ),
{
    let ghost first = text::texts(out@);
    let ghost all = commands_view(commands@);
    let ghost lines = command_lines(all, compact);
    let mut i: usize = 0;
    assert(first + lines.take(0) =~= first);
    while i < commands.len()
        invariant
            i <= commands@.len(),
            all == commands_view(commands@),
            lines == command_lines(all, compact),
            text::texts(out@) == first + lines.take(i as int),
        decreases commands@.len() - i,
    {
        assert(all[i as int] == commands@[i as int].view());
        let starts = command_starts(&commands[i].links);
        let links = show_links(&starts, compact);
        let line = display_command(&commands[i], links.as_str());
        let ghost before = out@;
        out.push(line);
        i += 1;
        assert(line@ == lines[i - 1]);
        assert(text::texts(out@) =~= text::texts(before).push(line@));
        assert(text::texts(out@) =~= first + lines.take(i as int));
    }
    assert(lines.take(lines.len() as int) =~= lines);
}

/// Shows the facts line by line.
pub fn display_factual_indicators(factual: &FactualIndicators) -> (r: Vec<String>)
    ensures
        text::texts(r@) == fact_lines(factual.view()),
{
    let mut out: Vec<String> = Vec::new();
    let a = display_links(&factual.allowed_internal_paste.links);
    out.push(display_edit("allowed internal paste", &factual.allowed_internal_paste, a.as_str()));
    let b = display_links(&factual.historical_origin_unverified_paste.links);
    out.push(
        display_edit(
            "historical origin-unverified paste",
            &factual.historical_origin_unverified_paste,
            b.as_str(),
        ),
    );
    let c = display_links(&factual.unknown_origin_edit.links);
    out.push(display_edit("unknown-origin edits", &factual.unknown_origin_edit, c.as_str()));
    let d = display_links(&factual.rejected_external_change.links);
    out.push(
        display_rejection(
            "external-change observations",
            factual.rejected_external_change.attempts,
            " rejected attempts",
            d.as_str(),
        ),
    );
    let e = display_links(&factual.rejected_paste.links);
    out.push(
        display_rejection(
            "rejected paste attempts",
            factual.rejected_paste.attempts,
            "",
            e.as_str(),
        ),
    );
    let ghost five = text::texts(out@);
    append_repeated(&mut out, factual, false);
    append_commands(&mut out, &factual.commands, false);
    assert(text::texts(out@) =~= fact_lines(factual.view()));
    out
}

/// The facts for one line of a terminal.
pub open spec fn terminal_lines(f: Facts) -> Seq<Seq<char>> {
    seq![
        rejection_text(
            "external-change observations"@,
            f.rejected_external_change.attempts,
            " rejected attempts"@,
            compact_text(first_of(f.rejected_external_change.links)),
        ),
        edit_text(
            "unknown-origin edits"@,
            f.unknown_origin_edit,
            compact_text(first_of(f.unknown_origin_edit.links)),
        ),
        edit_text(
            "allowed internal paste"@,
            f.allowed_internal_paste,
            compact_text(first_of(f.allowed_internal_paste.links)),
        ),
        edit_text(
            "historical origin-unverified paste"@,
            f.historical_origin_unverified_paste,
            compact_text(first_of(f.historical_origin_unverified_paste.links)),
        ),
        rejection_text(
            "rejected paste attempts"@,
            f.rejected_paste.attempts,
            ""@,
            compact_text(first_of(f.rejected_paste.links)),
        ),
    ] + repeated_lines(f, true) + command_lines(f.commands, true)
}

/// Pieces with a semicolon between each two.
pub open spec fn listed(pieces: Seq<Seq<char>>) -> Seq<char>
    decreases pieces.len(),
{
    if pieces.len() == 0 {
        Seq::empty()
    } else if pieces.len() == 1 {
        pieces[0]
    } else {
        listed(pieces.drop_last()) + "; "@ + pieces.last()
    }
}

fn join_list(pieces: &Vec<String>) -> (r: String)
    ensures
        r@ == listed(text::texts(pieces@)),
{
    let ghost all = text::texts(pieces@);
    let mut out: String = String::new();
    let mut i: usize = 0;
    while i < pieces.len()
        invariant
            i <= pieces@.len(),
            all == text::texts(pieces@),
            out@ == listed(all.take(i as int)),
        decreases pieces@.len() - i,
    {
        if i > 0 {
            out.push_str("; ");
        }
        out.push_str(pieces[i].as_str());
        i += 1;
        proof {
            let t = all.take(i as int);
            assert(t.drop_last() =~= all.take(i - 1));
            if i == 1 {
                assert(all.take(0) =~= Seq::<Seq<char>>::empty());
                assert(out@ =~= t[0]);
            }
        }
    }
    assert(all.take(all.len() as int) =~= all);
    out
}

/// Shows every count on one line, each with its first link.
pub fn display_terminal_factual_indicators(factual: &FactualIndicators) -> (r: String)
    ensures
        r@ == listed(terminal_lines(factual.view())),
{
    let mut out: Vec<String> = Vec::new();
    let a = display_first_compact_link(&factual.rejected_external_change.links);
    out.push(
        display_rejection(
            "external-change observations",
            factual.rejected_external_change.attempts,
            " rejected attempts",
            a.as_str(),
        ),
    );
    let b = display_first_compact_link(&factual.unknown_origin_edit.links);
    out.push(display_edit("unknown-origin edits", &factual.unknown_origin_edit, b.as_str()));
    let c = display_first_compact_link(&factual.allowed_internal_paste.links);
    out.push(display_edit("allowed internal paste", &factual.allowed_internal_paste, c.as_str()));
    let d = display_first_compact_link(&factual.historical_origin_unverified_paste.links);
    out.push(
        display_edit(
            "historical origin-unverified paste",
            &factual.historical_origin_unverified_paste,
            d.as_str(),
        ),
    );
    let e = display_first_compact_link(&factual.rejected_paste.links);
    out.push(
        display_rejection(
            "rejected paste attempts",
            factual.rejected_paste.attempts,
            "",
            e.as_str(),
        ),
    );
    append_repeated(&mut out, factual, true);
    append_commands(&mut out, &factual.commands, true);
    assert(text::texts(out@) =~= terminal_lines(factual.view()));
    join_list(&out)
}

} // verus!
