//! Counts one attempt event by event.

use crate::cargo_message::DiagnosticEvidenceIssue;
use crate::diagnostics;
use crate::diagnostics::{DiagnosticOutcome, EvidenceRules};
use crate::model::{
    CaptureCompleteness, CommandOutcome, CommandStarted, CommandTermination, ControlledAction,
    ControlledCommandFinished, ControlledCommandOutput, ControlledCommandStarted, EditOrigin,
    EditorTransaction, Event, EventEnvelope, TextEdit,
};
use crate::process_indicators;
use crate::process_indicators::{
    action_index, add_edit_indicator, add_rejection_indicator, checked_add, checked_increment,
    retain_link, retain_unique_link, CommandEventLink, CommandIndicator, FactualIndicators,
    IndicatorEventLink,
};
use crate::process_indicators::{
    command_links_view, commands_view, edit_added, edit_left, fits, index_of, kept, kept_once,
    links_view, no_facts, plus, rejection_added, summed, CommandFacts, CommandLink, EventLink,
    Facts,
};
use crate::process_rule;
use crate::process_rule::{
    OriginScalars, ProcessObservations, ProcessRuleOutcome, ProcessValues, PROCESS_RULE_VERSION,
};
use crate::text;
use vstd::prelude::*;

verus! {

/// What an attempt came to.
#[derive(Debug, PartialEq, Eq)]
pub struct ProcessAttempt {
    pub attempt: u32,
    pub session_id: String,
    pub rule_version: &'static str,
    pub values: ProcessValues,
    pub observations: ProcessObservations,
    pub outcome: ProcessRuleOutcome,
    pub edit_links: Vec<IndicatorEventLink>,
    pub command_links: Vec<IndicatorEventLink>,
}

/// The facts of all attempts, and each attempt.
#[derive(Debug, PartialEq, Eq)]
pub struct ReviewIndicators {
    pub factual: FactualIndicators,
    pub attempts: Vec<ProcessAttempt>,
}

impl Default for ReviewIndicators {
    fn default() -> (r: ReviewIndicators)
        ensures
            r.factual.view() == no_facts(),
            r.attempts@.len() == 0,
    {
        ReviewIndicators { factual: FactualIndicators::default(), attempts: Vec::new() }
    }
}

/// A command that has started and not ended. `retained` is the place of its link.
pub struct ActiveCommand {
    pub start: ControlledCommandStarted,
    pub start_link: IndicatorEventLink,
    pub output: Vec<ControlledCommandOutput>,
    pub retained: Option<usize>,
}

pub struct Active {
    pub start: ControlledCommandStarted,
    pub start_link: EventLink,
    pub output: Seq<ControlledCommandOutput>,
    pub retained: Option<usize>,
}

/// A command of the older record format that has not ended.
pub struct LegacyCommand {
    pub command_id: String,
    pub action: ControlledAction,
    pub retained: Option<usize>,
}

pub struct Legacy {
    pub command_id: Seq<char>,
    pub action: ControlledAction,
    pub retained: Option<usize>,
}

impl LegacyCommand {
    pub open spec fn view(&self) -> Legacy {
        Legacy { command_id: self.command_id@, action: self.action, retained: self.retained }
    }
}

pub open spec fn legacy_view(v: Seq<LegacyCommand>) -> Seq<Legacy> {
    Seq::new(v.len(), |i: int| v[i].view())
}

/// Counts the events of one attempt.
pub struct AttemptIndicatorAccumulator {
    pub segment: u32,
    pub session_id: String,
    pub rules: EvidenceRules,
    pub factual: FactualIndicators,
    pub values: ProcessValues,
    pub unavailable: Option<String>,
    pub edit_links: Vec<IndicatorEventLink>,
    pub command_links: Vec<IndicatorEventLink>,
    pub active_command: Option<ActiveCommand>,
    pub legacy_commands: Vec<LegacyCommand>,
    /// Whether the last complete Check or Test had compiler errors.
    pub last_complete_command: Option<bool>,
    pub qualifying_edit_since_command: bool,
    pub first_check_test_started: bool,
}

pub struct Acc {
    pub segment: u32,
    pub session_id: Seq<char>,
    pub rules: EvidenceRules,
    pub factual: Facts,
    pub values: ProcessValues,
    pub unavailable: Option<Seq<char>>,
    pub edit_links: Seq<EventLink>,
    pub command_links: Seq<EventLink>,
    pub active: Option<Active>,
    pub legacy: Seq<Legacy>,
    pub last_complete: Option<bool>,
    pub edited: bool,
    pub check_started: bool,
}

pub open spec fn active_view(a: Option<ActiveCommand>) -> Option<Active> {
    match a {
        Some(c) => Some(
            Active {
                start: c.start,
                start_link: c.start_link.view(),
                output: c.output@,
                retained: c.retained,
            },
        ),
        None => None,
    }
}

impl AttemptIndicatorAccumulator {
    pub open spec fn view(&self) -> Acc {
        Acc {
            segment: self.segment,
            session_id: self.session_id@,
            rules: self.rules,
            factual: self.factual.view(),
            values: self.values,
            unavailable: process_rule::opt_view(self.unavailable),
            edit_links: links_view(self.edit_links@),
            command_links: links_view(self.command_links@),
            active: active_view(self.active_command),
            legacy: legacy_view(self.legacy_commands@),
            last_complete: self.last_complete_command,
            edited: self.qualifying_edit_since_command,
            check_started: self.first_check_test_started,
        }
    }

    /// There is one command entry for each action.
    pub open spec fn wf(&self) -> bool {
        self.factual.commands@.len() == 10
    }
}

/// The first reason that makes the evidence unavailable stays.
pub open spec fn marked(a: Acc, reason: Seq<char>) -> Acc {
    match a.unavailable {
        Some(_) => a,
        None => Acc { unavailable: Some(reason), ..a },
    }
}

pub open spec fn is_check_test(action: ControlledAction) -> bool {
    action == ControlledAction::Check || action == ControlledAction::Test
}

pub open spec fn action_word(action: ControlledAction) -> Seq<char> {
    match action {
        ControlledAction::Build => "Build"@,
        ControlledAction::Check => "Check"@,
        ControlledAction::Test => "Test"@,
        ControlledAction::Run => "Run"@,
        ControlledAction::Clippy => "Clippy"@,
        ControlledAction::Format => "Format"@,
        ControlledAction::Doc => "Doc"@,
        ControlledAction::Add => "Add"@,
        ControlledAction::Remove => "Remove"@,
        ControlledAction::Update => "Update"@,
    }
}

/// The name of an action.
pub fn action_name(action: ControlledAction) -> (r: &'static str)
    ensures
        r@ == action_word(action),
{
    match action {
        ControlledAction::Build => "Build",
        ControlledAction::Check => "Check",
        ControlledAction::Test => "Test",
        ControlledAction::Run => "Run",
        ControlledAction::Clippy => "Clippy",
        ControlledAction::Format => "Format",
        ControlledAction::Doc => "Doc",
        ControlledAction::Add => "Add",
        ControlledAction::Remove => "Remove",
        ControlledAction::Update => "Update",
    }
}

/// Characters that a list of edits inserts.
pub open spec fn inserted(edits: Seq<TextEdit>) -> nat
    decreases edits.len(),
{
    if edits.len() == 0 {
        0
    } else {
        inserted(edits.drop_last()) + edits.last().inserted_text@.len()
    }
}

pub open spec fn inserted_count(edits: Seq<TextEdit>) -> Result<u64, Seq<char>> {
    if inserted(edits) <= u64::MAX {
        Ok(inserted(edits) as u64)
    } else {
        Err("inserted scalar count overflow"@)
    }
}

proof fn lemma_inserted_prefix(edits: Seq<TextEdit>, n: int)
    requires
        0 <= n <= edits.len(),
    ensures
        inserted(edits.take(n)) <= inserted(edits),
    decreases edits.len(),
{
    if n < edits.len() {
        lemma_inserted_prefix(edits.drop_last(), n);
        assert(edits.drop_last().take(n) =~= edits.take(n));
    } else {
        assert(edits.take(n) =~= edits);
    }
}

/// Number of characters of a text.
pub fn scalar_count(s: &str) -> (r: u64)
    ensures
        r == s@.len(),
{
    let chars = text::chars_of(s);
    chars.len() as u64
}

/// Number of characters that a transaction inserts.
pub fn transaction_inserted_scalars(edits: &Vec<TextEdit>) -> (r: Result<u64, String>)
    ensures
        match inserted_count(edits@) {
            Ok(n) => r == Ok::<u64, String>(n),
            Err(m) => r is Err && r->Err_0@ == m,
        },
{
    let mut total: u64 = 0;
    let mut i: usize = 0;
    assert(edits@.take(0) =~= Seq::<TextEdit>::empty());
    while i < edits.len()
        invariant
            i <= edits@.len(),
            total == inserted(edits@.take(i as int)),
        decreases edits@.len() - i,
    {
        let count = scalar_count(edits[i].inserted_text.as_str());
        proof {
            assert(edits@.take(i as int + 1).drop_last() =~= edits@.take(i as int));
            lemma_inserted_prefix(edits@, i as int + 1);
        }
        match total.checked_add(count) {
            Some(sum) => {
                total = sum;
            },
            None => {
                return Err("inserted scalar count overflow".to_owned());
            },
        }
        i += 1;
    }
    assert(edits@.take(edits@.len() as int) =~= edits@);
    Ok(total)
}

/// Number of characters in front of a byte offset, where it lies between two
/// characters or at an end.
pub open spec fn chars_before(s: Seq<char>, byte: nat) -> Option<nat>
    decreases s.len(),
{
    if byte == 0 {
        Some(0)
    } else if s.len() == 0 || text::char_width(s[0]) > byte {
        None
    } else {
        match chars_before(s.skip(1), (byte - text::char_width(s[0])) as nat) {
            Some(n) => Some(n + 1),
            None => None,
        }
    }
}

/// Number of characters in a byte range, where it is one of the text.
pub open spec fn chars_in_range(s: Seq<char>, start: u64, end: u64) -> Option<nat> {
    match (chars_before(s, start as nat), chars_before(s, end as nat)) {
        (Some(i), Some(j)) => if i <= j {
            Some((j - i) as nat)
        } else {
            None
        },
        _ => None,
    }
}

fn count_before(chars: &Vec<char>, byte: u64) -> (r: Option<usize>)
    ensures
        match r {
            Some(n) => chars_before(chars@, byte as nat) == Some(n as nat),
            None => chars_before(chars@, byte as nat) is None,
        },
{
    let mut left: u64 = byte;
    let mut i: usize = 0;
    assert(chars@.skip(0) =~= chars@);
    while left > 0
        invariant
            i <= chars@.len(),
            match chars_before(chars@.skip(i as int), left as nat) {
                Some(n) => chars_before(chars@, byte as nat) == Some((n + i) as nat),
                None => chars_before(chars@, byte as nat) is None,
            },
        decreases left,
    {
        if i >= chars.len() {
            return None;
        }
        assert(chars@.skip(i as int)[0] == chars@[i as int]);
        assert(chars@.skip(i as int).skip(1) =~= chars@.skip(i as int + 1));
        let width: u64 = text::width_of(chars[i]) as u64;
        if width > left {
            return None;
        }
        left = left - width;
        i += 1;
    }
    Some(i)
}

/// Counts the characters of a byte range.
pub fn range_scalars(s: &str, start: u64, end: u64) -> (r: Option<u64>)
    ensures
        match r {
            Some(n) => chars_in_range(s@, start, end) == Some(n as nat),
            None => chars_in_range(s@, start, end) is None,
        },
{
    let chars = text::chars_of(s);
    match (count_before(&chars, start), count_before(&chars, end)) {
        (Some(i), Some(j)) => if i <= j {
            Some((j - i) as u64)
        } else {
            None
        },
        _ => None,
    }
}

/// The origin counts with more characters of an origin.
pub open spec fn origin_added(o: OriginScalars, origin: EditOrigin, paste: bool, n: u64) -> Result<
    OriginScalars,
    Seq<char>,
> {
    let label = "origin scalar count"@;
    if paste {
        match plus(o.internal_paste, n, label) {
            Ok(internal_paste) => Ok(OriginScalars { internal_paste, ..o }),
            Err(m) => Err(m),
        }
    } else {
        match origin {
            EditOrigin::Keyboard => match plus(o.keyboard, n, label) {
                Ok(keyboard) => Ok(OriginScalars { keyboard, ..o }),
                Err(m) => Err(m),
            },
            EditOrigin::Paste => match plus(o.historical_paste, n, label) {
                Ok(historical_paste) => Ok(OriginScalars { historical_paste, ..o }),
                Err(m) => Err(m),
            },
            EditOrigin::Completion | EditOrigin::AdditionalCompletionEdit => match plus(
                o.completion,
                n,
                label,
            ) {
                Ok(completion) => Ok(OriginScalars { completion, ..o }),
                Err(m) => Err(m),
            },
            EditOrigin::Formatter => match plus(o.formatter, n, label) {
                Ok(formatter) => Ok(OriginScalars { formatter, ..o }),
                Err(m) => Err(m),
            },
            EditOrigin::DependencyTool => match plus(o.dependency_tool, n, label) {
                Ok(dependency_tool) => Ok(OriginScalars { dependency_tool, ..o }),
                Err(m) => Err(m),
            },
            EditOrigin::Unknown => match plus(o.unknown, n, label) {
                Ok(unknown) => Ok(OriginScalars { unknown, ..o }),
                Err(m) => Err(m),
            },
            EditOrigin::CodeAction | EditOrigin::FileReload | EditOrigin::ExternalChange => match plus(
                o.other,
                n,
                label,
            ) {
                Ok(other) => Ok(OriginScalars { other, ..o }),
                Err(m) => Err(m),
            },
            EditOrigin::Undo | EditOrigin::Redo => Ok(o),
        }
    }
}

/// Characters inserted on a forward path.
pub open spec fn forward_seen(a: Acc, origin: EditOrigin, n: u64, paste: bool, link: EventLink) -> Result<
    Acc,
    Seq<char>,
> {
    match plus(a.values.forward_inserted_scalars, n, "J forward-inserted scalar count"@) {
        Err(m) => Err(m),
        Ok(total) => match origin_added(a.values.origins, origin, paste, n) {
            Err(m) => Err(m),
            Ok(origins) => Ok(
                Acc {
                    values: ProcessValues { forward_inserted_scalars: total, origins, ..a.values },
                    edit_links: if n > 0 && (paste || !(origin == EditOrigin::Undo || origin
                        == EditOrigin::Redo)) {
                        kept_once(a.edit_links, link)
                    } else {
                        a.edit_links
                    },
                    ..a
                },
            ),
        },
    }
}

pub open spec fn text_view(pre: Option<&str>) -> Option<Seq<char>> {
    match pre {
        Some(s) => Some(s@),
        None => None,
    }
}

/// A single keyboard edit against the text that it was made on.
pub open spec fn placed_edit(a: Acc, edit: TextEdit, link: EventLink, pre: Option<Seq<char>>) -> Result<
    Acc,
    Seq<char>,
> {
    let n = edit.inserted_text@.len() as u64;
    match pre {
        None => Ok(marked(a, "pre-edit document evidence is unavailable"@)),
        Some(before) => match chars_in_range(before, edit.start_byte, edit.end_byte) {
            None => Ok(marked(a, "pre-edit range evidence is unavailable"@)),
            Some(removed) => match plus(
                a.values.removed_keyboard_scalars,
                removed as u64,
                "R removed Keyboard scalar count"@,
            ) {
                Err(m) => Err(m),
                Ok(r) => {
                    let appends = edit.start_byte == edit.end_byte && edit.end_byte
                        == text::byte_len(before);
                    match plus(
                        a.values.appended_keyboard_scalars,
                        if appends {
                            n
                        } else {
                            0
                        },
                        "A appended Keyboard scalar count"@,
                    ) {
                        Err(m) => Err(m),
                        Ok(appended) => match plus(
                            a.values.before_first_build_scalars,
                            if a.check_started {
                                0
                            } else {
                                n
                            },
                            "B before-build Keyboard scalar count"@,
                        ) {
                            Err(m) => Err(m),
                            Ok(b) => Ok(
                                Acc {
                                    values: ProcessValues {
                                        removed_keyboard_scalars: r,
                                        appended_keyboard_scalars: appended,
                                        before_first_build_scalars: b,
                                        ..a.values
                                    },
                                    edited: true,
                                    edit_links: kept_once(a.edit_links, link),
                                    ..a
                                },
                            ),
                        },
                    }
                },
            },
        },
    }
}

/// A keyboard transaction.
pub open spec fn keyboard_seen(
    a: Acc,
    edits: Seq<TextEdit>,
    link: EventLink,
    pre: Option<Seq<char>>,
) -> Result<Acc, Seq<char>> {
    if edits.len() != 1 {
        Ok(marked(a, "multi-range Keyboard edit occurred"@))
    } else {
        let n = edits[0].inserted_text@.len() as u64;
        match plus(a.values.inserted_keyboard_scalars, n, "I inserted Keyboard scalar count"@) {
            Err(m) => Err(m),
            Ok(i) => match plus(
                a.values.keyboard_transactions,
                if n > 0 {
                    1
                } else {
                    0
                },
                "N Keyboard transaction count"@,
            ) {
                Err(m) => Err(m),
                Ok(t) => placed_edit(
                    Acc {
                        values: ProcessValues {
                            inserted_keyboard_scalars: i,
                            keyboard_transactions: t,
                            ..a.values
                        },
                        ..a
                    },
                    edits[0],
                    link,
                    pre,
                ),
            },
        }
    }
}

/// The facts that an edit of unverified origin adds to.
pub open spec fn origin_facts(f: Facts, origin: EditOrigin, n: u64, link: EventLink) -> Result<
    Facts,
    Seq<char>,
> {
    match origin {
        EditOrigin::Paste => match edit_added(f.historical_origin_unverified_paste, n, link) {
            Ok(e) => Ok(Facts { historical_origin_unverified_paste: e, ..f }),
            Err(m) => Err(m),
        },
        EditOrigin::Unknown => match edit_added(f.unknown_origin_edit, n, link) {
            Ok(e) => Ok(Facts { unknown_origin_edit: e, ..f }),
            Err(m) => Err(m),
        },
        _ => Ok(f),
    }
}

/// A transaction of any origin.
pub open spec fn transaction_seen(
    a: Acc,
    t: EditorTransaction,
    link: EventLink,
    pre: Option<Seq<char>>,
) -> Result<Acc, Seq<char>> {
    match inserted_count(t.edits@) {
        Err(m) => Err(m),
        Ok(n) => match origin_facts(a.factual, t.origin, n, link) {
            Err(m) => Err(m),
            Ok(factual) => {
                let b = Acc { factual, ..a };
                if t.origin == EditOrigin::Undo || t.origin == EditOrigin::Redo {
                    Ok(marked(b, "undo or redo occurred"@))
                } else {
                    match forward_seen(b, t.origin, n, false, link) {
                        Err(m) => Err(m),
                        Ok(c) => if t.origin != EditOrigin::Keyboard {
                            Ok(c)
                        } else {
                            keyboard_seen(c, t.edits@, link, pre)
                        },
                    }
                }
            },
        },
    }
}

/// A paste of text that the session itself held.
pub open spec fn internal_paste_seen(a: Acc, t: EditorTransaction, link: EventLink) -> Result<
    Acc,
    Seq<char>,
> {
    match inserted_count(t.edits@) {
        Err(m) => Err(m),
        Ok(n) => match edit_added(a.factual.allowed_internal_paste, n, link) {
            Err(m) => Err(m),
            Ok(e) => forward_seen(
                Acc { factual: Facts { allowed_internal_paste: e, ..a.factual }, ..a },
                EditOrigin::Paste,
                n,
                true,
                link,
            ),
        },
    }
}

/// An accumulator step: the new state, or the message of the counter that did
/// not fit and what was counted up to it.
pub open spec fn stepped(
    r: Result<(), String>,
    expected: Result<Acc, Seq<char>>,
    left: Acc,
    after: Acc,
) -> bool {
    match expected {
        Ok(a) => r is Ok && after == a,
        Err(m) => r is Err && r->Err_0@ == m && after == left,
    }
}

// What is left where a counter did not fit: everything that was counted before it.

pub open spec fn forward_left(a: Acc, n: u64) -> Acc {
    let total = summed(
        a.values.forward_inserted_scalars,
        n,
        fits(a.values.forward_inserted_scalars, n),
    );
    Acc { values: ProcessValues { forward_inserted_scalars: total, ..a.values }, ..a }
}

pub open spec fn placed_left(a: Acc, edit: TextEdit, pre: Option<Seq<char>>) -> Acc {
    let n = edit.inserted_text@.len() as u64;
    match pre {
        None => a,
        Some(before) => match chars_in_range(before, edit.start_byte, edit.end_byte) {
            None => a,
            Some(removed) => {
                let v = a.values;
                let appends = edit.start_byte == edit.end_byte && edit.end_byte == text::byte_len(
                    before,
                );
                let first = fits(v.removed_keyboard_scalars, removed as u64);
                let second = first && appends && fits(v.appended_keyboard_scalars, n);
                Acc {
                    values: ProcessValues {
                        removed_keyboard_scalars: summed(
                            v.removed_keyboard_scalars,
                            removed as u64,
                            first,
                        ),
                        appended_keyboard_scalars: summed(v.appended_keyboard_scalars, n, second),
                        ..v
                    },
                    ..a
                }
            },
        },
    }
}

pub open spec fn keyboard_left(a: Acc, edits: Seq<TextEdit>, pre: Option<Seq<char>>) -> Acc {
    let n = edits[0].inserted_text@.len() as u64;
    let v = a.values;
    let first = fits(v.inserted_keyboard_scalars, n);
    let second = first && n > 0 && fits(v.keyboard_transactions, 1);
    let b = Acc {
        values: ProcessValues {
            inserted_keyboard_scalars: summed(v.inserted_keyboard_scalars, n, first),
            keyboard_transactions: summed(v.keyboard_transactions, 1, second),
            ..v
        },
        ..a
    };
    if first && (n == 0 || second) {
        placed_left(b, edits[0], pre)
    } else {
        b
    }
}

pub open spec fn origin_facts_left(f: Facts, origin: EditOrigin, n: u64, link: EventLink) -> Facts {
    match origin {
        EditOrigin::Paste => Facts {
            historical_origin_unverified_paste: edit_left(
                f.historical_origin_unverified_paste,
                n,
                link,
            ),
            ..f
        },
        EditOrigin::Unknown => Facts {
            unknown_origin_edit: edit_left(f.unknown_origin_edit, n, link),
            ..f
        },
        _ => f,
    }
}

pub open spec fn transaction_left(
    a: Acc,
    t: EditorTransaction,
    link: EventLink,
    pre: Option<Seq<char>>,
) -> Acc {
    match inserted_count(t.edits@) {
        Err(_) => a,
        Ok(n) => {
            let b = Acc { factual: origin_facts_left(a.factual, t.origin, n, link), ..a };
            if origin_facts(a.factual, t.origin, n, link) is Err {
                b
            } else {
                match forward_seen(b, t.origin, n, false, link) {
                    Err(_) => forward_left(b, n),
                    Ok(c) => keyboard_left(c, t.edits@, pre),
                }
            }
        },
    }
}

pub open spec fn internal_paste_left(a: Acc, t: EditorTransaction, link: EventLink) -> Acc {
    match inserted_count(t.edits@) {
        Err(_) => a,
        Ok(n) => {
            let paste = a.factual.allowed_internal_paste;
            let b = Acc {
                factual: Facts { allowed_internal_paste: edit_left(paste, n, link), ..a.factual },
                ..a
            };
            if edit_added(paste, n, link) is Err {
                b
            } else {
                forward_left(b, n)
            }
        },
    }
}

fn add_origin(o: &mut OriginScalars, origin: EditOrigin, paste: bool, n: u64) -> (r: Result<
    (),
    String,
>)
    ensures
        match origin_added(*old(o), origin, paste, n) {
            Ok(e) => r is Ok && *final(o) == e,
            Err(m) => r is Err && r->Err_0@ == m && *final(o) == *old(o),
        },
{
    let label = "origin scalar count";
    if paste {
        return checked_add(&mut o.internal_paste, n, label);
    }
    match origin {
        EditOrigin::Keyboard => checked_add(&mut o.keyboard, n, label),
        EditOrigin::Paste => checked_add(&mut o.historical_paste, n, label),
        EditOrigin::Completion | EditOrigin::AdditionalCompletionEdit => checked_add(
            &mut o.completion,
            n,
            label,
        ),
        EditOrigin::Formatter => checked_add(&mut o.formatter, n, label),
        EditOrigin::DependencyTool => checked_add(&mut o.dependency_tool, n, label),
        EditOrigin::Unknown => checked_add(&mut o.unknown, n, label),
        EditOrigin::CodeAction | EditOrigin::FileReload | EditOrigin::ExternalChange => checked_add(
            &mut o.other,
            n,
            label,
        ),
        EditOrigin::Undo | EditOrigin::Redo => Ok(()),
    }
}

impl AttemptIndicatorAccumulator {
    /// An attempt of which nothing has been seen.
    pub fn new(segment: u32, session_id: String, rules: EvidenceRules) -> (r: Self)
        ensures
            r.wf(),
            r.view() == (Acc {
                segment,
                session_id: session_id@,
                rules,
                factual: no_facts(),
                values: process_rule::no_values(),
                unavailable: None,
                edit_links: Seq::empty(),
                command_links: Seq::empty(),
                active: None,
                legacy: Seq::empty(),
                last_complete: None,
                edited: false,
                check_started: false,
            }),
    {
        let r = AttemptIndicatorAccumulator {
            segment,
            session_id,
            rules,
            factual: FactualIndicators::default(),
            values: ProcessValues::default(),
            unavailable: None,
            edit_links: Vec::new(),
            command_links: Vec::new(),
            active_command: None,
            legacy_commands: Vec::new(),
            last_complete_command: None,
            qualifying_edit_since_command: false,
            first_check_test_started: false,
        };
        assert(r.view().edit_links =~= Seq::<EventLink>::empty());
        assert(r.view().command_links =~= Seq::<EventLink>::empty());
        assert(r.view().legacy =~= Seq::<Legacy>::empty());
        assert(r.factual.view().commands.len() == 10);
        r
    }

    fn mark_unavailable(&mut self, reason: &str)
        ensures
            final(self).view() == marked(old(self).view(), reason@),
            final(self).wf() == old(self).wf(),
    {
        if self.unavailable.is_none() {
            self.unavailable = Some(reason.to_owned());
        }
    }

    fn observe_forward_scalars(
        &mut self,
        origin: EditOrigin,
        inserted: u64,
        paste: bool,
        link: &IndicatorEventLink,
    ) -> (r: Result<(), String>)
        ensures
            stepped(
                r,
                forward_seen(old(self).view(), origin, inserted, paste, link.view()),
                forward_left(old(self).view(), inserted),
                final(self).view(),
            ),
            final(self).wf() == old(self).wf(),
    {
        checked_add(
            &mut self.values.forward_inserted_scalars,
            inserted,
            "J forward-inserted scalar count",
        )?;
        add_origin(&mut self.values.origins, origin, paste, inserted)?;
        let inverse = !paste && (origin == EditOrigin::Undo || origin == EditOrigin::Redo);
        if inserted > 0 && !inverse {
            retain_unique_link(&mut self.edit_links, link.copy());
        }
        Ok(())
    }

    fn place_edit(
        &mut self,
        edit: &TextEdit,
        link: &IndicatorEventLink,
        pre: Option<&str>,
    ) -> (r: Result<(), String>)
        ensures
            stepped(
                r,
                placed_edit(old(self).view(), *edit, link.view(), text_view(pre)),
                placed_left(old(self).view(), *edit, text_view(pre)),
                final(self).view(),
            ),
            final(self).wf() == old(self).wf(),
    {
        let count = scalar_count(edit.inserted_text.as_str());
        let before = match pre {
            Some(before) => before,
            None => {
                self.mark_unavailable("pre-edit document evidence is unavailable");
                return Ok(());
            },
        };
        let removed = match range_scalars(before, edit.start_byte, edit.end_byte) {
            Some(removed) => removed,
            None => {
                self.mark_unavailable("pre-edit range evidence is unavailable");
                return Ok(());
            },
        };
        checked_add(
            &mut self.values.removed_keyboard_scalars,
            removed,
            "R removed Keyboard scalar count",
        )?;
        if edit.start_byte == edit.end_byte && edit.end_byte == text::str_bytes(before) as u64 {
            checked_add(
                &mut self.values.appended_keyboard_scalars,
                count,
                "A appended Keyboard scalar count",
            )?;
        }
        if !self.first_check_test_started {
            checked_add(
                &mut self.values.before_first_build_scalars,
                count,
                "B before-build Keyboard scalar count",
            )?;
        }
        self.qualifying_edit_since_command = true;
        retain_unique_link(&mut self.edit_links, link.copy());
        Ok(())
    }

    fn observe_keyboard(
        &mut self,
        edits: &Vec<TextEdit>,
        link: &IndicatorEventLink,
        pre: Option<&str>,
    ) -> (r: Result<(), String>)
        ensures
            stepped(
                r,
                keyboard_seen(old(self).view(), edits@, link.view(), text_view(pre)),
                keyboard_left(old(self).view(), edits@, text_view(pre)),
                final(self).view(),
            ),
            final(self).wf() == old(self).wf(),
    {
        if edits.len() != 1 {
            self.mark_unavailable("multi-range Keyboard edit occurred");
            return Ok(());
        }
        let count = scalar_count(edits[0].inserted_text.as_str());
        checked_add(
            &mut self.values.inserted_keyboard_scalars,
            count,
            "I inserted Keyboard scalar count",
        )?;
        if count > 0 {
            checked_increment(
                &mut self.values.keyboard_transactions,
                "N Keyboard transaction count",
            )?;
        }
        self.place_edit(&edits[0], link, pre)
    }

    fn observe_transaction(
        &mut self,
        transaction: &EditorTransaction,
        link: &IndicatorEventLink,
        pre: Option<&str>,
    ) -> (r: Result<(), String>)
        ensures
            stepped(
                r,
                transaction_seen(old(self).view(), *transaction, link.view(), text_view(pre)),
                transaction_left(old(self).view(), *transaction, link.view(), text_view(pre)),
                final(self).view(),
            ),
            final(self).wf() == old(self).wf(),
    {
        let inserted = transaction_inserted_scalars(&transaction.edits)?;
        match transaction.origin {
            EditOrigin::Paste => {
                add_edit_indicator(
                    &mut self.factual.historical_origin_unverified_paste,
                    inserted,
                    link.copy(),
                )?;
            },
            EditOrigin::Unknown => {
                add_edit_indicator(&mut self.factual.unknown_origin_edit, inserted, link.copy())?;
            },
            _ => {},
        }
        if transaction.origin == EditOrigin::Undo || transaction.origin == EditOrigin::Redo {
            self.mark_unavailable("undo or redo occurred");
            return Ok(());
        }
        self.observe_forward_scalars(transaction.origin, inserted, false, link)?;
        if transaction.origin != EditOrigin::Keyboard {
            return Ok(());
        }
        self.observe_keyboard(&transaction.edits, link, pre)
    }

    fn observe_internal_paste(
        &mut self,
        transaction: &EditorTransaction,
        link: &IndicatorEventLink,
    ) -> (r: Result<(), String>)
        ensures
            stepped(
                r,
                internal_paste_seen(old(self).view(), *transaction, link.view()),
                internal_paste_left(old(self).view(), *transaction, link.view()),
                final(self).view(),
            ),
            final(self).wf() == old(self).wf(),
    {
        let inserted = transaction_inserted_scalars(&transaction.edits)?;
        add_edit_indicator(&mut self.factual.allowed_internal_paste, inserted, link.copy())?;
        self.observe_forward_scalars(EditOrigin::Paste, inserted, true, link)
    }
}

/// The command entry of an action replaced.
pub open spec fn with_command(f: Facts, action: ControlledAction, c: CommandFacts) -> Facts {
    Facts { commands: f.commands.update(index_of(action), c), ..f }
}

/// The place that a link put behind these would have, while there is room.
pub open spec fn link_place(links: Seq<CommandLink>) -> Option<usize> {
    if links.len() < process_indicators::MAX_RETAINED_INDICATOR_LINKS {
        Some(links.len() as usize)
    } else {
        None
    }
}

/// A command starts. One that starts while another is active is not followed.
pub open spec fn command_started(a: Acc, start: ControlledCommandStarted, link: EventLink) -> Result<
    Acc,
    Seq<char>,
> {
    if a.active is Some {
        Ok(marked(a, "overlapping unpaired command evidence"@))
    } else {
        let c = a.factual.commands[index_of(start.action)];
        match plus(c.started, 1, "command start count"@) {
            Err(m) => Err(m),
            Ok(started) => Ok(
                Acc {
                    factual: with_command(
                        a.factual,
                        start.action,
                        CommandFacts {
                            started,
                            links: kept(c.links, CommandLink { start: link, finish: None }),
                            ..c
                        },
                    ),
                    check_started: a.check_started || is_check_test(start.action),
                    active: Some(
                        Active {
                            start,
                            start_link: link,
                            output: Seq::empty(),
                            retained: link_place(c.links),
                        },
                    ),
                    ..a
                },
            ),
        }
    }
}

/// A piece of output. Without an active command it says nothing.
pub open spec fn output_seen(a: Acc, output: ControlledCommandOutput) -> Acc {
    match a.active {
        None => a,
        Some(active) => if active.start.command_id@ != output.command_id@ {
            if is_check_test(active.start.action) {
                marked(a, "mismatched command output evidence"@)
            } else {
                a
            }
        } else {
            Acc { active: Some(Active { output: active.output.push(output), ..active }), ..a }
        },
    }
}

pub open spec fn has_argument(argv: Seq<String>, argument: Seq<char>) -> bool {
    exists|i: int| 0 <= i < argv.len() && (#[trigger] argv[i])@ == argument
}

/// A command typed at the console whose output is not the JSON message stream.
pub open spec fn is_natural(start: ControlledCommandStarted) -> bool {
    start.console && !has_argument(start.argv@, "--message-format=json"@)
}

/// An action whose output is Cargo's message stream.
pub open spec fn has_messages(action: ControlledAction) -> bool {
    ||| action == ControlledAction::Build
    ||| action == ControlledAction::Check
    ||| action == ControlledAction::Test
    ||| action == ControlledAction::Run
    ||| action == ControlledAction::Clippy
    ||| action == ControlledAction::Doc
}

pub struct Diagnosis {
    pub outcome: DiagnosticOutcome,
    pub issues: Seq<DiagnosticEvidenceIssue>,
}

/// What the diagnostics of a command say, where it has any.
pub open spec fn diagnosis(
    start: ControlledCommandStarted,
    output: Seq<ControlledCommandOutput>,
    finish: ControlledCommandFinished,
    rules: EvidenceRules,
) -> Option<Diagnosis> {
    if has_messages(start.action) && !is_natural(start) {
        let s = diagnostics::evidence_of(start, output, finish, rules);
        Some(
            Diagnosis {
                outcome: diagnostics::outcome_of(s, finish.outcome),
                issues: s.context.issues,
            },
        )
    } else {
        None
    }
}

/// The evidence of a command is complete: both streams were captured, it exited,
/// and its diagnostics, where it has any, came to a result.
pub open spec fn evidence_known(
    start: ControlledCommandStarted,
    finish: ControlledCommandFinished,
    d: Option<Diagnosis>,
) -> bool {
    &&& finish.stdout.completeness == CaptureCompleteness::Complete
    &&& finish.stderr.completeness == CaptureCompleteness::Complete
    &&& finish.outcome is Exited
    &&& is_natural(start) || d is None || !(d->0.outcome == DiagnosticOutcome::ExecutionFailed
        || d->0.outcome == DiagnosticOutcome::Unknown)
}

pub open spec fn capture_reason(c: CaptureCompleteness) -> Seq<char> {
    match c {
        CaptureCompleteness::Complete => ""@,
        CaptureCompleteness::Truncated => "truncated output"@,
        CaptureCompleteness::ReadFailed => "output read failure"@,
        CaptureCompleteness::Unavailable => "unavailable output"@,
    }
}

pub open spec fn issue_reason(issue: DiagnosticEvidenceIssue) -> Seq<char> {
    match issue {
        DiagnosticEvidenceIssue::Missing => "missing diagnostics"@,
        DiagnosticEvidenceIssue::Malformed => "malformed diagnostics"@,
        DiagnosticEvidenceIssue::Oversized => "oversized diagnostics"@,
        DiagnosticEvidenceIssue::Unexpected => "unparseable diagnostics"@,
        DiagnosticEvidenceIssue::InvalidUtf8 => "invalid UTF-8 diagnostics"@,
        DiagnosticEvidenceIssue::Truncated => "truncated output"@,
        DiagnosticEvidenceIssue::ReadFailed => "output read failure"@,
        DiagnosticEvidenceIssue::Unavailable => "unavailable output"@,
        DiagnosticEvidenceIssue::ExecutionFailed => "incomplete execution"@,
    }
}

/// Why the evidence of a command is not known.
pub open spec fn unknown_reason(finish: ControlledCommandFinished, d: Option<Diagnosis>) -> Seq<
    char,
> {
    match finish.outcome {
        CommandOutcome::LaunchFailed { .. } => "launch failure"@,
        CommandOutcome::Terminated { reason, .. } => if reason == CommandTermination::Deadline {
            "timeout"@
        } else if reason == CommandTermination::Cancelled || reason == CommandTermination::Quit {
            "cancellation"@
        } else {
            "incomplete execution"@
        },
        CommandOutcome::Exited { .. } => if finish.stdout.completeness
            != CaptureCompleteness::Complete {
            capture_reason(finish.stdout.completeness)
        } else if finish.stderr.completeness != CaptureCompleteness::Complete {
            capture_reason(finish.stderr.completeness)
        } else if d is Some && d->0.issues.len() > 0 {
            issue_reason(d->0.issues[0])
        } else {
            "unknown outcome"@
        },
    }
}

pub open spec fn has_compiler_errors(d: Option<Diagnosis>) -> bool {
    d is Some && d->0.outcome == DiagnosticOutcome::CompilerErrors
}

/// The entry of an action after one of its commands has ended.
pub open spec fn settled(
    c: CommandFacts,
    known: bool,
    outcome: CommandOutcome,
    errors: bool,
) -> Result<CommandFacts, Seq<char>> {
    if !known {
        match plus(c.unknown, 1, "unknown command count"@) {
            Ok(unknown) => Ok(CommandFacts { unknown, ..c }),
            Err(m) => Err(m),
        }
    } else {
        let zero = outcome == (CommandOutcome::Exited { code: 0 });
        match plus(c.complete, 1, "complete command count"@) {
            Err(m) => Err(m),
            Ok(complete) => match plus(
                if zero {
                    c.exit_zero
                } else {
                    c.nonzero_exit
                },
                1,
                if zero {
                    "zero-exit command count"@
                } else {
                    "nonzero command count"@
                },
            ) {
                Err(m) => Err(m),
                Ok(n) => match plus(
                    c.compiler_errors,
                    if errors {
                        1
                    } else {
                        0
                    },
                    "compiler-error command count"@,
                ) {
                    Err(m) => Err(m),
                    Ok(compiler_errors) => Ok(
                        CommandFacts {
                            complete,
                            exit_zero: if zero {
                                n
                            } else {
                                c.exit_zero
                            },
                            nonzero_exit: if zero {
                                c.nonzero_exit
                            } else {
                                n
                            },
                            compiler_errors,
                            ..c
                        },
                    ),
                },
            },
        }
    }
}

/// The counts after a complete Check or Test. An edit between two of them is an
/// opportunity for feedback; after compiler errors it is a round of repair.
pub open spec fn check_counted(
    v: ProcessValues,
    action: ControlledAction,
    d: Option<Diagnosis>,
    last: Option<bool>,
    edited: bool,
) -> Result<ProcessValues, Seq<char>> {
    let failed_test = action == ControlledAction::Test && d is Some && d->0.outcome
        == DiagnosticOutcome::NonzeroExit;
    let opportunity = last is Some && edited;
    match plus(v.complete_check_test_commands, 1, "complete Check/Test command count"@) {
        Err(m) => Err(m),
        Ok(complete) => match plus(
            v.compiler_error_commands,
            if has_compiler_errors(d) {
                1
            } else {
                0
            },
            "compiler-error Check/Test count"@,
        ) {
            Err(m) => Err(m),
            Ok(errors) => match plus(
                v.failed_test_commands,
                if failed_test {
                    1
                } else {
                    0
                },
                "failed Test command count"@,
            ) {
                Err(m) => Err(m),
                Ok(failed) => match plus(
                    v.feedback_opportunities,
                    if opportunity {
                        1
                    } else {
                        0
                    },
                    "O feedback opportunity count"@,
                ) {
                    Err(m) => Err(m),
                    Ok(feedback) => match plus(
                        v.error_edit_rebuild_sequences,
                        if opportunity && last->0 {
                            1
                        } else {
                            0
                        },
                        "F error/edit/rebuild count"@,
                    ) {
                        Err(m) => Err(m),
                        Ok(rebuilds) => Ok(
                            ProcessValues {
                                complete_check_test_commands: complete,
                                compiler_error_commands: errors,
                                failed_test_commands: failed,
                                feedback_opportunities: feedback,
                                error_edit_rebuild_sequences: rebuilds,
                                ..v
                            },
                        ),
                    },
                },
            },
        },
    }
}

/// The entry of an action where a counter did not fit when one of its commands
/// ended.
pub open spec fn settled_left(
    c: CommandFacts,
    known: bool,
    outcome: CommandOutcome,
    errors: bool,
) -> CommandFacts {
    if !known {
        c
    } else {
        let zero = outcome == (CommandOutcome::Exited { code: 0 });
        let first = fits(c.complete, 1);
        CommandFacts {
            complete: summed(c.complete, 1, first),
            exit_zero: summed(c.exit_zero, 1, first && zero && fits(c.exit_zero, 1)),
            nonzero_exit: summed(c.nonzero_exit, 1, first && !zero && fits(c.nonzero_exit, 1)),
            ..c
        }
    }
}

/// The counts where one did not fit after a complete Check or Test.
pub open spec fn check_left(
    v: ProcessValues,
    action: ControlledAction,
    d: Option<Diagnosis>,
    last: Option<bool>,
    edited: bool,
) -> ProcessValues {
    let failed_test = action == ControlledAction::Test && d is Some && d->0.outcome
        == DiagnosticOutcome::NonzeroExit;
    let errors = has_compiler_errors(d);
    let opportunity = last is Some && edited;
    let first = fits(v.complete_check_test_commands, 1);
    let second = first && (errors ==> fits(v.compiler_error_commands, 1));
    let third = second && (failed_test ==> fits(v.failed_test_commands, 1));
    let fourth = third && opportunity && fits(v.feedback_opportunities, 1);
    ProcessValues {
        complete_check_test_commands: summed(v.complete_check_test_commands, 1, first),
        compiler_error_commands: summed(v.compiler_error_commands, 1, second && errors),
        failed_test_commands: summed(v.failed_test_commands, 1, third && failed_test),
        feedback_opportunities: summed(v.feedback_opportunities, 1, fourth),
        ..v
    }
}

/// The facts with the end of a command put into its retained link.
pub open spec fn link_closed(
    f: Facts,
    action: ControlledAction,
    retained: Option<usize>,
    link: EventLink,
) -> Facts {
    let c = f.commands[index_of(action)];
    match retained {
        Some(i) => if i < c.links.len() {
            with_command(
                f,
                action,
                CommandFacts {
                    links: c.links.update(
                        i as int,
                        CommandLink { start: c.links[i as int].start, finish: Some(link) },
                    ),
                    ..c
                },
            )
        } else {
            f
        },
        None => f,
    }
}

/// What an ended Check or Test adds to the counts.
pub open spec fn check_settled(
    a: Acc,
    action: ControlledAction,
    known: bool,
    finish: ControlledCommandFinished,
    d: Option<Diagnosis>,
) -> Result<Acc, Seq<char>> {
    if !known {
        Ok(
            marked(
                a,
                "unknown "@ + action_word(action) + " command evidence: "@ + unknown_reason(
                    finish,
                    d,
                ),
            ),
        )
    } else {
        match check_counted(a.values, action, d, a.last_complete, a.edited) {
            Err(m) => Err(m),
            Ok(values) => Ok(
                Acc {
                    values,
                    last_complete: Some(has_compiler_errors(d)),
                    edited: false,
                    ..a
                },
            ),
        }
    }
}

/// The active command has ended.
pub open spec fn active_finished(
    a: Acc,
    active: Active,
    finish: ControlledCommandFinished,
    link: EventLink,
) -> Result<Acc, Seq<char>> {
    let action = active.start.action;
    let closed = link_closed(a.factual, action, active.retained, link);
    let d = diagnosis(active.start, active.output, finish, a.rules);
    let known = evidence_known(active.start, finish, d);
    match settled(
        closed.commands[index_of(action)],
        known,
        finish.outcome,
        has_compiler_errors(d),
    ) {
        Err(m) => Err(m),
        Ok(c) => {
            let b = Acc {
                factual: with_command(closed, action, c),
                command_links: kept(kept(a.command_links, active.start_link), link),
                ..a
            };
            if is_check_test(action) {
                check_settled(b, action, known, finish, d)
            } else {
                Ok(b)
            }
        },
    }
}

/// A command has ended.
pub open spec fn command_finished(a: Acc, finish: ControlledCommandFinished, link: EventLink) -> Result<
    Acc,
    Seq<char>,
> {
    match a.active {
        None => Ok(marked(a, "unpaired command finish evidence"@)),
        Some(active) => {
            let b = Acc { active: None, ..a };
            if active.start.command_id@ != finish.command_id@ {
                Ok(
                    if is_check_test(active.start.action) {
                        marked(b, "mismatched command finish evidence"@)
                    } else {
                        b
                    },
                )
            } else {
                active_finished(b, active, finish, link)
            }
        },
    }
}

pub open spec fn check_settled_left(a: Acc, action: ControlledAction, d: Option<Diagnosis>) -> Acc {
    Acc { values: check_left(a.values, action, d, a.last_complete, a.edited), ..a }
}

pub open spec fn active_left(
    a: Acc,
    active: Active,
    finish: ControlledCommandFinished,
    link: EventLink,
) -> Acc {
    let action = active.start.action;
    let closed = link_closed(a.factual, action, active.retained, link);
    let d = diagnosis(active.start, active.output, finish, a.rules);
    let known = evidence_known(active.start, finish, d);
    let c = closed.commands[index_of(action)];
    let errors = has_compiler_errors(d);
    let b = Acc {
        command_links: kept(kept(a.command_links, active.start_link), link),
        ..a
    };
    match settled(c, known, finish.outcome, errors) {
        Err(_) => Acc {
            factual: with_command(closed, action, settled_left(c, known, finish.outcome, errors)),
            ..b
        },
        Ok(e) => check_settled_left(
            Acc { factual: with_command(closed, action, e), ..b },
            action,
            d,
        ),
    }
}

pub open spec fn finished_left(a: Acc, finish: ControlledCommandFinished, link: EventLink) -> Acc {
    match a.active {
        None => a,
        Some(active) => active_left(Acc { active: None, ..a }, active, finish, link),
    }
}

fn checks_or_tests(action: ControlledAction) -> (r: bool)
    ensures
        r == is_check_test(action),
{
    action == ControlledAction::Check || action == ControlledAction::Test
}

fn is_natural_output_console_command(start: &ControlledCommandStarted) -> (r: bool)
    ensures
        r == is_natural(*start),
{
    if !start.console {
        return false;
    }
    let mut i: usize = 0;
    while i < start.argv.len()
        invariant
            i <= start.argv@.len(),
            start.console,
            forall|j: int| 0 <= j < i ==> (#[trigger] start.argv@[j])@ != "--message-format=json"@,
        decreases start.argv@.len() - i,
    {
        if text::str_eq(start.argv[i].as_str(), "--message-format=json") {
            return false;
        }
        i += 1;
    }
    true
}

/// What diagnostics came to.
pub struct Diagnosed {
    pub outcome: DiagnosticOutcome,
    pub issues: Vec<DiagnosticEvidenceIssue>,
}

pub open spec fn diagnosed_view(d: Option<Diagnosed>) -> Option<Diagnosis> {
    match d {
        Some(r) => Some(Diagnosis { outcome: r.outcome, issues: r.issues@ }),
        None => None,
    }
}

fn diagnose(active: &ActiveCommand, finish: &ControlledCommandFinished, rules: &EvidenceRules) -> (r:
    Option<Diagnosed>)
    ensures
        diagnosed_view(r) == diagnosis(active.start, active.output@, *finish, *rules),
{
    let action = active.start.action;
    let messages = action == ControlledAction::Build || action == ControlledAction::Check || action
        == ControlledAction::Test || action == ControlledAction::Run || action
        == ControlledAction::Clippy || action == ControlledAction::Doc;
    if messages && !is_natural_output_console_command(&active.start) {
        let report = diagnostics::derive_command_diagnostics(
            &active.start,
            active.output.as_slice(),
            finish,
            rules,
        );
        Some(Diagnosed { outcome: report.outcome, issues: report.issues })
    } else {
        None
    }
}

/// Whether the evidence of a command is complete.
pub fn command_evidence_known(
    start: &ControlledCommandStarted,
    finish: &ControlledCommandFinished,
    d: &Option<Diagnosed>,
) -> (r: bool)
    ensures
        r == evidence_known(*start, *finish, diagnosed_view(*d)),
{
    let captured = finish.stdout.completeness == CaptureCompleteness::Complete
        && finish.stderr.completeness == CaptureCompleteness::Complete;
    let exited = match finish.outcome {
        CommandOutcome::Exited { .. } => true,
        _ => false,
    };
    if !captured || !exited {
        return false;
    }
    if is_natural_output_console_command(start) {
        return true;
    }
    match d {
        None => true,
        Some(result) => !(result.outcome == DiagnosticOutcome::ExecutionFailed || result.outcome
            == DiagnosticOutcome::Unknown),
    }
}

fn capture_word(c: CaptureCompleteness) -> (r: &'static str)
    ensures
        r@ == capture_reason(c),
{
    match c {
        CaptureCompleteness::Complete => "",
        CaptureCompleteness::Truncated => "truncated output",
        CaptureCompleteness::ReadFailed => "output read failure",
        CaptureCompleteness::Unavailable => "unavailable output",
    }
}

fn issue_word(issue: DiagnosticEvidenceIssue) -> (r: &'static str)
    ensures
        r@ == issue_reason(issue),
{
    match issue {
        DiagnosticEvidenceIssue::Missing => "missing diagnostics",
        DiagnosticEvidenceIssue::Malformed => "malformed diagnostics",
        DiagnosticEvidenceIssue::Oversized => "oversized diagnostics",
        DiagnosticEvidenceIssue::Unexpected => "unparseable diagnostics",
        DiagnosticEvidenceIssue::InvalidUtf8 => "invalid UTF-8 diagnostics",
        DiagnosticEvidenceIssue::Truncated => "truncated output",
        DiagnosticEvidenceIssue::ReadFailed => "output read failure",
        DiagnosticEvidenceIssue::Unavailable => "unavailable output",
        DiagnosticEvidenceIssue::ExecutionFailed => "incomplete execution",
    }
}

/// Why the evidence of a command is not known.
pub fn command_unknown_reason(finish: &ControlledCommandFinished, d: &Option<Diagnosed>) -> (r:
    &'static str)
    ensures
        r@ == unknown_reason(*finish, diagnosed_view(*d)),
{
    match finish.outcome {
        CommandOutcome::LaunchFailed { .. } => "launch failure",
        CommandOutcome::Terminated { reason, .. } => if reason == CommandTermination::Deadline {
            "timeout"
        } else if reason == CommandTermination::Cancelled || reason == CommandTermination::Quit {
            "cancellation"
        } else {
            "incomplete execution"
        },
        CommandOutcome::Exited { .. } => {
            if finish.stdout.completeness != CaptureCompleteness::Complete {
                capture_word(finish.stdout.completeness)
            } else if finish.stderr.completeness != CaptureCompleteness::Complete {
                capture_word(finish.stderr.completeness)
            } else {
                match d {
                    Some(result) => if result.issues.len() > 0 {
                        issue_word(result.issues[0])
                    } else {
                        "unknown outcome"
                    },
                    None => "unknown outcome",
                }
            }
        },
    }
}

/// The last part of a path that uses either separator.
pub open spec fn last_part(path: Seq<char>) -> Seq<char>
    decreases path.len(),
{
    if path.len() == 0 || path.last() == '/' || path.last() == '\\' {
        Seq::empty()
    } else {
        last_part(path.drop_last()).push(path.last())
    }
}

/// The action of a command of the older record format, where it is one of Cargo's.
pub open spec fn legacy_action_of(program: Seq<char>, arguments: Seq<String>) -> Option<
    ControlledAction,
> {
    if last_part(program) != "cargo"@ || arguments.len() == 0 {
        None
    } else {
        let first = arguments[0]@;
        if first == "build"@ {
            Some(ControlledAction::Build)
        } else if first == "check"@ {
            Some(ControlledAction::Check)
        } else if first == "test"@ {
            Some(ControlledAction::Test)
        } else if first == "run"@ {
            Some(ControlledAction::Run)
        } else if first == "clippy"@ {
            Some(ControlledAction::Clippy)
        } else if first == "fmt"@ {
            Some(ControlledAction::Format)
        } else if first == "doc"@ {
            Some(ControlledAction::Doc)
        } else if first == "add"@ {
            Some(ControlledAction::Add)
        } else if first == "remove"@ {
            Some(ControlledAction::Remove)
        } else if first == "update"@ {
            Some(ControlledAction::Update)
        } else {
            None
        }
    }
}

fn program_name(path: &str) -> (r: String)
    ensures
        r@ == last_part(path@),
{
    let chars = text::chars_of(path);
    let mut from: usize = chars.len();
    assert(chars@.take(from as int) =~= path@);
    assert(chars@.subrange(from as int, from as int) =~= Seq::<char>::empty());
    assert(last_part(chars@.take(from as int)) + Seq::<char>::empty() =~= last_part(path@));
    while from > 0 && chars[from - 1] != '/' && chars[from - 1] != '\\'
        invariant
            from <= chars@.len(),
            last_part(path@) == last_part(chars@.take(from as int)) + chars@.subrange(
                from as int,
                chars@.len() as int,
            ),
        decreases from,
    {
        proof {
            let t = chars@.take(from as int);
            assert(t.drop_last() =~= chars@.take(from - 1));
            let rest = chars@.subrange(from as int, chars@.len() as int);
            assert(last_part(t) =~= last_part(chars@.take(from - 1)).push(chars@[from - 1]));
            assert(chars@.subrange(from - 1, chars@.len() as int) =~= seq![chars@[from - 1]]
                + rest);
            assert(last_part(t) + rest =~= last_part(chars@.take(from - 1)) + (seq![chars@[from
                - 1]] + rest));
        }
        from -= 1;
    }
    assert(last_part(chars@.take(from as int)) =~= Seq::<char>::empty());
    assert(Seq::<char>::empty() + chars@.subrange(from as int, chars@.len() as int)
        =~= chars@.subrange(from as int, chars@.len() as int));
    text::string_of(chars.as_slice(), from, chars.len())
}

/// The action of a command of the older record format.
pub fn legacy_action(start: &CommandStarted) -> (r: Option<ControlledAction>)
    ensures
        r == legacy_action_of(start.program@, start.arguments@),
{
    let program = program_name(start.program.as_str());
    if !text::str_eq(program.as_str(), "cargo") || start.arguments.len() == 0 {
        return None;
    }
    let first = start.arguments[0].as_str();
    if text::str_eq(first, "build") {
        Some(ControlledAction::Build)
    } else if text::str_eq(first, "check") {
        Some(ControlledAction::Check)
    } else if text::str_eq(first, "test") {
        Some(ControlledAction::Test)
    } else if text::str_eq(first, "run") {
        Some(ControlledAction::Run)
    } else if text::str_eq(first, "clippy") {
        Some(ControlledAction::Clippy)
    } else if text::str_eq(first, "fmt") {
        Some(ControlledAction::Format)
    } else if text::str_eq(first, "doc") {
        Some(ControlledAction::Doc)
    } else if text::str_eq(first, "add") {
        Some(ControlledAction::Add)
    } else if text::str_eq(first, "remove") {
        Some(ControlledAction::Remove)
    } else if text::str_eq(first, "update") {
        Some(ControlledAction::Update)
    } else {
        None
    }
}

/// The place of the entry of a command, or the number of entries.
pub open spec fn legacy_place(entries: Seq<Legacy>, id: Seq<char>) -> nat
    decreases entries.len(),
{
    if entries.len() == 0 || entries[0].command_id == id {
        0
    } else {
        1 + legacy_place(entries.skip(1), id)
    }
}

proof fn lemma_legacy_place(entries: Seq<Legacy>, id: Seq<char>, n: int)
    requires
        0 <= n <= entries.len(),
        forall|i: int| 0 <= i < n ==> (#[trigger] entries[i]).command_id != id,
        n < entries.len() ==> entries[n].command_id == id,
    ensures
        legacy_place(entries, id) == n,
    decreases entries.len(),
{
    if n > 0 {
        assert(entries[0].command_id != id);
        assert forall|i: int| 0 <= i < n - 1 implies (#[trigger] entries.skip(1)[i]).command_id
            != id by {
            assert(entries.skip(1)[i] == entries[i + 1]);
        }
        lemma_legacy_place(entries.skip(1), id, n - 1);
    }
}

/// The entries with one for a command, in place of the one that it had.
pub open spec fn legacy_put(entries: Seq<Legacy>, entry: Legacy) -> Seq<Legacy> {
    let i = legacy_place(entries, entry.command_id);
    if i < entries.len() {
        entries.update(i as int, entry)
    } else {
        entries.push(entry)
    }
}

/// A command of the older record format starts. Nothing is known of how complete
/// its capture was.
pub open spec fn legacy_started(a: Acc, start: CommandStarted, link: EventLink) -> Result<
    Acc,
    Seq<char>,
> {
    match legacy_action_of(start.program@, start.arguments@) {
        None => Ok(a),
        Some(action) => {
            let c = a.factual.commands[index_of(action)];
            match plus(c.started, 1, "legacy command start count"@) {
                Err(m) => Err(m),
                Ok(started) => match plus(c.unknown, 1, "unknown legacy command count"@) {
                    Err(m) => Err(m),
                    Ok(unknown) => {
                        let b = Acc {
                            factual: with_command(
                                a.factual,
                                action,
                                CommandFacts {
                                    started,
                                    unknown,
                                    links: kept(
                                        c.links,
                                        CommandLink { start: link, finish: None },
                                    ),
                                    ..c
                                },
                            ),
                            legacy: legacy_put(
                                a.legacy,
                                Legacy {
                                    command_id: start.command_id@,
                                    action,
                                    retained: link_place(c.links),
                                },
                            ),
                            ..a
                        };
                        if is_check_test(action) {
                            Ok(
                                marked(
                                    Acc { check_started: true, ..b },
                                    "unknown "@ + action_word(action)
                                        + " command evidence: historical capture completeness is unavailable"@,
                                ),
                            )
                        } else {
                            Ok(b)
                        }
                    },
                },
            }
        },
    }
}

pub open spec fn legacy_left(a: Acc, start: CommandStarted) -> Acc {
    match legacy_action_of(start.program@, start.arguments@) {
        None => a,
        Some(action) => {
            let c = a.factual.commands[index_of(action)];
            let started = summed(c.started, 1, fits(c.started, 1));
            Acc {
                factual: with_command(a.factual, action, CommandFacts { started, ..c }),
                ..a
            }
        },
    }
}

/// A command of the older record format ends.
pub open spec fn legacy_finished(a: Acc, id: Seq<char>, link: EventLink) -> Acc {
    let i = legacy_place(a.legacy, id);
    if i < a.legacy.len() {
        let entry = a.legacy[i as int];
        Acc {
            legacy: a.legacy.remove(i as int),
            factual: link_closed(a.factual, entry.action, entry.retained, link),
            ..a
        }
    } else {
        a
    }
}

/// One event. Events that say nothing of an attempt leave it as it is.
pub open spec fn observed(a: Acc, envelope: EventEnvelope, pre: Option<Seq<char>>) -> Result<
    Acc,
    Seq<char>,
> {
    let link = EventLink {
        segment: a.segment,
        session_id: envelope.session_id@,
        sequence: envelope.sequence,
    };
    match envelope.event {
        Event::FileEdited(t) => transaction_seen(a, t, link, pre),
        Event::InternalPaste(t) => internal_paste_seen(a, t, link),
        Event::ExternalObservation => match rejection_added(
            a.factual.rejected_external_change,
            link,
        ) {
            Ok(e) => Ok(Acc { factual: Facts { rejected_external_change: e, ..a.factual }, ..a }),
            Err(m) => Err(m),
        },
        Event::PasteRejected => match rejection_added(a.factual.rejected_paste, link) {
            Ok(e) => Ok(Acc { factual: Facts { rejected_paste: e, ..a.factual }, ..a }),
            Err(m) => Err(m),
        },
        Event::FileDeleted => Ok(marked(a, "file deletion occurred"@)),
        Event::FileRenamed => Ok(marked(a, "file rename occurred"@)),
        Event::SessionResumed => Ok(Acc { last_complete: None, edited: false, ..a }),
        Event::ControlledCommandStarted(start) => command_started(a, start, link),
        Event::ControlledCommandOutput(output) => Ok(output_seen(a, output)),
        Event::ControlledCommandFinished(finish) => command_finished(a, finish, link),
        Event::CargoCommandStarted(start) => legacy_started(a, start, link),
        Event::CargoCommandFinished(id) => Ok(legacy_finished(a, id@, link)),
        Event::FileCreated | Event::Other => Ok(a),
    }
}

/// What is left of an event where a counter did not fit.
pub open spec fn observed_left(a: Acc, envelope: EventEnvelope, pre: Option<Seq<char>>) -> Acc {
    let link = EventLink {
        segment: a.segment,
        session_id: envelope.session_id@,
        sequence: envelope.sequence,
    };
    match envelope.event {
        Event::FileEdited(t) => transaction_left(a, t, link, pre),
        Event::InternalPaste(t) => internal_paste_left(a, t, link),
        Event::ControlledCommandFinished(finish) => finished_left(a, finish, link),
        Event::CargoCommandStarted(start) => legacy_left(a, start),
        _ => a,
    }
}

fn begin_link(c: &mut CommandIndicator, link: IndicatorEventLink) -> (r: Option<usize>)
    ensures
        r == link_place(old(c).view().links),
        final(c).view() == (CommandFacts {
            links: kept(
                old(c).view().links,
                CommandLink { start: link.view(), finish: None },
            ),
            ..old(c).view()
        }),
{
    let ghost before = c.links@;
    if c.links.len() < process_indicators::MAX_RETAINED_INDICATOR_LINKS {
        let index = c.links.len();
        let entry = CommandEventLink { start: link, finish: None };
        c.links.push(entry);
        assert(command_links_view(c.links@) =~= command_links_view(before).push(entry.view()));
        Some(index)
    } else {
        None
    }
}

fn count_legacy(c: &mut CommandIndicator) -> (r: Result<(), String>)
    ensures
        final(c).action == old(c).action,
        ({
            let before = old(c).view();
            let first = fits(before.started, 1);
            let second = first && fits(before.unknown, 1);
            &&& final(c).view() == (CommandFacts {
                started: summed(before.started, 1, first),
                unknown: summed(before.unknown, 1, second),
                ..before
            })
            &&& match r {
                Ok(()) => second,
                Err(m) => !second && m@ == process_indicators::overflow(
                    if first {
                        "unknown legacy command count"@
                    } else {
                        "legacy command start count"@
                    },
                ),
            }
        }),
{
    checked_increment(&mut c.started, "legacy command start count")?;
    checked_increment(&mut c.unknown, "unknown legacy command count")
}

fn settle(c: &mut CommandIndicator, known: bool, outcome: CommandOutcome, errors: bool) -> (r: Result<
    (),
    String,
>)
    ensures
        match settled(old(c).view(), known, outcome, errors) {
            Ok(e) => r is Ok && final(c).view() == e,
            Err(m) => r is Err && r->Err_0@ == m && final(c).view() == settled_left(
                old(c).view(),
                known,
                outcome,
                errors,
            ),
        },
{
    if !known {
        return checked_increment(&mut c.unknown, "unknown command count");
    }
    checked_increment(&mut c.complete, "complete command count")?;
    let zero = match outcome {
        CommandOutcome::Exited { code } => code == 0,
        _ => false,
    };
    if zero {
        checked_increment(&mut c.exit_zero, "zero-exit command count")?;
    } else {
        checked_increment(&mut c.nonzero_exit, "nonzero command count")?;
    }
    if errors {
        checked_increment(&mut c.compiler_errors, "compiler-error command count")?;
    }
    Ok(())
}

fn close_link(c: &mut CommandIndicator, i: usize, link: IndicatorEventLink)
    requires
        i < old(c).links@.len(),
    ensures
        final(c).view() == (CommandFacts {
            links: old(c).view().links.update(
                i as int,
                CommandLink {
                    start: old(c).view().links[i as int].start,
                    finish: Some(link.view()),
                },
            ),
            ..old(c).view()
        }),
{
    let ghost before = c.links@;
    let start = c.links[i].start.copy();
    let entry = CommandEventLink { start, finish: Some(link) };
    c.links.set(i, entry);
    assert(command_links_view(c.links@) =~= command_links_view(before).update(
        i as int,
        entry.view(),
    ));
}

fn count_check(
    v: &mut ProcessValues,
    action: ControlledAction,
    d: &Option<Diagnosed>,
    last: Option<bool>,
    edited: bool,
) -> (r: Result<(), String>)
    ensures
        match check_counted(*old(v), action, diagnosed_view(*d), last, edited) {
            Ok(e) => r is Ok && *final(v) == e,
            Err(m) => r is Err && r->Err_0@ == m && *final(v) == check_left(
                *old(v),
                action,
                diagnosed_view(*d),
                last,
                edited,
            ),
        },
{
    checked_increment(&mut v.complete_check_test_commands, "complete Check/Test command count")?;
    if found_errors(d) {
        checked_increment(&mut v.compiler_error_commands, "compiler-error Check/Test count")?;
    }
    let nonzero = match d {
        Some(result) => result.outcome == DiagnosticOutcome::NonzeroExit,
        None => false,
    };
    if action == ControlledAction::Test && nonzero {
        checked_increment(&mut v.failed_test_commands, "failed Test command count")?;
    }
    if let Some(previous) = last {
        if edited {
            checked_increment(&mut v.feedback_opportunities, "O feedback opportunity count")?;
            if previous {
                checked_increment(
                    &mut v.error_edit_rebuild_sequences,
                    "F error/edit/rebuild count",
                )?;
            }
        }
    }
    Ok(())
}

fn found_errors(d: &Option<Diagnosed>) -> (r: bool)
    ensures
        r == has_compiler_errors(diagnosed_view(*d)),
{
    match d {
        Some(result) => result.outcome == DiagnosticOutcome::CompilerErrors,
        None => false,
    }
}

proof fn lemma_one_command(
    before: Seq<CommandIndicator>,
    after: Seq<CommandIndicator>,
    i: int,
)
    requires
        0 <= i < before.len(),
        after.len() == before.len(),
        forall|j: int| 0 <= j < before.len() && j != i ==> after[j] == before[j],
    ensures
        commands_view(after) == commands_view(before).update(i, after[i].view()),
{
    assert(commands_view(after) =~= commands_view(before).update(i, after[i].view()));
}

impl AttemptIndicatorAccumulator {
    fn start_command(&mut self, start: ControlledCommandStarted, link: IndicatorEventLink) -> (r:
        Result<(), String>)
        requires
            old(self).wf(),
        ensures
            stepped(
                r,
                command_started(old(self).view(), start, link.view()),
                old(self).view(),
                final(self).view(),
            ),
            final(self).wf(),
    {
        if self.active_command.is_some() {
            self.mark_unavailable("overlapping unpaired command evidence");
            return Ok(());
        }
        let action = start.action;
        let i = action_index(action);
        let ghost before = self.factual.commands@;
        assert(commands_view(before)[i as int] == before[i as int].view());
        let counted = checked_increment(
            &mut self.factual.commands[i].started,
            "command start count",
        );
        proof {
            lemma_one_command(before, self.factual.commands@, i as int);
            assert(commands_view(before).update(i as int, before[i as int].view()) =~= commands_view(
                before,
            ));
        }
        counted?;
        let retained = begin_link(&mut self.factual.commands[i], link.copy());
        proof {
            lemma_one_command(before, self.factual.commands@, i as int);
        }
        if checks_or_tests(action) {
            self.first_check_test_started = true;
        }
        self.active_command = Some(
            ActiveCommand { start, start_link: link, output: Vec::new(), retained },
        );
        Ok(())
    }

    fn command_output(&mut self, output: ControlledCommandOutput)
        ensures
            final(self).view() == output_seen(old(self).view(), output),
            final(self).wf() == old(self).wf(),
    {
        let ghost before = self.view();
        match self.active_command.take() {
            None => {},
            Some(active) => {
                let mut active = active;
                if !text::str_eq(active.start.command_id.as_str(), output.command_id.as_str()) {
                    let follows = checks_or_tests(active.start.action);
                    self.active_command = Some(active);
                    if follows {
                        self.mark_unavailable("mismatched command output evidence");
                    }
                } else {
                    active.output.push(output);
                    self.active_command = Some(active);
                }
            },
        }
    }

    fn close(&mut self, action: ControlledAction, retained: Option<usize>, link: &IndicatorEventLink)
        requires
            old(self).wf(),
        ensures
            final(self).wf(),
            final(self).view() == (Acc {
                factual: link_closed(
                    old(self).view().factual,
                    action,
                    retained,
                    link.view(),
                ),
                ..old(self).view()
            }),
    {
        let i = action_index(action);
        let ghost before = self.factual.commands@;
        assert(commands_view(before)[i as int] == before[i as int].view());
        if let Some(place) = retained {
            if place < self.factual.commands[i].links.len() {
                close_link(&mut self.factual.commands[i], place, link.copy());
                proof {
                    lemma_one_command(before, self.factual.commands@, i as int);
                }
            }
        }
    }

    fn settle_check(
        &mut self,
        action: ControlledAction,
        known: bool,
        finish: &ControlledCommandFinished,
        d: &Option<Diagnosed>,
    ) -> (r: Result<(), String>)
        ensures
            stepped(
                r,
                check_settled(old(self).view(), action, known, *finish, diagnosed_view(*d)),
                check_settled_left(old(self).view(), action, diagnosed_view(*d)),
                final(self).view(),
            ),
            final(self).wf() == old(self).wf(),
    {
        if !known {
            let mut reason = "unknown ".to_owned();
            reason.push_str(action_name(action));
            reason.push_str(" command evidence: ");
            reason.push_str(command_unknown_reason(finish, d));
            self.mark_unavailable(reason.as_str());
            return Ok(());
        }
        count_check(
            &mut self.values,
            action,
            d,
            self.last_complete_command,
            self.qualifying_edit_since_command,
        )?;
        self.last_complete_command = Some(found_errors(d));
        self.qualifying_edit_since_command = false;
        Ok(())
    }

    fn finish_active(
        &mut self,
        active: ActiveCommand,
        finish: &ControlledCommandFinished,
        link: IndicatorEventLink,
    ) -> (r: Result<(), String>)
        requires
            old(self).wf(),
        ensures
            stepped(
                r,
                active_finished(
                    old(self).view(),
                    active_view(Some(active))->0,
                    *finish,
                    link.view(),
                ),
                active_left(
                    old(self).view(),
                    active_view(Some(active))->0,
                    *finish,
                    link.view(),
                ),
                final(self).view(),
            ),
            final(self).wf(),
    {
        let action = active.start.action;
        let d = diagnose(&active, finish, &self.rules);
        let known = command_evidence_known(&active.start, finish, &d);
        self.close(action, active.retained, &link);
        retain_link(&mut self.command_links, active.start_link);
        retain_link(&mut self.command_links, link);
        let i = action_index(action);
        let ghost before = self.factual.commands@;
        assert(commands_view(before)[i as int] == before[i as int].view());
        let counted = settle(
            &mut self.factual.commands[i],
            known,
            finish.outcome,
            found_errors(&d),
        );
        proof {
            lemma_one_command(before, self.factual.commands@, i as int);
        }
        counted?;
        if !checks_or_tests(action) {
            return Ok(());
        }
        self.settle_check(action, known, finish, &d)
    }

    fn finish_command(&mut self, finish: ControlledCommandFinished, link: IndicatorEventLink) -> (r:
        Result<(), String>)
        requires
            old(self).wf(),
        ensures
            stepped(
                r,
                command_finished(old(self).view(), finish, link.view()),
                finished_left(old(self).view(), finish, link.view()),
                final(self).view(),
            ),
            final(self).wf(),
    {
        match self.active_command.take() {
            None => {
                self.mark_unavailable("unpaired command finish evidence");
                Ok(())
            },
            Some(active) => {
                if !text::str_eq(active.start.command_id.as_str(), finish.command_id.as_str()) {
                    if checks_or_tests(active.start.action) {
                        self.mark_unavailable("mismatched command finish evidence");
                    }
                    return Ok(());
                }
                self.finish_active(active, &finish, link)
            },
        }
    }

    fn find_legacy(&self, id: &str) -> (r: usize)
        ensures
            r == legacy_place(legacy_view(self.legacy_commands@), id@),
            r <= self.legacy_commands@.len(),
    {
        let ghost all = legacy_view(self.legacy_commands@);
        let mut i: usize = 0;
        while i < self.legacy_commands.len()
            invariant
                i <= self.legacy_commands@.len(),
                all == legacy_view(self.legacy_commands@),
                forall|j: int| 0 <= j < i ==> (#[trigger] all[j]).command_id != id@,
            decreases self.legacy_commands@.len() - i,
        {
            assert(all[i as int] == self.legacy_commands@[i as int].view());
            if text::str_eq(self.legacy_commands[i].command_id.as_str(), id) {
                proof {
                    lemma_legacy_place(all, id@, i as int);
                }
                return i;
            }
            i += 1;
        }
        proof {
            lemma_legacy_place(all, id@, i as int);
        }
        i
    }

    fn start_legacy_command(&mut self, start: CommandStarted, link: IndicatorEventLink) -> (r: Result<
        (),
        String,
    >)
        requires
            old(self).wf(),
        ensures
            stepped(
                r,
                legacy_started(old(self).view(), start, link.view()),
                legacy_left(old(self).view(), start),
                final(self).view(),
            ),
            final(self).wf(),
    {
        let action = match legacy_action(&start) {
            Some(action) => action,
            None => {
                return Ok(());
            },
        };
        let i = action_index(action);
        let ghost before = self.factual.commands@;
        assert(commands_view(before)[i as int] == before[i as int].view());
        let counted = count_legacy(&mut self.factual.commands[i]);
        proof {
            lemma_one_command(before, self.factual.commands@, i as int);
        }
        counted?;
        let retained = begin_link(&mut self.factual.commands[i], link);
        proof {
            lemma_one_command(before, self.factual.commands@, i as int);
        }
        let place = self.find_legacy(start.command_id.as_str());
        let entry = LegacyCommand { command_id: start.command_id, action, retained };
        let ghost entries = self.legacy_commands@;
        if place < self.legacy_commands.len() {
            self.legacy_commands.set(place, entry);
            assert(legacy_view(self.legacy_commands@) =~= legacy_view(entries).update(
                place as int,
                entry.view(),
            ));
        } else {
            self.legacy_commands.push(entry);
            assert(legacy_view(self.legacy_commands@) =~= legacy_view(entries).push(entry.view()));
        }
        if checks_or_tests(action) {
            self.first_check_test_started = true;
            let mut reason = "unknown ".to_owned();
            reason.push_str(action_name(action));
            reason.push_str(
                " command evidence: historical capture completeness is unavailable",
            );
            self.mark_unavailable(reason.as_str());
        }
        Ok(())
    }

    fn finish_legacy_command(&mut self, id: &str, link: IndicatorEventLink)
        requires
            old(self).wf(),
        ensures
            final(self).view() == legacy_finished(old(self).view(), id@, link.view()),
            final(self).wf(),
    {
        let place = self.find_legacy(id);
        if place < self.legacy_commands.len() {
            let ghost entries = self.legacy_commands@;
            let entry = self.legacy_commands.remove(place);
            assert(legacy_view(self.legacy_commands@) =~= legacy_view(entries).remove(
                place as int,
            ));
            assert(legacy_view(entries)[place as int] == entry.view());
            self.close(entry.action, entry.retained, &link);
        }
    }

    /// Counts one event. `pre_edit_text` is the text of the document before an
    /// edit, where it is known. After an error the counts are those up to the one
    /// that did not fit.
    pub fn observe(&mut self, envelope: EventEnvelope, pre_edit_text: Option<&str>) -> (r: Result<
        (),
        String,
    >)
        requires
            old(self).wf(),
        ensures
            stepped(
                r,
                observed(old(self).view(), envelope, text_view(pre_edit_text)),
                observed_left(old(self).view(), envelope, text_view(pre_edit_text)),
                final(self).view(),
            ),
            final(self).wf(),
    {
        let link = IndicatorEventLink {
            segment: self.segment,
            session_id: envelope.session_id,
            sequence: envelope.sequence,
        };
        match envelope.event {
            Event::FileEdited(transaction) => {
                self.observe_transaction(&transaction, &link, pre_edit_text)
            },
            Event::InternalPaste(transaction) => self.observe_internal_paste(&transaction, &link),
            Event::ExternalObservation => {
                add_rejection_indicator(&mut self.factual.rejected_external_change, link)
            },
            Event::PasteRejected => add_rejection_indicator(
                &mut self.factual.rejected_paste,
                link,
            ),
            Event::FileDeleted => {
                self.mark_unavailable("file deletion occurred");
                Ok(())
            },
            Event::FileRenamed => {
                self.mark_unavailable("file rename occurred");
                Ok(())
            },
            Event::SessionResumed => {
                self.last_complete_command = None;
                self.qualifying_edit_since_command = false;
                Ok(())
            },
            Event::ControlledCommandStarted(start) => self.start_command(start, link),
            Event::ControlledCommandOutput(output) => {
                self.command_output(output);
                Ok(())
            },
            Event::ControlledCommandFinished(finish) => self.finish_command(finish, link),
            Event::CargoCommandStarted(start) => self.start_legacy_command(start, link),
            Event::CargoCommandFinished(id) => {
                self.finish_legacy_command(id.as_str(), link);
                Ok(())
            },
            Event::FileCreated | Event::Other => Ok(()),
        }
    }
}

/// The counts once no more events come: a command that is still active has an
/// unknown end.
pub open spec fn closed(a: Acc) -> Result<Acc, Seq<char>> {
    match a.active {
        None => Ok(a),
        Some(active) => {
            let action = active.start.action;
            let c = a.factual.commands[index_of(action)];
            match plus(c.unknown, 1, "unknown command count"@) {
                Err(m) => Err(m),
                Ok(unknown) => {
                    let b = Acc {
                        active: None,
                        factual: with_command(
                            a.factual,
                            action,
                            CommandFacts { unknown, ..c },
                        ),
                        ..a
                    };
                    Ok(
                        if is_check_test(action) {
                            marked(
                                b,
                                "unpaired "@ + action_word(action) + " command evidence"@,
                            )
                        } else {
                            b
                        },
                    )
                },
            }
        },
    }
}

impl ProcessAttempt {
    /// The attempt says what the counts come to.
    pub open spec fn reports(&self, a: Acc) -> bool {
        &&& self.attempt == a.segment
        &&& self.session_id@ == a.session_id
        &&& self.rule_version@ == PROCESS_RULE_VERSION@
        &&& self.values == a.values
        &&& self.observations == process_rule::observed(a.values)
        &&& self.outcome.view() == process_rule::rule_outcome(a.values, a.unavailable)
        &&& links_view(self.edit_links@) == a.edit_links
        &&& links_view(self.command_links@) == a.command_links
    }
}

impl AttemptIndicatorAccumulator {
    /// Closes the counts and applies the rule to them.
    pub fn finish(self) -> (r: Result<(FactualIndicators, ProcessAttempt), String>)
        requires
            self.wf(),
        ensures
            match closed(self.view()) {
                Ok(a) => r is Ok && r->Ok_0.0.view() == a.factual && r->Ok_0.1.reports(a),
                Err(m) => r is Err && r->Err_0@ == m,
            },
    {
        let mut acc = self;
        if let Some(active) = acc.active_command.take() {
            let action = active.start.action;
            let i = action_index(action);
            let ghost before = acc.factual.commands@;
            assert(commands_view(before)[i as int] == before[i as int].view());
            checked_increment(&mut acc.factual.commands[i].unknown, "unknown command count")?;
            proof {
                lemma_one_command(before, acc.factual.commands@, i as int);
            }
            if checks_or_tests(action) {
                let mut reason = "unpaired ".to_owned();
                reason.push_str(action_name(action));
                reason.push_str(" command evidence");
                acc.mark_unavailable(reason.as_str());
            }
        }
        let seen = process_rule::observations(&acc.values);
        let outcome = process_rule::evaluate(&acc.values, acc.unavailable);
        Ok(
            (
                acc.factual,
                ProcessAttempt {
                    attempt: acc.segment,
                    session_id: acc.session_id,
                    rule_version: PROCESS_RULE_VERSION,
                    values: acc.values,
                    observations: seen,
                    outcome,
                    edit_links: acc.edit_links,
                    command_links: acc.command_links,
                },
            ),
        )
    }
}

} // verus!
