//! What an attempt counts, said of the events that it saw and their order.

use crate::attempt;
use crate::attempt::Acc;
use crate::diagnostics;
use crate::model::{
    CommandOutcome, CommandStarted, ControlledAction, ControlledCommandFinished,
    ControlledCommandStarted, Event, EventEnvelope, TextEdit,
};
use crate::process_indicators::{CommandFacts, EventLink};
use crate::text;
use vstd::prelude::*;

verus! {

/// An event, and the text of its document before it.
pub struct Seen {
    pub envelope: EventEnvelope,
    pub before: Option<Seq<char>>,
}

/// The counts after one more event.
#[verifier::opaque]
pub open spec fn step(a: Acc, seen: Seen) -> Result<Acc, Seq<char>> {
    attempt::observed(a, seen.envelope, seen.before)
}

/// The counts after the first events of a trace.
pub open spec fn run(first: Acc, trace: Seq<Seen>, n: nat) -> Result<Acc, Seq<char>>
    decreases n,
{
    if n == 0 {
        Ok(first)
    } else {
        match run(first, trace, (n - 1) as nat) {
            Err(m) => Err(m),
            Ok(a) => step(a, trace[n - 1]),
        }
    }
}

/// The counts before an event of a trace, and after it.
pub open spec fn at(first: Acc, trace: Seq<Seen>, i: int) -> Acc {
    run(first, trace, i as nat)->Ok_0
}

/// Whether an event ends a Check or a Test with complete evidence.
pub open spec fn completes(first: Acc, trace: Seq<Seen>, i: int) -> bool {
    at(first, trace, i + 1).values.complete_check_test_commands > at(
        first,
        trace,
        i,
    ).values.complete_check_test_commands
}

/// Whether, moreover, the compiler found errors.
pub open spec fn has_errors(first: Acc, trace: Seq<Seen>, i: int) -> bool {
    at(first, trace, i + 1).values.compiler_error_commands > at(
        first,
        trace,
        i,
    ).values.compiler_error_commands
}

/// Whether an event is one edit of one place from the keyboard.
pub open spec fn is_keyboard_edit(event: Event) -> bool {
    event matches Event::FileEdited(t) && t.origin is Keyboard && t.edits@.len() == 1
}

/// Whether such an edit was made on a text that is known, and at a range of it.
pub open spec fn is_placed_edit(seen: Seen) -> bool {
    &&& is_keyboard_edit(seen.envelope.event)
    &&& seen.before is Some
    &&& exists|i: int, j: int| #[trigger]
        covers(seen.before->0, seen.envelope.event->FileEdited_0.edits@[0], i, j)
}

/// Whether an edit replaces the characters from one place of a text to another.
pub open spec fn covers(s: Seq<char>, edit: TextEdit, i: int, j: int) -> bool {
    &&& 0 <= i <= j <= s.len()
    &&& edit.start_byte == text::byte_len(s.take(i))
    &&& edit.end_byte == text::byte_len(s.take(j))
}

proof fn lemma_chars_before(s: Seq<char>, i: int)
    requires
        0 <= i <= s.len(),
    ensures
        attempt::chars_before(s, text::byte_len(s.take(i))) == Some(i as nat),
    decreases s.len(),
{
    if i == 0 {
        assert(s.take(0) =~= Seq::<char>::empty());
    } else {
        let rest = s.skip(1);
        assert(s.take(i) =~= seq![s[0]] + rest.take(i - 1));
        text::lemma_byte_len_concat(seq![s[0]], rest.take(i - 1));
        assert(seq![s[0]].drop_last() =~= Seq::<char>::empty());
        assert(seq![s[0]].skip(1) =~= Seq::<char>::empty());
        reveal_with_fuel(text::byte_len, 2);
        lemma_chars_before(rest, i - 1);
    }
}

proof fn lemma_covers(s: Seq<char>, edit: TextEdit, i: int, j: int)
    requires
        covers(s, edit, i, j),
    ensures
        attempt::chars_in_range(s, edit.start_byte, edit.end_byte) == Some((j - i) as nat),
{
    lemma_chars_before(s, i);
    lemma_chars_before(s, j);
}

/// What one event does to what is remembered between two builds.
proof fn lemma_step(a: Acc, seen: Seen)
    requires
        step(a, seen) is Ok,
    ensures
        ({
            let b = step(a, seen)->Ok_0;
            let done = b.values.complete_check_test_commands > a.values.complete_check_test_commands;
            let errors = b.values.compiler_error_commands > a.values.compiler_error_commands;
            let chance = a.last_complete is Some && a.edited;
            &&& done ==> !b.edited && b.last_complete == Some(errors)
            &&& !done ==> b.last_complete == a.last_complete || b.last_complete is None
            &&& !done ==> !errors
            &&& b.edited ==> a.edited || is_keyboard_edit(seen.envelope.event)
            &&& done ==> b.values.complete_check_test_commands == a.values.complete_check_test_commands
                + 1
            &&& b.values.feedback_opportunities == a.values.feedback_opportunities + (if done && chance {
                1int
            } else {
                0int
            })
            &&& b.values.error_edit_rebuild_sequences == a.values.error_edit_rebuild_sequences + (
            if done && chance && a.last_complete == Some(true) {
                1int
            } else {
                0int
            })
            &&& done ==> seen.envelope.event is ControlledCommandFinished
            &&& !(seen.envelope.event is SessionResumed) && !done ==> b.last_complete == a.last_complete
                && (a.edited ==> b.edited)
        }),
{
    reveal(step);
}

proof fn lemma_placed(a: Acc, seen: Seen)
    requires
        step(a, seen) is Ok,
        is_placed_edit(seen),
    ensures
        step(a, seen)->Ok_0.edited,
{
    reveal(step);
    let edit = seen.envelope.event->FileEdited_0.edits@[0];
    let (i, j) = choose|i: int, j: int| #[trigger] covers(seen.before->0, edit, i, j);
    lemma_covers(seen.before->0, edit, i, j);
}

proof fn lemma_prefix(first: Acc, trace: Seq<Seen>, m: nat, n: nat)
    requires
        m <= n,
        run(first, trace, n) is Ok,
    ensures
        run(first, trace, m) is Ok,
    decreases n,
{
    if m < n {
        lemma_prefix(first, trace, m, (n - 1) as nat);
    }
}

/// The last of the first events that ends a Check or a Test.
pub open spec fn is_last_completion(first: Acc, trace: Seq<Seen>, n: nat, j: int) -> bool {
    &&& 0 <= j < n
    &&& completes(first, trace, j)
    &&& forall|m: int| j < m < n ==> !(#[trigger] completes(first, trace, m))
}

/// An edit after which no Check or Test ended.
pub open spec fn is_open_edit(first: Acc, trace: Seq<Seen>, n: nat, k: int) -> bool {
    &&& 0 <= k < n
    &&& is_keyboard_edit(trace[k].envelope.event)
    &&& forall|m: int| k < m < n ==> !(#[trigger] completes(first, trace, m))
}

proof fn lemma_remembered(first: Acc, trace: Seq<Seen>, n: nat)
    requires
        run(first, trace, n) is Ok,
        first.last_complete is None,
        !first.edited,
    ensures
        at(first, trace, n as int).edited ==> exists|k: int| #[trigger]
            is_open_edit(first, trace, n, k),
        at(first, trace, n as int).last_complete matches Some(errors) ==> exists|j: int| #[trigger]
            is_last_completion(first, trace, n, j) && errors == has_errors(first, trace, j),
    decreases n,
{
    if n > 0 {
        let p = (n - 1) as nat;
        lemma_prefix(first, trace, p, n);
        lemma_remembered(first, trace, p);
        let a = at(first, trace, p as int);
        let b = at(first, trace, n as int);
        lemma_step(a, trace[p as int]);
        assert(run(first, trace, n) == step(a, trace[p as int]));
        if b.edited {
            if a.edited {
                let k = choose|k: int| #[trigger] is_open_edit(first, trace, p, k);
                assert(!completes(first, trace, p as int));
                assert(is_open_edit(first, trace, n, k));
            } else {
                assert(is_open_edit(first, trace, n, p as int));
            }
        }
        if b.last_complete is Some {
            if completes(first, trace, p as int) {
                assert(is_last_completion(first, trace, n, p as int));
            } else {
                let j = choose|j: int| #[trigger]
                    is_last_completion(first, trace, p, j) && a.last_complete->0 == has_errors(
                        first,
                        trace,
                        j,
                    );
                assert(is_last_completion(first, trace, n, j));
            }
        }
    }
}

/// An opportunity for feedback is counted only where a complete Check or Test is
/// followed by an edit from the keyboard and that by another complete Check or Test; it
/// is a round of repair only where the first of the two found compiler errors. Two of
/// them without an edit between them count for nothing.
pub proof fn feedback_needs_an_edit_between_two_builds(first: Acc, trace: Seq<Seen>, i: nat)
    requires
        run(first, trace, i + 1) is Ok,
        first.last_complete is None,
        !first.edited,
    ensures
        ({
            let a = at(first, trace, i as int).values;
            let b = at(first, trace, i as int + 1).values;
            &&& b.feedback_opportunities != a.feedback_opportunities ==> {
                &&& b.feedback_opportunities == a.feedback_opportunities + 1
                &&& completes(first, trace, i as int)
                &&& exists|j: int, k: int|
                    #![trigger is_last_completion(first, trace, i, j), is_open_edit(first, trace, i, k)]
                    is_last_completion(first, trace, i, j) && is_open_edit(first, trace, i, k) && j < k
            }
            &&& b.error_edit_rebuild_sequences != a.error_edit_rebuild_sequences ==> {
                &&& b.error_edit_rebuild_sequences == a.error_edit_rebuild_sequences + 1
                &&& b.feedback_opportunities == a.feedback_opportunities + 1
                &&& exists|j: int| #[trigger]
                    is_last_completion(first, trace, i, j) && has_errors(first, trace, j)
            }
        }),
{
    lemma_prefix(first, trace, i, i + 1);
    lemma_remembered(first, trace, i);
    let a = at(first, trace, i as int);
    let b = at(first, trace, i as int + 1);
    lemma_step(a, trace[i as int]);
    if b.values.feedback_opportunities != a.values.feedback_opportunities {
        let j = choose|j: int| #[trigger]
            is_last_completion(first, trace, i, j) && a.last_complete->0 == has_errors(first, trace, j);
        let k = choose|k: int| #[trigger] is_open_edit(first, trace, i, k);
        if k <= j {
            if k < j {
                assert(completes(first, trace, j));
            } else {
                lemma_prefix(first, trace, (j + 1) as nat, i + 1);
                lemma_prefix(first, trace, j as nat, i + 1);
                lemma_step(at(first, trace, j), trace[j]);
                assert(run(first, trace, (j + 1) as nat) == step(at(first, trace, j), trace[j]));
            }
            assert(false);
        }
    }
}

proof fn lemma_kept_between(first: Acc, trace: Seq<Seen>, j: nat, n: nat)
    requires
        run(first, trace, n) is Ok,
        j < n,
        forall|m: int| j < m < n ==> !(#[trigger] completes(first, trace, m)),
        forall|m: int| j < m < n ==> !((#[trigger] trace[m]).envelope.event is SessionResumed),
    ensures
        at(first, trace, n as int).last_complete == at(first, trace, j as int + 1).last_complete,
        at(first, trace, j as int + 1).edited ==> at(first, trace, n as int).edited,
    decreases n,
{
    if j + 1 < n {
        let p = (n - 1) as nat;
        lemma_prefix(first, trace, p, n);
        lemma_kept_between(first, trace, j, p);
        lemma_step(at(first, trace, p as int), trace[p as int]);
        assert(!completes(first, trace, p as int));
        assert(!(trace[p as int].envelope.event is SessionResumed));
    }
}

/// Wherever an edit from the keyboard, made on a known text, stands between two
/// complete Checks or Tests of one session, the second of them is an opportunity for
/// feedback; it is a round of repair where the first found compiler errors.
pub proof fn an_edit_between_two_builds_is_counted(
    first: Acc,
    trace: Seq<Seen>,
    j: nat,
    k: nat,
    i: nat,
)
    requires
        run(first, trace, i + 1) is Ok,
        j < k < i,
        completes(first, trace, j as int),
        is_placed_edit(trace[k as int]),
        completes(first, trace, i as int),
        forall|m: int| j < m < i ==> !(#[trigger] completes(first, trace, m)),
        forall|m: int| j < m < i ==> !((#[trigger] trace[m]).envelope.event is SessionResumed),
    ensures
        at(first, trace, i as int + 1).values.feedback_opportunities == at(
            first,
            trace,
            i as int,
        ).values.feedback_opportunities + 1,
        at(first, trace, i as int + 1).values.error_edit_rebuild_sequences == at(
            first,
            trace,
            i as int,
        ).values.error_edit_rebuild_sequences + (if has_errors(first, trace, j as int) {
            1int
        } else {
            0int
        }),
{
    lemma_prefix(first, trace, i, i + 1);
    lemma_prefix(first, trace, j + 1, i + 1);
    lemma_prefix(first, trace, j, i + 1);
    lemma_prefix(first, trace, k + 1, i + 1);
    lemma_prefix(first, trace, k, i + 1);
    lemma_step(at(first, trace, j as int), trace[j as int]);
    lemma_step(at(first, trace, i as int), trace[i as int]);
    lemma_placed(at(first, trace, k as int), trace[k as int]);
    assert(run(first, trace, j + 1) == step(at(first, trace, j as int), trace[j as int]));
    assert(run(first, trace, k + 1) == step(at(first, trace, k as int), trace[k as int]));
    lemma_kept_between(first, trace, j, i);
    lemma_kept_between(first, trace, k, i);
}

// What one event counts.

/// An edit from the keyboard that replaces some characters of a text counts those that
/// it puts in and those that it takes out; it appends where it puts them behind all of
/// the text, and it comes before the first build where no Check or Test has started.
pub proof fn a_keyboard_edit_is_counted(a: Acc, seen: Seen, i: int, j: int)
    requires
        is_keyboard_edit(seen.envelope.event),
        seen.before is Some,
        covers(seen.before->0, seen.envelope.event->FileEdited_0.edits@[0], i, j),
        attempt::observed(a, seen.envelope, seen.before) is Ok,
    ensures
        ({
            let s = seen.before->0;
            let put = seen.envelope.event->FileEdited_0.edits@[0].inserted_text@.len();
            let v = a.values;
            let w = attempt::observed(a, seen.envelope, seen.before)->Ok_0.values;
            &&& w.inserted_keyboard_scalars == v.inserted_keyboard_scalars + put
            &&& w.keyboard_transactions == v.keyboard_transactions + (if put > 0 {
                1int
            } else {
                0int
            })
            &&& w.removed_keyboard_scalars == v.removed_keyboard_scalars + (j - i)
            &&& w.appended_keyboard_scalars == v.appended_keyboard_scalars + (if i == s.len() {
                put as int
            } else {
                0int
            })
            &&& w.before_first_build_scalars == v.before_first_build_scalars + (if a.check_started {
                0int
            } else {
                put as int
            })
            &&& w.forward_inserted_scalars == v.forward_inserted_scalars + put
            &&& w.origins.keyboard == v.origins.keyboard + put
            &&& w.complete_check_test_commands == v.complete_check_test_commands
            &&& w.feedback_opportunities == v.feedback_opportunities
        }),
{
    let s = seen.before->0;
    let edits = seen.envelope.event->FileEdited_0.edits@;
    lemma_covers(s, edits[0], i, j);
    assert(edits.drop_last() =~= Seq::<TextEdit>::empty());
    reveal_with_fuel(attempt::inserted, 2);
    lemma_whole(s, i);
    lemma_whole(s, j);
    text::lemma_byte_len_ge(s.take(j));
    if i < j {
        lemma_shorter(s, i, j);
    }
}

proof fn lemma_shorter(s: Seq<char>, i: int, j: int)
    requires
        0 <= i < j <= s.len(),
    ensures
        text::byte_len(s.take(i)) < text::byte_len(s.take(j)),
{
    assert(s.take(j) =~= s.take(i) + s.subrange(i, j));
    text::lemma_byte_len_concat(s.take(i), s.subrange(i, j));
    text::lemma_byte_len_ge(s.subrange(i, j));
}

proof fn lemma_whole(s: Seq<char>, i: int)
    requires
        0 <= i <= s.len(),
    ensures
        text::byte_len(s.take(i)) == text::byte_len(s) <==> i == s.len(),
{
    assert(s.take(s.len() as int) =~= s);
    if i < s.len() {
        lemma_shorter(s, i, s.len() as int);
    }
}

/// Characters of another origin are counted under that origin and as put in, never as
/// typed.
pub proof fn other_origins_are_told_apart(a: Acc, seen: Seen)
    requires
        seen.envelope.event is FileEdited,
        !(seen.envelope.event->FileEdited_0.origin is Keyboard),
        attempt::observed(a, seen.envelope, seen.before) is Ok,
    ensures
        ({
            let t = seen.envelope.event->FileEdited_0;
            let v = a.values;
            let w = attempt::observed(a, seen.envelope, seen.before)->Ok_0.values;
            let put = attempt::inserted(t.edits@);
            let forward = !(t.origin is Undo || t.origin is Redo);
            let more = |is: bool|
                if is {
                    put as int
                } else {
                    0int
                };
            &&& w.inserted_keyboard_scalars == v.inserted_keyboard_scalars
            &&& w.keyboard_transactions == v.keyboard_transactions
            &&& w.appended_keyboard_scalars == v.appended_keyboard_scalars
            &&& w.removed_keyboard_scalars == v.removed_keyboard_scalars
            &&& w.forward_inserted_scalars == v.forward_inserted_scalars + more(forward)
            &&& w.origins.keyboard == v.origins.keyboard
            &&& w.origins.internal_paste == v.origins.internal_paste
            &&& w.origins.historical_paste == v.origins.historical_paste + more(t.origin is Paste)
            &&& w.origins.completion == v.origins.completion + more(
                t.origin is Completion || t.origin is AdditionalCompletionEdit,
            )
            &&& w.origins.formatter == v.origins.formatter + more(t.origin is Formatter)
            &&& w.origins.dependency_tool == v.origins.dependency_tool + more(
                t.origin is DependencyTool,
            )
            &&& w.origins.unknown == v.origins.unknown + more(t.origin is Unknown)
            &&& w.origins.other == v.origins.other + more(
                t.origin is CodeAction || t.origin is FileReload || t.origin is ExternalChange,
            )
            &&& !forward ==> attempt::observed(a, seen.envelope, seen.before)->Ok_0.unavailable is Some
        }),
{
}

/// Edits put in as many characters as their texts have, added up.
pub proof fn inserted_characters_add_up(left: Seq<TextEdit>, right: Seq<TextEdit>)
    ensures
        attempt::inserted(left + right) == attempt::inserted(left) + attempt::inserted(right),
        left.len() == 1 ==> attempt::inserted(left) == left[0].inserted_text@.len(),
    decreases right.len(),
{
    if left.len() == 1 {
        assert(left.drop_last() =~= Seq::<TextEdit>::empty());
        reveal_with_fuel(attempt::inserted, 2);
    }
    if right.len() == 0 {
        assert(left + right =~= left);
    } else {
        assert((left + right).drop_last() =~= left + right.drop_last());
        inserted_characters_add_up(left, right.drop_last());
    }
}

/// A paste from within, a paste that was refused and a change from outside are each
/// counted once, and under nothing else.
pub proof fn pastes_and_refusals_are_counted_once(a: Acc, seen: Seen)
    requires
        attempt::observed(a, seen.envelope, seen.before) is Ok,
    ensures
        ({
            let f = a.factual;
            let b = attempt::observed(a, seen.envelope, seen.before)->Ok_0;
            let g = b.factual;
            let e = seen.envelope.event;
            &&& g.allowed_internal_paste.transactions == f.allowed_internal_paste.transactions + (
            if e is InternalPaste {
                1int
            } else {
                0int
            })
            &&& g.rejected_paste.attempts == f.rejected_paste.attempts + (if e is PasteRejected {
                1int
            } else {
                0int
            })
            &&& g.rejected_external_change.attempts == f.rejected_external_change.attempts + (
            if e is ExternalObservation {
                1int
            } else {
                0int
            })
            &&& g.historical_origin_unverified_paste.transactions
                == f.historical_origin_unverified_paste.transactions + (if e matches Event::FileEdited(t)
                && t.origin is Paste {
                1int
            } else {
                0int
            })
            &&& g.unknown_origin_edit.transactions == f.unknown_origin_edit.transactions + (
            if e matches Event::FileEdited(t) && t.origin is Unknown {
                1int
            } else {
                0int
            })
            &&& e is InternalPaste ==> b.values.origins.internal_paste
                == a.values.origins.internal_paste + attempt::inserted(e->InternalPaste_0.edits@)
            &&& e is FileDeleted || e is FileRenamed ==> b.unavailable is Some
        }),
{
}

// Commands.

/// The place of an action among the commands.
pub open spec fn row(action: ControlledAction) -> int {
    match action {
        ControlledAction::Build => 0,
        ControlledAction::Check => 1,
        ControlledAction::Test => 2,
        ControlledAction::Run => 3,
        ControlledAction::Clippy => 4,
        ControlledAction::Format => 5,
        ControlledAction::Doc => 6,
        ControlledAction::Add => 7,
        ControlledAction::Remove => 8,
        ControlledAction::Update => 9,
    }
}

/// A command that starts is counted among those of its action, and no other is.
pub proof fn a_start_is_counted_once(a: Acc, seen: Seen, i: int)
    requires
        a.factual.commands.len() == 10,
        a.active is None,
        seen.envelope.event is ControlledCommandStarted,
        attempt::observed(a, seen.envelope, seen.before) is Ok,
        0 <= i < 10,
    ensures
        ({
            let start = seen.envelope.event->ControlledCommandStarted_0;
            let b = attempt::observed(a, seen.envelope, seen.before)->Ok_0;
            let c = a.factual.commands[i];
            let d = b.factual.commands[i];
            &&& d.started == c.started + (if i == row(start.action) {
                1int
            } else {
                0int
            })
            &&& d.complete == c.complete && d.unknown == c.unknown && d.exit_zero == c.exit_zero
                && d.nonzero_exit == c.nonzero_exit && d.compiler_errors == c.compiler_errors
            &&& b.check_started <==> a.check_started || start.action is Check || start.action is Test
            &&& b.values == a.values
            &&& b.active is Some && b.active->0.start == start && b.active->0.output.len() == 0
        }),
{
}

/// Whether a command ran to its exit and all that it printed was captured.
pub open spec fn is_captured(finish: ControlledCommandFinished) -> bool {
    &&& finish.stdout.completeness is Complete
    &&& finish.stderr.completeness is Complete
    &&& finish.outcome is Exited
}

/// A Check or a Test that ended with all of its messages understood is complete: it is
/// counted once, by its exit, and as one with compiler errors exactly where its
/// diagnostics say so; a Test that failed without them is a failed test.
pub proof fn a_complete_build_is_counted(a: Acc, seen: Seen)
    requires
        a.factual.commands.len() == 10,
        a.active is Some,
        a.active->0.start.action is Check || a.active->0.start.action is Test,
        !a.active->0.start.console,
        seen.envelope.event is ControlledCommandFinished,
        seen.envelope.event->ControlledCommandFinished_0.command_id@
            == a.active->0.start.command_id@,
        is_captured(seen.envelope.event->ControlledCommandFinished_0),
        attempt::observed(a, seen.envelope, seen.before) is Ok,
    ensures
        ({
            let active = a.active->0;
            let finish = seen.envelope.event->ControlledCommandFinished_0;
            let outcome = diagnostics::outcome_of(
                diagnostics::evidence_of(active.start, active.output, finish, a.rules),
                finish.outcome,
            );
            let known = !(outcome is Unknown);
            let i = row(active.start.action);
            let b = attempt::observed(a, seen.envelope, seen.before)->Ok_0;
            let c = a.factual.commands[i];
            let d = b.factual.commands[i];
            let one = |is: bool|
                if is {
                    1int
                } else {
                    0int
                };
            let zero = finish.outcome == (CommandOutcome::Exited { code: 0 });
            let errors = outcome is CompilerErrors;
            &&& b.active is None
            &&& d.complete == c.complete + one(known)
            &&& d.unknown == c.unknown + one(!known)
            &&& d.exit_zero == c.exit_zero + one(known && zero)
            &&& d.nonzero_exit == c.nonzero_exit + one(known && !zero)
            &&& d.compiler_errors == c.compiler_errors + one(errors)
            &&& d.started == c.started
            &&& b.values.complete_check_test_commands == a.values.complete_check_test_commands + one(
                known,
            )
            &&& b.values.compiler_error_commands == a.values.compiler_error_commands + one(errors)
            &&& b.values.failed_test_commands == a.values.failed_test_commands + one(
                active.start.action is Test && outcome is NonzeroExit,
            )
            &&& b.values.inserted_keyboard_scalars == a.values.inserted_keyboard_scalars
            &&& !known ==> b.unavailable is Some
            &&& known ==> b.unavailable == a.unavailable
        }),
{
    let active = a.active->0;
    let finish = seen.envelope.event->ControlledCommandFinished_0;
    let s = diagnostics::evidence_of(active.start, active.output, finish, a.rules);
    assert(finish.outcome is Exited);
}

/// Whether the counts of an action agree: what ran and was followed is complete, by one
/// of two exits, or unknown, and there is no more of both than was started.
pub open spec fn row_agrees(c: CommandFacts, is_active: bool) -> bool {
    &&& c.complete == c.exit_zero + c.nonzero_exit
    &&& c.compiler_errors <= c.complete
    &&& c.complete + c.unknown + (if is_active {
        1int
    } else {
        0int
    }) <= c.started
}

pub open spec fn is_active(a: Acc, i: int) -> bool {
    a.active is Some && row(a.active->0.start.action) == i
}

pub open spec fn commands_agree(a: Acc) -> bool {
    &&& a.factual.commands.len() == 10
    &&& forall|i: int| 0 <= i < 10 ==> row_agrees(#[trigger] a.factual.commands[i], is_active(a, i))
}

proof fn lemma_finish_agrees(a: Acc, finish: ControlledCommandFinished, link: EventLink)
    requires
        commands_agree(a),
    ensures
        attempt::command_finished(a, finish, link) matches Ok(b) ==> commands_agree(b),
{
    match attempt::command_finished(a, finish, link) {
        Ok(b) => {
            if a.active is Some {
                let active = a.active->0;
                let k = row(active.start.action);
                assert(row_agrees(a.factual.commands[k], is_active(a, k)));
                assert forall|i: int| 0 <= i < 10 implies row_agrees(
                    #[trigger] b.factual.commands[i],
                    is_active(b, i),
                ) by {
                    assert(row_agrees(a.factual.commands[i], is_active(a, i)));
                    if active.start.command_id@ == finish.command_id@ {
                        let d = attempt::diagnosis(active.start, active.output, finish, a.rules);
                        let known = attempt::evidence_known(active.start, finish, d);
                        let closed = attempt::link_closed(
                            a.factual,
                            active.start.action,
                            active.retained,
                            link,
                        );
                        let c = attempt::settled(
                            closed.commands[k],
                            known,
                            finish.outcome,
                            attempt::has_compiler_errors(d),
                        );
                        assert(c is Ok);
                        assert(b.factual.commands == closed.commands.update(k, c->Ok_0));
                    }
                }
            }
        },
        Err(_) => {},
    }
}

proof fn lemma_start_agrees(a: Acc, start: ControlledCommandStarted, link: EventLink)
    requires
        commands_agree(a),
    ensures
        attempt::command_started(a, start, link) matches Ok(b) ==> commands_agree(b),
{
    match attempt::command_started(a, start, link) {
        Ok(b) => {
            assert forall|i: int| 0 <= i < 10 implies row_agrees(
                #[trigger] b.factual.commands[i],
                is_active(b, i),
            ) by {
                assert(row_agrees(a.factual.commands[i], is_active(a, i)));
            }
        },
        Err(_) => {},
    }
}

proof fn lemma_legacy_agrees(a: Acc, start: CommandStarted, id: Seq<char>, link: EventLink)
    requires
        commands_agree(a),
    ensures
        attempt::legacy_started(a, start, link) matches Ok(b) ==> commands_agree(b),
        commands_agree(attempt::legacy_finished(a, id, link)),
{
    match attempt::legacy_started(a, start, link) {
        Ok(b) => {
            assert forall|i: int| 0 <= i < 10 implies row_agrees(
                #[trigger] b.factual.commands[i],
                is_active(b, i),
            ) by {
                assert(row_agrees(a.factual.commands[i], is_active(a, i)));
            }
        },
        Err(_) => {},
    }
    let b = attempt::legacy_finished(a, id, link);
    assert forall|i: int| 0 <= i < 10 implies row_agrees(
        #[trigger] b.factual.commands[i],
        is_active(b, i),
    ) by {
        assert(row_agrees(a.factual.commands[i], is_active(a, i)));
    }
}

proof fn lemma_same_commands(a: Acc, b: Acc)
    requires
        commands_agree(a),
        b.factual.commands == a.factual.commands,
        b.active is Some == a.active is Some,
        a.active is Some ==> b.active->0.start == a.active->0.start,
    ensures
        commands_agree(b),
{
    assert forall|i: int| 0 <= i < 10 implies row_agrees(
        #[trigger] b.factual.commands[i],
        is_active(b, i),
    ) by {
        assert(row_agrees(a.factual.commands[i], is_active(a, i)));
    }
}

/// The counts of commands agree after every event.
pub proof fn command_counts_keep_agreeing(a: Acc, seen: Seen)
    requires
        commands_agree(a),
    ensures
        attempt::observed(a, seen.envelope, seen.before) matches Ok(b) ==> commands_agree(b),
        attempt::closed(a) matches Ok(b) ==> commands_agree(b),
{
    let link = EventLink {
        segment: a.segment,
        session_id: seen.envelope.session_id@,
        sequence: seen.envelope.sequence,
    };
    match seen.envelope.event {
        Event::ControlledCommandStarted(start) => {
            lemma_start_agrees(a, start, link);
        },
        Event::ControlledCommandFinished(finish) => {
            lemma_finish_agrees(a, finish, link);
        },
        Event::CargoCommandStarted(start) => {
            lemma_legacy_agrees(a, start, Seq::empty(), link);
        },
        Event::CargoCommandFinished(id) => {
            lemma_legacy_agrees(a, arbitrary(), id@, link);
        },
        _ => {
            match attempt::observed(a, seen.envelope, seen.before) {
                Ok(b) => {
                    lemma_same_commands(a, b);
                },
                Err(_) => {},
            }
        },
    }
    match attempt::closed(a) {
        Ok(b) => {
            assert forall|i: int| 0 <= i < 10 implies row_agrees(
                #[trigger] b.factual.commands[i],
                is_active(b, i),
            ) by {
                assert(row_agrees(a.factual.commands[i], is_active(a, i)));
            }
        },
        Err(_) => {},
    }
}

} // verus!
