//! How a change and the end of a session go through, from their first step to their last.

use crate::milestone_a;
use crate::milestone_a::Fault;
use crate::milestone_change;
use crate::milestone_change::{ChangeEvent, ChangeKind, Changing, Stage};
use crate::milestone_finish;
use crate::milestone_finish::{CheckpointJob, EndStage, FinishEvent};
use crate::milestone_replay::SelectionState;
use crate::milestone_session;
use crate::milestone_session::{
    EventPlan, FinishPlan, JournalWriteCompletion, JournalWriteKind, Ledger, TerminalLengths,
};
use crate::milestone_start;
use crate::milestone_start::{
    Entry, EntryKind, FileIdentity, StartEvent, StartPhase, Starting,
};
use crate::model::TextEdit;
use crate::text;
use vstd::prelude::*;

verus! {

// What is charged.

/// What a state of a file costs: four bytes for each of the file and a fixed part.
pub open spec fn state_cost(layout: u64, length: usize) -> int {
    layout + 4 * length + 3078
}

/// What an event costs: two bytes for each of its record and a fixed part.
pub open spec fn event_cost(layout: u64, encoded: usize) -> int {
    layout + 2 * encoded + 128
}

/// A state and an event are charged what they cost, wherever the sum can be written
/// down.
pub proof fn a_charge_is_the_cost(layout: u64, n: usize)
    ensures
        state_cost(layout, n) <= u64::MAX ==> milestone_a::state_charge(layout, n) == Ok::<
            u64,
            Fault,
        >(state_cost(layout, n) as u64),
        state_cost(layout, n) > u64::MAX ==> milestone_a::state_charge(layout, n) is Err,
        event_cost(layout, n) <= u64::MAX ==> milestone_a::event_charge(layout, n) == Ok::<
            u64,
            Fault,
        >(event_cost(layout, n) as u64),
        event_cost(layout, n) > u64::MAX ==> milestone_a::event_charge(layout, n) is Err,
{
}

/// A change is admitted where the file stays within its bound, and the event, the
/// state and the two records that end a session all still fit: 256 events, 64
/// mebibytes of states and 32 mebibytes of events.
pub proof fn a_change_is_admitted_where_the_end_still_fits(
    l: Ledger,
    length: usize,
    encoded: usize,
    lengths: TerminalLengths,
)
    ensures
        milestone_session::admitted(l, length, encoded, lengths) is Ok <==> {
            &&& length <= l.rules.max_source_bytes
            &&& l.events + 3 <= 256
            &&& l.state_bytes + 3 * state_cost(l.rules.state_layout, length) <= 67_108_864
            &&& l.event_bytes + event_cost(l.rules.event_layout, encoded) + event_cost(
                l.rules.event_layout,
                lengths.checkpoint,
            ) + event_cost(l.rules.event_layout, lengths.finalization) <= 33_554_432
        },
{
    a_charge_is_the_cost(l.rules.state_layout, length);
    a_charge_is_the_cost(l.rules.event_layout, encoded);
    a_charge_is_the_cost(l.rules.event_layout, lengths.checkpoint);
    a_charge_is_the_cost(l.rules.event_layout, lengths.finalization);
}

// A change.

/// A change that is made is recorded: its record is planned as the next event,
/// written, and charged with the state that it leads to.
pub proof fn a_change_that_is_made_is_recorded(
    c: Changing,
    l: Ledger,
    encoded: usize,
    length: usize,
    lengths: TerminalLengths,
    event_hash: crate::model::Hash,
)
    requires
        c.stage is Encode,
        milestone_session::admitted(l, length, encoded, lengths) is Ok,
        c.kind is Edit ==> c.length == length,
        l.failure is None,
        l.writer,
        l.millis < u64::MAX,
    ensures
        ({
            let (a, m) = milestone_change::change_step(c, l, ChangeEvent::Captured { encoded });
            let written = JournalWriteCompletion::Persisted {
                kind: JournalWriteKind::Event,
                sequence: (l.events + 1) as u64,
                event_hash,
            };
            let (b, n) = milestone_change::change_step(a, m, ChangeEvent::Written(Ok(written)));
            let (d, o) = milestone_change::change_step(b, n, ChangeEvent::Measured { length });
            &&& a.stage is Write
            &&& b.stage is Measure
            &&& d.stage == Stage::Over(Ok::<bool, Fault>(true))
            &&& o.events == l.events + 1
            &&& o.event_bytes == l.event_bytes + event_cost(l.rules.event_layout, encoded)
            &&& o.state_bytes == l.state_bytes + state_cost(l.rules.state_layout, length)
            &&& o.millis == l.millis + 1
            &&& o.failure is None
            &&& o.writer
            &&& o.rules == l.rules
        }),
{
    a_change_is_admitted_where_the_end_still_fits(l, length, encoded, lengths);
    a_charge_is_the_cost(l.rules.state_layout, length);
    a_charge_is_the_cost(l.rules.event_layout, encoded);
    let (a, m) = milestone_change::change_step(c, l, ChangeEvent::Captured { encoded });
    assert(a.stage == Stage::Write(
        EventPlan {
            sequence: (l.events + 1) as u64,
            millis: l.millis,
            retained: (l.event_bytes + event_cost(l.rules.event_layout, encoded)) as u64,
        },
    ));
}

/// A change that was admitted is made, and then it is recorded where it changed
/// something. An edit that changed nothing is over without a record.
pub proof fn an_admitted_change_is_made(
    c: Changing,
    l: Ledger,
    encoded: usize,
    lengths: TerminalLengths,
)
    requires
        c.stage is Admit,
    ensures
        ({
            let (a, m) = milestone_change::change_step(
                c,
                l,
                ChangeEvent::Encoded { encoded, lengths },
            );
            &&& m == l
            &&& a.stage is Apply <==> milestone_session::admitted(l, c.length, encoded, lengths)
                is Ok
            &&& milestone_change::change_step(
                a,
                l,
                ChangeEvent::Edited { changed: true, captured: 1 },
            ).0.stage is Encode
            &&& milestone_change::change_step(
                a,
                l,
                ChangeEvent::Edited { changed: false, captured: 0 },
            ) == (Changing { stage: Stage::Over(Ok::<bool, Fault>(false)), ..a }, l)
        }),
{
}

/// A movement is recorded where it led where it was to lead. A selection of everything
/// is recorded where it differs from the one before.
pub proof fn a_movement_is_recorded_where_it_leads(
    c: Changing,
    l: Ledger,
    selection: SelectionState,
)
    requires
        c.stage is Apply,
    ensures
        ({
            let (a, m) = milestone_change::change_step(c, l, ChangeEvent::Selected { selection });
            &&& c.kind matches ChangeKind::Movement { after } ==> (a.stage is Encode <==> selection
                == after)
            &&& c.kind matches ChangeKind::Movement { after } ==> (selection != after ==> (a.stage
                matches Stage::Over(r) && r is Err) && m.failure is Some)
            &&& c.kind matches ChangeKind::Whole { before } ==> (a.stage is Encode <==> selection
                != before)
            &&& c.kind matches ChangeKind::Whole { before } ==> (selection == before ==> a.stage
                == Stage::Over(Ok::<bool, Fault>(false)) && m == l)
        }),
{
}

/// An edit of a sound session that changes something is admitted with the length that
/// it leads to. One that would change nothing is over at once.
pub proof fn an_edit_begins_with_the_length_it_leads_to(
    l: Ledger,
    operation: Seq<char>,
    edit: TextEdit,
    length: usize,
)
    requires
        l.failure is None,
        edit.start_byte <= edit.end_byte <= length,
        length - (edit.end_byte - edit.start_byte) + text::byte_len(edit.inserted_text@)
            <= usize::MAX,
        text::byte_len(edit.inserted_text@) <= usize::MAX,
    ensures
        milestone_change::edit_begun(l, operation, 0, Some(seq![edit]), length) == (Changing {
            operation,
            kind: ChangeKind::Edit,
            length: (length - (edit.end_byte - edit.start_byte) + text::byte_len(
                edit.inserted_text@,
            )) as usize,
            stage: Stage::Admit,
        }),
        milestone_change::edit_begun(l, operation, 0, None, length).stage == Stage::Over(
            Ok::<bool, Fault>(false),
        ),
{
    reveal_with_fuel(milestone_a::removed_bytes, 2);
    reveal_with_fuel(milestone_a::inserted_bytes, 2);
    reveal_with_fuel(milestone_a::edit_sums, 2);
    assert(seq![edit].drop_last() =~= Seq::empty());
    assert(seq![edit].take(1) =~= seq![edit]);
}

// The end.

/// The end of a sound session goes through where it was planned: a checkpoint and the
/// last record are written as the next two events, the writer is closed, and the
/// session is left with the hash of its last record.
pub proof fn a_planned_end_is_recorded(
    l: Ledger,
    length: usize,
    lengths: TerminalLengths,
    first: crate::model::Hash,
    last: crate::model::Hash,
    ended: bool,
)
    requires
        milestone_session::end_planned(l, length, lengths) is Ok,
        l.failure is None,
        l.writer,
        l.millis < u64::MAX - 1,
    ensures
        ({
            let plan = milestone_session::end_planned(l, length, lengths)->Ok_0;
            let (a, la) = milestone_finish::end_step(
                length,
                EndStage::Replace(plan),
                l,
                FinishEvent::Done,
            );
            let checkpoint = JournalWriteCompletion::Persisted {
                kind: JournalWriteKind::Checkpoint,
                sequence: (l.events + 1) as u64,
                event_hash: first,
            };
            let (b, lb) = milestone_finish::end_step(
                length,
                a,
                la,
                FinishEvent::Written(Ok(checkpoint)),
            );
            let (c, lc) = milestone_finish::end_step(
                length,
                b,
                lb,
                FinishEvent::Encoded { encoded: lengths.finalization },
            );
            let finalization = JournalWriteCompletion::Persisted {
                kind: JournalWriteKind::Event,
                sequence: (l.events + 2) as u64,
                event_hash: last,
            };
            let (d, ld) = milestone_finish::end_step(
                length,
                c,
                lc,
                FinishEvent::Written(Ok(finalization)),
            );
            &&& a is Checkpoint
            &&& b is Encode
            &&& c is Finalize
            &&& d == EndStage::Close(last)
            &&& ld.events == l.events + 2
            &&& !ld.writer
            &&& ld.failure is None
            &&& ld.state_bytes == l.state_bytes + 2 * state_cost(l.rules.state_layout, length)
            &&& ld.event_bytes == l.event_bytes + event_cost(
                l.rules.event_layout,
                lengths.checkpoint,
            ) + event_cost(l.rules.event_layout, lengths.finalization)
            &&& milestone_finish::end_step(length, d, ld, FinishEvent::Done) == (
                EndStage::End(last),
                ld,
            )
            &&& milestone_finish::end_step(
                length,
                EndStage::End(last),
                ld,
                FinishEvent::Ended(ended),
            ) == (EndStage::Leave(last, ended), ld)
        }),
{
    a_charge_is_the_cost(l.rules.state_layout, length);
    a_charge_is_the_cost(l.rules.event_layout, lengths.checkpoint);
    a_charge_is_the_cost(l.rules.event_layout, lengths.finalization);
    let plan: FinishPlan = milestone_session::end_planned(l, length, lengths)->Ok_0;
    let (a, la) = milestone_finish::end_step(
        length,
        EndStage::Replace(plan),
        l,
        FinishEvent::Done,
    );
    assert(a == EndStage::Checkpoint(
        plan,
        CheckpointJob { sequence: (l.events + 1) as u64, millis: l.millis },
    ));
    let checkpoint = JournalWriteCompletion::Persisted {
        kind: JournalWriteKind::Checkpoint,
        sequence: (l.events + 1) as u64,
        event_hash: first,
    };
    let (b, lb) = milestone_finish::end_step(
        length,
        a,
        la,
        FinishEvent::Written(Ok(checkpoint)),
    );
    assert(b == EndStage::Encode(plan, (l.events + 2) as u64));
    let (c, lc) = milestone_finish::end_step(
        length,
        b,
        lb,
        FinishEvent::Encoded { encoded: lengths.finalization },
    );
    assert(c is Finalize);
}

/// An end begins where the session is sound, nothing waits to be written and the
/// editor has what is on disk.
pub proof fn an_end_begins_where_nothing_waits(
    l: Ledger,
    captured: u64,
    editor: crate::model::Hash,
    disk: crate::model::Hash,
)
    ensures
        milestone_finish::end_begun(l, captured, editor, disk) is Hash <==> l.failure is None
            && captured == 0 && editor.bytes@ == disk.bytes@,
        milestone_finish::end_begun(l, captured, editor, disk) is Hash
            || milestone_finish::end_begun(l, captured, editor, disk) is Over,
{
}

// The start.

/// Whether a phase of the start comes right before another.
pub open spec fn comes_before(a: StartPhase, b: StartPhase) -> bool {
    ||| a is Directory && b is Source
    ||| a is Source && b is Journal
    ||| a is Journal && b is Writer
    ||| a is Writer && b is Budget
    ||| a is Budget && b is Genesis
    ||| a is Genesis && b is Identities
    ||| a is Identities && b is Running
}

/// A start goes through its phases one by one, and each event that succeeds leads to
/// the next.
pub proof fn a_start_goes_step_by_step(s: Starting, event: StartEvent)
    requires
        milestone_start::expected(s.phase, event),
    ensures
        match milestone_start::started(s, event) {
            Ok(t) => comes_before(s.phase, t.phase) && t.rules == s.rules && t.state_bytes
                == s.state_bytes,
            Err(_) => event is Failed || s.phase is Budget || s.phase is Genesis,
        },
{
}

/// What was made is taken back where a start fails, and nothing else: the source once
/// it was made, the journal once it was made, the writer once it runs.
pub proof fn a_failed_start_takes_back_what_it_made(a: StartPhase, b: StartPhase)
    requires
        comes_before(a, b),
        !(b is Running),
    ensures
        ({
            let before = milestone_start::undo_of(a);
            let after = milestone_start::undo_of(b);
            &&& after.remove_source <==> before.remove_source || a is Source
            &&& after.remove_journal <==> before.remove_journal || a is Journal
            &&& after.stop_writer <==> before.stop_writer || a is Writer
            &&& a is Directory ==> !before.remove_source && !before.remove_journal
                && !before.stop_writer
        }),
{
}

/// A path still names what it named: an entry of the same kind and the same identity.
pub proof fn a_path_still_names_its_entry(
    path: Seq<char>,
    label: Seq<char>,
    kind: EntryKind,
    expected: FileIdentity,
    entry: Entry,
)
    ensures
        milestone_start::verified(path, label, kind, expected, entry) is Ok <==> (kind
            == EntryKind::Directory && entry == Entry::Directory(expected)) || (kind
            == EntryKind::Regular && entry == Entry::Regular(expected)),
{
}

/// A relative path is taken from the current directory, and an absolute one as it is.
pub proof fn a_path_is_resolved(input: Seq<char>, directory: Seq<char>)
    ensures
        input.len() > 0 && input[0] == '/' ==> milestone_start::resolved(input, Ok(directory))
            == Ok::<Seq<char>, Fault>(input),
        !(input.len() > 0 && input[0] == '/') && directory.len() > 0 && directory.last() != '/'
            ==> milestone_start::resolved(input, Ok(directory)) == Ok::<Seq<char>, Fault>(
            directory + "/"@ + input,
        ),
{
}

} // verus!
