//! Which streams of one file are in order, said event by event.

use crate::milestone_a;
use crate::milestone_a::Fault;
use crate::milestone_replay;
use crate::milestone_replay::{
    EnvelopeRecord, EventKind, MilestoneEvent, ProjectedOneFileState, SelectionState,
    StoredCheckpoint, StreamRules,
};
use crate::model::TextEdit;
use crate::text;
use vstd::prelude::*;

verus! {

pub open spec fn lies_within(s: SelectionState, length: usize) -> bool {
    s.anchor_byte <= length && s.active_byte <= length
}

/// Whether an event of a document leads from one state to another: a movement changes
/// the selection and nothing else, and an edit of one range goes from the version and
/// the selection that there are to the next version.
pub open spec fn leads(
    a: ProjectedOneFileState,
    e: MilestoneEvent,
    b: ProjectedOneFileState,
    id: Seq<char>,
    max_source: u64,
) -> bool {
    match e {
        MilestoneEvent::SelectionChanged { document_id, selection } => {
            &&& document_id@ == id
            &&& lies_within(selection, a.length)
            &&& b.selection == selection
            &&& b.length == a.length
            &&& b.version == a.version
        },
        MilestoneEvent::FileEdited(r) => {
            let t = r.edits@[0];
            &&& r.document_id@ == id
            &&& r.origin is Keyboard || r.origin is Paste || r.origin is Undo || r.origin is Redo
            &&& r.edits@.len() == 1
            &&& t.start_byte <= t.end_byte <= a.length
            &&& b.length == a.length - (t.end_byte - t.start_byte) + text::byte_len(t.inserted_text@)
            &&& b.length <= max_source
            &&& r.version_before == a.version
            &&& r.version_after == a.version + 1
            &&& b.version == a.version + 1
            &&& r.selection_before == a.selection
            &&& b.selection == r.selection_after
            &&& lies_within(r.selection_after, b.length)
        },
        MilestoneEvent::Other(_) => false,
    }
}

/// Whether what an edit puts in fits the memory, as everything does that was read.
pub open spec fn fits_memory(e: MilestoneEvent) -> bool {
    e matches MilestoneEvent::FileEdited(r) ==> r.edits@.len() == 1 ==> text::byte_len(
        r.edits@[0].inserted_text@,
    ) <= usize::MAX
}

/// An event before the last two is accepted exactly where it leads on, and then the
/// state is the one that it leads to.
pub proof fn an_event_is_followed_where_it_leads(
    a: ProjectedOneFileState,
    e: EnvelopeRecord,
    b: ProjectedOneFileState,
    cs: Seq<StoredCheckpoint>,
    path: Seq<char>,
    id: Seq<char>,
    max_source: u64,
)
    requires
        fits_memory(e.event),
    ensures
        milestone_replay::followed(a, e, false, false, cs, path, id, max_source) == Ok::<
            ProjectedOneFileState,
            Fault,
        >(b) <==> leads(a, e.event, b, id, max_source),
{
    match e.event {
        MilestoneEvent::FileEdited(r) => {
            if r.edits@.len() == 1 {
                let edits = r.edits@;
                assert(edits.take(1) =~= edits);
                assert(edits.drop_last() =~= Seq::<TextEdit>::empty());
                assert(edits.last() == edits[0]);
                reveal_with_fuel(milestone_a::edit_sums, 3);
                reveal_with_fuel(milestone_a::removed_bytes, 3);
                reveal_with_fuel(milestone_a::inserted_bytes, 3);
            }
        },
        _ => {},
    }
}

/// Whether a checkpoint of an event holds a state of the one file.
pub open spec fn holds(
    cs: Seq<StoredCheckpoint>,
    e: EnvelopeRecord,
    p: ProjectedOneFileState,
    path: Seq<char>,
    id: Seq<char>,
) -> bool {
    exists|k: int| #[trigger] is_checkpoint(cs, k, e, p, path, id)
}

pub open spec fn is_checkpoint(
    cs: Seq<StoredCheckpoint>,
    k: int,
    e: EnvelopeRecord,
    p: ProjectedOneFileState,
    path: Seq<char>,
    id: Seq<char>,
) -> bool {
    &&& 0 <= k < cs.len()
    &&& forall|i: int| 0 <= i < k ==> (#[trigger] cs[i]).sequence != e.sequence
    &&& cs[k].sequence == e.sequence
    &&& cs[k].owner@ == e.text@
    &&& cs[k].files@.len() == 1
    &&& cs[k].files@[0].path@ == path
    &&& cs[k].files@[0].length == p.length
    &&& cs[k].documents@.len() == 1
    &&& cs[k].documents@[0].path@ == path
    &&& cs[k].documents@[0].document_id@ == id
    &&& cs[k].documents@[0].selection == p.selection
    &&& cs[k].documents@[0].version == p.version
    &&& cs[k].active_document matches Some(active) && active@ == id
    &&& lies_within(p.selection, p.length)
}

proof fn lemma_checkpoint_at(cs: Seq<StoredCheckpoint>, sequence: u64, k: int, from: nat)
    requires
        from <= k < cs.len(),
        cs[k].sequence == sequence,
        forall|i: int| from <= i < k ==> (#[trigger] cs[i]).sequence != sequence,
    ensures
        milestone_replay::checkpoint_at(cs, sequence, from) == Some(k),
    decreases k - from,
{
    if from < k {
        assert(cs[from as int].sequence != sequence);
        lemma_checkpoint_at(cs, sequence, k, from + 1);
    }
}

/// Whether a stream is one that a session records: a checkpoint of the first state,
/// movements and edits that each start from where the one before ended, a checkpoint
/// of the last state, and the finalization, all of them numbered.
pub open spec fn is_recorded(
    events: Seq<EnvelopeRecord>,
    states: Seq<ProjectedOneFileState>,
    cs: Seq<StoredCheckpoint>,
    s: StreamRules,
) -> bool {
    let n = events.len() as int;
    &&& n >= 3
    &&& n <= u64::MAX
    &&& states.len() == n - 2
    &&& forall|i: int| 0 <= i < n ==> (#[trigger] events[i]).sequence == i + 1
    &&& events[0].event == MilestoneEvent::Other(EventKind::WorkspaceCheckpoint)
    &&& events[n - 2].event == MilestoneEvent::Other(EventKind::WorkspaceCheckpoint)
    &&& events[n - 1].event == MilestoneEvent::Other(EventKind::SubmissionFinalized)
    &&& holds(cs, events[0], states[0], s.path@, s.document_id@)
    &&& holds(cs, events[n - 2], states[n - 3], s.path@, s.document_id@)
    &&& forall|i: int|
        1 <= i < n - 2 ==> leads(
            states[i - 1],
            (#[trigger] events[i]).event,
            states[i],
            s.document_id@,
            s.rules.max_source_bytes,
        )
    &&& forall|i: int| 1 <= i < n - 2 ==> fits_memory((#[trigger] events[i]).event)
}

proof fn lemma_recorded_from(
    events: Seq<EnvelopeRecord>,
    states: Seq<ProjectedOneFileState>,
    cs: Seq<StoredCheckpoint>,
    s: StreamRules,
    from: nat,
    retained: u64,
)
    requires
        is_recorded(events, states, cs, s),
        1 <= from <= events.len() - 2,
    ensures
        milestone_replay::followed_from(states[from - 1], retained, events, from, cs, s) matches Err(f)
            ==> f is LimitExceeded,
    decreases events.len() - from,
{
    let n = events.len() as int;
    let p = states[from - 1];
    let e = events[from as int];
    assert(e.sequence == from + 1);
    if from < n - 2 {
        assert(leads(p, e.event, states[from as int], s.document_id@, s.rules.max_source_bytes));
        an_event_is_followed_where_it_leads(
            p,
            e,
            states[from as int],
            cs,
            s.path@,
            s.document_id@,
            s.rules.max_source_bytes,
        );
        let charged = milestone_replay::charged(s.rules, retained, states[from as int].length);
        if charged is Ok {
            lemma_recorded_from(events, states, cs, s, from + 1, charged->Ok_0);
        }
    } else {
        let k = choose|k: int| #[trigger] is_checkpoint(cs, k, e, p, s.path@, s.document_id@);
        lemma_checkpoint_at(cs, e.sequence, k, 0);
        assert(events[n - 1].sequence == n);
        reveal_with_fuel(milestone_replay::followed_from, 3);
    }
}

/// A stream that a session recorded is refused for nothing but its size.
pub proof fn a_recorded_stream_is_accepted(
    events: Seq<EnvelopeRecord>,
    states: Seq<ProjectedOneFileState>,
    cs: Seq<StoredCheckpoint>,
    s: StreamRules,
)
    requires
        is_recorded(events, states, cs, s),
    ensures
        milestone_replay::stream_charge(events, cs, s) matches Err(f) ==> f is LimitExceeded,
{
    assert(events[0].sequence == 1);
    let k = choose|k: int| #[trigger]
        is_checkpoint(cs, k, events[0], states[0], s.path@, s.document_id@);
    lemma_checkpoint_at(cs, 1, k, 0);
    let charged = milestone_replay::charged(s.rules, 0, states[0].length);
    if charged is Ok {
        lemma_recorded_from(events, states, cs, s, 1, charged->Ok_0);
    }
}

/// A state is charged the cost of its length on top of what is charged already, as
/// long as that stays within the bound.
pub proof fn states_are_charged_by_adding(
    rules: milestone_a::MilestoneRules,
    retained: u64,
    length: usize,
)
    requires
        milestone_a::state_charge(rules.state_layout, length) is Ok,
    ensures
        ({
            let cost = milestone_a::state_charge(rules.state_layout, length)->Ok_0;
            let sum = retained + cost;
            &&& milestone_replay::charged(rules, retained, length) is Ok <==> sum
                <= milestone_a::MAX_REPLAY_RETAINED_STATE_BYTES
            &&& milestone_replay::charged(rules, retained, length) matches Ok(b) ==> b == sum
            &&& cost > length
        }),
{
}

} // verus!
