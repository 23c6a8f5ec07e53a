//! Reading a recorded session back, and holding all of it together.

use crate::milestone_a::{
    added, checked_add_limit, event_charge, event_retained_charge, Fault, MilestoneError,
    MilestoneRules, MAX_MILESTONE_EVENTS, MAX_REPLAY_RETAINED_EVENT_BYTES,
    MAX_REPLAY_RETAINED_STATE_BYTES,
};
use crate::milestone_replay;
use crate::milestone_replay::{
    chain_fits, check_chain, check_finalization, check_receipt, check_replay, check_session,
    declared_events, finalization_fits, preflight_milestone_stream, receipt_fits, replay_fits,
    stream_charge, EnvelopeRecord, Finalization, FinalizedSession, MilestoneEvent, Replayed,
    StoredCheckpoint, StreamRules, Target, WorkspaceState,
};
use crate::milestone_session::{both, require_equal, same_number};
use crate::text;
use vstd::prelude::*;

verus! {

// Reading events.

/// An event that was read, with the length of its encoding.
pub struct ReadEvent {
    pub record: EnvelopeRecord,
    pub encoded: usize,
}

/// The events that were read so far, the number of the next, and what they are
/// charged.
pub struct EventReading {
    pub next_sequence: u64,
    pub retained: u64,
    pub events: Vec<EnvelopeRecord>,
}

pub open spec fn stream_fault(field: Seq<char>, detail: Seq<char>) -> Fault {
    Fault::Mismatch { field, detail }
}

/// What one more event is charged, if it can be taken. No event where one is
/// wanted means that the stream is too short.
pub open spec fn event_taken(r: EventReading, event: Option<ReadEvent>, rules: MilestoneRules) -> Result<
    u64,
    Fault,
> {
    match event {
        None => Err(
            stream_fault(
                "event count"@,
                "event stream ended before sequence "@ + text::decimal(r.next_sequence as nat),
            ),
        ),
        Some(e) => if e.record.sequence == u64::MAX {
            Err(stream_fault("event sequence"@, "event sequence overflowed u64"@))
        } else {
            match event_charge(rules.event_layout, e.encoded) {
                Err(f) => Err(f),
                Ok(charge) => added(
                    "replay retained event bytes"@,
                    r.retained,
                    charge,
                    MAX_REPLAY_RETAINED_EVENT_BYTES,
                ),
            }
        },
    }
}

impl EventReading {
    pub fn new() -> (r: EventReading)
        ensures
            r.next_sequence == 1,
            r.retained == 0,
            r.events@ == Seq::<EnvelopeRecord>::empty(),
    {
        EventReading { next_sequence: 1, retained: 0, events: Vec::new() }
    }

    /// Whether another event is to be read.
    pub fn wants(&self, event_count: u64) -> (r: bool)
        ensures
            r == (self.next_sequence <= event_count),
    {
        self.next_sequence <= event_count
    }

    pub fn take(&mut self, event: Option<ReadEvent>, rules: &MilestoneRules) -> (r: Result<
        (),
        MilestoneError,
    >)
        ensures
            match event_taken(*old(self), event, *rules) {
                Ok(bytes) => {
                    &&& r is Ok
                    &&& final(self).next_sequence == event->0.record.sequence + 1
                    &&& final(self).retained == bytes
                    &&& final(self).events@ == old(self).events@.push(event->0.record)
                },
                Err(f) => r is Err && r->Err_0.view() == f && *final(self) == *old(self),
            },
    {
        match event {
            None => {
                let mut detail = "event stream ended before sequence ".to_owned();
                detail.push_str(text::write_decimal(self.next_sequence).as_str());
                Err(MilestoneError::Mismatch { field: "event count", detail })
            },
            Some(e) => {
                if e.record.sequence == u64::MAX {
                    return Err(
                        MilestoneError::Mismatch {
                            field: "event sequence",
                            detail: "event sequence overflowed u64".to_owned(),
                        },
                    );
                }
                let charge = event_retained_charge(e.encoded, rules)?;
                let retained = checked_add_limit(
                    "replay retained event bytes",
                    self.retained,
                    charge,
                    MAX_REPLAY_RETAINED_EVENT_BYTES,
                )?;
                self.next_sequence = e.record.sequence + 1;
                self.retained = retained;
                self.events.push(e.record);
                Ok(())
            },
        }
    }
}

// Reading checkpoints.

pub open spec fn known(cs: Seq<StoredCheckpoint>, sequence: u64) -> bool {
    exists|k: int| 0 <= k < cs.len() && (#[trigger] cs[k]).sequence == sequence
}

/// The first checkpoint of a page, from a place on, whose number came before.
pub open spec fn repeated(cs: Seq<StoredCheckpoint>, page: Seq<StoredCheckpoint>, from: nat) -> Option<u64>
    decreases page.len() - from,
{
    if from >= page.len() {
        None
    } else if known(cs + page.take(from as int), page[from as int].sequence) {
        Some(page[from as int].sequence)
    } else {
        repeated(cs, page, from + 1)
    }
}

/// The checkpoints that were read so far, and from which number on to read.
pub struct CheckpointReading {
    pub next_sequence: u64,
    pub checkpoints: Vec<StoredCheckpoint>,
}

/// What is wrong with a page of checkpoints, if anything is.
pub open spec fn page_fault(cs: Seq<StoredCheckpoint>, page: Seq<StoredCheckpoint>) -> Option<Fault> {
    if page.len() == 0 {
        None
    } else if page.last().sequence == u64::MAX {
        Some(stream_fault("checkpoint sequence"@, "checkpoint sequence overflowed u64"@))
    } else {
        match repeated(cs, page, 0) {
            Some(n) => Some(
                stream_fault(
                    "checkpoint sequence"@,
                    "duplicate checkpoint sequence "@ + text::decimal(n as nat),
                ),
            ),
            None => None,
        }
    }
}

fn is_known(cs: &Vec<StoredCheckpoint>, count: usize, sequence: u64) -> (r: bool)
    requires
        count <= cs@.len(),
    ensures
        r == known(cs@.take(count as int), sequence),
{
    let mut i: usize = 0;
    while i < count
        invariant
            i <= count <= cs@.len(),
            forall|k: int| 0 <= k < i ==> (#[trigger] cs@[k]).sequence != sequence,
        decreases count - i,
    {
        if cs[i].sequence == sequence {
            assert(cs@.take(count as int)[i as int].sequence == sequence);
            return true;
        }
        i += 1;
    }
    assert forall|k: int| 0 <= k < count implies (#[trigger] cs@.take(count as int)[k]).sequence
        != sequence by {
        assert(cs@[k].sequence != sequence);
    }
    false
}

proof fn lemma_known_of_both(a: Seq<StoredCheckpoint>, b: Seq<StoredCheckpoint>, sequence: u64)
    ensures
        known(a + b, sequence) == (known(a, sequence) || known(b, sequence)),
{
    let all = a + b;
    if known(a, sequence) {
        let k = choose|k: int| 0 <= k < a.len() && (#[trigger] a[k]).sequence == sequence;
        assert(all[k].sequence == sequence);
    }
    if known(b, sequence) {
        let k = choose|k: int| 0 <= k < b.len() && (#[trigger] b[k]).sequence == sequence;
        assert(all[a.len() + k].sequence == sequence);
    }
    if known(all, sequence) {
        let k = choose|k: int| 0 <= k < all.len() && (#[trigger] all[k]).sequence == sequence;
        if k < a.len() {
            assert(a[k].sequence == sequence);
        } else {
            assert(b[k - a.len()].sequence == sequence);
        }
    }
}

fn find_repeated(cs: &Vec<StoredCheckpoint>, page: &Vec<StoredCheckpoint>) -> (r: Option<u64>)
    ensures
        r == repeated(cs@, page@, 0),
{
    let mut i: usize = 0;
    while i < page.len()
        invariant
            i <= page@.len(),
            repeated(cs@, page@, 0) == repeated(cs@, page@, i as nat),
        decreases page@.len() - i,
    {
        let sequence: u64 = page[i].sequence;
        proof {
            lemma_known_of_both(cs@, page@.take(i as int), sequence);
            assert(cs@.take(cs@.len() as int) =~= cs@);
        }
        if is_known(cs, cs.len(), sequence) || is_known(page, i, sequence) {
            return Some(sequence);
        }
        i += 1;
    }
    None
}

impl CheckpointReading {
    pub fn new() -> (r: CheckpointReading)
        ensures
            r.next_sequence == 1,
            r.checkpoints@ == Seq::<StoredCheckpoint>::empty(),
    {
        CheckpointReading { next_sequence: 1, checkpoints: Vec::new() }
    }

    /// Takes in a page. Says whether there may be another: an empty one is the last.
    pub fn take(&mut self, page: Vec<StoredCheckpoint>) -> (r: Result<bool, MilestoneError>)
        ensures
            match page_fault(old(self).checkpoints@, page@) {
                Some(f) => r is Err && r->Err_0.view() == f && *final(self) == *old(self),
                None => {
                    &&& r == Ok::<bool, MilestoneError>(page@.len() > 0)
                    &&& final(self).checkpoints@ == old(self).checkpoints@ + page@
                    &&& final(self).next_sequence == if page@.len() > 0 {
                        (page@.last().sequence + 1) as u64
                    } else {
                        old(self).next_sequence
                    }
                },
            },
    {
        let mut page = page;
        let count: usize = page.len();
        if count == 0 {
            assert(self.checkpoints@ + page@ =~= self.checkpoints@);
            return Ok(false);
        }
        let last: u64 = page[count - 1].sequence;
        if last == u64::MAX {
            return Err(
                MilestoneError::Mismatch {
                    field: "checkpoint sequence",
                    detail: "checkpoint sequence overflowed u64".to_owned(),
                },
            );
        }
        match find_repeated(&self.checkpoints, &page) {
            Some(sequence) => {
                let mut detail = "duplicate checkpoint sequence ".to_owned();
                detail.push_str(text::write_decimal(sequence).as_str());
                return Err(MilestoneError::Mismatch { field: "checkpoint sequence", detail });
            },
            None => {},
        }
        self.next_sequence = last + 1;
        self.checkpoints.append(&mut page);
        Ok(true)
    }
}

/// Whether no two checkpoints have one number.
pub open spec fn each_once(cs: Seq<StoredCheckpoint>) -> bool {
    forall|i: int, j: int|
        0 <= i < j < cs.len() ==> (#[trigger] cs[i]).sequence != (#[trigger] cs[j]).sequence
}

proof fn lemma_not_repeated(cs: Seq<StoredCheckpoint>, page: Seq<StoredCheckpoint>, from: nat, j: int)
    requires
        repeated(cs, page, from) is None,
        from <= j < page.len(),
    ensures
        !known(cs + page.take(j), page[j].sequence),
    decreases page.len() - from,
{
    if from < j {
        lemma_not_repeated(cs, page, from + 1, j);
    }
}

/// However the checkpoints come, in whatever pages: those that were taken have
/// different numbers.
pub proof fn checkpoints_stay_apart(cs: Seq<StoredCheckpoint>, page: Seq<StoredCheckpoint>)
    requires
        each_once(cs),
        page_fault(cs, page) is None,
    ensures
        each_once(cs + page),
{
    let all = cs + page;
    assert forall|i: int, j: int| 0 <= i < j < all.len() implies (#[trigger] all[i]).sequence != (
    #[trigger] all[j]).sequence by {
        if j >= cs.len() {
            let k = j - cs.len();
            lemma_not_repeated(cs, page, 0, k);
            let before = cs + page.take(k);
            assert(before[i] == all[i]);
            if all[i].sequence == all[j].sequence {
                assert(known(before, page[k].sequence));
            }
        }
    }
}

// The whole of a session.

/// What a journal says of a session, and what reading and replaying it gave.
pub struct Evidence {
    pub next_sequence: u64,
    pub ended: bool,
    pub chain_events: u64,
    pub chain_hash: crate::model::Hash,
    pub checkpoint_count: u64,
    pub latest_checkpoint: Option<u64>,
    pub reading: EventReading,
    pub checkpoints: Vec<StoredCheckpoint>,
    pub finalization: Option<Finalization>,
    pub replayed: Replayed,
}

/// What is on disk.
pub struct OnDisk {
    pub source: Vec<u8>,
    pub text_hash: crate::model::Hash,
    pub workspace_hash: crate::model::Hash,
}

/// An event and the state after it.
#[derive(Debug, PartialEq, Eq)]
pub struct ReplayStep {
    pub sequence: u64,
    pub event: MilestoneEvent,
    pub state: WorkspaceState,
}

/// Whether there is a step for each event, in order.
pub open spec fn are_steps(
    steps: Seq<ReplayStep>,
    events: Seq<EnvelopeRecord>,
    states: Seq<WorkspaceState>,
) -> bool {
    &&& steps.len() == events.len() == states.len()
    &&& forall|i: int|
        0 <= i < steps.len() ==> (#[trigger] steps[i]).sequence == events[i].sequence
            && steps[i].event == events[i].event && steps[i].state == states[i]
}

/// Puts the events and the states after them together.
fn pair_up(events: Vec<EnvelopeRecord>, states: Vec<WorkspaceState>) -> (r: Vec<ReplayStep>)
    requires
        events@.len() == states@.len(),
    ensures
        are_steps(r@, events@, states@),
{
    let ghost all = events@;
    let ghost after = states@;
    let mut events = events;
    let mut states = states;
    let mut backward: Vec<ReplayStep> = Vec::new();
    loop
        invariant
            events@.len() == states@.len() <= all.len(),
            all.len() == after.len(),
            backward@.len() == all.len() - events@.len(),
            events@ == all.take(events@.len() as int),
            states@ == after.take(states@.len() as int),
            forall|i: int|
                #![trigger backward@[i]]
                0 <= i < backward@.len() ==> backward@[i].sequence == all[all.len() - 1 - i].sequence
                    && backward@[i].event == all[all.len() - 1 - i].event && backward@[i].state
                    == after[all.len() - 1 - i],
        ensures
            backward@.len() == all.len(),
        decreases events@.len(),
    {
        match (events.pop(), states.pop()) {
            (Some(record), Some(state)) => {
                backward.push(
                    ReplayStep { sequence: record.sequence, event: record.event, state },
                );
            },
            _ => {
                break;
            },
        }
    }
    let mut steps: Vec<ReplayStep> = Vec::new();
    let ghost turned = backward@;
    loop
        invariant
            steps@.len() == turned.len() - backward@.len(),
            backward@.len() <= turned.len(),
            backward@ == turned.take(backward@.len() as int),
            forall|i: int|
                #![trigger steps@[i]]
                0 <= i < steps@.len() ==> steps@[i] == turned[turned.len() - 1 - i],
        ensures
            steps@.len() == turned.len(),
        decreases backward@.len(),
    {
        match backward.pop() {
            Some(step) => {
                steps.push(step);
            },
            None => {
                break;
            },
        }
    }
    steps
}

/// What a session that passed gives.
pub struct ReplayReport {
    pub session_id: String,
    pub source_bytes: Vec<u8>,
    pub steps: Vec<ReplayStep>,
    pub event_count: u64,
    pub checkpoint_count: u64,
    pub final_event_hash: crate::model::Hash,
    pub final_workspace_hash: crate::model::Hash,
    pub finalized: bool,
    pub retained_state_bytes: u64,
    pub retained_event_bytes: u64,
}

impl ReplayReport {
    pub fn session_id(&self) -> (r: &str)
        ensures
            r@ == self.session_id@,
    {
        self.session_id.as_str()
    }

    pub fn source_bytes(&self) -> (r: &[u8])
        ensures
            r@ == self.source_bytes@,
    {
        self.source_bytes.as_slice()
    }

    pub fn steps(&self) -> (r: &[ReplayStep])
        ensures
            r@ == self.steps@,
    {
        self.steps.as_slice()
    }

    /// The state after the last event.
    pub fn final_state(&self) -> (r: Option<&WorkspaceState>)
        ensures
            match r {
                Some(state) => self.steps@.len() > 0 && *state == self.steps@.last().state,
                None => self.steps@.len() == 0,
            },
    {
        if self.steps.len() == 0 {
            None
        } else {
            Some(&self.steps[self.steps.len() - 1].state)
        }
    }

    pub fn event_count(&self) -> (r: u64)
        ensures
            r == self.event_count,
    {
        self.event_count
    }

    pub fn checkpoint_count(&self) -> (r: u64)
        ensures
            r == self.checkpoint_count,
    {
        self.checkpoint_count
    }

    pub fn final_event_hash(&self) -> (r: crate::model::Hash)
        ensures
            r == self.final_event_hash,
    {
        self.final_event_hash
    }

    pub fn final_workspace_hash(&self) -> (r: crate::model::Hash)
        ensures
            r == self.final_workspace_hash,
    {
        self.final_workspace_hash
    }

    pub fn finalized(&self) -> (r: bool)
        ensures
            r == self.finalized,
    {
        self.finalized
    }

    pub fn retained_state_bytes(&self) -> (r: u64)
        ensures
            r == self.retained_state_bytes,
    {
        self.retained_state_bytes
    }

    pub fn retained_event_bytes(&self) -> (r: u64)
        ensures
            r == self.retained_event_bytes,
    {
        self.retained_event_bytes
    }
}

/// Whether a target is what is on disk and in the journal.
pub open spec fn is_target(t: Target, e: Evidence, d: OnDisk, s: StreamRules) -> bool {
    &&& t.path@ == s.path@
    &&& t.document_id@ == s.document_id@
    &&& t.source@ == d.source@
    &&& t.text_hash == d.text_hash
    &&& t.disk_hash == d.workspace_hash
    &&& t.events == e.chain_events
    &&& t.chain_hash == e.chain_hash
    &&& e.finalization matches Some(f) ==> t.finalized_hash == f.workspace_hash
}

pub open spec fn receipt_holds(r: Replayed, t: Target, receipt: Option<FinalizedSession>) -> Result<
    (),
    Fault,
> {
    match receipt {
        None => Ok(()),
        Some(left) => receipt_fits(r, t, left),
    }
}

/// What the states of a session are charged, or the first thing that is wrong
/// with the session.
pub open spec fn session_holds(
    e: Evidence,
    t: Target,
    s: StreamRules,
    receipt: Option<FinalizedSession>,
) -> Result<u64, Fault> {
    match declared_events(e.next_sequence, e.ended) {
        Err(f) => Err(f),
        Ok(declared) => both(
            chain_fits(
                declared,
                e.chain_events,
                e.next_sequence,
                e.checkpoint_count,
                e.latest_checkpoint,
            ),
            both(
                same_number(
                    "decoded event count"@,
                    e.reading.events@.len() as u64,
                    e.chain_events,
                ),
                match stream_charge(e.reading.events@, e.checkpoints@, s) {
                    Err(f) => Err(f),
                    Ok(bytes) => both(
                        finalization_fits(e.finalization, e.chain_events),
                        both(
                            replay_fits(e.replayed, t),
                            both(receipt_holds(e.replayed, t, receipt), Ok(bytes)),
                        ),
                    ),
                },
            ),
        ),
    }
}

fn target_of(e: &Evidence, source: Vec<u8>, d: (crate::model::Hash, crate::model::Hash), s: &StreamRules) -> (r:
    Target)
    ensures
        is_target(r, *e, (OnDisk { source, text_hash: d.0, workspace_hash: d.1 }), *s),
{
    let finalized_hash = match &e.finalization {
        Some(f) => f.workspace_hash,
        None => crate::model::Hash::zero(),
    };
    Target {
        path: s.path.clone(),
        document_id: s.document_id.clone(),
        source,
        text_hash: d.0,
        disk_hash: d.1,
        events: e.chain_events,
        chain_hash: e.chain_hash,
        finalized_hash,
    }
}

/// Holds together what a journal says of a session, what replaying it gave, what
/// is on disk and, where it is at hand, what the session left behind when it
/// ended. The first thing that does not fit is told.
fn verify_replay_target(
    session_id: String,
    evidence: Evidence,
    disk: OnDisk,
    stream: &StreamRules,
    receipt: Option<&FinalizedSession>,
) -> (r: Result<ReplayReport, MilestoneError>)
    requires
        evidence.replayed.states@.len() == evidence.reading.events@.len(),
    ensures
        is_verdict(
            r,
            session_id@,
            evidence,
            disk,
            *stream,
            match receipt {
                Some(left) => Some(*left),
                None => None,
            },
        ),
{
    let hashes = (disk.text_hash, disk.workspace_hash);
    let target = target_of(&evidence, disk.source, hashes, stream);
    let declared = check_session(evidence.next_sequence, evidence.ended)?;
    check_chain(
        declared,
        evidence.chain_events,
        evidence.next_sequence,
        evidence.checkpoint_count,
        evidence.latest_checkpoint,
    )?;
    require_equal(
        "decoded event count",
        evidence.reading.events.len() as u64,
        evidence.chain_events,
    )?;
    let retained_state_bytes = preflight_milestone_stream(
        &evidence.reading.events,
        &evidence.checkpoints,
        stream,
    )?;
    check_finalization(&evidence.finalization, evidence.chain_events)?;
    check_replay(&evidence.replayed, &target)?;
    match receipt {
        Some(left) => {
            check_receipt(&evidence.replayed, &target, left)?;
        },
        None => {},
    }
    Ok(
        ReplayReport {
            session_id,
            source_bytes: target.source,
            steps: pair_up(evidence.reading.events, evidence.replayed.states),
            event_count: evidence.chain_events,
            checkpoint_count: evidence.checkpoint_count,
            final_event_hash: evidence.chain_hash,
            final_workspace_hash: disk.workspace_hash,
            finalized: evidence.replayed.finalized,
            retained_state_bytes,
            retained_event_bytes: evidence.reading.retained,
        },
    )
}

/// Whether what came of a session is what it is to come to.
pub open spec fn is_verdict(
    r: Result<ReplayReport, MilestoneError>,
    session_id: Seq<char>,
    e: Evidence,
    d: OnDisk,
    s: StreamRules,
    receipt: Option<FinalizedSession>,
) -> bool {
    forall|t: Target| #[trigger]
        is_target(t, e, d, s) ==> match session_holds(e, t, s, receipt) {
            Err(f) => r is Err && r->Err_0.view() == f,
            Ok(bytes) => {
                &&& r is Ok
                &&& r->Ok_0.session_id@ == session_id
                &&& r->Ok_0.source_bytes@ == d.source@
                &&& are_steps(r->Ok_0.steps@, e.reading.events@, e.replayed.states@)
                &&& r->Ok_0.steps@.len() == r->Ok_0.event_count
                &&& r->Ok_0.event_count == e.chain_events
                &&& r->Ok_0.checkpoint_count == e.checkpoint_count
                &&& r->Ok_0.final_event_hash == e.chain_hash
                &&& r->Ok_0.final_workspace_hash == d.workspace_hash
                &&& r->Ok_0.finalized == e.replayed.finalized
                &&& r->Ok_0.retained_state_bytes == bytes
                &&& r->Ok_0.retained_event_bytes == e.reading.retained
            },
        }
}

/// Checks a session against what it left behind when it ended.
pub fn verify_and_replay(
    finalized: &FinalizedSession,
    evidence: Evidence,
    disk: OnDisk,
    stream: &StreamRules,
) -> (r: Result<ReplayReport, MilestoneError>)
    requires
        evidence.replayed.states@.len() == evidence.reading.events@.len(),
    ensures
        is_verdict(r, finalized.session_id@, evidence, disk, *stream, Some(*finalized)),
{
    verify_replay_target(finalized.session_id.clone(), evidence, disk, stream, Some(finalized))
}

/// Checks a session of which only the directory is known.
pub fn verify_and_replay_from_directory(
    session_id: &str,
    evidence: Evidence,
    disk: OnDisk,
    stream: &StreamRules,
) -> (r: Result<ReplayReport, MilestoneError>)
    requires
        evidence.replayed.states@.len() == evidence.reading.events@.len(),
    ensures
        is_verdict(r, session_id@, evidence, disk, *stream, None),
{
    verify_replay_target(session_id.to_owned(), evidence, disk, stream, None)
}

/// A session that passes gives back the file on disk. It is finalized, has all
/// the events that it declares and two checkpoints, and its states stay within
/// the limit.
pub proof fn a_verified_session_is_the_file(
    e: Evidence,
    d: OnDisk,
    t: Target,
    s: StreamRules,
    receipt: Option<FinalizedSession>,
)
    requires
        is_target(t, e, d, s),
        session_holds(e, t, s, receipt) is Ok,
    ensures
        e.replayed.last().file matches Some(bytes) && bytes@ == d.source@,
        e.replayed.last().document_bytes@ == d.source@,
        e.replayed.last().workspace_hash.bytes@ == d.workspace_hash.bytes@,
        e.replayed.finalized,
        e.ended,
        3 <= e.chain_events <= MAX_MILESTONE_EVENTS,
        e.next_sequence == e.chain_events + 1,
        e.checkpoint_count == 2,
        session_holds(e, t, s, receipt)->Ok_0 <= MAX_REPLAY_RETAINED_STATE_BYTES,
        e.finalization matches Some(f) && f.clean && f.event_count == e.chain_events
            && f.workspace_hash.bytes@ == d.workspace_hash.bytes@,
        receipt matches Some(left) ==> left.event_count == e.chain_events
            && left.final_event_hash.bytes@ == e.chain_hash.bytes@
            && left.final_workspace_hash.bytes@ == d.workspace_hash.bytes@,
{
    milestone_replay::lemma_stream_charge_is_within(e.reading.events@, e.checkpoints@, s);
}

} // verus!
