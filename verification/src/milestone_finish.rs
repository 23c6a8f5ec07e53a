//! The end of a recorded session: in which order its file is replaced, its last two
//! events are written and charged, and its journal is closed.

use crate::milestone_a::{invariant_fault, Fault, MilestoneError};
use crate::milestone_change::answer;
use crate::milestone_session::{
    acknowledged, both, checkpoint_charged, checkpoint_left, end_admitted, end_planned, event_planned,
    finalization_charged, finalization_left, health, job_begun, later, nothing_captured, poisoned,
    require_same_hash, same_hash, EventPlan, FinishPlan, JournalWriteCompletion, JournalWriteKind,
    Ledger, OneFileSession, TerminalLengths,
};
use vstd::prelude::*;

verus! {

pub const PERSIST_CHECKPOINT: &'static str = "persist final checkpoint";

pub const PERSIST_FINALIZATION: &'static str = "persist finalization";

/// A checkpoint that is being written: its number and its time.
#[derive(Clone, Copy, Debug, PartialEq, Eq, Structural)]
pub struct CheckpointJob {
    pub sequence: u64,
    pub millis: u64,
}

/// What the end waits for: that the text is hashed, that the places are looked at
/// and the last events are encoded, that the file is replaced, that the last
/// checkpoint is written, that the finalization is encoded (it names a number of
/// events) and written, that the writer is closed, that the journal is told, and
/// that the session is left.
#[derive(Debug)]
pub enum FinishPhase {
    Hash,
    Places,
    Replace(FinishPlan),
    Checkpoint(FinishPlan, CheckpointJob),
    Encode(FinishPlan, u64),
    Finalize(FinishPlan, u64, EventPlan),
    Close(crate::model::Hash),
    End(crate::model::Hash),
    Leave(crate::model::Hash, bool),
    Over(MilestoneError),
}

pub enum EndStage {
    Hash,
    Places,
    Replace(FinishPlan),
    Checkpoint(FinishPlan, CheckpointJob),
    Encode(FinishPlan, u64),
    Finalize(FinishPlan, u64, EventPlan),
    Close(crate::model::Hash),
    End(crate::model::Hash),
    Leave(crate::model::Hash, bool),
    Over(Fault),
}

impl FinishPhase {
    pub open spec fn view(&self) -> EndStage {
        match self {
            FinishPhase::Hash => EndStage::Hash,
            FinishPhase::Places => EndStage::Places,
            FinishPhase::Replace(plan) => EndStage::Replace(*plan),
            FinishPhase::Checkpoint(plan, job) => EndStage::Checkpoint(*plan, *job),
            FinishPhase::Encode(plan, events) => EndStage::Encode(*plan, *events),
            FinishPhase::Finalize(plan, events, e) => EndStage::Finalize(*plan, *events, *e),
            FinishPhase::Close(hash) => EndStage::Close(*hash),
            FinishPhase::End(hash) => EndStage::End(*hash),
            FinishPhase::Leave(hash, ended) => EndStage::Leave(*hash, *ended),
            FinishPhase::Over(error) => EndStage::Over(error.view()),
        }
    }
}

/// What was done.
pub enum FinishEvent {
    Done,
    Placed { lengths: TerminalLengths },
    Encoded { encoded: usize },
    Written(Result<JournalWriteCompletion, MilestoneError>),
    Ended(bool),
    Failed(MilestoneError),
}

/// The end of a session over a text of some length.
#[derive(Debug)]
pub struct Finishing {
    pub length: usize,
    pub phase: FinishPhase,
}

/// Whether this is an event that a stage waits for.
pub open spec fn end_awaits(stage: EndStage, event: FinishEvent) -> bool {
    match stage {
        EndStage::Hash => event is Done || event is Failed,
        EndStage::Places => event is Placed || event is Failed,
        EndStage::Replace(_) => event is Done || event is Failed,
        EndStage::Checkpoint(_, _) => event is Written,
        EndStage::Encode(_, _) => event is Encoded,
        EndStage::Finalize(_, _, _) => event is Written,
        EndStage::Close(_) => event is Done || event is Failed,
        EndStage::End(_) => event is Ended || event is Failed,
        EndStage::Leave(_, _) => false,
        EndStage::Over(_) => false,
    }
}

/// The end as it begins: nothing waits to be recorded, and the editor's text is what
/// it says it is.
pub open spec fn end_begun(
    l: Ledger,
    captured: u64,
    editor_hash: crate::model::Hash,
    text_hash: crate::model::Hash,
) -> EndStage {
    match both(
        health(l),
        both(
            nothing_captured(captured),
            same_hash("final editor document hash"@, editor_hash, text_hash),
        ),
    ) {
        Ok(()) => EndStage::Hash,
        Err(f) => EndStage::Over(f),
    }
}

/// What the writer's answer to the last checkpoint comes to.
pub open spec fn checkpoint_answer(
    outcome: Result<JournalWriteCompletion, MilestoneError>,
    job: CheckpointJob,
) -> Result<crate::model::Hash, Fault> {
    match outcome {
        Ok(completion) => acknowledged(
            completion,
            JournalWriteKind::Checkpoint,
            job.sequence,
            PERSIST_CHECKPOINT@,
        ),
        Err(e) => Err(e.view()),
    }
}

/// The last checkpoint was acknowledged.
pub open spec fn checkpoint_kept(plan: FinishPlan, l: Ledger) -> (EndStage, Ledger) {
    match checkpoint_charged(l, plan) {
        Err(f) => (EndStage::Over(f), checkpoint_left(l, plan)),
        Ok(m) => if m.events == u64::MAX {
            (EndStage::Over(invariant_fault("final event sequence overflowed u64"@)), m)
        } else {
            (EndStage::Encode(plan, (m.events + 1) as u64), m)
        },
    }
}

/// The finalization was acknowledged.
pub open spec fn finalization_kept(
    plan: FinishPlan,
    events: u64,
    hash: crate::model::Hash,
    l: Ledger,
) -> (EndStage, Ledger) {
    match finalization_charged(l, plan, events) {
        Err(f) => (EndStage::Over(f), finalization_left(l, plan)),
        Ok(m) => if m.writer {
            (EndStage::Close(hash), Ledger { writer: false, ..m })
        } else {
            (
                EndStage::Over(
                    invariant_fault("journal writer is unavailable at orderly shutdown"@),
                ),
                m,
            )
        },
    }
}

/// The next stage of the end, and the session with it.
pub open spec fn end_step(length: usize, stage: EndStage, l: Ledger, event: FinishEvent) -> (
    EndStage,
    Ledger,
) {
    match (stage, event) {
        (_, FinishEvent::Failed(e)) => (EndStage::Over(e.view()), l),
        (EndStage::Hash, FinishEvent::Done) => (EndStage::Places, l),
        (EndStage::Places, FinishEvent::Placed { lengths }) => match end_planned(
            l,
            length,
            lengths,
        ) {
            Err(f) => (EndStage::Over(f), l),
            Ok(plan) => (EndStage::Replace(plan), l),
        },
        (EndStage::Replace(plan), FinishEvent::Done) => {
            let m = Ledger { millis: later(l.millis), ..l };
            match job_begun(m) {
                Err(f) => (EndStage::Over(f), poisoned(m, PERSIST_CHECKPOINT@, f)),
                Ok(sequence) => (
                    EndStage::Checkpoint(plan, CheckpointJob { sequence, millis: l.millis }),
                    m,
                ),
            }
        },
        (EndStage::Checkpoint(plan, job), FinishEvent::Written(outcome)) => match checkpoint_answer(
            outcome,
            job,
        ) {
            Err(f) => (EndStage::Over(f), poisoned(l, PERSIST_CHECKPOINT@, f)),
            Ok(_) => checkpoint_kept(plan, Ledger { events: job.sequence, ..l }),
        },
        (EndStage::Encode(plan, events), FinishEvent::Encoded { encoded }) => match event_planned(
            l,
            encoded,
        ) {
            Err(f) => (EndStage::Over(f), l),
            Ok(e) => {
                let m = Ledger { millis: later(l.millis), ..l };
                match job_begun(m) {
                    Err(f) => (EndStage::Over(f), poisoned(m, PERSIST_FINALIZATION@, f)),
                    Ok(_) => (EndStage::Finalize(plan, events, e), m),
                }
            },
        },
        (EndStage::Finalize(plan, events, e), FinishEvent::Written(outcome)) => match answer(
            outcome,
            e,
            PERSIST_FINALIZATION@,
        ) {
            Err(f) => (EndStage::Over(f), poisoned(l, PERSIST_FINALIZATION@, f)),
            Ok(hash) => finalization_kept(
                plan,
                events,
                hash,
                Ledger { events: e.sequence, event_bytes: e.retained, ..l },
            ),
        },
        (EndStage::Close(hash), FinishEvent::Done) => (EndStage::End(hash), l),
        (EndStage::End(hash), FinishEvent::Ended(ended)) => (EndStage::Leave(hash, ended), l),
        _ => (stage, l),
    }
}

impl Finishing {
    /// Begins the end.
    pub fn new(
        ledger: &OneFileSession,
        captured: u64,
        length: usize,
        editor_hash: &crate::model::Hash,
        text_hash: &crate::model::Hash,
    ) -> (r: Finishing)
        ensures
            r.length == length,
            r.phase.view() == end_begun(ledger.view(), captured, *editor_hash, *text_hash),
    {
        let phase = match ledger.ensure_healthy() {
            Err(error) => FinishPhase::Over(error),
            Ok(()) => match ledger.require_no_captured_transactions(captured) {
                Err(error) => FinishPhase::Over(error),
                Ok(()) => match require_same_hash(
                    "final editor document hash",
                    editor_hash,
                    text_hash,
                ) {
                    Err(error) => FinishPhase::Over(error),
                    Ok(()) => FinishPhase::Hash,
                },
            },
        };
        Finishing { length, phase }
    }

    /// Takes in what was done.
    pub fn advance(&mut self, ledger: &mut OneFileSession, event: FinishEvent)
        requires
            end_awaits(old(self).phase.view(), event),
        ensures
            final(self).length == old(self).length,
            (final(self).phase.view(), final(ledger).view()) == end_step(
                old(self).length,
                old(self).phase.view(),
                old(ledger).view(),
                event,
            ),
    {
        let mut phase = FinishPhase::Hash;
        std::mem::swap(&mut phase, &mut self.phase);
        self.phase = match (phase, event) {
            (_, FinishEvent::Failed(error)) => FinishPhase::Over(error),
            (FinishPhase::Hash, FinishEvent::Done) => FinishPhase::Places,
            (FinishPhase::Places, FinishEvent::Placed { lengths }) => {
                match ledger.plan_finish(self.length, lengths) {
                    Ok(plan) => FinishPhase::Replace(plan),
                    Err(error) => FinishPhase::Over(error),
                }
            },
            (FinishPhase::Replace(plan), FinishEvent::Done) => {
                let millis: u64 = ledger.take_monotonic_millis();
                match ledger.begin_job(PERSIST_CHECKPOINT) {
                    Ok(sequence) => FinishPhase::Checkpoint(plan, CheckpointJob { sequence, millis }),
                    Err(error) => FinishPhase::Over(error),
                }
            },
            (FinishPhase::Checkpoint(plan, job), FinishEvent::Written(outcome)) => {
                match ledger.finish_job(
                    PERSIST_CHECKPOINT,
                    JournalWriteKind::Checkpoint,
                    job.sequence,
                    outcome,
                ) {
                    Ok(_) => keep_checkpoint(plan, ledger),
                    Err(error) => FinishPhase::Over(error),
                }
            },
            (FinishPhase::Encode(plan, events), FinishEvent::Encoded { encoded }) => {
                match ledger.plan_event(encoded) {
                    Err(error) => FinishPhase::Over(error),
                    Ok(e) => match ledger.begin_job(PERSIST_FINALIZATION) {
                        Ok(_) => FinishPhase::Finalize(plan, events, e),
                        Err(error) => FinishPhase::Over(error),
                    },
                }
            },
            (FinishPhase::Finalize(plan, events, e), FinishEvent::Written(outcome)) => {
                match ledger.finish_job(
                    PERSIST_FINALIZATION,
                    JournalWriteKind::Event,
                    e.sequence,
                    outcome,
                ) {
                    Ok(hash) => {
                        ledger.charge_event(e);
                        keep_finalization(plan, events, hash, ledger)
                    },
                    Err(error) => FinishPhase::Over(error),
                }
            },
            (FinishPhase::Close(hash), FinishEvent::Done) => FinishPhase::End(hash),
            (FinishPhase::End(hash), FinishEvent::Ended(ended)) => FinishPhase::Leave(hash, ended),
            (other, _) => other,
        };
    }
}

fn keep_checkpoint(plan: FinishPlan, ledger: &mut OneFileSession) -> (r: FinishPhase)
    ensures
        (r.view(), final(ledger).view()) == checkpoint_kept(plan, old(ledger).view()),
{
    match ledger.charge_final_checkpoint(&plan) {
        Err(error) => FinishPhase::Over(error),
        Ok(()) => match ledger.final_sequence() {
            Ok(events) => FinishPhase::Encode(plan, events),
            Err(error) => FinishPhase::Over(error),
        },
    }
}

fn keep_finalization(
    plan: FinishPlan,
    events: u64,
    hash: crate::model::Hash,
    ledger: &mut OneFileSession,
) -> (r: FinishPhase)
    ensures
        (r.view(), final(ledger).view()) == finalization_kept(plan, events, hash, old(ledger).view()),
{
    match ledger.charge_finalization(&plan, events) {
        Err(error) => FinishPhase::Over(error),
        Ok(()) => {
            if ledger.writer_open {
                ledger.writer_open = false;
                FinishPhase::Close(hash)
            } else {
                let detail = "journal writer is unavailable at orderly shutdown".to_owned();
                FinishPhase::Over(MilestoneError::Invariant { detail })
            }
        },
    }
}

// Laws.

/// The file is replaced only once the end was admitted. A refusal before that is the
/// end, and leaves the session as it was.
pub proof fn a_refused_end_replaces_nothing(
    length: usize,
    stage: EndStage,
    l: Ledger,
    event: FinishEvent,
)
    requires
        end_awaits(stage, event),
    ensures
        end_step(length, stage, l, event).0 is Replace ==> stage is Places && (event matches
            FinishEvent::Placed { lengths } && end_admitted(l, length, lengths) is Ok),
        stage is Hash || stage is Places ==> end_step(length, stage, l, event).1 == l,
        end_step(length, stage, l, event).0 is Checkpoint ==> stage is Replace && event is Done,
{
}

/// The journal is closed only after both last events were acknowledged, one after
/// the other.
pub proof fn an_end_was_acknowledged(
    length: usize,
    stage: EndStage,
    l: Ledger,
    event: FinishEvent,
)
    requires
        end_awaits(stage, event),
    ensures
        ({
            let next = end_step(length, stage, l, event).0;
            &&& next is Encode ==> (stage matches EndStage::Checkpoint(_, job) && event matches
                FinishEvent::Written(outcome) && checkpoint_answer(outcome, job) is Ok)
            &&& next is Finalize ==> stage is Encode
            &&& next matches EndStage::Close(hash) ==> (stage matches EndStage::Finalize(_, _, e)
                && event matches FinishEvent::Written(outcome) && answer(
                outcome,
                e,
                PERSIST_FINALIZATION@,
            ) == Ok::<crate::model::Hash, Fault>(hash))
            &&& next is End ==> stage is Close
            &&& next is Leave ==> stage is End
        }),
{
}

/// A write that is not acknowledged is kept as the failure of the session, which
/// records nothing more.
pub proof fn a_failed_write_is_kept(
    length: usize,
    stage: EndStage,
    l: Ledger,
    outcome: Result<JournalWriteCompletion, MilestoneError>,
)
    requires
        match stage {
            EndStage::Checkpoint(_, job) => checkpoint_answer(outcome, job) is Err,
            EndStage::Finalize(_, _, e) => answer(outcome, e, PERSIST_FINALIZATION@) is Err,
            _ => false,
        },
    ensures
        ({
            let (next, m) = end_step(length, stage, l, FinishEvent::Written(outcome));
            next is Over && health(m) is Err && job_begun(m) is Err
        }),
{
}

} // verus!
