//! One change of a recorded session: in which order it is admitted, made, written
//! and charged.

use crate::milestone_a::{invariant_fault, length_after, transaction_after_len, Fault, MilestoneError};
use crate::milestone_replay::SelectionState;
use crate::milestone_session::{
    acknowledged, admitted, both, captured_rightly, event_planned, health, job_begun, later,
    nothing_captured, poisoned, require_equal, same_number, state_charged, EventPlan,
    JournalWriteCompletion, JournalWriteKind, Ledger, OneFileSession, TerminalLengths,
};
use crate::model::TextEdit;
use vstd::prelude::*;

verus! {

/// What is changed: the text, the selection by a movement whose outcome is known,
/// or the selection to all of the text.
#[derive(Clone, Copy, Debug, PartialEq, Eq, Structural)]
pub enum ChangeKind {
    Edit,
    Movement { after: SelectionState },
    Whole { before: SelectionState },
}

/// What a change waits for: that the places are looked at and the event is
/// encoded, that the editor is changed, that what came of it is encoded, that it is
/// written, and that the text is measured.
#[derive(Debug)]
pub enum ChangePhase {
    Admit,
    Apply,
    Encode,
    Write(EventPlan),
    Measure,
    Over(Result<bool, MilestoneError>),
}

pub enum Stage {
    Admit,
    Apply,
    Encode,
    Write(EventPlan),
    Measure,
    Over(Result<bool, Fault>),
}

impl ChangePhase {
    pub open spec fn view(&self) -> Stage {
        match self {
            ChangePhase::Admit => Stage::Admit,
            ChangePhase::Apply => Stage::Apply,
            ChangePhase::Encode => Stage::Encode,
            ChangePhase::Write(plan) => Stage::Write(*plan),
            ChangePhase::Measure => Stage::Measure,
            ChangePhase::Over(r) => Stage::Over(
                match r {
                    Ok(changed) => Ok(*changed),
                    Err(e) => Err(e.view()),
                },
            ),
        }
    }
}

/// What was done.
pub enum ChangeEvent {
    Encoded { encoded: usize, lengths: TerminalLengths },
    Failed(MilestoneError),
    Edited { changed: bool, captured: u64 },
    Selected { selection: SelectionState },
    Refused { error: MilestoneError, captured: u64 },
    Captured { encoded: usize },
    Written(Result<JournalWriteCompletion, MilestoneError>),
    Measured { length: usize },
}

/// A change under way. `length` is what the text is expected to be long.
#[derive(Debug)]
pub struct Change {
    pub operation: &'static str,
    pub kind: ChangeKind,
    pub length: usize,
    pub phase: ChangePhase,
}

pub struct Changing {
    pub operation: Seq<char>,
    pub kind: ChangeKind,
    pub length: usize,
    pub stage: Stage,
}

/// Whether this is an event that a stage waits for.
pub open spec fn awaited(c: Changing, event: ChangeEvent) -> bool {
    match c.stage {
        Stage::Admit => event is Encoded || event is Failed,
        Stage::Apply => event is Refused || if c.kind is Edit {
            event is Edited
        } else {
            event is Selected
        },
        Stage::Encode => event is Captured,
        Stage::Write(_) => event is Written,
        Stage::Measure => event is Measured,
        Stage::Over(_) => false,
    }
}

pub open spec fn at(c: Changing, stage: Stage) -> Changing {
    Changing { stage, ..c }
}

pub open spec fn over(c: Changing, r: Result<bool, Fault>) -> Changing {
    at(c, Stage::Over(r))
}

/// The editor has changed and something went wrong: the session is poisoned.
pub open spec fn failed(c: Changing, l: Ledger, f: Fault) -> (Changing, Ledger) {
    (over(c, Err(f)), poisoned(l, c.operation, f))
}

/// A change of the text as it begins: nothing waits to be recorded.
pub open spec fn edit_begun(
    l: Ledger,
    operation: Seq<char>,
    captured: u64,
    edits: Option<Seq<TextEdit>>,
    length: usize,
) -> Changing {
    let c = Changing { operation, kind: ChangeKind::Edit, length, stage: Stage::Admit };
    match both(health(l), nothing_captured(captured)) {
        Err(f) => over(c, Err(f)),
        Ok(()) => match edits {
            None => over(c, Ok(false)),
            Some(all) => match length_after(length, all) {
                Err(f) => over(c, Err(f)),
                Ok(after) => Changing { length: after, ..c },
            },
        },
    }
}

/// A change of the selection as it begins.
pub open spec fn selection_begun(
    l: Ledger,
    operation: Seq<char>,
    kind: ChangeKind,
    differs: bool,
    length: usize,
) -> Changing {
    let c = Changing { operation, kind, length, stage: Stage::Admit };
    match health(l) {
        Err(f) => over(c, Err(f)),
        Ok(()) => if differs {
            c
        } else {
            over(c, Ok(false))
        },
    }
}

/// The next stage of a change, and the session with it.
pub open spec fn change_step(c: Changing, l: Ledger, event: ChangeEvent) -> (Changing, Ledger) {
    match event {
        ChangeEvent::Encoded { encoded, lengths } => match admitted(l, c.length, encoded, lengths) {
            Ok(()) => (at(c, Stage::Apply), l),
            Err(f) => (over(c, Err(f)), l),
        },
        ChangeEvent::Failed(e) => (over(c, Err(e.view())), l),
        ChangeEvent::Refused { error, captured } => if c.kind is Edit {
            (over(c, both(nothing_captured(captured), Err(error.view()))), l)
        } else {
            (over(c, Err(error.view())), l)
        },
        ChangeEvent::Edited { changed, captured } => match captured_rightly(
            changed,
            captured,
            c.operation,
        ) {
            Err(f) => failed(c, l, f),
            Ok(true) => (at(c, Stage::Encode), l),
            Ok(false) => (over(c, Ok(false)), l),
        },
        ChangeEvent::Selected { selection } => match c.kind {
            ChangeKind::Movement { after } => if selection == after {
                (at(c, Stage::Encode), l)
            } else {
                failed(
                    c,
                    l,
                    invariant_fault("movement preview differed from the committed selection"@),
                )
            },
            ChangeKind::Whole { before } => if selection == before {
                (over(c, Ok(false)), l)
            } else {
                (at(c, Stage::Encode), l)
            },
            ChangeKind::Edit => (c, l),
        },
        ChangeEvent::Captured { encoded } => match event_planned(l, encoded) {
            Err(f) => failed(c, l, f),
            Ok(plan) => {
                let m = Ledger { millis: later(l.millis), ..l };
                match job_begun(m) {
                    Err(f) => failed(c, m, f),
                    Ok(_) => (at(c, Stage::Write(plan)), m),
                }
            },
        },
        ChangeEvent::Written(outcome) => match c.stage {
            Stage::Write(plan) => match answer(outcome, plan, c.operation) {
                Err(f) => failed(c, l, f),
                Ok(_) => (
                    at(c, Stage::Measure),
                    Ledger { events: plan.sequence, event_bytes: plan.retained, ..l },
                ),
            },
            _ => (c, l),
        },
        ChangeEvent::Measured { length } => match state_charged(l, length) {
            Err(f) => failed(c, l, f),
            Ok(bytes) => {
                let m = Ledger { state_bytes: bytes, ..l };
                match length_kept(c, length) {
                    Err(f) => failed(c, m, f),
                    Ok(()) => (over(c, Ok(true)), m),
                }
            },
        },
    }
}

/// What the writer's answer to a planned event comes to.
pub open spec fn answer(
    outcome: Result<JournalWriteCompletion, MilestoneError>,
    plan: EventPlan,
    operation: Seq<char>,
) -> Result<crate::model::Hash, Fault> {
    match outcome {
        Ok(completion) => acknowledged(completion, JournalWriteKind::Event, plan.sequence, operation),
        Err(e) => Err(e.view()),
    }
}

/// An edit leaves the text as long as expected.
pub open spec fn length_kept(c: Changing, length: usize) -> Result<(), Fault> {
    if c.kind is Edit {
        same_number("previewed editor byte length"@, length as u64, c.length as u64)
    } else {
        Ok(())
    }
}

impl Change {
    pub open spec fn view(&self) -> Changing {
        Changing {
            operation: self.operation@,
            kind: self.kind,
            length: self.length,
            stage: self.phase.view(),
        }
    }

    /// Begins an edit of a text of some length. Without edits there is nothing to do.
    pub fn edit(
        ledger: &OneFileSession,
        operation: &'static str,
        captured: u64,
        edits: Option<&Vec<TextEdit>>,
        length: usize,
    ) -> (r: Change)
        ensures
            r.view() == edit_begun(
                ledger.view(),
                operation@,
                captured,
                match edits {
                    Some(all) => Some(all@),
                    None => None,
                },
                length,
            ),
    {
        let kind = ChangeKind::Edit;
        let mut r = Change { operation, kind, length, phase: ChangePhase::Admit };
        match ledger.ensure_healthy() {
            Ok(()) => {},
            Err(error) => {
                r.phase = ChangePhase::Over(Err(error));
                return r;
            },
        }
        match ledger.require_no_captured_transactions(captured) {
            Ok(()) => {},
            Err(error) => {
                r.phase = ChangePhase::Over(Err(error));
                return r;
            },
        }
        match edits {
            None => {
                r.phase = ChangePhase::Over(Ok(false));
            },
            Some(all) => match transaction_after_len(length, all) {
                Ok(after) => {
                    r.length = after;
                },
                Err(error) => {
                    r.phase = ChangePhase::Over(Err(error));
                },
            },
        }
        r
    }

    /// Begins a movement that is known to end in a selection.
    pub fn movement(
        ledger: &OneFileSession,
        operation: &'static str,
        before: SelectionState,
        after: SelectionState,
        length: usize,
    ) -> (r: Change)
        ensures
            r.view() == selection_begun(
                ledger.view(),
                operation@,
                ChangeKind::Movement { after },
                before != after,
                length,
            ),
    {
        let kind = ChangeKind::Movement { after };
        Change { operation, kind, length, phase: first_phase(ledger, before != after) }
    }

    /// Begins selecting all of a text.
    pub fn whole(
        ledger: &OneFileSession,
        operation: &'static str,
        before: SelectionState,
        length: usize,
    ) -> (r: Change)
        ensures
            r.view() == selection_begun(
                ledger.view(),
                operation@,
                ChangeKind::Whole { before },
                before != (SelectionState { anchor_byte: 0, active_byte: length as u64 }),
                length,
            ),
    {
        let all = SelectionState { anchor_byte: 0, active_byte: length as u64 };
        let kind = ChangeKind::Whole { before };
        Change { operation, kind, length, phase: first_phase(ledger, before != all) }
    }

    /// Takes in what was done.
    pub fn advance(&mut self, ledger: &mut OneFileSession, event: ChangeEvent)
        requires
            awaited(old(self).view(), event),
        ensures
            (final(self).view(), final(ledger).view()) == change_step(
                old(self).view(),
                old(ledger).view(),
                event,
            ),
    {
        match event {
            ChangeEvent::Encoded { encoded, lengths } => {
                self.phase = match ledger.preflight_recorded_state(self.length, encoded, lengths) {
                    Ok(()) => ChangePhase::Apply,
                    Err(error) => ChangePhase::Over(Err(error)),
                };
            },
            ChangeEvent::Failed(error) => {
                self.phase = ChangePhase::Over(Err(error));
            },
            ChangeEvent::Refused { error, captured } => {
                let waiting = if self.kind == ChangeKind::Edit {
                    ledger.require_no_captured_transactions(captured)
                } else {
                    Ok(())
                };
                self.phase = match waiting {
                    Ok(()) => ChangePhase::Over(Err(error)),
                    Err(other) => ChangePhase::Over(Err(other)),
                };
            },
            ChangeEvent::Edited { changed, captured } => {
                match ledger.check_captured(changed, captured, self.operation) {
                    Err(error) => {
                        self.fail(ledger, error);
                    },
                    Ok(true) => {
                        self.phase = ChangePhase::Encode;
                    },
                    Ok(false) => {
                        self.phase = ChangePhase::Over(Ok(false));
                    },
                }
            },
            ChangeEvent::Selected { selection } => match self.kind {
                ChangeKind::Movement { after } => {
                    if selection == after {
                        self.phase = ChangePhase::Encode;
                    } else {
                        let detail = "movement preview differed from the committed selection";
                        self.fail(ledger, MilestoneError::Invariant { detail: detail.to_owned() });
                    }
                },
                ChangeKind::Whole { before } => {
                    self.phase = if selection == before {
                        ChangePhase::Over(Ok(false))
                    } else {
                        ChangePhase::Encode
                    };
                },
                ChangeKind::Edit => {},
            },
            ChangeEvent::Captured { encoded } => {
                match ledger.plan_event(encoded) {
                    Err(error) => {
                        self.fail(ledger, error);
                    },
                    Ok(plan) => match ledger.begin_job(self.operation) {
                        Err(error) => {
                            self.fail(ledger, error);
                        },
                        Ok(_) => {
                            self.phase = ChangePhase::Write(plan);
                        },
                    },
                }
            },
            ChangeEvent::Written(outcome) => match &self.phase {
                ChangePhase::Write(plan) => {
                    let plan = *plan;
                    match ledger.finish_job(
                        self.operation,
                        JournalWriteKind::Event,
                        plan.sequence,
                        outcome,
                    ) {
                        Err(error) => {
                            self.fail(ledger, error);
                        },
                        Ok(_) => {
                            ledger.charge_event(plan);
                            self.phase = ChangePhase::Measure;
                        },
                    }
                },
                _ => {},
            },
            ChangeEvent::Measured { length } => {
                match ledger.charge_state(length) {
                    Err(error) => {
                        self.fail(ledger, error);
                    },
                    Ok(()) => {
                        let kept = if self.kind == ChangeKind::Edit {
                            require_equal(
                                "previewed editor byte length",
                                length as u64,
                                self.length as u64,
                            )
                        } else {
                            Ok(())
                        };
                        match kept {
                            Err(error) => {
                                self.fail(ledger, error);
                            },
                            Ok(()) => {
                                self.phase = ChangePhase::Over(Ok(true));
                            },
                        }
                    },
                }
            },
        }
    }

    fn fail(&mut self, ledger: &mut OneFileSession, error: MilestoneError)
        ensures
            (final(self).view(), final(ledger).view()) == failed(
                old(self).view(),
                old(ledger).view(),
                error.view(),
            ),
    {
        ledger.record_failure(self.operation, &error);
        self.phase = ChangePhase::Over(Err(error));
    }
}

fn first_phase(ledger: &OneFileSession, differs: bool) -> (r: ChangePhase)
    ensures
        r.view() == match health(ledger.view()) {
            Err(f) => Stage::Over(Err(f)),
            Ok(()) => if differs {
                Stage::Admit
            } else {
                Stage::Over(Ok(false))
            },
        },
{
    match ledger.ensure_healthy() {
        Err(error) => ChangePhase::Over(Err(error)),
        Ok(()) => if differs {
            ChangePhase::Admit
        } else {
            ChangePhase::Over(Ok(false))
        },
    }
}

// Laws.

/// Whether the editor may have been changed by a stage.
pub open spec fn is_made(c: Changing) -> bool {
    c.stage is Encode || c.stage is Write || c.stage is Measure
}

/// The editor is changed only once the change was admitted. A refusal is the end of
/// the change, and leaves the session as it was.
pub proof fn a_refusal_changes_nothing(c: Changing, l: Ledger, event: ChangeEvent)
    requires
        awaited(c, event),
    ensures
        change_step(c, l, event).0.stage is Apply ==> c.stage is Admit && (event matches
            ChangeEvent::Encoded { encoded, lengths } && admitted(l, c.length, encoded, lengths) is Ok),
        c.stage is Admit && !(change_step(c, l, event).0.stage is Apply) ==> change_step(
            c,
            l,
            event,
        ).0.stage is Over && change_step(c, l, event).1 == l,
        is_made(change_step(c, l, event).0) ==> c.stage is Apply || is_made(c),
{
}

/// Nothing is done of a change that is over.
pub proof fn nothing_follows_the_end(c: Changing, event: ChangeEvent)
    ensures
        c.stage is Over ==> !awaited(c, event),
{
}

/// No change begins with the editor being changed.
pub proof fn a_change_begins_with_its_admission(
    l: Ledger,
    operation: Seq<char>,
    captured: u64,
    edits: Option<Seq<TextEdit>>,
    kind: ChangeKind,
    differs: bool,
    length: usize,
)
    ensures
        edit_begun(l, operation, captured, edits, length).stage is Admit || edit_begun(
            l,
            operation,
            captured,
            edits,
            length,
        ).stage is Over,
        selection_begun(l, operation, kind, differs, length).stage is Admit || selection_begun(
            l,
            operation,
            kind,
            differs,
            length,
        ).stage is Over,
{
}

/// An event is counted and charged only with its acknowledgement, and its state
/// after that.
pub proof fn a_charge_follows_its_acknowledgement(c: Changing, l: Ledger, event: ChangeEvent)
    requires
        awaited(c, event),
    ensures
        ({
            let (d, m) = change_step(c, l, event);
            &&& m.events != l.events || m.event_bytes != l.event_bytes || d.stage is Measure
                ==> c.stage is Write && (event matches ChangeEvent::Written(outcome) && answer(
                outcome,
                c.stage->Write_0,
                c.operation,
            ) is Ok)
            &&& m.state_bytes != l.state_bytes ==> c.stage is Measure
        }),
{
}

/// Whatever goes wrong once the editor may have changed is kept: the session records
/// nothing more.
pub proof fn a_failure_after_the_change_is_kept(c: Changing, l: Ledger, event: ChangeEvent)
    requires
        awaited(c, event),
        is_made(c) || c.stage is Apply && !(event is Refused),
        change_step(c, l, event).0.stage matches Stage::Over(r) && r is Err,
    ensures
        health(change_step(c, l, event).1) is Err,
        job_begun(change_step(c, l, event).1) is Err,
{
}

} // verus!
