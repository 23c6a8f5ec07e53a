//! Recording a session over one file: when it may start, what it may still
//! record, and how it ends.

use crate::milestone_a::{
    added, checked_add_limit, event_charge, event_overflow, event_retained_charge, invariant_fault, limit_fault,
    one_file_state_retained_charge, require_limit, state_charge, state_overflow, told, within, Fault,
    MilestoneError, MilestoneRules, MAX_MILESTONE_EVENTS, MAX_REPLAY_RETAINED_EVENT_BYTES,
    MAX_REPLAY_RETAINED_STATE_BYTES, RESERVED_TERMINAL_EVENTS,
};
use crate::text;
use vstd::prelude::*;

verus! {

/// Why nothing more is recorded.
#[derive(Clone, Debug, PartialEq, Eq)]
pub struct RecordingFailure {
    pub operation: &'static str,
    pub detail: String,
}

/// A session that is being recorded.
#[derive(Clone, Debug, PartialEq, Eq)]
pub struct OneFileSession {
    pub rules: MilestoneRules,
    pub persisted_event_count: u64,
    pub retained_state_bytes: u64,
    pub retained_event_bytes: u64,
    pub next_monotonic_millis: u64,
    pub failure: Option<RecordingFailure>,
    pub writer_open: bool,
}

pub struct Ledger {
    pub rules: MilestoneRules,
    pub events: u64,
    pub state_bytes: u64,
    pub event_bytes: u64,
    pub millis: u64,
    pub failure: Option<(Seq<char>, Seq<char>)>,
    pub writer: bool,
}

impl OneFileSession {
    pub open spec fn view(&self) -> Ledger {
        Ledger {
            rules: self.rules,
            events: self.persisted_event_count,
            state_bytes: self.retained_state_bytes,
            event_bytes: self.retained_event_bytes,
            millis: self.next_monotonic_millis,
            failure: match self.failure {
                Some(f) => Some((f.operation@, f.detail@)),
                None => None,
            },
            writer: self.writer_open,
        }
    }
}

/// How long the two last events of a session are when they are encoded.
#[derive(Clone, Copy, Debug, PartialEq, Eq, Structural)]
pub struct TerminalLengths {
    pub checkpoint: usize,
    pub finalization: usize,
}

/// What the two last events of a session are charged.
#[derive(Clone, Copy, Debug, PartialEq, Eq, Structural)]
pub struct TerminalEventBudget {
    pub checkpoint: u64,
    pub finalization: u64,
}

pub open spec fn terminal_of(events: u64, lengths: TerminalLengths, layout: u64) -> Result<TerminalEventBudget, Fault> {
    if events == u64::MAX {
        Err(invariant_fault("final checkpoint sequence overflowed"@))
    } else if events == u64::MAX - 1 {
        Err(invariant_fault("finalization sequence overflowed"@))
    } else {
        match (event_charge(layout, lengths.checkpoint), event_charge(layout, lengths.finalization)) {
            (Err(f), _) => Err(f),
            (Ok(_), Err(f)) => Err(f),
            (Ok(checkpoint), Ok(finalization)) => Ok(
                TerminalEventBudget { checkpoint, finalization },
            ),
        }
    }
}

pub fn terminal_event_retained_budget(events: u64, lengths: TerminalLengths, rules: &MilestoneRules) -> (r: Result<
    TerminalEventBudget,
    MilestoneError,
>)
    ensures
        told(r, terminal_of(events, lengths, rules.event_layout)),
{
    if events == u64::MAX {
        return Err(
            MilestoneError::Invariant { detail: "final checkpoint sequence overflowed".to_owned() },
        );
    }
    if events == u64::MAX - 1 {
        return Err(
            MilestoneError::Invariant { detail: "finalization sequence overflowed".to_owned() },
        );
    }
    let checkpoint = event_retained_charge(lengths.checkpoint, rules)?;
    let finalization = event_retained_charge(lengths.finalization, rules)?;
    Ok(TerminalEventBudget { checkpoint, finalization })
}

/// Event bytes with more of them and the two last events, within the limit.
pub open spec fn event_room(bytes: u64, more: u64, t: TerminalEventBudget) -> Result<(), Fault> {
    let total = bytes + more + t.checkpoint + t.finalization;
    if total > u64::MAX {
        Err(event_overflow())
    } else {
        within("replay retained event bytes"@, total as u64, MAX_REPLAY_RETAINED_EVENT_BYTES)
    }
}

pub(crate) fn check_event_room(bytes: u64, more: u64, t: TerminalEventBudget) -> (r: Result<(), MilestoneError>)
    ensures
        told(r, event_room(bytes, more, t)),
{
    let total: u128 = bytes as u128 + more as u128 + t.checkpoint as u128 + t.finalization as u128;
    if total > u64::MAX as u128 {
        return Err(
            MilestoneError::LimitExceeded {
                resource: "replay retained event bytes",
                attempted: u64::MAX,
                maximum: MAX_REPLAY_RETAINED_EVENT_BYTES,
            },
        );
    }
    require_limit("replay retained event bytes", total as u64, MAX_REPLAY_RETAINED_EVENT_BYTES)
}

/// State bytes with so many states of one length more, within the limit.
pub open spec fn state_room(bytes: u64, charge: u64, states: u64) -> Result<(), Fault> {
    let total = bytes + charge * states;
    if total > u64::MAX {
        Err(state_overflow())
    } else {
        within("replay retained state bytes"@, total as u64, MAX_REPLAY_RETAINED_STATE_BYTES)
    }
}

fn check_state_room(bytes: u64, charge: u64, states: u64) -> (r: Result<(), MilestoneError>)
    requires
        states <= 3,
    ensures
        told(r, state_room(bytes, charge, states)),
{
    let wide: u128 = charge as u128;
    let more: u128 = if states == 0 {
        0
    } else if states == 1 {
        wide
    } else if states == 2 {
        wide + wide
    } else {
        wide + wide + wide
    };
    assert(more == charge * states) by (nonlinear_arith)
        requires
            states <= 3,
            wide == charge,
            more == (if states == 0 {
                0
            } else if states == 1 {
                wide as int
            } else if states == 2 {
                wide + wide
            } else {
                wide + wide + wide
            }),
    ;
    let total: u128 = bytes as u128 + more;
    if total > u64::MAX as u128 {
        return Err(
            MilestoneError::LimitExceeded {
                resource: "replay retained state bytes",
                attempted: u64::MAX,
                maximum: MAX_REPLAY_RETAINED_STATE_BYTES,
            },
        );
    }
    require_limit("replay retained state bytes", total as u64, MAX_REPLAY_RETAINED_STATE_BYTES)
}

pub open spec fn event_count_room(events: u64, more: u64) -> Result<(), Fault> {
    if events + more > u64::MAX {
        Err(limit_fault("replay events"@, u64::MAX, MAX_MILESTONE_EVENTS))
    } else {
        within("replay events"@, (events + more) as u64, MAX_MILESTONE_EVENTS)
    }
}

fn check_event_count(events: u64, more: u64) -> (r: Result<(), MilestoneError>)
    ensures
        told(r, event_count_room(events, more)),
{
    match events.checked_add(more) {
        None => Err(
            MilestoneError::LimitExceeded {
                resource: "replay events",
                attempted: u64::MAX,
                maximum: MAX_MILESTONE_EVENTS,
            },
        ),
        Some(n) => require_limit("replay events", n, MAX_MILESTONE_EVENTS),
    }
}

/// The first of two results that failed.
pub open spec fn both<T>(a: Result<(), Fault>, b: Result<T, Fault>) -> Result<T, Fault> {
    match a {
        Err(f) => Err(f),
        Ok(()) => b,
    }
}

// Before something is recorded.

/// Whether an event of some length has room, with the two last ones behind it.
pub open spec fn event_admitted(l: Ledger, encoded: usize, lengths: TerminalLengths) -> Result<(), Fault> {
    if l.events == u64::MAX {
        Err(invariant_fault("event budget sequence overflowed"@))
    } else {
        match event_charge(l.rules.event_layout, encoded) {
            Err(f) => Err(f),
            Ok(charge) => match terminal_of((l.events + 1) as u64, lengths, l.rules.event_layout) {
                Err(f) => Err(f),
                Ok(t) => event_room(l.event_bytes, charge, t),
            },
        }
    }
}

/// Whether a state over a text of some length may be recorded: within the
/// length of a file, the number of events, and the bytes of states and events,
/// with the end of the session kept free.
pub open spec fn admitted(l: Ledger, length: usize, encoded: usize, lengths: TerminalLengths) -> Result<(), Fault> {
    match within("source bytes"@, length as u64, l.rules.max_source_bytes) {
        Err(f) => Err(f),
        Ok(()) => match event_count_room(l.events, (1 + RESERVED_TERMINAL_EVENTS) as u64) {
            Err(f) => Err(f),
            Ok(()) => match state_charge(l.rules.state_layout, length) {
                Err(f) => Err(f),
                Ok(charge) => both(
                    state_room(l.state_bytes, charge, (1 + RESERVED_TERMINAL_EVENTS) as u64),
                    event_admitted(l, encoded, lengths),
                ),
            },
        },
    }
}

pub open spec fn health(l: Ledger) -> Result<(), Fault> {
    match l.failure {
        Some((operation, detail)) => Err(Fault::RecordingFailed { operation, detail }),
        None => Ok(()),
    }
}

/// A failure is kept, the first one, and the writer is let go.
pub open spec fn poisoned(l: Ledger, operation: Seq<char>, f: Fault) -> Ledger {
    Ledger {
        failure: if l.failure is Some {
            l.failure
        } else {
            Some((operation, f.words()))
        },
        writer: false,
        ..l
    }
}

/// What an event will be: its number, its time and the bytes after it.
#[derive(Clone, Copy, Debug, PartialEq, Eq, Structural)]
pub struct EventPlan {
    pub sequence: u64,
    pub millis: u64,
    pub retained: u64,
}

pub open spec fn later(millis: u64) -> u64 {
    if millis < u64::MAX {
        (millis + 1) as u64
    } else {
        millis
    }
}

pub open spec fn event_planned(l: Ledger, encoded: usize) -> Result<EventPlan, Fault> {
    if l.events == u64::MAX {
        Err(invariant_fault("event budget sequence overflowed"@))
    } else {
        match event_charge(l.rules.event_layout, encoded) {
            Err(f) => Err(f),
            Ok(charge) => match added(
                "replay retained event bytes"@,
                l.event_bytes,
                charge,
                MAX_REPLAY_RETAINED_EVENT_BYTES,
            ) {
                Err(f) => Err(f),
                Ok(retained) => Ok(
                    EventPlan { sequence: (l.events + 1) as u64, millis: l.millis, retained },
                ),
            },
        }
    }
}

/// What a writer answers.
#[derive(Clone, Copy, Debug, PartialEq, Eq, Structural)]
pub enum JournalWriteKind {
    Event,
    Checkpoint,
}

impl JournalWriteKind {
    pub open spec fn word(self) -> Seq<char> {
        match self {
            JournalWriteKind::Event => "Event"@,
            JournalWriteKind::Checkpoint => "Checkpoint"@,
        }
    }

    fn name(self) -> (r: &'static str)
        ensures
            r@ == self.word(),
    {
        match self {
            JournalWriteKind::Event => "Event",
            JournalWriteKind::Checkpoint => "Checkpoint",
        }
    }
}

pub enum JournalWriteCompletion {
    Persisted { kind: JournalWriteKind, sequence: u64, event_hash: crate::model::Hash },
    Failed { detail: String },
}

pub open spec fn unexpected(kind: JournalWriteKind, sequence: u64, expected_kind: JournalWriteKind, expected: u64) -> Seq<char> {
    "journal acknowledged "@ + kind.word() + " sequence "@ + text::decimal(sequence as nat) + "; expected "@
        + expected_kind.word() + " sequence "@ + text::decimal(expected as nat)
}

/// Only the acknowledgement of what was written, under its number, counts.
pub open spec fn acknowledged(
    c: JournalWriteCompletion,
    kind: JournalWriteKind,
    sequence: u64,
    operation: Seq<char>,
) -> Result<crate::model::Hash, Fault> {
    match c {
        JournalWriteCompletion::Persisted { kind: k, sequence: s, event_hash } => if k == kind && s
            == sequence {
            Ok(event_hash)
        } else {
            Err(Fault::RecordingFailed { operation, detail: unexpected(k, s, kind, sequence) })
        },
        JournalWriteCompletion::Failed { detail } => Err(
            Fault::RecordingFailed { operation, detail: detail@ },
        ),
    }
}

pub fn wait_for_persistence(
    completion: JournalWriteCompletion,
    kind: JournalWriteKind,
    sequence: u64,
    operation: &'static str,
) -> (r: Result<crate::model::Hash, MilestoneError>)
    ensures
        told(r, acknowledged(completion, kind, sequence, operation@)),
{
    match completion {
        JournalWriteCompletion::Persisted { kind: k, sequence: s, event_hash } => {
            if k == kind && s == sequence {
                return Ok(event_hash);
            }
            let mut detail = "journal acknowledged ".to_owned();
            detail.push_str(k.name());
            detail.push_str(" sequence ");
            detail.push_str(text::write_decimal(s).as_str());
            detail.push_str("; expected ");
            detail.push_str(kind.name());
            detail.push_str(" sequence ");
            detail.push_str(text::write_decimal(sequence).as_str());
            Err(MilestoneError::RecordingFailed { operation, detail })
        },
        JournalWriteCompletion::Failed { detail } => Err(
            MilestoneError::RecordingFailed { operation, detail },
        ),
    }
}

/// Whether a job may be handed to the writer, and under which number.
pub open spec fn job_begun(l: Ledger) -> Result<u64, Fault> {
    match health(l) {
        Err(f) => Err(f),
        Ok(()) => if l.events == u64::MAX {
            Err(invariant_fault("journal event sequence overflowed u64"@))
        } else if !l.writer {
            Err(invariant_fault("journal writer is unavailable"@))
        } else {
            Ok((l.events + 1) as u64)
        },
    }
}

/// A mismatch between two values that should be the same.
pub open spec fn differs(field: Seq<char>, actual: Seq<char>, expected: Seq<char>) -> Fault {
    Fault::Mismatch { field, detail: "actual "@ + actual + "; expected "@ + expected }
}

pub fn mismatch(field: &'static str, actual: &str, expected: &str) -> (r: MilestoneError)
    ensures
        r.view() == differs(field@, actual@, expected@),
{
    let mut detail = "actual ".to_owned();
    detail.push_str(actual);
    detail.push_str("; expected ");
    detail.push_str(expected);
    MilestoneError::Mismatch { field, detail }
}

pub open spec fn same_number(field: Seq<char>, actual: u64, expected: u64) -> Result<(), Fault> {
    if actual == expected {
        Ok(())
    } else {
        Err(differs(field, text::decimal(actual as nat), text::decimal(expected as nat)))
    }
}

pub fn require_equal(field: &'static str, actual: u64, expected: u64) -> (r: Result<(), MilestoneError>)
    ensures
        told(r, same_number(field@, actual, expected)),
{
    if actual == expected {
        Ok(())
    } else {
        Err(
            mismatch(
                field,
                text::write_decimal(actual).as_str(),
                text::write_decimal(expected).as_str(),
            ),
        )
    }
}

pub open spec fn same_hash(field: Seq<char>, actual: crate::model::Hash, expected: crate::model::Hash) -> Result<
    (),
    Fault,
> {
    if actual.bytes@ == expected.bytes@ {
        Ok(())
    } else {
        Err(differs(field, text::hex_of(actual.bytes@), text::hex_of(expected.bytes@)))
    }
}

pub fn require_same_hash(field: &'static str, actual: &crate::model::Hash, expected: &crate::model::Hash) -> (r:
    Result<(), MilestoneError>)
    ensures
        told(r, same_hash(field@, *actual, *expected)),
{
    if text::bytes_eq(actual.bytes.as_slice(), expected.bytes.as_slice()) {
        Ok(())
    } else {
        let a = text::encode_hex(actual.bytes.as_slice());
        let b = text::encode_hex(expected.bytes.as_slice());
        Err(mismatch(field, a.as_str(), b.as_str()))
    }
}

impl OneFileSession {
    pub fn ensure_healthy(&self) -> (r: Result<(), MilestoneError>)
        ensures
            told(r, health(self.view())),
    {
        match &self.failure {
            Some(f) => Err(
                MilestoneError::RecordingFailed { operation: f.operation, detail: f.detail.clone() },
            ),
            None => Ok(()),
        }
    }

    fn preflight_recorded_event(&self, encoded: usize, lengths: TerminalLengths) -> (r: Result<
        (),
        MilestoneError,
    >)
        ensures
            told(r, event_admitted(self.view(), encoded, lengths)),
    {
        if self.persisted_event_count == u64::MAX {
            return Err(
                MilestoneError::Invariant { detail: "event budget sequence overflowed".to_owned() },
            );
        }
        let charge = event_retained_charge(encoded, &self.rules)?;
        let terminal = terminal_event_retained_budget(
            self.persisted_event_count + 1,
            lengths,
            &self.rules,
        )?;
        check_event_room(self.retained_event_bytes, charge, terminal)
    }

    /// Whether a state may be recorded.
    pub fn preflight_recorded_state(&self, length: usize, encoded: usize, lengths: TerminalLengths) -> (r:
        Result<(), MilestoneError>)
        ensures
            told(r, admitted(self.view(), length, encoded, lengths)),
    {
        require_limit("source bytes", length as u64, self.rules.max_source_bytes)?;
        check_event_count(self.persisted_event_count, 1 + RESERVED_TERMINAL_EVENTS)?;
        let charge = one_file_state_retained_charge(length, &self.rules)?;
        check_state_room(self.retained_state_bytes, charge, 1 + RESERVED_TERMINAL_EVENTS)?;
        self.preflight_recorded_event(encoded, lengths)
    }

    /// A failure is kept, the first one, and the writer is let go.
    pub fn record_failure(&mut self, operation: &'static str, error: &MilestoneError)
        ensures
            final(self).view() == poisoned(old(self).view(), operation@, error.view()),
    {
        if self.failure.is_none() {
            self.failure = Some(RecordingFailure { operation, detail: error.to_text() });
        }
        self.writer_open = false;
    }

    pub fn persisted_event_count(&self) -> (r: u64)
        ensures
            r == self.persisted_event_count,
    {
        self.persisted_event_count
    }

    pub fn take_monotonic_millis(&mut self) -> (r: u64)
        ensures
            r == old(self).next_monotonic_millis,
            final(self).view() == (Ledger { millis: later(old(self).view().millis), ..old(self).view() }),
    {
        let now: u64 = self.next_monotonic_millis;
        if now < u64::MAX {
            self.next_monotonic_millis = now + 1;
        }
        now
    }

    /// Plans an event. Its time is used up.
    pub fn plan_event(&mut self, encoded: usize) -> (r: Result<EventPlan, MilestoneError>)
        ensures
            told(r, event_planned(old(self).view(), encoded)),
            final(self).view() == if r is Ok {
                Ledger { millis: later(old(self).view().millis), ..old(self).view() }
            } else {
                old(self).view()
            },
    {
        if self.persisted_event_count == u64::MAX {
            return Err(
                MilestoneError::Invariant { detail: "event budget sequence overflowed".to_owned() },
            );
        }
        let charge = event_retained_charge(encoded, &self.rules)?;
        let retained = checked_add_limit(
            "replay retained event bytes",
            self.retained_event_bytes,
            charge,
            MAX_REPLAY_RETAINED_EVENT_BYTES,
        )?;
        let sequence: u64 = self.persisted_event_count + 1;
        let millis = self.take_monotonic_millis();
        Ok(EventPlan { sequence, millis, retained })
    }

    /// Whether a job may be handed to the writer. A session that cannot is
    /// poisoned.
    pub fn begin_job(&mut self, operation: &'static str) -> (r: Result<u64, MilestoneError>)
        ensures
            told(r, job_begun(old(self).view())),
            final(self).view() == match job_begun(old(self).view()) {
                Ok(_) => old(self).view(),
                Err(f) => poisoned(old(self).view(), operation@, f),
            },
    {
        let result = match self.ensure_healthy() {
            Err(error) => Err(error),
            Ok(()) => {
                if self.persisted_event_count == u64::MAX {
                    Err(
                        MilestoneError::Invariant {
                            detail: "journal event sequence overflowed u64".to_owned(),
                        },
                    )
                } else if !self.writer_open {
                    Err(
                        MilestoneError::Invariant {
                            detail: "journal writer is unavailable".to_owned(),
                        },
                    )
                } else {
                    Ok(self.persisted_event_count + 1)
                }
            },
        };
        match &result {
            Err(error) => {
                self.record_failure(operation, error);
            },
            Ok(_) => {},
        }
        result
    }

    /// Takes in what became of a job: an answer of the writer, or what went
    /// wrong before it was asked. Only the right answer counts as recorded;
    /// any other poisons the session.
    pub fn finish_job(
        &mut self,
        operation: &'static str,
        kind: JournalWriteKind,
        sequence: u64,
        outcome: Result<JournalWriteCompletion, MilestoneError>,
    ) -> (r: Result<crate::model::Hash, MilestoneError>)
        ensures
            ({
                let s = match outcome {
                    Ok(c) => acknowledged(c, kind, sequence, operation@),
                    Err(e) => Err(e.view()),
                };
                &&& told(r, s)
                &&& final(self).view() == match s {
                    Ok(_) => Ledger { events: sequence, ..old(self).view() },
                    Err(f) => poisoned(old(self).view(), operation@, f),
                }
            }),
    {
        let result = match outcome {
            Err(error) => Err(error),
            Ok(completion) => wait_for_persistence(completion, kind, sequence, operation),
        };
        match &result {
            Err(error) => {
                self.record_failure(operation, error);
            },
            Ok(_) => {
                self.persisted_event_count = sequence;
            },
        }
        result
    }

    /// Charges an event that was recorded.
    pub fn charge_event(&mut self, plan: EventPlan)
        ensures
            final(self).view() == (Ledger { event_bytes: plan.retained, ..old(self).view() }),
    {
        self.retained_event_bytes = plan.retained;
    }

    /// Charges a state over a text of some length.
    pub fn charge_state(&mut self, length: usize) -> (r: Result<(), MilestoneError>)
        ensures
            ({
                let s = state_charged(old(self).view(), length);
                &&& final(self).view() == match s {
                    Ok(bytes) => Ledger { state_bytes: bytes, ..old(self).view() },
                    Err(_) => old(self).view(),
                }
                &&& match s {
                    Ok(_) => r is Ok,
                    Err(f) => r is Err && r->Err_0.view() == f,
                }
            }),
    {
        let charge = one_file_state_retained_charge(length, &self.rules)?;
        self.retained_state_bytes = checked_add_limit(
            "replay retained state bytes",
            self.retained_state_bytes,
            charge,
            MAX_REPLAY_RETAINED_STATE_BYTES,
        )?;
        Ok(())
    }

    /// How many edits an action of the editor handed over: one where it changed
    /// the text, none where it did not.
    pub fn check_captured(&self, changed: bool, captured: u64, operation: &'static str) -> (r: Result<
        bool,
        MilestoneError,
    >)
        ensures
            told(r, captured_rightly(changed, captured, operation@)),
    {
        if !changed && captured != 0 {
            let mut detail = "no-op editor action captured ".to_owned();
            detail.push_str(text::write_decimal(captured).as_str());
            detail.push_str(" transactions during ");
            detail.push_str(operation);
            return Err(MilestoneError::Invariant { detail });
        }
        if changed && captured != 1 {
            let mut detail = "successful editor action captured ".to_owned();
            detail.push_str(text::write_decimal(captured).as_str());
            detail.push_str(" transactions during ");
            detail.push_str(operation);
            return Err(MilestoneError::Invariant { detail });
        }
        Ok(changed)
    }

    /// Refuses to go on while edits wait to be recorded.
    pub fn require_no_captured_transactions(&self, captured: u64) -> (r: Result<(), MilestoneError>)
        ensures
            told(r, nothing_captured(captured)),
    {
        if captured == 0 {
            Ok(())
        } else {
            let mut detail = text::write_decimal(captured);
            detail.push_str(" editor transactions are awaiting persistence");
            Err(MilestoneError::Invariant { detail })
        }
    }

    /// Ends an action that has changed the editor: whatever went wrong poisons
    /// the session.
    pub fn finish_mutated_operation(&mut self, operation: &'static str, result: Result<bool, MilestoneError>) -> (r:
        Result<bool, MilestoneError>)
        ensures
            r == result,
            final(self).view() == match result {
                Ok(_) => old(self).view(),
                Err(e) => poisoned(old(self).view(), operation@, e.view()),
            },
    {
        match &result {
            Err(error) => {
                self.record_failure(operation, error);
            },
            Ok(_) => {},
        }
        result
    }
}

pub open spec fn state_charged(l: Ledger, length: usize) -> Result<u64, Fault> {
    match state_charge(l.rules.state_layout, length) {
        Err(f) => Err(f),
        Ok(charge) => added(
            "replay retained state bytes"@,
            l.state_bytes,
            charge,
            MAX_REPLAY_RETAINED_STATE_BYTES,
        ),
    }
}

pub open spec fn captured_rightly(changed: bool, captured: u64, operation: Seq<char>) -> Result<bool, Fault> {
    if !changed && captured != 0 {
        Err(
            invariant_fault(
                "no-op editor action captured "@ + text::decimal(captured as nat)
                    + " transactions during "@ + operation,
            ),
        )
    } else if changed && captured != 1 {
        Err(
            invariant_fault(
                "successful editor action captured "@ + text::decimal(captured as nat)
                    + " transactions during "@ + operation,
            ),
        )
    } else {
        Ok(changed)
    }
}

pub open spec fn nothing_captured(captured: u64) -> Result<(), Fault> {
    if captured == 0 {
        Ok(())
    } else {
        Err(
            invariant_fault(
                text::decimal(captured as nat) + " editor transactions are awaiting persistence"@,
            ),
        )
    }
}

// The end of a session.

/// Whether a session over a text of some length may end.
pub open spec fn end_admitted(l: Ledger, length: usize, lengths: TerminalLengths) -> Result<
    TerminalEventBudget,
    Fault,
> {
    match within("source bytes"@, length as u64, l.rules.max_source_bytes) {
        Err(f) => Err(f),
        Ok(()) => match event_count_room(l.events, RESERVED_TERMINAL_EVENTS) {
            Err(f) => Err(f),
            Ok(()) => match state_charge(l.rules.state_layout, length) {
                Err(f) => Err(f),
                Ok(charge) => match state_room(l.state_bytes, charge, RESERVED_TERMINAL_EVENTS) {
                    Err(f) => Err(f),
                    Ok(()) => match terminal_of(l.events, lengths, l.rules.event_layout) {
                        Err(f) => Err(f),
                        Ok(t) => both(event_room(l.event_bytes, 0, t), Ok(t)),
                    },
                },
            },
        },
    }
}

/// What is fixed before a session ends: the charges of its last two events,
/// the bytes after them, and the length of the text.
#[derive(Clone, Copy, Debug, PartialEq, Eq, Structural)]
pub struct FinishPlan {
    pub terminal: TerminalEventBudget,
    pub retained: u64,
    pub length: usize,
}

/// What the end of a session over a text will be, if there is room.
pub open spec fn end_planned(l: Ledger, length: usize, lengths: TerminalLengths) -> Result<
    FinishPlan,
    Fault,
> {
    match end_admitted(l, length, lengths) {
        Err(f) => Err(f),
        Ok(terminal) => Ok(
            FinishPlan {
                terminal,
                retained: (l.event_bytes + terminal.checkpoint + terminal.finalization) as u64,
                length,
            },
        ),
    }
}

/// The last checkpoint was recorded: it and its state are charged.
pub open spec fn checkpoint_charged(l: Ledger, plan: FinishPlan) -> Result<Ledger, Fault> {
    match added(
        "replay retained event bytes"@,
        l.event_bytes,
        plan.terminal.checkpoint,
        MAX_REPLAY_RETAINED_EVENT_BYTES,
    ) {
        Err(f) => Err(f),
        Ok(bytes) => {
            let m = Ledger { event_bytes: bytes, ..l };
            match state_charged(m, plan.length) {
                Err(f) => Err(f),
                Ok(state) => Ok(Ledger { state_bytes: state, ..m }),
            }
        },
    }
}

/// The finalization was recorded: the bytes are those that were planned, its
/// state is charged, and its number is the expected one.
pub open spec fn finalization_charged(l: Ledger, plan: FinishPlan, sequence: u64) -> Result<Ledger, Fault> {
    match same_number("preflighted terminal event bytes"@, l.event_bytes, plan.retained) {
        Err(f) => Err(f),
        Ok(()) => match state_charged(l, plan.length) {
            Err(f) => Err(f),
            Ok(state) => if l.events != sequence {
                Err(invariant_fault("finalization acknowledgement used an unexpected sequence"@))
            } else {
                Ok(Ledger { state_bytes: state, ..l })
            },
        },
    }
}

/// The ledger after the last checkpoint was charged, as far as it could be: its
/// event is charged before its state.
pub open spec fn checkpoint_left(l: Ledger, plan: FinishPlan) -> Ledger {
    match added(
        "replay retained event bytes"@,
        l.event_bytes,
        plan.terminal.checkpoint,
        MAX_REPLAY_RETAINED_EVENT_BYTES,
    ) {
        Err(_) => l,
        Ok(bytes) => Ledger { event_bytes: bytes, ..l },
    }
}

/// The ledger after the finalization was charged, as far as it could be: its state
/// is charged before its number is looked at.
pub open spec fn finalization_left(l: Ledger, plan: FinishPlan) -> Ledger {
    match state_charged(l, plan.length) {
        Ok(state) => if l.event_bytes == plan.retained {
            Ledger { state_bytes: state, ..l }
        } else {
            l
        },
        Err(_) => l,
    }
}

/// Whether a ledger is the one that is wanted, or what is left of it and the fault
/// told.
pub open spec fn told_ledger(
    r: Result<(), MilestoneError>,
    s: Result<Ledger, Fault>,
    left: Ledger,
    l: Ledger,
) -> bool {
    match s {
        Ok(n) => r is Ok && l == n,
        Err(f) => r is Err && r->Err_0.view() == f && l == left,
    }
}

impl OneFileSession {
    /// Whether the session may end, and what its end is charged.
    pub fn preflight_finalization(&self, length: usize, lengths: TerminalLengths) -> (r: Result<
        TerminalEventBudget,
        MilestoneError,
    >)
        ensures
            told(r, end_admitted(self.view(), length, lengths)),
    {
        require_limit("source bytes", length as u64, self.rules.max_source_bytes)?;
        check_event_count(self.persisted_event_count, RESERVED_TERMINAL_EVENTS)?;
        let charge = one_file_state_retained_charge(length, &self.rules)?;
        check_state_room(self.retained_state_bytes, charge, RESERVED_TERMINAL_EVENTS)?;
        let terminal = terminal_event_retained_budget(
            self.persisted_event_count,
            lengths,
            &self.rules,
        )?;
        check_event_room(self.retained_event_bytes, 0, terminal)?;
        Ok(terminal)
    }

    /// What the end will be charged, if there is room.
    pub fn plan_finish(&self, length: usize, lengths: TerminalLengths) -> (r: Result<
        FinishPlan,
        MilestoneError,
    >)
        ensures
            told(r, end_planned(self.view(), length, lengths)),
    {
        let terminal = self.preflight_finalization(length, lengths)?;
        let retained: u64 = self.retained_event_bytes + terminal.checkpoint + terminal.finalization;
        Ok(FinishPlan { terminal, retained, length })
    }

    /// Charges the last checkpoint, which was recorded.
    pub fn charge_final_checkpoint(&mut self, plan: &FinishPlan) -> (r: Result<(), MilestoneError>)
        ensures
            told_ledger(
                r,
                checkpoint_charged(old(self).view(), *plan),
                checkpoint_left(old(self).view(), *plan),
                final(self).view(),
            ),
    {
        self.retained_event_bytes = checked_add_limit(
            "replay retained event bytes",
            self.retained_event_bytes,
            plan.terminal.checkpoint,
            MAX_REPLAY_RETAINED_EVENT_BYTES,
        )?;
        self.charge_state(plan.length)
    }

    /// The number of the finalization.
    pub fn final_sequence(&self) -> (r: Result<u64, MilestoneError>)
        ensures
            told(
                r,
                if self.persisted_event_count == u64::MAX {
                    Err(invariant_fault("final event sequence overflowed u64"@))
                } else {
                    Ok((self.persisted_event_count + 1) as u64)
                },
            ),
    {
        if self.persisted_event_count == u64::MAX {
            Err(
                MilestoneError::Invariant {
                    detail: "final event sequence overflowed u64".to_owned(),
                },
            )
        } else {
            Ok(self.persisted_event_count + 1)
        }
    }

    /// Charges the finalization, which was recorded and charged as an event.
    pub fn charge_finalization(&mut self, plan: &FinishPlan, sequence: u64) -> (r: Result<(), MilestoneError>)
        ensures
            told_ledger(
                r,
                finalization_charged(old(self).view(), *plan, sequence),
                finalization_left(old(self).view(), *plan),
                final(self).view(),
            ),
    {
        require_equal("preflighted terminal event bytes", self.retained_event_bytes, plan.retained)?;
        self.charge_state(plan.length)?;
        if self.persisted_event_count != sequence {
            return Err(
                MilestoneError::Invariant {
                    detail: "finalization acknowledgement used an unexpected sequence".to_owned(),
                },
            );
        }
        Ok(())
    }
}

} // verus!
