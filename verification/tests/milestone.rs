use rustrace::milestone_a::{
    checked_add_limit, event_retained_charge, one_file_state_retained_charge, require_limit,
    transaction_after_len, MilestoneError, MilestoneRules,
};
use rustrace::milestone_change::{Change, ChangeEvent, ChangePhase};
use rustrace::milestone_finish::{FinishEvent, FinishPhase, Finishing};
use rustrace::milestone_replay::{check_session, validate_projected_selection, SelectionState};
use rustrace::milestone_session::{
    require_equal, wait_for_persistence, JournalWriteCompletion, JournalWriteKind, OneFileSession,
    TerminalLengths,
};
use rustrace::milestone_start::{
    may_remove, resolve_input_directory, resolve_input_directory_with, verify_identity, Anchors,
    Entries, Entry, EntryKind, FileIdentity, FinalHashes, Paths, StartEvent, StartPhase, Starting,
};
use rustrace::model::TextEdit;
use std::cell::Cell;

const RULES: MilestoneRules = MilestoneRules {
    max_source_bytes: 1024 * 1024,
    state_layout: 512,
    event_layout: 256,
};

const LENGTHS: TerminalLengths = TerminalLengths {
    checkpoint: 200,
    finalization: 200,
};

const START: FileIdentity = FileIdentity {
    device: 1,
    inode: 2,
};

fn hash() -> rustrace::model::Hash {
    rustrace::model::Hash::zero()
}

fn started(length: usize) -> OneFileSession {
    let mut start = Starting::new(length, RULES).unwrap();
    loop {
        let event = match start.phase {
            StartPhase::Budget => StartEvent::Encoded {
                genesis: 300,
                lengths: LENGTHS,
            },
            StartPhase::Genesis => StartEvent::Completed(JournalWriteCompletion::Persisted {
                kind: JournalWriteKind::Checkpoint,
                sequence: 1,
                event_hash: hash(),
            }),
            _ => StartEvent::Done,
        };
        match start.advance(event) {
            Ok(StartPhase::Running) => return start.session().unwrap(),
            Ok(_) => {}
            Err((error, _)) => panic!("{}", error.to_text()),
        }
    }
}

#[test]
fn one_file_empty_state_has_positive_conservative_retained_charge() {
    let charge = one_file_state_retained_charge(0, &RULES).unwrap();
    assert!(charge > 0);
    assert!(charge >= RULES.state_layout);
}

#[test]
fn a_state_that_shrinks_fits_up_to_the_bound() {
    let mut session = started("🦀".len());
    let empty = one_file_state_retained_charge(0, &RULES).unwrap();
    let shrunk = transaction_after_len(
        4,
        &vec![TextEdit {
            start_byte: 0,
            end_byte: 4,
            inserted_text: String::new(),
        }],
    )
    .unwrap();
    assert_eq!(shrunk, 0);
    session.retained_state_bytes = max_state() - 3 * empty;
    session.preflight_recorded_state(shrunk, 300, LENGTHS).unwrap();
    session.charge_state(shrunk).unwrap();
    session.retained_state_bytes = max_state() - 3 * empty + 1;
    assert!(session.preflight_recorded_state(shrunk, 300, LENGTHS).is_err());
}

fn max_state() -> u64 {
    rustrace::milestone_a::MAX_REPLAY_RETAINED_STATE_BYTES
}

#[test]
fn a_full_event_budget_is_refused_before_anything_is_recorded() {
    let mut session = started(1);
    session.retained_event_bytes = rustrace::milestone_a::MAX_REPLAY_RETAINED_EVENT_BYTES;
    let before = session.persisted_event_count;
    let refused = session.preflight_recorded_state(1, 300, LENGTHS);
    assert!(
        matches!(
            refused,
            Err(MilestoneError::LimitExceeded {
                resource: "replay retained event bytes",
                ..
            })
        ),
        "{refused:?}"
    );
    assert_eq!(session.persisted_event_count, before);
}

#[test]
fn a_failure_is_kept_for_good() {
    let mut session = started(1);
    let failed: Result<bool, MilestoneError> = Err(MilestoneError::Writer("lost".to_owned()));
    assert!(session.finish_mutated_operation("insert", failed).is_err());
    for _ in 0..2 {
        assert!(matches!(
            session.ensure_healthy(),
            Err(MilestoneError::RecordingFailed {
                operation: "insert",
                ..
            })
        ));
    }
    assert!(matches!(
        Finishing::new(&session, 0, 1, &hash(), &hash()).phase,
        FinishPhase::Over(MilestoneError::RecordingFailed { .. })
    ));
}

fn selection(caret: u64) -> SelectionState {
    SelectionState {
        anchor_byte: caret,
        active_byte: caret,
    }
}

fn persisted(sequence: u64) -> ChangeEvent {
    ChangeEvent::Written(Ok(JournalWriteCompletion::Persisted {
        kind: JournalWriteKind::Event,
        sequence,
        event_hash: hash(),
    }))
}

fn admitted() -> ChangeEvent {
    ChangeEvent::Encoded {
        encoded: 300,
        lengths: LENGTHS,
    }
}

fn one_insert() -> Vec<TextEdit> {
    vec![TextEdit {
        start_byte: 0,
        end_byte: 0,
        inserted_text: "ab".to_owned(),
    }]
}

#[test]
fn an_edit_is_admitted_made_written_and_charged() {
    let mut session = started(1);
    let (state, bytes) = (session.retained_state_bytes, session.retained_event_bytes);
    let mut change = Change::edit(&session, "typed", 0, Some(&one_insert()), 1);
    assert_eq!(change.length, 3);
    change.advance(&mut session, admitted());
    assert!(matches!(change.phase, ChangePhase::Apply));
    change.advance(
        &mut session,
        ChangeEvent::Edited {
            changed: true,
            captured: 1,
        },
    );
    change.advance(&mut session, ChangeEvent::Captured { encoded: 300 });
    assert!(matches!(change.phase, ChangePhase::Write(plan) if plan.sequence == 2));
    assert_eq!(session.retained_event_bytes, bytes);
    change.advance(&mut session, persisted(2));
    assert_eq!(session.persisted_event_count, 2);
    assert_eq!(
        session.retained_event_bytes,
        bytes + event_retained_charge(300, &RULES).unwrap()
    );
    assert_eq!(session.retained_state_bytes, state);
    change.advance(&mut session, ChangeEvent::Measured { length: 3 });
    assert!(matches!(change.phase, ChangePhase::Over(Ok(true))));
    assert_eq!(
        session.retained_state_bytes,
        state + one_file_state_retained_charge(3, &RULES).unwrap()
    );
    session.ensure_healthy().unwrap();
}

#[test]
fn a_refused_change_never_reaches_the_editor() {
    let mut session = started(1);
    session.retained_event_bytes = rustrace::milestone_a::MAX_REPLAY_RETAINED_EVENT_BYTES;
    let before = session.clone();
    let mut change = Change::edit(&session, "typed", 0, Some(&one_insert()), 1);
    change.advance(&mut session, admitted());
    assert!(matches!(change.phase, ChangePhase::Over(Err(_))));
    assert_eq!(session, before);
    let change = Change::edit(&session, "typed", 1, Some(&one_insert()), 1);
    assert!(matches!(
        change.phase,
        ChangePhase::Over(Err(MilestoneError::Invariant { .. }))
    ));
    let change = Change::edit(&session, "typed", 0, None, 1);
    assert!(matches!(change.phase, ChangePhase::Over(Ok(false))));
}

#[test]
fn a_write_that_fails_after_an_edit_poisons_the_session() {
    let mut session = started(1);
    let mut change = Change::edit(&session, "typed", 0, Some(&one_insert()), 1);
    change.advance(&mut session, admitted());
    change.advance(
        &mut session,
        ChangeEvent::Edited {
            changed: true,
            captured: 1,
        },
    );
    change.advance(&mut session, ChangeEvent::Captured { encoded: 300 });
    change.advance(&mut session, persisted(7));
    assert!(matches!(change.phase, ChangePhase::Over(Err(_))));
    assert!(!session.writer_open);
    assert_eq!(session.persisted_event_count, 1);
    assert!(session.ensure_healthy().is_err());
    let next = Change::movement(&session, "moved", selection(0), selection(1), 1);
    assert!(matches!(
        next.phase,
        ChangePhase::Over(Err(MilestoneError::RecordingFailed { operation: "typed", .. }))
    ));
}

#[test]
fn a_selection_is_recorded_only_where_it_differs() {
    let mut session = started(1);
    let same = Change::movement(&session, "moved", selection(1), selection(1), 1);
    assert!(matches!(same.phase, ChangePhase::Over(Ok(false))));
    let mut other = Change::movement(&session, "moved", selection(0), selection(1), 1);
    other.advance(&mut session, admitted());
    let seen = selection(0);
    other.advance(&mut session, ChangeEvent::Selected { selection: seen });
    assert!(matches!(
        other.phase,
        ChangePhase::Over(Err(MilestoneError::Invariant { .. }))
    ));
    assert!(session.ensure_healthy().is_err());

    let mut session = started(1);
    let mut whole = Change::whole(&session, "select all", selection(0), 1);
    whole.advance(&mut session, admitted());
    let seen = SelectionState {
        anchor_byte: 0,
        active_byte: 1,
    };
    whole.advance(&mut session, ChangeEvent::Selected { selection: seen });
    assert!(matches!(whole.phase, ChangePhase::Encode));
}

fn written(kind: JournalWriteKind, sequence: u64) -> FinishEvent {
    FinishEvent::Written(Ok(JournalWriteCompletion::Persisted {
        kind,
        sequence,
        event_hash: hash(),
    }))
}

#[test]
fn an_end_goes_through_its_steps_in_order() {
    let mut session = started(4);
    let mut end = Finishing::new(&session, 0, 4, &hash(), &hash());
    end.advance(&mut session, FinishEvent::Done);
    end.advance(&mut session, FinishEvent::Placed { lengths: LENGTHS });
    assert!(matches!(end.phase, FinishPhase::Replace(_)));
    end.advance(&mut session, FinishEvent::Done);
    end.advance(&mut session, written(JournalWriteKind::Checkpoint, 2));
    assert!(matches!(end.phase, FinishPhase::Encode(_, 3)));
    end.advance(&mut session, FinishEvent::Encoded { encoded: 200 });
    end.advance(&mut session, written(JournalWriteKind::Event, 3));
    assert!(matches!(end.phase, FinishPhase::Close(_)));
    assert!(!session.writer_open);
    end.advance(&mut session, FinishEvent::Done);
    end.advance(&mut session, FinishEvent::Ended(true));
    assert!(matches!(end.phase, FinishPhase::Leave(_, true)));
    assert_eq!(session.persisted_event_count, 3);
}

#[test]
fn an_end_that_is_refused_replaces_nothing() {
    let session = started(4);
    let other = rustrace::model::Hash { bytes: [1; 32] };
    let end = Finishing::new(&session, 0, 4, &hash(), &other);
    assert!(matches!(
        end.phase,
        FinishPhase::Over(MilestoneError::Mismatch { .. })
    ));
    let mut full = started(4);
    full.retained_state_bytes = max_state();
    let before = full.clone();
    let mut end = Finishing::new(&full, 0, 4, &hash(), &hash());
    end.advance(&mut full, FinishEvent::Done);
    end.advance(&mut full, FinishEvent::Placed { lengths: LENGTHS });
    assert!(matches!(end.phase, FinishPhase::Over(_)));
    assert_eq!(full, before);

    let mut failing = started(4);
    let mut end = Finishing::new(&failing, 0, 4, &hash(), &hash());
    end.advance(&mut failing, FinishEvent::Done);
    end.advance(&mut failing, FinishEvent::Placed { lengths: LENGTHS });
    end.advance(&mut failing, FinishEvent::Done);
    end.advance(&mut failing, written(JournalWriteKind::Event, 2));
    assert!(matches!(end.phase, FinishPhase::Over(_)));
    assert!(failing.ensure_healthy().is_err());
}

#[test]
fn the_end_is_charged_in_two_steps() {
    let mut session = started(4);
    let plan = session.plan_finish(4, LENGTHS).unwrap();
    let charge = one_file_state_retained_charge(4, &RULES).unwrap();
    let (state, bytes) = (session.retained_state_bytes, session.retained_event_bytes);
    assert_eq!(plan.terminal.checkpoint, event_retained_charge(200, &RULES).unwrap());
    session.charge_final_checkpoint(&plan).unwrap();
    assert_eq!(session.retained_state_bytes, state + charge);
    assert_eq!(session.retained_event_bytes, bytes + plan.terminal.checkpoint);
    session.retained_event_bytes += plan.terminal.finalization;
    session.charge_finalization(&plan, session.persisted_event_count).unwrap();
    assert_eq!(session.retained_state_bytes, state + 2 * charge);
    assert_eq!(session.retained_event_bytes, plan.retained);
}

#[test]
fn a_charge_that_fails_keeps_what_came_before_it() {
    let mut session = started(4);
    let plan = session.plan_finish(4, LENGTHS).unwrap();
    let bytes = session.retained_event_bytes;
    session.retained_state_bytes = max_state();
    assert!(session.charge_final_checkpoint(&plan).is_err());
    assert_eq!(session.retained_event_bytes, bytes + plan.terminal.checkpoint);
    assert_eq!(session.retained_state_bytes, max_state());

    let mut session = started(4);
    let charge = one_file_state_retained_charge(4, &RULES).unwrap();
    let state = session.retained_state_bytes;
    session.retained_event_bytes = plan.retained;
    let unexpected = session.persisted_event_count + 1;
    assert!(session.charge_finalization(&plan, unexpected).is_err());
    assert_eq!(session.retained_state_bytes, state + charge);
    session.retained_event_bytes = plan.retained + 1;
    assert!(session.charge_finalization(&plan, session.persisted_event_count).is_err());
    assert_eq!(session.retained_state_bytes, state + charge);
}

#[test]
fn sums_stop_at_their_limit() {
    assert_eq!(checked_add_limit("events", 3, 4, 7).unwrap(), 7);
    assert!(checked_add_limit("events", 4, 4, 7).is_err());
    assert!(checked_add_limit("events", u64::MAX, 1, u64::MAX).is_err());
    assert!(require_limit("source", 8, 7).is_err());
    assert!(require_limit("source", 7, 7).is_ok());
    assert!(event_retained_charge(10, &RULES).unwrap() > 20);
    assert!(require_equal("count", 1, 2).is_err());
}

#[test]
fn lengths_follow_edits_and_never_go_below_nothing() {
    let edit = |start_byte, end_byte, text: &str| TextEdit {
        start_byte,
        end_byte,
        inserted_text: text.to_owned(),
    };
    assert_eq!(
        transaction_after_len(10, &vec![edit(0, 4, "ab"), edit(6, 6, "é")]).unwrap(),
        10
    );
    assert!(transaction_after_len(3, &vec![edit(0, 9, "")]).is_err());
}

#[test]
fn a_write_that_persists_something_else_is_refused() {
    let persisted = |sequence| JournalWriteCompletion::Persisted {
        kind: JournalWriteKind::Event,
        sequence,
        event_hash: hash(),
    };
    assert!(wait_for_persistence(persisted(3), JournalWriteKind::Event, 3, "insert").is_ok());
    assert!(wait_for_persistence(persisted(4), JournalWriteKind::Event, 3, "insert").is_err());
    assert!(wait_for_persistence(persisted(3), JournalWriteKind::Checkpoint, 3, "insert").is_err());
    assert!(wait_for_persistence(
        JournalWriteCompletion::Failed {
            detail: "full".to_owned()
        },
        JournalWriteKind::Event,
        3,
        "insert"
    )
    .is_err());
}

#[test]
fn another_file_at_a_path_is_noticed() {
    let other = FileIdentity {
        device: 1,
        inode: 3,
    };
    assert!(verify_identity("/w", "source", EntryKind::Regular, START, &Entry::Regular(START)).is_ok());
    for entry in [
        Entry::Regular(other),
        Entry::Directory(START),
        Entry::Other,
        Entry::Unreadable("gone".to_owned()),
    ] {
        assert!(verify_identity("/w", "source", EntryKind::Regular, START, &entry).is_err());
    }
    assert!(may_remove(&Entry::Regular(START), START));
    assert!(!may_remove(&Entry::Regular(other), START));
}

#[test]
fn a_failed_start_tells_what_to_undo() {
    let mut start = Starting::new(1, RULES).unwrap();
    start.advance(StartEvent::Done).unwrap();
    start.advance(StartEvent::Done).unwrap();
    let (_, undo) = start
        .advance(StartEvent::Failed(MilestoneError::Journal("busy".to_owned())))
        .unwrap_err();
    assert!(undo.remove_source);
    assert_eq!(start.phase, StartPhase::Failed);
    assert!(start.session().is_none());
}

#[test]
fn selections_outside_of_a_file_are_refused() {
    let at = |anchor_byte, active_byte| SelectionState {
        anchor_byte,
        active_byte,
    };
    assert!(validate_projected_selection(at(0, 4), 4).is_ok());
    assert!(validate_projected_selection(at(5, 0), 4).is_err());
    assert!(validate_projected_selection(at(0, 5), 4).is_err());
    assert!(check_session(1, false).is_err());
}

#[test]
fn relative_input_is_resolved_from_exactly_one_current_directory_snapshot() {
    let calls = Cell::new(0);
    let resolved = resolve_input_directory_with("relative/workspace", || {
        calls.set(calls.get() + 1);
        Ok("/captured/current".to_owned())
    })
    .unwrap();
    assert_eq!(resolved, "/captured/current/relative/workspace");
    assert_eq!(calls.get(), 1);

    let absolute = resolve_input_directory_with("/already/absolute", || {
        panic!("absolute paths must not inspect current_dir")
    })
    .unwrap();
    assert_eq!(absolute, "/already/absolute");
}

#[test]
fn a_directory_that_cannot_be_resolved_is_told() {
    let current = || Err("gone".to_owned());
    assert_eq!(
        resolve_input_directory("a", current()).unwrap_err(),
        MilestoneError::Io {
            operation: "resolve milestone directory",
            source: "gone".to_owned(),
        }
    );
    assert_eq!(resolve_input_directory("/a", current()).unwrap(), "/a");
    assert_eq!(
        resolve_input_directory("a", Ok("/".to_owned())).unwrap(),
        "/a"
    );
}

#[test]
fn a_session_leaves_a_receipt_once_its_end_is_marked() {
    let session = started(3);
    let identity = |inode| FileIdentity { device: 1, inode };
    let paths = Paths {
        directory: "/d".to_owned(),
        source: "/d/main.rs".to_owned(),
        journal: "/d/session.sqlite3".to_owned(),
    };
    let anchors = Anchors {
        directory: identity(1),
        source: identity(2),
        journal: identity(3),
    };
    let seen = |source| Entries {
        directory: Entry::Directory(identity(1)),
        source: Entry::Regular(identity(source)),
        journal: Entry::Regular(identity(3)),
    };
    let hash = |byte| rustrace::model::Hash { bytes: [byte; 32] };
    let leave = |ended, source| {
        let hashes = FinalHashes {
            event: hash(1),
            document: hash(2),
            workspace: hash(3),
        };
        session.leave("s".to_owned(), hashes, ended, (&paths, &anchors, &seen(source)))
    };
    let left = leave(true, 2).ok().unwrap();
    assert_eq!(left.session_id(), "s");
    assert_eq!(left.event_count(), session.persisted_event_count());
    assert_eq!(left.final_event_hash(), hash(1));
    assert_eq!(left.final_document_hash(), hash(2));
    assert_eq!(left.final_workspace_hash(), hash(3));
    assert!(matches!(
        leave(false, 2),
        Err(MilestoneError::Invariant { detail })
            if detail == "journal did not mark the finalized session ended"
    ));
    assert!(matches!(
        leave(true, 9),
        Err(MilestoneError::FilesystemIdentityMismatch { path, .. }) if path == "/d/main.rs"
    ));
}
