use rustrace::milestone_a::{
    verify_and_replay, verify_and_replay_from_directory, MilestoneError, MilestoneRules,
    ReplayReport,
};
use rustrace::milestone_replay::{
    preflight_milestone_stream, CheckpointFile, EditRecord, EnvelopeRecord, EventKind, Finalization, FinalizedSession,
    MilestoneEvent, OpenDocument, Replayed, SelectionState, StoredCheckpoint, StreamRules,
    WorkspaceState,
};
use rustrace::milestone_verify::{CheckpointReading, EventReading, Evidence, OnDisk, ReadEvent};
use rustrace::model::{EditOrigin, TextEdit};

const CARET: SelectionState = SelectionState {
    anchor_byte: 0,
    active_byte: 0,
};

fn rules() -> MilestoneRules {
    MilestoneRules {
        max_source_bytes: 1024,
        state_layout: 64,
        event_layout: 32,
    }
}

fn stream() -> StreamRules {
    StreamRules {
        path: "main.rs".to_owned(),
        document_id: "document".to_owned(),
        rules: rules(),
    }
}

fn hash(byte: u8) -> rustrace::model::Hash {
    rustrace::model::Hash { bytes: [byte; 32] }
}

fn checkpoint(sequence: u64, length: usize, version: u64, caret: u64) -> StoredCheckpoint {
    StoredCheckpoint {
        sequence,
        owner: format!("event {sequence}"),
        files: vec![CheckpointFile {
            path: "main.rs".to_owned(),
            length,
        }],
        active_document: Some("document".to_owned()),
        documents: vec![OpenDocument {
            document_id: "document".to_owned(),
            path: "main.rs".to_owned(),
            selection: SelectionState {
                anchor_byte: caret,
                active_byte: caret,
            },
            version,
        }],
    }
}

fn event(sequence: u64, event: MilestoneEvent) -> Option<ReadEvent> {
    Some(ReadEvent {
        record: EnvelopeRecord {
            sequence,
            text: format!("event {sequence}"),
            event,
        },
        encoded: 100,
    })
}

fn edit() -> MilestoneEvent {
    MilestoneEvent::FileEdited(EditRecord {
        document_id: "document".to_owned(),
        origin: EditOrigin::Keyboard,
        version_before: 0,
        version_after: 1,
        selection_before: CARET,
        selection_after: SelectionState {
            anchor_byte: 1,
            active_byte: 1,
        },
        edits: vec![TextEdit {
            start_byte: 0,
            end_byte: 0,
            inserted_text: "x".to_owned(),
        }],
    })
}

fn reading() -> EventReading {
    let mut reading = EventReading::new();
    for (sequence, kind) in [
        (1, MilestoneEvent::Other(EventKind::WorkspaceCheckpoint)),
        (2, edit()),
        (3, MilestoneEvent::Other(EventKind::WorkspaceCheckpoint)),
        (4, MilestoneEvent::Other(EventKind::SubmissionFinalized)),
    ] {
        assert!(reading.wants(4));
        reading.take(event(sequence, kind), &rules()).unwrap();
    }
    assert!(!reading.wants(4));
    reading
}

fn state(bytes: &[u8], workspace: u8) -> WorkspaceState {
    WorkspaceState {
        files: 1,
        file: Some(bytes.to_vec()),
        active_document: Some("document".to_owned()),
        document_path: Some("main.rs".to_owned()),
        document_bytes: bytes.to_vec(),
        document_hash: hash(3),
        workspace_hash: hash(workspace),
    }
}

fn last(evidence: &mut Evidence) -> &mut WorkspaceState {
    evidence.replayed.states.last_mut().unwrap()
}

fn evidence() -> Evidence {
    let mut checkpoints = CheckpointReading::new();
    assert!(checkpoints
        .take(vec![checkpoint(1, 2, 0, 0), checkpoint(3, 3, 1, 1)])
        .unwrap());
    assert_eq!(checkpoints.next_sequence, 4);
    assert!(!checkpoints.take(Vec::new()).unwrap());
    Evidence {
        next_sequence: 5,
        ended: true,
        chain_events: 4,
        chain_hash: hash(1),
        checkpoint_count: 2,
        latest_checkpoint: Some(3),
        reading: reading(),
        checkpoints: checkpoints.checkpoints,
        finalization: Some(Finalization {
            event_count: 4,
            clean: true,
            warnings: 0,
            workspace_hash: hash(2),
        }),
        replayed: Replayed {
            terminal: true,
            finalized: true,
            unreached_checkpoints: 0,
            next_sequence: 5,
            last_event_hash: hash(1),
            states: vec![
                state(b"ab", 4),
                state(b"xab", 2),
                state(b"xab", 2),
                state(b"xab", 2),
            ],
        },
    }
}

fn verify(
    evidence: Evidence,
    source: &[u8],
    receipt: Option<&FinalizedSession>,
) -> Result<ReplayReport, MilestoneError> {
    let disk = OnDisk {
        source: source.to_vec(),
        text_hash: hash(3),
        workspace_hash: hash(2),
    };
    match receipt {
        Some(left) => verify_and_replay(left, evidence, disk, &stream()),
        None => verify_and_replay_from_directory("session", evidence, disk, &stream()),
    }
}

fn receipt(events: u64) -> FinalizedSession {
    FinalizedSession {
        session_id: "session".to_owned(),
        event_count: events,
        final_event_hash: hash(1),
        final_document_hash: hash(3),
        final_workspace_hash: hash(2),
    }
}

fn field(result: Result<ReplayReport, MilestoneError>) -> &'static str {
    match result {
        Err(MilestoneError::Mismatch { field, .. }) => field,
        Err(MilestoneError::IncompleteSession { .. }) => "incomplete",
        Err(_) => "other",
        Ok(_) => "none",
    }
}

#[test]
fn a_whole_session_gives_the_file_back() {
    for left in [None, Some(&receipt(4))] {
        let report = verify(evidence(), b"xab", left).ok().unwrap();
        assert_eq!(report.source_bytes(), b"xab");
        assert_eq!(report.event_count(), 4);
        assert_eq!(report.checkpoint_count(), 2);
        assert_eq!(report.final_event_hash(), hash(1));
        assert_eq!(report.final_workspace_hash(), hash(2));
        assert!(report.finalized());
        assert_eq!(report.session_id(), "session");
        // Each event: its layout, its encoding twice and an allowance.
        assert_eq!(report.retained_event_bytes(), 4 * (32 + 200 + 128));
        assert!(report.retained_state_bytes() > 0);
    }
    assert_eq!(receipt(4).session_id(), "session");
}

#[test]
fn whatever_does_not_fit_is_told_first() {
    assert_eq!(field(verify(evidence(), b"xyz", None)), "final raw file bytes");
    assert_eq!(
        field(verify(evidence(), b"xab", Some(&receipt(5)))),
        "finalized receipt event count"
    );
    let mut open = evidence();
    open.ended = false;
    assert_eq!(field(verify(open, b"xab", None)), "incomplete");
    let mut short = evidence();
    short.reading.events.pop();
    short.replayed.states.pop();
    assert_eq!(field(verify(short, b"xab", None)), "decoded event count");
    for (latest, actual) in [(Some(2), "Some(2)"), (None, "None")] {
        let mut late = evidence();
        late.latest_checkpoint = latest;
        assert!(matches!(
            verify(late, b"xab", None),
            Err(MilestoneError::Mismatch { field: "checkpoints.latest_sequence", detail })
                if detail == format!("actual {actual}; expected Some(3)")
        ));
    }
    assert!(matches!(
        verify(evidence(), b"", None),
        Err(MilestoneError::Mismatch { field: "final raw file bytes", detail })
            if detail == "actual [120, 97, 98]; expected []"
    ));
    let mut unclean = evidence();
    unclean.finalization = Some(Finalization {
        event_count: 4,
        clean: false,
        warnings: 0,
        workspace_hash: hash(2),
    });
    assert_eq!(field(verify(unclean, b"xab", None)), "incomplete");
    let mut moved = evidence();
    last(&mut moved).workspace_hash = hash(9);
    assert_eq!(field(verify(moved, b"xab", None)), "final workspace hash");
    let mut longer = evidence();
    longer.checkpoints[1] = checkpoint(3, 4, 1, 1);
    assert_eq!(field(verify(longer, b"xab", None)), "final checkpoint byte length");
}

#[test]
fn a_report_has_a_step_for_each_event() {
    let report = verify(evidence(), b"xab", None).ok().unwrap();
    assert_eq!(report.steps().len() as u64, report.event_count());
    let sequences: Vec<u64> = report.steps().iter().map(|step| step.sequence).collect();
    assert_eq!(sequences, [1, 2, 3, 4]);
    assert_eq!(report.steps()[1].event, edit());
    assert_eq!(report.steps()[0].state, state(b"ab", 4));
    assert_eq!(report.final_state(), Some(&state(b"xab", 2)));
}

#[test]
fn a_missing_active_document_is_told_as_such() {
    let mut closed = evidence();
    last(&mut closed).active_document = None;
    assert!(matches!(
        verify(closed, b"xab", None),
        Err(MilestoneError::Mismatch { field: "active document", detail })
            if detail == "actual None; expected Some(document)"
    ));
    let mut other = evidence();
    last(&mut other).active_document = Some("other".to_owned());
    assert!(matches!(
        verify(other, b"xab", None),
        Err(MilestoneError::Mismatch { field: "active document", detail })
            if detail == "actual Some(other); expected Some(document)"
    ));
    let mut unopened = evidence();
    unopened.checkpoints[0].active_document = None;
    assert!(matches!(
        verify(unopened, b"xab", None),
        Err(MilestoneError::Mismatch { field: "checkpoint active document", detail })
            if detail == "actual None; expected Some(document)"
    ));
}

#[test]
fn reading_stops_at_gaps_and_repeats() {
    let mut reading = EventReading::new();
    let error = reading.take(None, &rules()).unwrap_err();
    assert!(matches!(
        error,
        MilestoneError::Mismatch { field: "event count", detail }
            if detail == "event stream ended before sequence 1"
    ));
    let error = reading
        .take(event(u64::MAX, MilestoneEvent::Other(EventKind::SessionEnded)), &rules())
        .unwrap_err();
    assert!(matches!(error, MilestoneError::Mismatch { field: "event sequence", .. }));

    let mut checkpoints = CheckpointReading::new();
    assert!(checkpoints.take(vec![checkpoint(1, 0, 0, 0)]).unwrap());
    let error = checkpoints
        .take(vec![checkpoint(2, 0, 0, 0), checkpoint(1, 0, 0, 0)])
        .unwrap_err();
    assert!(matches!(
        error,
        MilestoneError::Mismatch { field: "checkpoint sequence", detail }
            if detail == "duplicate checkpoint sequence 1"
    ));
    assert_eq!(checkpoints.checkpoints.len(), 1);
}

#[test]
fn a_checkpoint_of_another_event_is_told_in_full() {
    let owned = checkpoint(1, 0, 0, 0);
    assert_eq!(owned.owner, "event 1");
    let mut other = owned;
    other.owner = "event 9".to_owned();
    let events: Vec<EnvelopeRecord> = (1..4)
        .map(|sequence| EnvelopeRecord {
            sequence,
            text: format!("event {sequence}"),
            event: MilestoneEvent::Other(EventKind::WorkspaceCheckpoint),
        })
        .collect();
    let refused = preflight_milestone_stream(&events, &vec![other], &stream()).unwrap_err();
    assert_eq!(
        refused,
        MilestoneError::Mismatch {
            field: "genesis checkpoint owner",
            detail: "actual event 9; expected event 1".to_owned(),
        }
    );
}
