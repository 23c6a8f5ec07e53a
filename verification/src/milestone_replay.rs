//! Checking a recorded session over one file before and after it is replayed.

use crate::milestone_a::{
    added, checked_add_limit, invariant_fault, length_after, one_file_state_retained_charge,
    require_limit, state_charge, told, transaction_after_len, within, Fault, MilestoneError,
    MilestoneRules, MAX_MILESTONE_EVENTS, MAX_REPLAY_RETAINED_STATE_BYTES,
};
use crate::milestone_session::{
    both, differs, mismatch, require_equal, require_same_hash, same_hash, same_number,
};
use crate::model::{EditOrigin, TextEdit};
use crate::text;
use vstd::prelude::*;

verus! {

/// The kinds of events that a journal can hold.
#[derive(Clone, Copy, Debug, PartialEq, Eq, Structural)]
pub enum EventKind {
    SessionStarted,
    SessionResumed,
    SessionEnded,
    FileCreated,
    FileDeleted,
    FileRenamed,
    FileFocused,
    FileEdited,
    ClipboardCopied,
    InternalPaste,
    PasteRejected,
    SelectionChanged,
    ViewportChanged,
    CargoCommandStarted,
    CargoDiagnostic,
    CargoOutput,
    CargoCommandFinished,
    ControlledCommandStarted,
    ControlledCommandOutput,
    ControlledCommandFinished,
    TestCaseCompared,
    LspCompletionRequested,
    LspCompletionAccepted,
    LspCodeActionApplied,
    WorkspaceCheckpoint,
    ExternalFileChange,
    ExternalObservation,
    RecoveryRecorded,
    SubmissionFinalized,
}

pub open spec fn kind_word(kind: EventKind) -> Seq<char> {
    match kind {
        EventKind::SessionStarted => "session_started"@,
        EventKind::SessionResumed => "session_resumed"@,
        EventKind::SessionEnded => "session_ended"@,
        EventKind::FileCreated => "file_created"@,
        EventKind::FileDeleted => "file_deleted"@,
        EventKind::FileRenamed => "file_renamed"@,
        EventKind::FileFocused => "file_focused"@,
        EventKind::FileEdited => "file_edited"@,
        EventKind::ClipboardCopied => "clipboard_copied"@,
        EventKind::InternalPaste => "internal_paste"@,
        EventKind::PasteRejected => "paste_rejected"@,
        EventKind::SelectionChanged => "selection_changed"@,
        EventKind::ViewportChanged => "viewport_changed"@,
        EventKind::CargoCommandStarted => "cargo_command_started"@,
        EventKind::CargoDiagnostic => "cargo_diagnostic"@,
        EventKind::CargoOutput => "cargo_output"@,
        EventKind::CargoCommandFinished => "cargo_command_finished"@,
        EventKind::ControlledCommandStarted => "controlled_command_started"@,
        EventKind::ControlledCommandOutput => "controlled_command_output"@,
        EventKind::ControlledCommandFinished => "controlled_command_finished"@,
        EventKind::TestCaseCompared => "test_case_compared"@,
        EventKind::LspCompletionRequested => "lsp_completion_requested"@,
        EventKind::LspCompletionAccepted => "lsp_completion_accepted"@,
        EventKind::LspCodeActionApplied => "lsp_code_action_applied"@,
        EventKind::WorkspaceCheckpoint => "workspace_checkpoint"@,
        EventKind::ExternalFileChange => "external_file_change"@,
        EventKind::ExternalObservation => "external_observation"@,
        EventKind::RecoveryRecorded => "recovery_recorded"@,
        EventKind::SubmissionFinalized => "submission_finalized"@,
    }
}

pub fn event_name(kind: EventKind) -> (r: &'static str)
    ensures
        r@ == kind_word(kind),
{
    match kind {
        EventKind::SessionStarted => "session_started",
        EventKind::SessionResumed => "session_resumed",
        EventKind::SessionEnded => "session_ended",
        EventKind::FileCreated => "file_created",
        EventKind::FileDeleted => "file_deleted",
        EventKind::FileRenamed => "file_renamed",
        EventKind::FileFocused => "file_focused",
        EventKind::FileEdited => "file_edited",
        EventKind::ClipboardCopied => "clipboard_copied",
        EventKind::InternalPaste => "internal_paste",
        EventKind::PasteRejected => "paste_rejected",
        EventKind::SelectionChanged => "selection_changed",
        EventKind::ViewportChanged => "viewport_changed",
        EventKind::CargoCommandStarted => "cargo_command_started",
        EventKind::CargoDiagnostic => "cargo_diagnostic",
        EventKind::CargoOutput => "cargo_output",
        EventKind::CargoCommandFinished => "cargo_command_finished",
        EventKind::ControlledCommandStarted => "controlled_command_started",
        EventKind::ControlledCommandOutput => "controlled_command_output",
        EventKind::ControlledCommandFinished => "controlled_command_finished",
        EventKind::TestCaseCompared => "test_case_compared",
        EventKind::LspCompletionRequested => "lsp_completion_requested",
        EventKind::LspCompletionAccepted => "lsp_completion_accepted",
        EventKind::LspCodeActionApplied => "lsp_code_action_applied",
        EventKind::WorkspaceCheckpoint => "workspace_checkpoint",
        EventKind::ExternalFileChange => "external_file_change",
        EventKind::ExternalObservation => "external_observation",
        EventKind::RecoveryRecorded => "recovery_recorded",
        EventKind::SubmissionFinalized => "submission_finalized",
    }
}

#[derive(Clone, Copy, Debug, PartialEq, Eq, Structural)]
pub struct SelectionState {
    pub anchor_byte: u64,
    pub active_byte: u64,
}

/// An edit as it was recorded.
#[derive(Debug, PartialEq, Eq)]
pub struct EditRecord {
    pub document_id: String,
    pub origin: EditOrigin,
    pub version_before: u64,
    pub version_after: u64,
    pub selection_before: SelectionState,
    pub selection_after: SelectionState,
    pub edits: Vec<TextEdit>,
}

/// An event of a session over one file. Here and below a document and a path are
/// known by how they are written in a mismatch.
#[derive(Debug, PartialEq, Eq)]
pub enum MilestoneEvent {
    FileEdited(EditRecord),
    SelectionChanged { document_id: String, selection: SelectionState },
    Other(EventKind),
}

/// An event of a stream. `text` is how the whole of it is written in a mismatch.
#[derive(Debug, PartialEq, Eq)]
pub struct EnvelopeRecord {
    pub sequence: u64,
    pub text: String,
    pub event: MilestoneEvent,
}

impl MilestoneEvent {
    pub open spec fn kind(&self) -> EventKind {
        match self {
            MilestoneEvent::FileEdited(_) => EventKind::FileEdited,
            MilestoneEvent::SelectionChanged { .. } => EventKind::SelectionChanged,
            MilestoneEvent::Other(kind) => *kind,
        }
    }

    fn event_kind(&self) -> (r: EventKind)
        ensures
            r == self.kind(),
    {
        match self {
            MilestoneEvent::FileEdited(_) => EventKind::FileEdited,
            MilestoneEvent::SelectionChanged { .. } => EventKind::SelectionChanged,
            MilestoneEvent::Other(kind) => *kind,
        }
    }
}

/// A file of a checkpoint and its length.
#[derive(Debug, PartialEq, Eq)]
pub struct CheckpointFile {
    pub path: String,
    pub length: usize,
}

#[derive(Debug, PartialEq, Eq)]
pub struct OpenDocument {
    pub document_id: String,
    pub path: String,
    pub selection: SelectionState,
    pub version: u64,
}

/// A checkpoint that was stored. `owner` is how the event which owns it is written
/// in a mismatch.
#[derive(Debug, PartialEq, Eq)]
pub struct StoredCheckpoint {
    pub sequence: u64,
    pub owner: String,
    pub files: Vec<CheckpointFile>,
    pub active_document: Option<String>,
    pub documents: Vec<OpenDocument>,
}

/// The state of the one file, as far as it is followed.
#[derive(Clone, Copy, Debug, PartialEq, Eq, Structural)]
pub struct ProjectedOneFileState {
    pub length: usize,
    pub version: u64,
    pub selection: SelectionState,
}

pub open spec fn selection_text(s: SelectionState) -> Seq<char> {
    "SelectionState { anchor_byte: "@ + text::decimal(s.anchor_byte as nat) + ", active_byte: "@
        + text::decimal(s.active_byte as nat) + " }"@
}

fn write_selection(s: SelectionState) -> (r: String)
    ensures
        r@ == selection_text(s),
{
    let mut r = "SelectionState { anchor_byte: ".to_owned();
    r.push_str(text::write_decimal(s.anchor_byte).as_str());
    r.push_str(", active_byte: ");
    r.push_str(text::write_decimal(s.active_byte).as_str());
    r.push_str(" }");
    r
}

pub open spec fn selection_fits(s: SelectionState, length: usize) -> Result<(), Fault> {
    if s.anchor_byte <= length && s.active_byte <= length {
        Ok(())
    } else {
        Err(
            Fault::Mismatch {
                field: "projected selection"@,
                detail: selection_text(s) + " exceeds "@ + text::decimal(length as nat) + " bytes"@,
            },
        )
    }
}

pub fn validate_projected_selection(selection: SelectionState, length: usize) -> (r: Result<(), MilestoneError>)
    ensures
        told(r, selection_fits(selection, length)),
{
    let maximum: u64 = length as u64;
    if selection.anchor_byte <= maximum && selection.active_byte <= maximum {
        return Ok(());
    }
    let mut detail = write_selection(selection);
    detail.push_str(" exceeds ");
    detail.push_str(text::write_decimal(maximum).as_str());
    detail.push_str(" bytes");
    Err(MilestoneError::Mismatch { field: "projected selection", detail })
}

pub open spec fn same_text(field: Seq<char>, actual: Seq<char>, expected: Seq<char>) -> Result<(), Fault> {
    if actual == expected {
        Ok(())
    } else {
        Err(differs(field, actual, expected))
    }
}

fn require_same_text(field: &'static str, actual: &str, expected: &str) -> (r: Result<(), MilestoneError>)
    ensures
        told(r, same_text(field@, actual@, expected@)),
{
    if text::str_eq(actual, expected) {
        Ok(())
    } else {
        Err(mismatch(field, actual, expected))
    }
}

pub open spec fn same_selection(field: Seq<char>, actual: SelectionState, expected: SelectionState) -> Result<(), Fault> {
    if actual == expected {
        Ok(())
    } else {
        Err(differs(field, selection_text(actual), selection_text(expected)))
    }
}

fn require_same_selection(field: &'static str, actual: SelectionState, expected: SelectionState) -> (r: Result<
    (),
    MilestoneError,
>)
    ensures
        told(r, same_selection(field@, actual, expected)),
{
    if actual == expected {
        Ok(())
    } else {
        Err(
            mismatch(
                field,
                write_selection(actual).as_str(),
                write_selection(expected).as_str(),
            ),
        )
    }
}

/// A document that may be missing, as it is written in a mismatch.
pub open spec fn document_text(id: Option<Seq<char>>) -> Seq<char> {
    match id {
        Some(a) => "Some("@ + a + ")"@,
        None => "None"@,
    }
}

fn write_document(id: Option<&str>) -> (r: String)
    ensures
        r@ == document_text(
            match id {
                Some(a) => Some(a@),
                None => None,
            },
        ),
{
    match id {
        Some(a) => {
            let mut r = "Some(".to_owned();
            r.push_str(a);
            r.push_str(")");
            r
        },
        None => "None".to_owned(),
    }
}

pub open spec fn active_is(field: Seq<char>, active: Option<String>, id: Seq<char>) -> Result<(), Fault> {
    match active {
        Some(a) => if a@ == id {
            Ok(())
        } else {
            Err(differs(field, document_text(Some(a@)), document_text(Some(id))))
        },
        None => Err(differs(field, document_text(None), document_text(Some(id)))),
    }
}

fn require_active(field: &'static str, active: &Option<String>, id: &str) -> (r: Result<
    (),
    MilestoneError,
>)
    ensures
        told(r, active_is(field@, *active, id@)),
{
    let expected = write_document(Some(id));
    match active {
        Some(a) => {
            if text::str_eq(a.as_str(), id) {
                Ok(())
            } else {
                let actual = write_document(Some(a.as_str()));
                Err(mismatch(field, actual.as_str(), expected.as_str()))
            }
        },
        None => Err(mismatch(field, write_document(None).as_str(), expected.as_str())),
    }
}

/// What a checkpoint of one file and one open document holds, or what is wrong
/// with it.
pub open spec fn checkpoint_state(c: StoredCheckpoint, path: Seq<char>, id: Seq<char>) -> Result<
    ProjectedOneFileState,
    Fault,
> {
    if c.files@.len() != 1 {
        Err(differs("checkpoint file count"@, text::decimal(c.files@.len()), "1"@))
    } else if c.documents@.len() != 1 {
        Err(differs("checkpoint document count"@, text::decimal(c.documents@.len()), "1"@))
    } else {
        let file = c.files@[0];
        let document = c.documents@[0];
        both(
            active_is("checkpoint active document"@, c.active_document, id),
            both(
                same_text("checkpoint file path"@, file.path@, path),
                both(
                    same_text("checkpoint document id"@, document.document_id@, id),
                    both(
                        same_text("checkpoint document path"@, document.path@, path),
                        both(
                            selection_fits(document.selection, file.length),
                            Ok(
                                ProjectedOneFileState {
                                    length: file.length,
                                    version: document.version,
                                    selection: document.selection,
                                },
                            ),
                        ),
                    ),
                ),
            ),
        )
    }
}

pub fn validate_one_file_checkpoint(c: &StoredCheckpoint, path: &str, id: &str) -> (r: Result<
    ProjectedOneFileState,
    MilestoneError,
>)
    ensures
        told(r, checkpoint_state(*c, path@, id@)),
{
    if c.files.len() != 1 {
        return Err(
            mismatch(
                "checkpoint file count",
                text::write_decimal(c.files.len() as u64).as_str(),
                "1",
            ),
        );
    }
    if c.documents.len() != 1 {
        return Err(
            mismatch(
                "checkpoint document count",
                text::write_decimal(c.documents.len() as u64).as_str(),
                "1",
            ),
        );
    }
    require_active("checkpoint active document", &c.active_document, id)?;
    let file = &c.files[0];
    let document = &c.documents[0];
    require_same_text("checkpoint file path", file.path.as_str(), path)?;
    require_same_text("checkpoint document id", document.document_id.as_str(), id)?;
    require_same_text("checkpoint document path", document.path.as_str(), path)?;
    validate_projected_selection(document.selection, file.length)?;
    Ok(
        ProjectedOneFileState {
            length: file.length,
            version: document.version,
            selection: document.selection,
        },
    )
}

// Following a stream.

pub open spec fn is_supported_edit(e: EditRecord) -> bool {
    &&& e.origin is Keyboard || e.origin is Paste || e.origin is Undo || e.origin is Redo
    &&& e.edits@.len() == 1
}

/// An edit is followed: of the one document, from the version and the
/// selection that there are, to the next version.
pub open spec fn edit_followed(
    p: ProjectedOneFileState,
    sequence: u64,
    e: EditRecord,
    id: Seq<char>,
    max_source: u64,
) -> Result<ProjectedOneFileState, Fault> {
    if !is_supported_edit(e) {
        Err(Fault::UnsupportedMilestoneEvent { sequence, event: "file_edited shape"@ })
    } else {
        both(
            same_text("edited document"@, e.document_id@, id),
            both(
                same_number("edit version before"@, e.version_before, p.version),
                if p.version == u64::MAX {
                    Err(invariant_fault("projected document version overflowed"@))
                } else {
                    both(
                        same_number("edit version after"@, e.version_after, (p.version + 1) as u64),
                        both(
                            same_selection("edit selection before"@, e.selection_before, p.selection),
                            match length_after(p.length, e.edits@) {
                                Err(f) => Err(f),
                                Ok(length) => both(
                                    within("source bytes"@, length as u64, max_source),
                                    both(
                                        selection_fits(e.selection_after, length),
                                        Ok(
                                            ProjectedOneFileState {
                                                length,
                                                version: e.version_after,
                                                selection: e.selection_after,
                                            },
                                        ),
                                    ),
                                ),
                            },
                        ),
                    )
                },
            ),
        )
    }
}

fn follow_edit(p: ProjectedOneFileState, sequence: u64, e: &EditRecord, id: &str, max_source: u64) -> (r: Result<
    ProjectedOneFileState,
    MilestoneError,
>)
    ensures
        told(r, edit_followed(p, sequence, *e, id@, max_source)),
{
    let origin = match e.origin {
        EditOrigin::Keyboard => true,
        EditOrigin::Paste => true,
        EditOrigin::Undo => true,
        EditOrigin::Redo => true,
        _ => false,
    };
    if !origin || e.edits.len() != 1 {
        return Err(MilestoneError::UnsupportedMilestoneEvent { sequence, event: "file_edited shape" });
    }
    require_same_text("edited document", e.document_id.as_str(), id)?;
    require_equal("edit version before", e.version_before, p.version)?;
    if p.version == u64::MAX {
        return Err(
            MilestoneError::Invariant { detail: "projected document version overflowed".to_owned() },
        );
    }
    require_equal("edit version after", e.version_after, p.version + 1)?;
    require_same_selection("edit selection before", e.selection_before, p.selection)?;
    let length = transaction_after_len(p.length, &e.edits)?;
    require_limit("source bytes", length as u64, max_source)?;
    validate_projected_selection(e.selection_after, length)?;
    Ok(ProjectedOneFileState { length, version: e.version_after, selection: e.selection_after })
}

/// The place of the checkpoint of a number.
pub open spec fn checkpoint_at(cs: Seq<StoredCheckpoint>, sequence: u64, from: nat) -> Option<int>
    decreases cs.len() - from,
{
    if from >= cs.len() {
        None
    } else if cs[from as int].sequence == sequence {
        Some(from as int)
    } else {
        checkpoint_at(cs, sequence, from + 1)
    }
}

fn find_checkpoint(cs: &Vec<StoredCheckpoint>, sequence: u64) -> (r: Option<usize>)
    ensures
        match checkpoint_at(cs@, sequence, 0) {
            Some(k) => r is Some && r->0 == k && k < cs@.len(),
            None => r is None,
        },
{
    let mut i: usize = 0;
    while i < cs.len()
        invariant
            i <= cs@.len(),
            checkpoint_at(cs@, sequence, 0) == checkpoint_at(cs@, sequence, i as nat),
        decreases cs@.len() - i,
    {
        if cs[i].sequence == sequence {
            return Some(i);
        }
        i += 1;
    }
    None
}

/// The event that owns a checkpoint is the event of its number in the stream.
pub open spec fn owned(field: Seq<char>, c: StoredCheckpoint, e: EnvelopeRecord) -> Result<(), Fault> {
    same_text(field, c.owner@, e.text@)
}

/// The last checkpoint holds the state that was followed.
pub open spec fn last_checkpoint(
    p: ProjectedOneFileState,
    cs: Seq<StoredCheckpoint>,
    e: EnvelopeRecord,
    path: Seq<char>,
    id: Seq<char>,
) -> Result<ProjectedOneFileState, Fault> {
    match checkpoint_at(cs, e.sequence, 0) {
        None => Err(
            Fault::Mismatch {
                field: "checkpoint owner"@,
                detail: "event "@ + text::decimal(e.sequence as nat)
                    + " has no verified checkpoint payload"@,
            },
        ),
        Some(k) => match owned("checkpoint owner envelope"@, cs[k], e) {
            Err(f) => Err(f),
            Ok(()) => match checkpoint_state(cs[k], path, id) {
                Err(f) => Err(f),
                Ok(c) => both(
                    same_number(
                        "final checkpoint byte length"@,
                        c.length as u64,
                        p.length as u64,
                    ),
                    both(
                        same_number("final checkpoint document version"@, c.version, p.version),
                        both(
                            same_selection("final checkpoint selection"@, c.selection, p.selection),
                            Ok(p),
                        ),
                    ),
                ),
            },
        },
    }
}

fn check_last_checkpoint(
    p: ProjectedOneFileState,
    cs: &Vec<StoredCheckpoint>,
    e: &EnvelopeRecord,
    path: &str,
    id: &str,
) -> (r: Result<ProjectedOneFileState, MilestoneError>)
    ensures
        told(r, last_checkpoint(p, cs@, *e, path@, id@)),
{
    let k = match find_checkpoint(cs, e.sequence) {
        Some(k) => k,
        None => {
            let mut detail = "event ".to_owned();
            detail.push_str(text::write_decimal(e.sequence).as_str());
            detail.push_str(" has no verified checkpoint payload");
            return Err(MilestoneError::Mismatch { field: "checkpoint owner", detail });
        },
    };
    require_same_text("checkpoint owner envelope", cs[k].owner.as_str(), e.text.as_str())?;
    let c = validate_one_file_checkpoint(&cs[k], path, id)?;
    require_equal("final checkpoint byte length", c.length as u64, p.length as u64)?;
    require_equal("final checkpoint document version", c.version, p.version)?;
    require_same_selection("final checkpoint selection", c.selection, p.selection)?;
    Ok(p)
}

/// One event of a stream is followed. The last two are a checkpoint and the
/// finalization; before them stand edits and selections.
pub open spec fn followed(
    p: ProjectedOneFileState,
    e: EnvelopeRecord,
    at_end: bool,
    last: bool,
    cs: Seq<StoredCheckpoint>,
    path: Seq<char>,
    id: Seq<char>,
    max_source: u64,
) -> Result<ProjectedOneFileState, Fault> {
    let unsupported = Fault::UnsupportedMilestoneEvent {
        sequence: e.sequence,
        event: kind_word(e.event.kind()),
    };
    match e.event {
        MilestoneEvent::FileEdited(edit) => if at_end || last {
            Err(unsupported)
        } else {
            edit_followed(p, e.sequence, edit, id, max_source)
        },
        MilestoneEvent::SelectionChanged { document_id, selection } => if at_end || last {
            Err(unsupported)
        } else {
            both(
                same_text("selection document"@, document_id@, id),
                both(
                    selection_fits(selection, p.length),
                    Ok(ProjectedOneFileState { selection, ..p }),
                ),
            )
        },
        MilestoneEvent::Other(kind) => if kind == EventKind::WorkspaceCheckpoint && at_end {
            last_checkpoint(p, cs, e, path, id)
        } else if kind == EventKind::SubmissionFinalized && last {
            Ok(p)
        } else {
            Err(unsupported)
        },
    }
}

fn follow(
    p: ProjectedOneFileState,
    e: &EnvelopeRecord,
    at_end: bool,
    last: bool,
    cs: &Vec<StoredCheckpoint>,
    path: &str,
    id: &str,
    max_source: u64,
) -> (r: Result<ProjectedOneFileState, MilestoneError>)
    ensures
        told(r, followed(p, *e, at_end, last, cs@, path@, id@, max_source)),
{
    match &e.event {
        MilestoneEvent::FileEdited(edit) => {
            if !at_end && !last {
                return follow_edit(p, e.sequence, edit, id, max_source);
            }
        },
        MilestoneEvent::SelectionChanged { document_id, selection } => {
            if !at_end && !last {
                require_same_text("selection document", document_id.as_str(), id)?;
                validate_projected_selection(*selection, p.length)?;
                return Ok(
                    ProjectedOneFileState {
                        length: p.length,
                        version: p.version,
                        selection: *selection,
                    },
                );
            }
        },
        MilestoneEvent::Other(kind) => {
            if *kind == EventKind::WorkspaceCheckpoint && at_end {
                return check_last_checkpoint(p, cs, e, path, id);
            }
            if *kind == EventKind::SubmissionFinalized && last {
                return Ok(p);
            }
        },
    }
    Err(
        MilestoneError::UnsupportedMilestoneEvent {
            sequence: e.sequence,
            event: event_name(e.event.event_kind()),
        },
    )
}

/// What a stream is checked against.
pub struct StreamRules {
    pub path: String,
    pub document_id: String,
    pub rules: MilestoneRules,
}

/// Follows a stream from a place on. Every state is charged.
pub open spec fn followed_from(
    p: ProjectedOneFileState,
    retained: u64,
    events: Seq<EnvelopeRecord>,
    from: nat,
    cs: Seq<StoredCheckpoint>,
    s: StreamRules,
) -> Result<u64, Fault>
    decreases events.len() - from,
{
    if from >= events.len() {
        Ok(retained)
    } else {
        let e = events[from as int];
        match followed(
            p,
            e,
            e.sequence == events.len() - 1,
            from + 1 == events.len(),
            cs,
            s.path@,
            s.document_id@,
            s.rules.max_source_bytes,
        ) {
            Err(f) => Err(f),
            Ok(n) => match charged(s.rules, retained, n.length) {
                Err(f) => Err(f),
                Ok(bytes) => followed_from(n, bytes, events, from + 1, cs, s),
            },
        }
    }
}

pub open spec fn charged(rules: MilestoneRules, retained: u64, length: usize) -> Result<u64, Fault> {
    match state_charge(rules.state_layout, length) {
        Err(f) => Err(f),
        Ok(charge) => added(
            "replay retained state bytes"@,
            retained,
            charge,
            MAX_REPLAY_RETAINED_STATE_BYTES,
        ),
    }
}

fn charge_state(rules: &MilestoneRules, retained: u64, length: usize) -> (r: Result<u64, MilestoneError>)
    ensures
        told(r, charged(*rules, retained, length)),
{
    let charge = one_file_state_retained_charge(length, rules)?;
    checked_add_limit(
        "replay retained state bytes",
        retained,
        charge,
        MAX_REPLAY_RETAINED_STATE_BYTES,
    )
}

pub open spec fn incomplete(detail: Seq<char>) -> Fault {
    Fault::IncompleteSession { detail }
}

/// The bytes that the states of a whole stream take, or what is wrong with the
/// stream.
pub open spec fn stream_charge(events: Seq<EnvelopeRecord>, cs: Seq<StoredCheckpoint>, s: StreamRules) -> Result<
    u64,
    Fault,
> {
    if events.len() < 3 {
        Err(incomplete("session lacks genesis, final checkpoint, or finalization"@))
    } else {
        match checkpoint_at(cs, 1, 0) {
            None => Err(incomplete("sequence 1 is not a stored genesis checkpoint"@)),
            Some(k) => match owned("genesis checkpoint owner"@, cs[k], events[0]) {
                Err(f) => Err(f),
                Ok(()) => if events[0].event.kind() != EventKind::WorkspaceCheckpoint {
                    Err(
                        Fault::UnsupportedMilestoneEvent {
                            sequence: 1,
                            event: kind_word(events[0].event.kind()),
                        },
                    )
                } else {
                    match checkpoint_state(cs[k], s.path@, s.document_id@) {
                        Err(f) => Err(f),
                        Ok(p) => match charged(s.rules, 0, p.length) {
                            Err(f) => Err(f),
                            Ok(bytes) => followed_from(p, bytes, events, 1, cs, s),
                        },
                    }
                },
            },
        }
    }
}

/// Checks a stream before it is replayed.
pub fn preflight_milestone_stream(events: &Vec<EnvelopeRecord>, cs: &Vec<StoredCheckpoint>, s: &StreamRules) -> (r:
    Result<u64, MilestoneError>)
    ensures
        told(r, stream_charge(events@, cs@, *s)),
{
    if events.len() < 3 {
        return Err(
            MilestoneError::IncompleteSession {
                detail: "session lacks genesis, final checkpoint, or finalization".to_owned(),
            },
        );
    }
    let k = match find_checkpoint(cs, 1) {
        Some(k) => k,
        None => {
            return Err(
                MilestoneError::IncompleteSession {
                    detail: "sequence 1 is not a stored genesis checkpoint".to_owned(),
                },
            );
        },
    };
    require_same_text("genesis checkpoint owner", cs[k].owner.as_str(), events[0].text.as_str())?;
    let first = events[0].event.event_kind();
    if first != EventKind::WorkspaceCheckpoint {
        return Err(
            MilestoneError::UnsupportedMilestoneEvent { sequence: 1, event: event_name(first) },
        );
    }
    let mut p = validate_one_file_checkpoint(&cs[k], s.path.as_str(), s.document_id.as_str())?;
    let mut retained = charge_state(&s.rules, 0, p.length)?;
    let end: u64 = (events.len() - 1) as u64;
    let mut i: usize = 1;
    while i < events.len()
        invariant
            1 <= i <= events@.len(),
            end == events@.len() - 1,
            followed_from(p, retained, events@, i as nat, cs@, *s) == stream_charge(
                events@,
                cs@,
                *s,
            ),
        decreases events@.len() - i,
    {
        let e = &events[i];
        p = follow(
            p,
            e,
            e.sequence == end,
            i + 1 == events.len(),
            cs,
            s.path.as_str(),
            s.document_id.as_str(),
            s.rules.max_source_bytes,
        )?;
        retained = charge_state(&s.rules, retained, p.length)?;
        i += 1;
    }
    Ok(retained)
}

/// A stream that passes is within the limit, and ends with a finalization or a
/// checkpoint.
pub proof fn a_checked_stream_is_within_the_limit(
    p: ProjectedOneFileState,
    retained: u64,
    events: Seq<EnvelopeRecord>,
    from: nat,
    cs: Seq<StoredCheckpoint>,
    s: StreamRules,
)
    requires
        retained <= MAX_REPLAY_RETAINED_STATE_BYTES,
        followed_from(p, retained, events, from, cs, s) is Ok,
    ensures
        retained <= followed_from(p, retained, events, from, cs, s)->Ok_0 <= MAX_REPLAY_RETAINED_STATE_BYTES,
        from < events.len() ==> (events.last().event.kind() == EventKind::SubmissionFinalized
            || events.last().event.kind() == EventKind::WorkspaceCheckpoint),
    decreases events.len() - from,
{
    if from < events.len() {
        let e = events[from as int];
        let n = followed(
            p,
            e,
            e.sequence == events.len() - 1,
            from + 1 == events.len(),
            cs,
            s.path@,
            s.document_id@,
            s.rules.max_source_bytes,
        )->Ok_0;
        let bytes = charged(s.rules, retained, n.length)->Ok_0;
        a_checked_stream_is_within_the_limit(n, bytes, events, from + 1, cs, s);
    }
}

pub proof fn lemma_stream_charge_is_within(
    events: Seq<EnvelopeRecord>,
    cs: Seq<StoredCheckpoint>,
    s: StreamRules,
)
    ensures
        stream_charge(events, cs, s) matches Ok(bytes) ==> bytes <= MAX_REPLAY_RETAINED_STATE_BYTES,
{
    if stream_charge(events, cs, s) is Ok {
        let k = checkpoint_at(cs, 1, 0)->0;
        let p = checkpoint_state(cs[k], s.path@, s.document_id@)->Ok_0;
        let bytes = charged(s.rules, 0, p.length)->Ok_0;
        a_checked_stream_is_within_the_limit(p, bytes, events, 1, cs, s);
    }
}

// Checking a session.

/// How many events a session declares: not too many, and only once it ended.
pub open spec fn declared_events(next_sequence: u64, ended: bool) -> Result<u64, Fault> {
    if next_sequence == 0 {
        Err(
            Fault::Mismatch {
                field: "session.next_sequence"@,
                detail: "next sequence cannot describe a nonnegative event count"@,
            },
        )
    } else {
        match within("replay events"@, (next_sequence - 1) as u64, MAX_MILESTONE_EVENTS) {
            Err(f) => Err(f),
            Ok(()) => if ended {
                Ok((next_sequence - 1) as u64)
            } else {
                Err(incomplete("session is not marked ended"@))
            },
        }
    }
}

pub fn check_session(next_sequence: u64, ended: bool) -> (r: Result<u64, MilestoneError>)
    ensures
        told(r, declared_events(next_sequence, ended)),
{
    if next_sequence == 0 {
        return Err(
            MilestoneError::Mismatch {
                field: "session.next_sequence",
                detail: "next sequence cannot describe a nonnegative event count".to_owned(),
            },
        );
    }
    require_limit("replay events", next_sequence - 1, MAX_MILESTONE_EVENTS)?;
    if !ended {
        return Err(
            MilestoneError::IncompleteSession { detail: "session is not marked ended".to_owned() },
        );
    }
    Ok(next_sequence - 1)
}

/// A number that may be missing, as it is written in a mismatch.
pub open spec fn option_text(n: Option<u64>) -> Seq<char> {
    match n {
        Some(k) => "Some("@ + text::decimal(k as nat) + ")"@,
        None => "None"@,
    }
}

fn write_option(n: Option<u64>) -> (r: String)
    ensures
        r@ == option_text(n),
{
    match n {
        Some(k) => {
            let mut r = "Some(".to_owned();
            r.push_str(text::write_decimal(k).as_str());
            r.push_str(")");
            r
        },
        None => "None".to_owned(),
    }
}

pub open spec fn latest_is(latest: Option<u64>, expected: u64) -> Result<(), Fault> {
    if latest == Some(expected) {
        Ok(())
    } else {
        Err(
            differs(
                "checkpoints.latest_sequence"@,
                option_text(latest),
                option_text(Some(expected)),
            ),
        )
    }
}

/// The chain and the checkpoints are as declared: two checkpoints, the second
/// just before the last event.
pub open spec fn chain_fits(
    declared: u64,
    events: u64,
    next_sequence: u64,
    checkpoints: u64,
    latest: Option<u64>,
) -> Result<(), Fault> {
    match same_number("declared event count"@, events, declared) {
        Err(f) => Err(f),
        Ok(()) => if events == u64::MAX {
            Err(
                Fault::Mismatch {
                    field: "session.next_sequence"@,
                    detail: "verified event count overflowed u64"@,
                },
            )
        } else {
            both(
                same_number("session.next_sequence"@, next_sequence, (events + 1) as u64),
                both(
                    same_number("checkpoint_count"@, checkpoints, 2),
                    if events < 3 {
                        Err(
                            incomplete(
                                "session lacks genesis, final checkpoint, or finalization"@,
                            ),
                        )
                    } else {
                        latest_is(latest, (events - 1) as u64)
                    },
                ),
            )
        },
    }
}

pub fn check_chain(declared: u64, events: u64, next_sequence: u64, checkpoints: u64, latest: Option<u64>) -> (r:
    Result<(), MilestoneError>)
    ensures
        told(r, chain_fits(declared, events, next_sequence, checkpoints, latest)),
{
    require_equal("declared event count", events, declared)?;
    if events == u64::MAX {
        return Err(
            MilestoneError::Mismatch {
                field: "session.next_sequence",
                detail: "verified event count overflowed u64".to_owned(),
            },
        );
    }
    require_equal("session.next_sequence", next_sequence, events + 1)?;
    require_equal("checkpoint_count", checkpoints, 2)?;
    if events < 3 {
        return Err(
            MilestoneError::IncompleteSession {
                detail: "session lacks genesis, final checkpoint, or finalization".to_owned(),
            },
        );
    }
    if latest == Some((events - 1) as u64) {
        return Ok(());
    }
    Err(
        mismatch(
            "checkpoints.latest_sequence",
            write_option(latest).as_str(),
            write_option(Some(events - 1)).as_str(),
        ),
    )
}

/// What the last event says, if it is a finalization.
pub struct Finalization {
    pub event_count: u64,
    pub clean: bool,
    pub warnings: usize,
    pub workspace_hash: crate::model::Hash,
}

pub open spec fn finalization_fits(f: Option<Finalization>, events: u64) -> Result<(), Fault> {
    match f {
        None => Err(incomplete("last event is not submission_finalized"@)),
        Some(f) => match same_number("finalization.event_count"@, f.event_count, events) {
            Err(e) => Err(e),
            Ok(()) => if f.clean && f.warnings == 0 {
                Ok(())
            } else {
                Err(incomplete("terminal finalization is not clean and warning-free"@))
            },
        },
    }
}

pub fn check_finalization(finalization: &Option<Finalization>, events: u64) -> (r: Result<(), MilestoneError>)
    ensures
        told(r, finalization_fits(*finalization, events)),
{
    match finalization {
        None => Err(
            MilestoneError::IncompleteSession {
                detail: "last event is not submission_finalized".to_owned(),
            },
        ),
        Some(f) => {
            require_equal("finalization.event_count", f.event_count, events)?;
            if !f.clean || f.warnings != 0 {
                return Err(
                    MilestoneError::IncompleteSession {
                        detail: "terminal finalization is not clean and warning-free".to_owned(),
                    },
                );
            }
            Ok(())
        },
    }
}

/// What a replay came to, with the state after each event.
pub struct Replayed {
    pub terminal: bool,
    pub finalized: bool,
    pub unreached_checkpoints: usize,
    pub next_sequence: u64,
    pub last_event_hash: crate::model::Hash,
    pub states: Vec<WorkspaceState>,
}

impl Replayed {
    pub open spec fn last(&self) -> WorkspaceState {
        self.states@.last()
    }
}

/// The one file and the one document after an event, and the hashes of both.
#[derive(Debug, PartialEq, Eq)]
pub struct WorkspaceState {
    pub files: usize,
    pub file: Option<Vec<u8>>,
    pub active_document: Option<String>,
    pub document_path: Option<String>,
    pub document_bytes: Vec<u8>,
    pub document_hash: crate::model::Hash,
    pub workspace_hash: crate::model::Hash,
}

/// What a replay is held against: what is on disk, and what the journal says.
pub struct Target {
    pub path: String,
    pub document_id: String,
    pub source: Vec<u8>,
    pub text_hash: crate::model::Hash,
    pub disk_hash: crate::model::Hash,
    pub events: u64,
    pub chain_hash: crate::model::Hash,
    pub finalized_hash: crate::model::Hash,
}

/// The first bytes as a list, without what encloses it.
pub open spec fn numbers(bytes: Seq<u8>, n: nat) -> Seq<char>
    decreases n,
{
    if n == 0 {
        Seq::empty()
    } else if n == 1 {
        text::decimal(bytes[0] as nat)
    } else {
        numbers(bytes, (n - 1) as nat) + ", "@ + text::decimal(bytes[n - 1] as nat)
    }
}

/// Bytes as they are written in a mismatch.
pub open spec fn bytes_text(bytes: Seq<u8>) -> Seq<char> {
    "["@ + numbers(bytes, bytes.len()) + "]"@
}

fn write_bytes(bytes: &[u8]) -> (r: String)
    ensures
        r@ == bytes_text(bytes@),
{
    let mut r = "[".to_owned();
    let mut i: usize = 0;
    assert(r@ =~= "["@ + numbers(bytes@, 0));
    while i < bytes.len()
        invariant
            i <= bytes@.len(),
            r@ == "["@ + numbers(bytes@, i as nat),
        decreases bytes@.len() - i,
    {
        let ghost before = r@;
        if i > 0 {
            r.push_str(", ");
        }
        r.push_str(text::write_decimal(bytes[i] as u64).as_str());
        i += 1;
        assert(r@ =~= "["@ + numbers(bytes@, i as nat));
    }
    r.push_str("]");
    r
}

pub open spec fn bytes_match(field: Seq<char>, actual: Seq<u8>, expected: Seq<u8>) -> Result<(), Fault> {
    if actual == expected {
        Ok(())
    } else {
        Err(differs(field, bytes_text(actual), bytes_text(expected)))
    }
}

fn require_same_bytes(field: &'static str, actual: &Vec<u8>, expected: &Vec<u8>) -> (r: Result<
    (),
    MilestoneError,
>)
    ensures
        told(r, bytes_match(field@, actual@, expected@)),
{
    if text::bytes_eq(actual.as_slice(), expected.as_slice()) {
        Ok(())
    } else {
        Err(
            mismatch(
                field,
                write_bytes(actual.as_slice()).as_str(),
                write_bytes(expected.as_slice()).as_str(),
            ),
        )
    }
}

pub open spec fn replay_ended(r: Replayed, t: Target) -> Result<(), Fault> {
    if r.unreached_checkpoints != 0 {
        Err(
            Fault::Mismatch {
                field: "checkpoint events"@,
                detail: "verified checkpoint payload was not reached during replay"@,
            },
        )
    } else if !r.terminal || !r.finalized {
        Err(incomplete("replay did not reach terminal finalized state"@))
    } else if t.events == u64::MAX {
        Err(
            Fault::Mismatch {
                field: "session.next_sequence"@,
                detail: "verified event count overflowed u64"@,
            },
        )
    } else {
        both(
            same_number("replay.next_sequence"@, r.next_sequence, (t.events + 1) as u64),
            same_hash("event chain tip"@, r.last_event_hash, t.chain_hash),
        )
    }
}

pub open spec fn file_fits(w: WorkspaceState, t: Target) -> Result<(), Fault> {
    match w.file {
        None => Err(
            Fault::Mismatch { field: "final file"@, detail: "replay has no "@ + t.path@ },
        ),
        Some(bytes) => both(
            bytes_match("final raw file bytes"@, bytes@, t.source@),
            same_number("final workspace file count"@, w.files as u64, 1),
        ),
    }
}

pub open spec fn document_fits(w: WorkspaceState, t: Target) -> Result<(), Fault> {
    both(
        active_is("active document"@, w.active_document, t.document_id@),
        match w.document_path {
            None => Err(
                Fault::Mismatch {
                    field: "final document"@,
                    detail: "replay has no open document "@ + t.document_id@,
                },
            ),
            Some(path) => both(
                same_text("final document path"@, path@, t.path@),
                both(
                    bytes_match("final document bytes"@, w.document_bytes@, t.source@),
                    same_hash("final document hash"@, w.document_hash, t.text_hash),
                ),
            ),
        },
    )
}

pub open spec fn hashes_fit(w: WorkspaceState, t: Target) -> Result<(), Fault> {
    both(
        same_hash("final workspace hash"@, w.workspace_hash, t.disk_hash),
        same_hash("finalization workspace hash"@, t.finalized_hash, t.disk_hash),
    )
}

/// The first thing in which a replay differs from what is on disk and in the
/// journal, if any.
pub open spec fn replay_fits(r: Replayed, t: Target) -> Result<(), Fault> {
    both(
        replay_ended(r, t),
        both(
            file_fits(r.last(), t),
            both(document_fits(r.last(), t), hashes_fit(r.last(), t)),
        ),
    )
}

pub fn check_replay(replayed: &Replayed, target: &Target) -> (r: Result<(), MilestoneError>)
    requires
        replayed.states@.len() > 0,
    ensures
        told(r, replay_fits(*replayed, *target)),
{
    if replayed.unreached_checkpoints != 0 {
        return Err(
            MilestoneError::Mismatch {
                field: "checkpoint events",
                detail: "verified checkpoint payload was not reached during replay".to_owned(),
            },
        );
    }
    if !replayed.terminal || !replayed.finalized {
        return Err(
            MilestoneError::IncompleteSession {
                detail: "replay did not reach terminal finalized state".to_owned(),
            },
        );
    }
    if target.events == u64::MAX {
        return Err(
            MilestoneError::Mismatch {
                field: "session.next_sequence",
                detail: "verified event count overflowed u64".to_owned(),
            },
        );
    }
    require_equal("replay.next_sequence", replayed.next_sequence, target.events + 1)?;
    require_same_hash("event chain tip", &replayed.last_event_hash, &target.chain_hash)?;
    let state = &replayed.states[replayed.states.len() - 1];
    match &state.file {
        None => {
            let mut detail = "replay has no ".to_owned();
            detail.push_str(target.path.as_str());
            return Err(MilestoneError::Mismatch { field: "final file", detail });
        },
        Some(bytes) => {
            require_same_bytes("final raw file bytes", bytes, &target.source)?;
        },
    }
    require_equal("final workspace file count", state.files as u64, 1)?;
    require_active("active document", &state.active_document, target.document_id.as_str())?;
    match &state.document_path {
        None => {
            let mut detail = "replay has no open document ".to_owned();
            detail.push_str(target.document_id.as_str());
            return Err(MilestoneError::Mismatch { field: "final document", detail });
        },
        Some(path) => {
            require_same_text("final document path", path.as_str(), target.path.as_str())?;
        },
    }
    require_same_bytes("final document bytes", &state.document_bytes, &target.source)?;
    require_same_hash("final document hash", &state.document_hash, &target.text_hash)?;
    require_same_hash("final workspace hash", &state.workspace_hash, &target.disk_hash)?;
    require_same_hash("finalization workspace hash", &target.finalized_hash, &target.disk_hash)
}

/// What a session left behind when it ended.
pub struct FinalizedSession {
    pub session_id: String,
    pub event_count: u64,
    pub final_event_hash: crate::model::Hash,
    pub final_document_hash: crate::model::Hash,
    pub final_workspace_hash: crate::model::Hash,
}

impl FinalizedSession {
    pub fn session_id(&self) -> (r: &str)
        ensures
            r@ == self.session_id@,
    {
        self.session_id.as_str()
    }

    pub fn event_count(&self) -> (r: u64)
        ensures
            r == self.event_count,
    {
        self.event_count
    }

    pub fn final_event_hash(&self) -> (r: crate::model::Hash)
        ensures
            r == self.final_event_hash,
    {
        self.final_event_hash
    }

    pub fn final_document_hash(&self) -> (r: crate::model::Hash)
        ensures
            r == self.final_document_hash,
    {
        self.final_document_hash
    }

    pub fn final_workspace_hash(&self) -> (r: crate::model::Hash)
        ensures
            r == self.final_workspace_hash,
    {
        self.final_workspace_hash
    }
}

pub open spec fn receipt_fits(r: Replayed, t: Target, receipt: FinalizedSession) -> Result<(), Fault> {
    both(
        same_number("finalized receipt event count"@, t.events, receipt.event_count),
        both(
            same_hash("finalized receipt event hash"@, t.chain_hash, receipt.final_event_hash),
            both(
                same_hash(
                    "finalized receipt document hash"@,
                    r.last().document_hash,
                    receipt.final_document_hash,
                ),
                same_hash(
                    "finalized receipt workspace hash"@,
                    t.disk_hash,
                    receipt.final_workspace_hash,
                ),
            ),
        ),
    )
}

/// Holds a replay against what the session left behind.
pub fn check_receipt(replayed: &Replayed, target: &Target, receipt: &FinalizedSession) -> (r: Result<
    (),
    MilestoneError,
>)
    requires
        replayed.states@.len() > 0,
    ensures
        told(r, receipt_fits(*replayed, *target, *receipt)),
{
    require_equal("finalized receipt event count", target.events, receipt.event_count)?;
    require_same_hash("finalized receipt event hash", &target.chain_hash, &receipt.final_event_hash)?;
    require_same_hash(
        "finalized receipt document hash",
        &replayed.states[replayed.states.len() - 1].document_hash,
        &receipt.final_document_hash,
    )?;
    require_same_hash(
        "finalized receipt workspace hash",
        &target.disk_hash,
        &receipt.final_workspace_hash,
    )
}

/// A replay that passes gives back the file on disk, byte for byte, and the
/// hashes that the session ended with.
pub proof fn a_checked_replay_is_the_file(r: Replayed, t: Target, receipt: FinalizedSession)
    requires
        replay_fits(r, t) is Ok,
        receipt_fits(r, t, receipt) is Ok,
    ensures
        r.last().file matches Some(bytes) && bytes@ == t.source@,
        r.last().document_bytes@ == t.source@,
        r.finalized,
        t.disk_hash.bytes@ == receipt.final_workspace_hash.bytes@,
        t.finalized_hash.bytes@ == receipt.final_workspace_hash.bytes@,
        r.last_event_hash.bytes@ == receipt.final_event_hash.bytes@,
        t.events == receipt.event_count,
{
}

} // verus!
