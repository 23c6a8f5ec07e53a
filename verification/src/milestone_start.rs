//! Starting a session over one file, and telling its files from others.

use crate::milestone_a::{
    event_charge, invariant_fault, one_file_state_retained_charge, require_limit, state_charge, told, within, Fault,
    MilestoneError, MilestoneRules,
};
use crate::milestone_replay::FinalizedSession;
use crate::milestone_session::{
    acknowledged, admitted, checkpoint_charged, end_admitted, event_planned, event_room,
    end_planned, finalization_charged, health, job_begun, poisoned, state_charged, terminal_of,
    JournalWriteCompletion, JournalWriteKind, Ledger, OneFileSession, TerminalLengths,
};
use crate::text;
use vstd::prelude::*;

verus! {

// The directory.

/// The directory that a path means, from the directory that is current, if that
/// is known. A path that starts at the root means itself.
pub open spec fn resolved(input: Seq<char>, current: Result<Seq<char>, Seq<char>>) -> Result<
    Seq<char>,
    Fault,
> {
    if is_absolute(input) {
        Ok(input)
    } else {
        match current {
            Ok(directory) => Ok(text::path_below(directory, input)),
            Err(source) => Err(Fault::Io { operation: "resolve milestone directory"@, source }),
        }
    }
}

pub open spec fn is_absolute(path: Seq<char>) -> bool {
    path.len() > 0 && path[0] == '/'
}

pub open spec fn current_view(current: Result<String, String>) -> Result<Seq<char>, Seq<char>> {
    match current {
        Ok(directory) => Ok(directory@),
        Err(source) => Err(source@),
    }
}

pub open spec fn is_resolved(r: Result<String, MilestoneError>, wanted: Result<Seq<char>, Fault>) -> bool {
    match wanted {
        Ok(path) => r is Ok && r->Ok_0@ == path,
        Err(f) => r is Err && r->Err_0.view() == f,
    }
}

fn starts_at_root(path: &str) -> (r: bool)
    ensures
        r == is_absolute(path@),
{
    let chars = text::chars_of(path);
    chars.len() > 0 && chars[0] == '/'
}

/// The directory that a path means.
pub fn resolve_input_directory(input: &str, current: Result<String, String>) -> (r: Result<
    String,
    MilestoneError,
>)
    ensures
        is_resolved(r, resolved(input@, current_view(current))),
{
    if starts_at_root(input) {
        return Ok(input.to_owned());
    }
    match current {
        Ok(directory) => Ok(text::join_path(directory.as_str(), input)),
        Err(source) => Err(MilestoneError::Io { operation: "resolve milestone directory", source }),
    }
}

/// The directory that a path means. The current one is asked for only where the
/// path needs it, and once.
pub fn resolve_input_directory_with<F: FnOnce() -> Result<String, String>>(
    input: &str,
    current_dir: F,
) -> (r: Result<String, MilestoneError>)
    requires
        !is_absolute(input@) ==> call_requires(current_dir, ()),
    ensures
        is_absolute(input@) ==> r is Ok && r->Ok_0@ == input@,
        !is_absolute(input@) ==> exists|current: Result<String, String>|
            #![trigger call_ensures(current_dir, (), current)]
            call_ensures(current_dir, (), current) && is_resolved(
                r,
                resolved(input@, current_view(current)),
            ),
{
    if starts_at_root(input) {
        return Ok(input.to_owned());
    }
    resolve_input_directory(input, current_dir())
}

// Files.

/// Which file a path leads to.
#[derive(Clone, Copy, Debug, PartialEq, Eq, Structural)]
pub struct FileIdentity {
    pub device: u64,
    pub inode: u64,
}

/// What a look at a path shows.
#[derive(Clone, Debug, PartialEq, Eq)]
pub enum Entry {
    Directory(FileIdentity),
    Regular(FileIdentity),
    Other,
    Unreadable(String),
}

#[derive(Clone, Copy, Debug, PartialEq, Eq, Structural)]
pub enum EntryKind {
    Directory,
    Regular,
}

pub open spec fn identity_text(i: FileIdentity) -> Seq<char> {
    "FileIdentity { device: "@ + text::decimal(i.device as nat) + ", inode: "@ + text::decimal(
        i.inode as nat,
    ) + " }"@
}

fn write_identity(i: FileIdentity) -> (r: String)
    ensures
        r@ == identity_text(i),
{
    let mut r = "FileIdentity { device: ".to_owned();
    r.push_str(text::write_decimal(i.device).as_str());
    r.push_str(", inode: ");
    r.push_str(text::write_decimal(i.inode).as_str());
    r.push_str(" }");
    r
}

pub open spec fn same_identity(path: Seq<char>, label: Seq<char>, expected: FileIdentity, actual: FileIdentity) -> Result<
    (),
    Fault,
> {
    if actual == expected {
        Ok(())
    } else {
        Err(
            Fault::FilesystemIdentityMismatch {
                path,
                detail: label + " identity changed from "@ + identity_text(expected) + " to "@
                    + identity_text(actual),
            },
        )
    }
}

pub fn require_identity(path: &str, label: &str, expected: FileIdentity, actual: FileIdentity) -> (r: Result<
    (),
    MilestoneError,
>)
    ensures
        told(r, same_identity(path@, label@, expected, actual)),
{
    if actual == expected {
        return Ok(());
    }
    let mut detail = label.to_owned();
    detail.push_str(" identity changed from ");
    detail.push_str(write_identity(expected).as_str());
    detail.push_str(" to ");
    detail.push_str(write_identity(actual).as_str());
    Err(MilestoneError::FilesystemIdentityMismatch { path: path.to_owned(), detail })
}

pub open spec fn not_of_kind(path: Seq<char>, label: Seq<char>, kind: EntryKind) -> Fault {
    Fault::UnsafeFilesystemEntry {
        path,
        detail: label + match kind {
            EntryKind::Directory => " is not a directory"@,
            EntryKind::Regular => " is not a regular file"@,
        },
    }
}

/// Whether a path still leads to the file it led to: of its kind, and the same.
pub open spec fn verified(path: Seq<char>, label: Seq<char>, kind: EntryKind, expected: FileIdentity, entry: Entry) -> Result<
    (),
    Fault,
> {
    match entry {
        Entry::Unreadable(why) => Err(
            Fault::FilesystemIdentityMismatch {
                path,
                detail: "cannot inspect "@ + label + ": "@ + why@,
            },
        ),
        Entry::Directory(actual) => if kind == EntryKind::Directory {
            same_identity(path, label, expected, actual)
        } else {
            Err(not_of_kind(path, label, kind))
        },
        Entry::Regular(actual) => if kind == EntryKind::Regular {
            same_identity(path, label, expected, actual)
        } else {
            Err(not_of_kind(path, label, kind))
        },
        Entry::Other => Err(not_of_kind(path, label, kind)),
    }
}

fn wrong_kind(path: &str, label: &str, kind: EntryKind) -> (r: MilestoneError)
    ensures
        r.view() == not_of_kind(path@, label@, kind),
{
    let mut detail = label.to_owned();
    match kind {
        EntryKind::Directory => {
            detail.push_str(" is not a directory");
        },
        EntryKind::Regular => {
            detail.push_str(" is not a regular file");
        },
    }
    MilestoneError::UnsafeFilesystemEntry { path: path.to_owned(), detail }
}

pub fn verify_identity(path: &str, label: &str, kind: EntryKind, expected: FileIdentity, entry: &Entry) -> (r:
    Result<(), MilestoneError>)
    ensures
        told(r, verified(path@, label@, kind, expected, *entry)),
{
    match entry {
        Entry::Unreadable(why) => {
            let mut detail = "cannot inspect ".to_owned();
            detail.push_str(label);
            detail.push_str(": ");
            detail.push_str(why.as_str());
            Err(MilestoneError::FilesystemIdentityMismatch { path: path.to_owned(), detail })
        },
        Entry::Directory(actual) => {
            if kind == EntryKind::Directory {
                require_identity(path, label, expected, *actual)
            } else {
                Err(wrong_kind(path, label, kind))
            }
        },
        Entry::Regular(actual) => {
            if kind == EntryKind::Regular {
                require_identity(path, label, expected, *actual)
            } else {
                Err(wrong_kind(path, label, kind))
            }
        },
        Entry::Other => Err(wrong_kind(path, label, kind)),
    }
}

/// The directory, the source and the journal of a session.
pub struct Anchors {
    pub directory: FileIdentity,
    pub source: FileIdentity,
    pub journal: FileIdentity,
}

pub struct Paths {
    pub directory: String,
    pub source: String,
    pub journal: String,
}

pub struct Entries {
    pub directory: Entry,
    pub source: Entry,
    pub journal: Entry,
}

pub open spec fn all_verified(paths: Paths, anchors: Anchors, seen: Entries) -> Result<(), Fault> {
    match verified(
        paths.directory@,
        "milestone directory"@,
        EntryKind::Directory,
        anchors.directory,
        seen.directory,
    ) {
        Err(f) => Err(f),
        Ok(()) => match verified(
            paths.source@,
            "source"@,
            EntryKind::Regular,
            anchors.source,
            seen.source,
        ) {
            Err(f) => Err(f),
            Ok(()) => verified(
                paths.journal@,
                "journal"@,
                EntryKind::Regular,
                anchors.journal,
                seen.journal,
            ),
        },
    }
}

pub fn verify_workspace_identities(paths: &Paths, anchors: &Anchors, seen: &Entries) -> (r: Result<
    (),
    MilestoneError,
>)
    ensures
        told(r, all_verified(*paths, *anchors, *seen)),
{
    verify_identity(
        paths.directory.as_str(),
        "milestone directory",
        EntryKind::Directory,
        anchors.directory,
        &seen.directory,
    )?;
    verify_identity(
        paths.source.as_str(),
        "source",
        EntryKind::Regular,
        anchors.source,
        &seen.source,
    )?;
    verify_identity(
        paths.journal.as_str(),
        "journal",
        EntryKind::Regular,
        anchors.journal,
        &seen.journal,
    )
}

/// A file that was made here is removed only where the path still leads to it.
pub fn may_remove(entry: &Entry, created: FileIdentity) -> (r: bool)
    ensures
        r == (*entry == Entry::Regular(created)),
{
    match entry {
        Entry::Regular(actual) => *actual == created,
        _ => false,
    }
}

// Starting.

/// What is done next when a session starts.
#[derive(Clone, Copy, Debug, PartialEq, Eq, Structural)]
pub enum StartPhase {
    Directory,
    Source,
    Journal,
    Writer,
    Budget,
    Genesis,
    Identities,
    Running,
    Failed,
}

/// What became of what was done.
pub enum StartEvent {
    Done,
    Encoded { genesis: usize, lengths: TerminalLengths },
    Completed(JournalWriteCompletion),
    Failed(MilestoneError),
}

/// A session that is starting.
pub struct Starting {
    pub rules: MilestoneRules,
    pub phase: StartPhase,
    pub state_bytes: u64,
    pub event_bytes: u64,
}

/// What is left to undo when a start fails.
#[derive(Clone, Copy, Debug, PartialEq, Eq, Structural)]
pub struct Undo {
    pub remove_source: bool,
    pub remove_journal: bool,
    pub stop_writer: bool,
}

pub open spec fn undo_of(phase: StartPhase) -> Undo {
    Undo {
        remove_source: phase is Journal || phase is Writer || phase is Budget || phase is Genesis
            || phase is Identities,
        remove_journal: phase is Writer || phase is Budget || phase is Genesis || phase is Identities,
        stop_writer: phase is Budget || phase is Genesis || phase is Identities,
    }
}

/// Whether a session over a starter text of some length may start.
pub open spec fn start_admitted(rules: MilestoneRules, length: usize) -> Result<u64, Fault> {
    match within("source bytes"@, length as u64, rules.max_source_bytes) {
        Err(f) => Err(f),
        Ok(()) => state_charge(rules.state_layout, length),
    }
}

/// The charge of the first event, which must leave room for the last two.
pub open spec fn genesis_charge(rules: MilestoneRules, genesis: usize, lengths: TerminalLengths) -> Result<u64, Fault> {
    match event_charge(rules.event_layout, genesis) {
        Err(f) => Err(f),
        Ok(charge) => match terminal_of(1, lengths, rules.event_layout) {
            Err(f) => Err(f),
            Ok(t) => match event_room(charge, 0, t) {
                Err(f) => Err(f),
                Ok(()) => Ok(charge),
            },
        },
    }
}

pub open spec fn next_phase(phase: StartPhase) -> StartPhase {
    match phase {
        StartPhase::Directory => StartPhase::Source,
        StartPhase::Source => StartPhase::Journal,
        StartPhase::Journal => StartPhase::Writer,
        StartPhase::Writer => StartPhase::Budget,
        StartPhase::Identities => StartPhase::Running,
        other => other,
    }
}

/// Whether this is an event that the phase waits for.
pub open spec fn expected(phase: StartPhase, event: StartEvent) -> bool {
    event is Failed || match phase {
        StartPhase::Budget => event is Encoded,
        StartPhase::Genesis => event is Completed,
        StartPhase::Running => false,
        StartPhase::Failed => false,
        _ => event is Done,
    }
}

pub open spec fn started(s: Starting, event: StartEvent) -> Result<Starting, Fault> {
    match event {
        StartEvent::Failed(e) => Err(e.view()),
        StartEvent::Done => Ok(Starting { phase: next_phase(s.phase), ..s }),
        StartEvent::Encoded { genesis, lengths } => match genesis_charge(s.rules, genesis, lengths) {
            Err(f) => Err(f),
            Ok(charge) => Ok(Starting { phase: StartPhase::Genesis, event_bytes: charge, ..s }),
        },
        StartEvent::Completed(c) => match acknowledged(
            c,
            JournalWriteKind::Checkpoint,
            1,
            "persist genesis checkpoint"@,
        ) {
            Err(f) => Err(f),
            Ok(_) => Ok(Starting { phase: StartPhase::Identities, ..s }),
        },
    }
}

impl Starting {
    /// Begins a start: the text must not be too long.
    pub fn new(length: usize, rules: MilestoneRules) -> (r: Result<Starting, MilestoneError>)
        ensures
            match start_admitted(rules, length) {
                Ok(bytes) => r is Ok && r->Ok_0 == (Starting {
                    rules,
                    phase: StartPhase::Directory,
                    state_bytes: bytes,
                    event_bytes: 0,
                }),
                Err(f) => r is Err && r->Err_0.view() == f,
            },
    {
        require_limit("source bytes", length as u64, rules.max_source_bytes)?;
        let state_bytes = one_file_state_retained_charge(length, &rules)?;
        Ok(Starting { rules, phase: StartPhase::Directory, state_bytes, event_bytes: 0 })
    }

    /// Takes in what became of a phase. A failure says what is to be undone.
    pub fn advance(&mut self, event: StartEvent) -> (r: Result<StartPhase, (MilestoneError, Undo)>)
        requires
            expected(old(self).phase, event),
        ensures
            match started(*old(self), event) {
                Ok(n) => *final(self) == n && r == Ok::<StartPhase, (MilestoneError, Undo)>(n.phase),
                Err(f) => {
                    &&& *final(self) == (Starting { phase: StartPhase::Failed, ..*old(self) })
                    &&& r is Err && r->Err_0.0.view() == f && r->Err_0.1 == undo_of(old(self).phase)
                },
            },
    {
        let undo = self.undo();
        let result = match event {
            StartEvent::Failed(error) => Err(error),
            StartEvent::Done => {
                self.phase = match self.phase {
                    StartPhase::Directory => StartPhase::Source,
                    StartPhase::Source => StartPhase::Journal,
                    StartPhase::Journal => StartPhase::Writer,
                    StartPhase::Writer => StartPhase::Budget,
                    StartPhase::Identities => StartPhase::Running,
                    other => other,
                };
                Ok(())
            },
            StartEvent::Encoded { genesis, lengths } => {
                match crate::milestone_start::charge_genesis(&self.rules, genesis, lengths) {
                    Ok(charge) => {
                        self.event_bytes = charge;
                        self.phase = StartPhase::Genesis;
                        Ok(())
                    },
                    Err(error) => Err(error),
                }
            },
            StartEvent::Completed(completion) => {
                match crate::milestone_session::wait_for_persistence(
                    completion,
                    JournalWriteKind::Checkpoint,
                    1,
                    "persist genesis checkpoint",
                ) {
                    Ok(_) => {
                        self.phase = StartPhase::Identities;
                        Ok(())
                    },
                    Err(error) => Err(error),
                }
            },
        };
        match result {
            Ok(()) => Ok(self.phase),
            Err(error) => {
                self.phase = StartPhase::Failed;
                Err((error, undo))
            },
        }
    }

    fn undo(&self) -> (r: Undo)
        ensures
            r == undo_of(self.phase),
    {
        match self.phase {
            StartPhase::Journal => Undo {
                remove_source: true,
                remove_journal: false,
                stop_writer: false,
            },
            StartPhase::Writer => Undo {
                remove_source: true,
                remove_journal: true,
                stop_writer: false,
            },
            StartPhase::Budget => Undo {
                remove_source: true,
                remove_journal: true,
                stop_writer: true,
            },
            StartPhase::Genesis => Undo {
                remove_source: true,
                remove_journal: true,
                stop_writer: true,
            },
            StartPhase::Identities => Undo {
                remove_source: true,
                remove_journal: true,
                stop_writer: true,
            },
            _ => Undo { remove_source: false, remove_journal: false, stop_writer: false },
        }
    }

    /// The session, once it runs.
    pub fn session(&self) -> (r: Option<OneFileSession>)
        ensures
            match r {
                Some(s) => self.phase is Running && s.view() == begun(*self),
                None => !(self.phase is Running),
            },
    {
        match self.phase {
            StartPhase::Running => Some(
                OneFileSession {
                    rules: self.rules,
                    persisted_event_count: 1,
                    retained_state_bytes: self.state_bytes,
                    retained_event_bytes: self.event_bytes,
                    next_monotonic_millis: 1,
                    failure: None,
                    writer_open: true,
                },
            ),
            _ => None,
        }
    }
}

pub fn charge_genesis(rules: &MilestoneRules, genesis: usize, lengths: TerminalLengths) -> (r: Result<
    u64,
    MilestoneError,
>)
    ensures
        told(r, genesis_charge(*rules, genesis, lengths)),
{
    let charge = crate::milestone_a::event_retained_charge(genesis, rules)?;
    let terminal = crate::milestone_session::terminal_event_retained_budget(1, lengths, rules)?;
    crate::milestone_session::check_event_room(charge, 0, terminal)?;
    Ok(charge)
}

/// A session at its start.
pub open spec fn begun(s: Starting) -> Ledger {
    Ledger {
        rules: s.rules,
        events: 1,
        state_bytes: s.state_bytes,
        event_bytes: s.event_bytes,
        millis: 1,
        failure: None,
        writer: true,
    }
}

// What holds of every session.

/// A session runs only after its last step, in which its files are looked at once
/// more; a failure there undoes all that was made.
pub proof fn a_start_runs_last(s: Starting, event: StartEvent)
    requires
        expected(s.phase, event),
        started(s, event) is Ok,
        started(s, event)->Ok_0.phase is Running,
    ensures
        s.phase is Identities,
        undo_of(s.phase) == (Undo { remove_source: true, remove_journal: true, stop_writer: true }),
{
}

/// A session after a state was recorded.
pub open spec fn recorded(l: Ledger, length: usize, encoded: usize) -> Ledger {
    Ledger {
        events: (l.events + 1) as u64,
        state_bytes: state_charged(l, length)->Ok_0,
        event_bytes: event_planned(l, encoded)->Ok_0.retained,
        millis: crate::milestone_session::later(l.millis),
        ..l
    }
}

/// What is admitted can be recorded, and the session can still end after it.
pub proof fn an_admitted_state_leaves_room_for_the_end(
    l: Ledger,
    length: usize,
    encoded: usize,
    lengths: TerminalLengths,
)
    requires
        admitted(l, length, encoded, lengths) is Ok,
    ensures
        event_planned(l, encoded) is Ok,
        state_charged(l, length) is Ok,
        end_admitted(recorded(l, length, encoded), length, lengths) is Ok,
{
    let charge = state_charge(l.rules.state_layout, length)->Ok_0;
    assert(l.state_bytes + charge * 3 <= u64::MAX);
    assert(charge * 3 == charge + charge * 2);
}

/// An end that was admitted goes through: both events and both states have room,
/// and the bytes come out as planned.
pub proof fn a_planned_end_goes_through(
    l: Ledger,
    length: usize,
    lengths: TerminalLengths,
)
    requires
        end_planned(l, length, lengths) is Ok,
    ensures
        ({
            let plan = end_planned(l, length, lengths)->Ok_0;
            let kept = Ledger { events: (l.events + 1) as u64, ..l };
            let a = checkpoint_charged(kept, plan);
            &&& a is Ok
            &&& event_planned(a->Ok_0, lengths.finalization) is Ok
            &&& event_planned(a->Ok_0, lengths.finalization)->Ok_0.sequence == l.events + 2
            &&& finalization_charged(
                Ledger {
                    events: (l.events + 2) as u64,
                    event_bytes: event_planned(a->Ok_0, lengths.finalization)->Ok_0.retained,
                    ..a->Ok_0
                },
                plan,
                (l.events + 2) as u64,
            ) is Ok
        }),
{
    let charge = state_charge(l.rules.state_layout, length)->Ok_0;
    assert(l.state_bytes + charge * 2 <= u64::MAX);
    assert(charge * 2 == charge + charge);
}

/// A session that failed stays failed: the first failure is what it reports,
/// and nothing more is recorded.
pub proof fn failure_is_permanent(l: Ledger, operation: Seq<char>, f: Fault)
    ensures
        health(poisoned(l, operation, f)) is Err,
        job_begun(poisoned(l, operation, f)) is Err,
        l.failure is Some ==> health(poisoned(l, operation, f)) == health(l),
        l.failure is None ==> health(poisoned(l, operation, f)) == Err::<(), Fault>(
            Fault::RecordingFailed { operation, detail: f.words() },
        ),
{
}

// The end.

/// The hashes that a session ends with.
pub struct FinalHashes {
    pub event: crate::model::Hash,
    pub document: crate::model::Hash,
    pub workspace: crate::model::Hash,
}

/// What is wrong with the end of a session, if anything is: the journal did not
/// mark it, or one of its files is another by now.
pub open spec fn end_fits(ended: bool, paths: Paths, anchors: Anchors, seen: Entries) -> Result<(), Fault> {
    if !ended {
        Err(invariant_fault("journal did not mark the finalized session ended"@))
    } else {
        all_verified(paths, anchors, seen)
    }
}

impl OneFileSession {
    /// What a session leaves behind, once the journal was told of its end and
    /// answered.
    pub fn leave(
        &self,
        session_id: String,
        hashes: FinalHashes,
        ended: bool,
        places: (&Paths, &Anchors, &Entries),
    ) -> (r: Result<FinalizedSession, MilestoneError>)
        ensures
            match end_fits(ended, *places.0, *places.1, *places.2) {
                Err(f) => r is Err && r->Err_0.view() == f,
                Ok(()) => {
                    &&& r is Ok
                    &&& r->Ok_0.session_id == session_id
                    &&& r->Ok_0.event_count == self.view().events
                    &&& r->Ok_0.final_event_hash == hashes.event
                    &&& r->Ok_0.final_document_hash == hashes.document
                    &&& r->Ok_0.final_workspace_hash == hashes.workspace
                },
            },
    {
        if !ended {
            return Err(
                MilestoneError::Invariant {
                    detail: "journal did not mark the finalized session ended".to_owned(),
                },
            );
        }
        verify_workspace_identities(places.0, places.1, places.2)?;
        Ok(
            FinalizedSession {
                session_id,
                event_count: self.persisted_event_count,
                final_event_hash: hashes.event,
                final_document_hash: hashes.document,
                final_workspace_hash: hashes.workspace,
            },
        )
    }
}

} // verus!
