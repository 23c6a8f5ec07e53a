//! A recorded session over one file: its limits, what it may still record, and
//! what it reports.

use crate::model::TextEdit;
use crate::text;
use vstd::prelude::*;

pub use crate::milestone_replay::FinalizedSession;
pub use crate::milestone_session::OneFileSession;
pub use crate::milestone_verify::{
    verify_and_replay, verify_and_replay_from_directory, ReplayReport, ReplayStep,
};

verus! {

pub const SOURCE_FILE_NAME: &'static str = "main.rs";

pub const JOURNAL_FILE_NAME: &'static str = "session.sqlite3";

/// Events that are kept free for the end of a session.
pub const RESERVED_TERMINAL_EVENTS: u64 = 2;

/// The most events that a session holds.
pub const MAX_MILESTONE_EVENTS: u64 = 256;

/// The most bytes that the states of a session may take.
pub const MAX_REPLAY_RETAINED_STATE_BYTES: u64 = 67_108_864;

/// The most bytes that the events of a session may take.
pub const MAX_REPLAY_RETAINED_EVENT_BYTES: u64 = 33_554_432;

/// What a session depends on outside of this library: how long a source file
/// may be, and how many bytes a state and an event take by themselves.
#[derive(Clone, Copy, Debug, PartialEq, Eq, Structural)]
pub struct MilestoneRules {
    pub max_source_bytes: u64,
    pub state_layout: u64,
    pub event_layout: u64,
}

/// What can go wrong. What an outside part reports is kept as its text.
#[derive(Clone, Debug, PartialEq, Eq)]
pub enum MilestoneError {
    Io { operation: &'static str, source: String },
    Journal(String),
    Integrity(String),
    WriterStart(String),
    Writer(String),
    Editor(String),
    Replay(String),
    WorkspaceHash(String),
    RecordingFailed { operation: &'static str, detail: String },
    LimitExceeded { resource: &'static str, attempted: u64, maximum: u64 },
    UnsupportedMilestoneEvent { sequence: u64, event: &'static str },
    UnsafeFilesystemEntry { path: String, detail: String },
    FilesystemIdentityMismatch { path: String, detail: String },
    UnsupportedPlatform { detail: String },
    IncompleteSession { detail: String },
    Mismatch { field: &'static str, detail: String },
    Invariant { detail: String },
}

pub enum Fault {
    Io { operation: Seq<char>, source: Seq<char> },
    Journal(Seq<char>),
    Integrity(Seq<char>),
    WriterStart(Seq<char>),
    Writer(Seq<char>),
    Editor(Seq<char>),
    Replay(Seq<char>),
    WorkspaceHash(Seq<char>),
    RecordingFailed { operation: Seq<char>, detail: Seq<char> },
    LimitExceeded { resource: Seq<char>, attempted: u64, maximum: u64 },
    UnsupportedMilestoneEvent { sequence: u64, event: Seq<char> },
    UnsafeFilesystemEntry { path: Seq<char>, detail: Seq<char> },
    FilesystemIdentityMismatch { path: Seq<char>, detail: Seq<char> },
    UnsupportedPlatform { detail: Seq<char> },
    IncompleteSession { detail: Seq<char> },
    Mismatch { field: Seq<char>, detail: Seq<char> },
    Invariant { detail: Seq<char> },
}

impl MilestoneError {
    pub open spec fn view(&self) -> Fault {
        match self {
            MilestoneError::Io { operation, source } => Fault::Io {
                operation: operation@,
                source: source@,
            },
            MilestoneError::Journal(s) => Fault::Journal(s@),
            MilestoneError::Integrity(s) => Fault::Integrity(s@),
            MilestoneError::WriterStart(s) => Fault::WriterStart(s@),
            MilestoneError::Writer(s) => Fault::Writer(s@),
            MilestoneError::Editor(s) => Fault::Editor(s@),
            MilestoneError::Replay(s) => Fault::Replay(s@),
            MilestoneError::WorkspaceHash(s) => Fault::WorkspaceHash(s@),
            MilestoneError::RecordingFailed { operation, detail } => Fault::RecordingFailed {
                operation: operation@,
                detail: detail@,
            },
            MilestoneError::LimitExceeded { resource, attempted, maximum } => Fault::LimitExceeded {
                resource: resource@,
                attempted: *attempted,
                maximum: *maximum,
            },
            MilestoneError::UnsupportedMilestoneEvent { sequence, event } => Fault::UnsupportedMilestoneEvent {
                sequence: *sequence,
                event: event@,
            },
            MilestoneError::UnsafeFilesystemEntry { path, detail } => Fault::UnsafeFilesystemEntry {
                path: path@,
                detail: detail@,
            },
            MilestoneError::FilesystemIdentityMismatch { path, detail } => Fault::FilesystemIdentityMismatch {
                path: path@,
                detail: detail@,
            },
            MilestoneError::UnsupportedPlatform { detail } => Fault::UnsupportedPlatform {
                detail: detail@,
            },
            MilestoneError::IncompleteSession { detail } => Fault::IncompleteSession {
                detail: detail@,
            },
            MilestoneError::Mismatch { field, detail } => Fault::Mismatch {
                field: field@,
                detail: detail@,
            },
            MilestoneError::Invariant { detail } => Fault::Invariant { detail: detail@ },
        }
    }
}

impl Fault {
    /// The fault in words.
    pub open spec fn words(self) -> Seq<char> {
        match self {
            Fault::Io { operation, source } => operation + ": "@ + source,
            Fault::Journal(s) => "journal operation failed: "@ + s,
            Fault::Integrity(s) => "journal integrity failed: "@ + s,
            Fault::WriterStart(s) => "journal writer start failed: "@ + s,
            Fault::Writer(s) => "journal writer shutdown failed: "@ + s,
            Fault::Editor(s) => "editor action rejected: "@ + s,
            Fault::Replay(s) => "headless replay failed: "@ + s,
            Fault::WorkspaceHash(s) => "workspace hashing failed: "@ + s,
            Fault::RecordingFailed { operation, detail } => operation + ": "@ + detail,
            Fault::LimitExceeded { resource, attempted, maximum } => "milestone "@ + resource
                + " limit exceeded: "@ + text::decimal(attempted as nat) + " > "@ + text::decimal(
                maximum as nat,
            ),
            Fault::UnsupportedMilestoneEvent { sequence, event } => "event "@ + text::decimal(
                sequence as nat,
            ) + " ("@ + event + ") is outside the one-file milestone slice"@,
            Fault::UnsafeFilesystemEntry { path, detail } => "unsafe filesystem entry "@ + path + ": "@
                + detail,
            Fault::FilesystemIdentityMismatch { path, detail } => "filesystem identity mismatch at "@
                + path + ": "@ + detail,
            Fault::UnsupportedPlatform { detail } => "unsupported milestone platform: "@ + detail,
            Fault::IncompleteSession { detail } => "incomplete session: "@ + detail,
            Fault::Mismatch { field, detail } => "verified "@ + field + " mismatch: "@ + detail,
            Fault::Invariant { detail } => "vertical-slice invariant: "@ + detail,
        }
    }
}

fn two_parts(a: &str, b: &str) -> (r: String)
    ensures
        r@ == a@ + b@,
{
    let mut r = a.to_owned();
    r.push_str(b);
    r
}

fn four_parts(a: &str, b: &str, c: &str, d: &str) -> (r: String)
    ensures
        r@ == a@ + b@ + c@ + d@,
{
    let mut r = a.to_owned();
    r.push_str(b);
    r.push_str(c);
    r.push_str(d);
    r
}

impl MilestoneError {
    /// The error in words.
    pub fn to_text(&self) -> (r: String)
        ensures
            r@ == self.view().words(),
    {
        match self {
            MilestoneError::Io { operation, source } => {
                let mut r = two_parts(operation, ": ");
                r.push_str(source.as_str());
                r
            },
            MilestoneError::Journal(s) => two_parts("journal operation failed: ", s.as_str()),
            MilestoneError::Integrity(s) => two_parts("journal integrity failed: ", s.as_str()),
            MilestoneError::WriterStart(s) => two_parts("journal writer start failed: ", s.as_str()),
            MilestoneError::Writer(s) => two_parts("journal writer shutdown failed: ", s.as_str()),
            MilestoneError::Editor(s) => two_parts("editor action rejected: ", s.as_str()),
            MilestoneError::Replay(s) => two_parts("headless replay failed: ", s.as_str()),
            MilestoneError::WorkspaceHash(s) => two_parts("workspace hashing failed: ", s.as_str()),
            MilestoneError::RecordingFailed { operation, detail } => {
                let mut r = two_parts(operation, ": ");
                r.push_str(detail.as_str());
                r
            },
            MilestoneError::LimitExceeded { resource, attempted, maximum } => {
                let mut r = two_parts("milestone ", resource);
                r.push_str(" limit exceeded: ");
                r.push_str(text::write_decimal(*attempted).as_str());
                r.push_str(" > ");
                r.push_str(text::write_decimal(*maximum).as_str());
                r
            },
            MilestoneError::UnsupportedMilestoneEvent { sequence, event } => {
                let mut r = "event ".to_owned();
                r.push_str(text::write_decimal(*sequence).as_str());
                r.push_str(" (");
                r.push_str(event);
                r.push_str(") is outside the one-file milestone slice");
                r
            },
            MilestoneError::UnsafeFilesystemEntry { path, detail } => four_parts(
                "unsafe filesystem entry ",
                path.as_str(),
                ": ",
                detail.as_str(),
            ),
            MilestoneError::FilesystemIdentityMismatch { path, detail } => four_parts(
                "filesystem identity mismatch at ",
                path.as_str(),
                ": ",
                detail.as_str(),
            ),
            MilestoneError::UnsupportedPlatform { detail } => two_parts(
                "unsupported milestone platform: ",
                detail.as_str(),
            ),
            MilestoneError::IncompleteSession { detail } => two_parts(
                "incomplete session: ",
                detail.as_str(),
            ),
            MilestoneError::Mismatch { field, detail } => four_parts(
                "verified ",
                field,
                " mismatch: ",
                detail.as_str(),
            ),
            MilestoneError::Invariant { detail } => two_parts(
                "vertical-slice invariant: ",
                detail.as_str(),
            ),
        }
    }
}

/// A result and what it says.
pub open spec fn told<T>(r: Result<T, MilestoneError>, s: Result<T, Fault>) -> bool {
    match s {
        Ok(v) => r is Ok && r->Ok_0 == v,
        Err(f) => r is Err && r->Err_0.view() == f,
    }
}

pub open spec fn invariant_fault(detail: Seq<char>) -> Fault {
    Fault::Invariant { detail }
}

pub open spec fn limit_fault(resource: Seq<char>, attempted: u64, maximum: u64) -> Fault {
    Fault::LimitExceeded { resource, attempted, maximum }
}

// Limits.

pub open spec fn within(resource: Seq<char>, attempted: u64, maximum: u64) -> Result<(), Fault> {
    if attempted <= maximum {
        Ok(())
    } else {
        Err(limit_fault(resource, attempted, maximum))
    }
}

pub fn require_limit(resource: &'static str, attempted: u64, maximum: u64) -> (r: Result<(), MilestoneError>)
    ensures
        told(r, within(resource@, attempted, maximum)),
{
    if attempted <= maximum {
        Ok(())
    } else {
        Err(MilestoneError::LimitExceeded { resource, attempted, maximum })
    }
}

/// A sum that must stay within a limit. One that does not fit counts as the
/// largest number.
pub open spec fn added(resource: Seq<char>, current: u64, more: u64, maximum: u64) -> Result<u64, Fault> {
    if current + more > u64::MAX {
        Err(limit_fault(resource, u64::MAX, maximum))
    } else if current + more > maximum {
        Err(limit_fault(resource, (current + more) as u64, maximum))
    } else {
        Ok((current + more) as u64)
    }
}

pub fn checked_add_limit(resource: &'static str, current: u64, additional: u64, maximum: u64) -> (r: Result<
    u64,
    MilestoneError,
>)
    ensures
        told(r, added(resource@, current, additional, maximum)),
{
    match current.checked_add(additional) {
        None => Err(MilestoneError::LimitExceeded { resource, attempted: u64::MAX, maximum }),
        Some(attempted) => {
            if attempted <= maximum {
                Ok(attempted)
            } else {
                Err(MilestoneError::LimitExceeded { resource, attempted, maximum })
            }
        },
    }
}

pub open spec fn state_overflow() -> Fault {
    limit_fault("replay retained state bytes"@, u64::MAX, MAX_REPLAY_RETAINED_STATE_BYTES)
}

pub open spec fn event_overflow() -> Fault {
    limit_fault("replay retained event bytes"@, u64::MAX, MAX_REPLAY_RETAINED_EVENT_BYTES)
}

fn state_budget_overflow() -> (r: MilestoneError)
    ensures
        r.view() == state_overflow(),
{
    MilestoneError::LimitExceeded {
        resource: "replay retained state bytes",
        attempted: u64::MAX,
        maximum: MAX_REPLAY_RETAINED_STATE_BYTES,
    }
}

fn event_budget_overflow() -> (r: MilestoneError)
    ensures
        r.view() == event_overflow(),
{
    MilestoneError::LimitExceeded {
        resource: "replay retained event bytes",
        attempted: u64::MAX,
        maximum: MAX_REPLAY_RETAINED_EVENT_BYTES,
    }
}

// Charges.

/// Room for the nodes of two maps and eight headers of an allocator.
pub const STATE_ALLOWANCE: u64 = 2_560;

/// The bytes that an allocation is charged: twice its length and a header.
pub open spec fn allocation(length: int) -> int {
    2 * length + 64
}

/// The bytes that a state over a file of some length is charged: its layout,
/// five names and the contents twice.
pub open spec fn state_charge(layout: u64, length: usize) -> Result<u64, Fault> {
    let total = layout + STATE_ALLOWANCE + 5 * allocation(7) + 2 * allocation(length as int);
    if total > u64::MAX || allocation(length as int) > u64::MAX {
        Err(state_overflow())
    } else {
        Ok(total as u64)
    }
}

pub fn one_file_state_retained_charge(length: usize, rules: &MilestoneRules) -> (r: Result<
    u64,
    MilestoneError,
>)
    ensures
        told(r, state_charge(rules.state_layout, length)),
{
    let long: u128 = length as u128;
    let one: u128 = 2 * long + 64;
    let total: u128 = rules.state_layout as u128 + STATE_ALLOWANCE as u128 + 390 + 2 * one;
    if total > u64::MAX as u128 || one > u64::MAX as u128 {
        Err(state_budget_overflow())
    } else {
        Ok(total as u64)
    }
}

/// The bytes that an event is charged: its layout, its encoding twice and a
/// header.
pub open spec fn event_charge(layout: u64, encoded: usize) -> Result<u64, Fault> {
    if layout + 2 * encoded + 128 > u64::MAX {
        Err(event_overflow())
    } else {
        Ok((layout + 2 * encoded + 128) as u64)
    }
}

pub fn event_retained_charge(encoded: usize, rules: &MilestoneRules) -> (r: Result<u64, MilestoneError>)
    ensures
        told(r, event_charge(rules.event_layout, encoded)),
{
    let total: u128 = rules.event_layout as u128 + 2 * (encoded as u128) + 128;
    if total > u64::MAX as u128 {
        Err(event_budget_overflow())
    } else {
        Ok(total as u64)
    }
}

/// A state is always charged something, and a longer file never less.
pub proof fn longer_files_cost_more(layout: u64, a: usize, b: usize)
    requires
        a <= b,
        state_charge(layout, b) is Ok,
    ensures
        state_charge(layout, a) is Ok,
        0 < state_charge(layout, a)->Ok_0 <= state_charge(layout, b)->Ok_0,
        state_charge(layout, a)->Ok_0 >= layout,
{
}

// The length after an edit.

pub open spec fn removed_bytes(edits: Seq<TextEdit>) -> int
    decreases edits.len(),
{
    if edits.len() == 0 {
        0
    } else {
        removed_bytes(edits.drop_last()) + (edits.last().end_byte - edits.last().start_byte)
    }
}

pub open spec fn inserted_bytes(edits: Seq<TextEdit>) -> int
    decreases edits.len(),
{
    if edits.len() == 0 {
        0
    } else {
        inserted_bytes(edits.drop_last()) + text::byte_len(edits.last().inserted_text@)
    }
}

pub open spec fn in_range(e: TextEdit, length: usize) -> bool {
    e.start_byte <= e.end_byte <= length
}

/// The sums over the first edits, or what is wrong with them.
pub open spec fn edit_sums(edits: Seq<TextEdit>, n: nat, length: usize) -> Result<(), Fault>
    decreases n,
{
    if n == 0 || n > edits.len() {
        Ok(())
    } else {
        match edit_sums(edits, (n - 1) as nat, length) {
            Err(f) => Err(f),
            Ok(()) => if edits[n - 1].start_byte > usize::MAX {
                Err(invariant_fault("edit start does not fit usize"@))
            } else if edits[n - 1].end_byte > usize::MAX {
                Err(invariant_fault("edit end does not fit usize"@))
            } else if !in_range(edits[n - 1], length) {
                Err(invariant_fault("previewed edit range is outside the current text"@))
            } else if removed_bytes(edits.take(n as int)) > usize::MAX || inserted_bytes(
                edits.take(n as int),
            ) > usize::MAX {
                Err(state_overflow())
            } else {
                Ok(())
            },
        }
    }
}

/// The length of a text after its edits, or what is wrong with them.
pub open spec fn length_after(length: usize, edits: Seq<TextEdit>) -> Result<usize, Fault> {
    match edit_sums(edits, edits.len(), length) {
        Err(f) => Err(f),
        Ok(()) => {
            let after = length - removed_bytes(edits) + inserted_bytes(edits);
            if removed_bytes(edits) > length || after > usize::MAX {
                Err(state_overflow())
            } else {
                Ok(after as usize)
            }
        },
    }
}

proof fn lemma_sums_stop(edits: Seq<TextEdit>, n: nat, m: nat, length: usize)
    requires
        n <= m <= edits.len(),
        edit_sums(edits, n, length) is Err,
    ensures
        edit_sums(edits, m, length) == edit_sums(edits, n, length),
    decreases m,
{
    if n < m {
        lemma_sums_stop(edits, n, (m - 1) as nat, length);
    }
}

proof fn lemma_inserted_nonnegative(edits: Seq<TextEdit>)
    ensures
        inserted_bytes(edits) >= 0,
    decreases edits.len(),
{
    if edits.len() > 0 {
        lemma_inserted_nonnegative(edits.drop_last());
    }
}

pub fn transaction_after_len(before_len: usize, edits: &Vec<TextEdit>) -> (r: Result<usize, MilestoneError>)
    ensures
        told(r, length_after(before_len, edits@)),
{
    let mut removed: usize = 0;
    let mut inserted: usize = 0;
    let mut i: usize = 0;
    assert(edits@.take(0) =~= Seq::<TextEdit>::empty());
    while i < edits.len()
        invariant
            i <= edits@.len(),
            removed == removed_bytes(edits@.take(i as int)),
            inserted == inserted_bytes(edits@.take(i as int)),
            edit_sums(edits@, i as nat, before_len) is Ok,
        decreases edits@.len() - i,
    {
        let ghost next = (i + 1) as nat;
        proof {
            assert(edits@.take(i + 1).drop_last() =~= edits@.take(i as int));
            assert(edits@.take(i + 1).last() == edits@[i as int]);
            if edit_sums(edits@, next, before_len) is Err {
                lemma_sums_stop(edits@, next, edits@.len(), before_len);
            }
        }
        let edit = &edits[i];
        if edit.start_byte > usize::MAX as u64 {
            return Err(MilestoneError::Invariant { detail: "edit start does not fit usize".to_owned() });
        }
        if edit.end_byte > usize::MAX as u64 {
            return Err(MilestoneError::Invariant { detail: "edit end does not fit usize".to_owned() });
        }
        let start: usize = edit.start_byte as usize;
        let end: usize = edit.end_byte as usize;
        if start > end || end > before_len {
            return Err(
                MilestoneError::Invariant {
                    detail: "previewed edit range is outside the current text".to_owned(),
                },
            );
        }
        let bytes: usize = text::str_bytes(edit.inserted_text.as_str());
        match (removed.checked_add(end - start), inserted.checked_add(bytes)) {
            (Some(a), Some(b)) => {
                removed = a;
                inserted = b;
            },
            _ => {
                return Err(state_budget_overflow());
            },
        }
        i += 1;
    }
    assert(edits@.take(edits@.len() as int) =~= edits@);
    if removed > before_len {
        return Err(state_budget_overflow());
    }
    match (before_len - removed).checked_add(inserted) {
        Some(after) => Ok(after),
        None => Err(state_budget_overflow()),
    }
}

} // verus!
