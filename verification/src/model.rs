//! Plain records of a session: commands, captures, edits and events.

use vstd::prelude::*;

verus! {

/// How much of a stream was captured.
#[derive(Clone, Copy, Debug, PartialEq, Eq, Structural)]
pub enum CaptureCompleteness {
    Complete,
    Truncated,
    ReadFailed,
    Unavailable,
}

/// One of the two output streams of a command.
#[derive(Clone, Copy, Debug, PartialEq, Eq, Structural)]
pub enum OutputStream {
    Stdout,
    Stderr,
}

/// The actions that a session may run.
#[derive(Clone, Copy, Debug, PartialEq, Eq, Structural)]
pub enum ControlledAction {
    Build,
    Check,
    Test,
    Run,
    Clippy,
    Format,
    Doc,
    Add,
    Remove,
    Update,
}

/// Why a command did not run to its own exit.
#[derive(Clone, Copy, Debug, PartialEq, Eq, Structural)]
pub enum CommandTermination {
    Deadline,
    Cancelled,
    Quit,
    OutputLimit,
    CaptureFailure,
    CleanupFailure,
    Signal,
}

/// How a command ended.
#[derive(Clone, Copy, Debug, PartialEq, Eq, Structural)]
pub enum CommandOutcome {
    Exited { code: i32 },
    LaunchFailed { os_code: Option<i32> },
    Terminated { reason: CommandTermination, signal: Option<i32> },
}

/// Size and completeness of one captured stream.
#[derive(Clone, Copy, Debug, PartialEq, Eq, Structural)]
pub struct CommandCapture {
    pub bytes: u64,
    pub completeness: CaptureCompleteness,
}

/// A 256-bit content hash.
#[derive(Clone, Copy, Debug, PartialEq, Eq)]
pub struct Hash {
    pub bytes: [u8; 32],
}

impl Hash {
    /// The hash whose bytes are all zero.
    pub fn zero() -> (r: Hash)
        ensures
            forall|i: int| 0 <= i < 32 ==> r.bytes@[i] == 0,
    {
        Hash { bytes: [0u8; 32] }
    }

    /// Whether two hashes are the same.
    pub fn same(&self, other: &Hash) -> (r: bool)
        ensures
            r == (self.bytes@ == other.bytes@),
    {
        let mut i: usize = 0;
        while i < 32
            invariant
                i <= 32,
                forall|j: int| 0 <= j < i ==> self.bytes@[j] == other.bytes@[j],
            decreases 32 - i,
        {
            if self.bytes[i] != other.bytes[i] {
                return false;
            }
            i += 1;
        }
        assert(self.bytes@ =~= other.bytes@);
        true
    }
}

/// The workspace state that a command ran on.
#[derive(Clone, Copy, Debug, PartialEq, Eq)]
pub struct CommandTreeLink {
    pub checkpoint_sequence: u64,
    pub checkpoint_event_hash: Hash,
    pub workspace_hash: Hash,
    pub workspace_version: u64,
}

/// The record made when a command starts.
#[derive(Debug, PartialEq, Eq)]
pub struct ControlledCommandStarted {
    pub command_id: String,
    pub action: ControlledAction,
    pub argv: Vec<String>,
    pub selected_toolchain: String,
    pub tools: Vec<String>,
    pub before: CommandTreeLink,
    pub output_limit: u64,
    /// Whether the command was typed at the console.
    pub console: bool,
}

/// A piece of captured output. `bytes` is nothing where the recorded encoding
/// of the piece cannot be decoded.
#[derive(Debug, PartialEq, Eq)]
pub struct ControlledCommandOutput {
    pub command_id: String,
    pub stream: OutputStream,
    pub offset: u64,
    pub bytes: Option<Vec<u8>>,
}

/// The record made when a command has ended.
#[derive(Debug, PartialEq, Eq)]
pub struct ControlledCommandFinished {
    pub command_id: String,
    pub after: CommandTreeLink,
    pub outcome: CommandOutcome,
    pub stdout: CommandCapture,
    pub stderr: CommandCapture,
}

/// Where the text of an edit came from.
#[derive(Clone, Copy, Debug, PartialEq, Eq, Structural)]
pub enum EditOrigin {
    Keyboard,
    Paste,
    Completion,
    AdditionalCompletionEdit,
    Formatter,
    DependencyTool,
    CodeAction,
    FileReload,
    ExternalChange,
    Undo,
    Redo,
    Unknown,
}

/// Text put in place of a byte range.
#[derive(Clone, Debug, PartialEq, Eq)]
pub struct TextEdit {
    pub start_byte: u64,
    pub end_byte: u64,
    pub inserted_text: String,
}

/// Edits that are made at once; their ranges refer to the text before all of them.
#[derive(Debug, PartialEq, Eq)]
pub struct EditorTransaction {
    pub document_id: String,
    pub version_before: u64,
    pub version_after: u64,
    pub origin: EditOrigin,
    pub edits: Vec<TextEdit>,
}

/// A command of the older record format.
#[derive(Debug, PartialEq, Eq)]
pub struct CommandStarted {
    pub command_id: String,
    pub program: String,
    pub arguments: Vec<String>,
}

/// What a session recorded.
#[derive(Debug, PartialEq, Eq)]
pub enum Event {
    FileEdited(EditorTransaction),
    InternalPaste(EditorTransaction),
    ExternalObservation,
    PasteRejected,
    FileCreated,
    FileDeleted,
    FileRenamed,
    SessionResumed,
    ControlledCommandStarted(ControlledCommandStarted),
    ControlledCommandOutput(ControlledCommandOutput),
    ControlledCommandFinished(ControlledCommandFinished),
    CargoCommandStarted(CommandStarted),
    CargoCommandFinished(String),
    Other,
}

/// An event with its place in a session.
#[derive(Debug, PartialEq, Eq)]
pub struct EventEnvelope {
    pub session_id: String,
    pub sequence: u64,
    pub event: Event,
}

} // verus!
