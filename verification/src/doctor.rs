//! Checks before a session: what is ready, what is missing, and what to do.

use crate::display;
use crate::ghostty;
use crate::ghostty::{GhosttyBindingStatus, GhosttyInspection};
use crate::resolution::{ProbeStatus, ToolProbe, ToolVersion, ToolchainReport};
use crate::text;
use vstd::prelude::*;

verus! {

pub const USAGE: &'static str = "Usage: rustrace doctor assignment.rta [--workspace DIR] | rustrace doctor --write-ghostty-keys";

pub const MINIMUM_COLUMNS: u16 = 80;

pub const MINIMUM_ROWS: u16 = 24;

pub const MEBIBYTE: u64 = 1048576;

#[derive(Clone, Copy, Debug, PartialEq, Eq, Structural)]
pub enum Level {
    Fine,
    Warning,
    Blocker,
}

impl Level {
    pub open spec fn word(self) -> Seq<char> {
        match self {
            Level::Fine => "OK"@,
            Level::Warning => "WARNING"@,
            Level::Blocker => "BLOCKER"@,
        }
    }

    pub fn label(self) -> (r: &'static str)
        ensures
            r@ == self.word(),
    {
        match self {
            Level::Fine => "OK",
            Level::Warning => "WARNING",
            Level::Blocker => "BLOCKER",
        }
    }
}

/// One check: what it found, and what helps.
#[derive(Clone, Debug, PartialEq, Eq)]
pub struct Check {
    pub name: &'static str,
    pub level: Level,
    pub detail: String,
    pub remedy: Option<String>,
}

pub struct Checked {
    pub name: Seq<char>,
    pub level: Level,
    pub detail: Seq<char>,
    pub remedy: Option<Seq<char>>,
}

pub open spec fn fine(name: Seq<char>, detail: Seq<char>) -> Checked {
    Checked { name, level: Level::Fine, detail, remedy: None }
}

pub open spec fn doubtful(name: Seq<char>, detail: Seq<char>, remedy: Seq<char>) -> Checked {
    Checked { name, level: Level::Warning, detail, remedy: Some(remedy) }
}

pub open spec fn blocked(name: Seq<char>, detail: Seq<char>, remedy: Seq<char>) -> Checked {
    Checked { name, level: Level::Blocker, detail, remedy: Some(remedy) }
}

impl Check {
    pub open spec fn view(&self) -> Checked {
        Checked {
            name: self.name@,
            level: self.level,
            detail: self.detail@,
            remedy: ghostty::opt_string(self.remedy),
        }
    }

    pub fn ok(name: &'static str, detail: String) -> (r: Check)
        ensures
            r.view() == fine(name@, detail@),
    {
        Check { name, level: Level::Fine, detail, remedy: None }
    }

    pub fn warning(name: &'static str, detail: String, remedy: String) -> (r: Check)
        ensures
            r.view() == doubtful(name@, detail@, remedy@),
    {
        Check { name, level: Level::Warning, detail, remedy: Some(remedy) }
    }

    pub fn blocker(name: &'static str, detail: String, remedy: String) -> (r: Check)
        ensures
            r.view() == blocked(name@, detail@, remedy@),
    {
        Check { name, level: Level::Blocker, detail, remedy: Some(remedy) }
    }
}

pub open spec fn checks_view(v: Seq<Check>) -> Seq<Checked> {
    Seq::new(v.len(), |i: int| v[i].view())
}

// Arguments.

/// The package and the directory. Without a directory it is the package's path
/// with the extension `work`.
#[derive(Clone, Debug, PartialEq, Eq)]
pub struct DoctorArgs {
    pub package: String,
    pub workspace: Option<String>,
}

/// The directory that the arguments from a place on name, the last one of all.
pub open spec fn workspace_named(args: Seq<Seq<char>>, from: nat, named: Option<Seq<char>>) -> Option<
    Option<Seq<char>>,
>
    decreases args.len() - from,
{
    if from >= args.len() {
        Some(named)
    } else if args[from as int] != "--workspace"@ || from + 1 >= args.len() {
        None
    } else {
        workspace_named(args, from + 2, Some(args[from + 1int]))
    }
}

pub fn parse_args(args: &Vec<String>) -> (r: Result<DoctorArgs, String>)
    ensures
        match workspace_named(text::texts(args@), 1, None) {
            Some(named) => if args@.len() > 0 {
                r is Ok && r->Ok_0.package@ == args@[0]@ && ghostty::opt_string(r->Ok_0.workspace)
                    == named
            } else {
                r is Err && r->Err_0@ == USAGE@
            },
            None => r is Err && r->Err_0@ == USAGE@,
        },
{
    let ghost all = text::texts(args@);
    if args.len() == 0 {
        return Err(USAGE.to_owned());
    }
    let mut workspace: Option<String> = None;
    let mut i: usize = 1;
    while i < args.len()
        invariant
            1 <= i <= args.len(),
            all == text::texts(args@),
            workspace_named(all, 1, None) == workspace_named(
                all,
                i as nat,
                ghostty::opt_string(workspace),
            ),
        decreases args@.len() - i,
    {
        assert(all[i as int] == args@[i as int]@);
        if args.len() - i < 2 || !text::str_eq(args[i].as_str(), "--workspace") {
            return Err(USAGE.to_owned());
        }
        assert(all[i + 1] == args@[i + 1]@);
        workspace = Some(args[i + 1].clone());
        i += 2;
    }
    Ok(DoctorArgs { package: args[0].clone(), workspace })
}

// The workspace.

/// Where a workspace is to be, as far as it could be told.
pub enum WorkspacePlace {
    Unnamed,
    Found(String),
    ParentNotDirectory,
    ParentUnavailable(String),
}

pub open spec fn place_check(place: WorkspacePlace) -> Checked {
    match place {
        WorkspacePlace::Unnamed => blocked(
            "workspace"@,
            "the workspace path must name a directory"@,
            "Pass --workspace with a directory name below an existing local directory."@,
        ),
        WorkspacePlace::Found(path) => fine(
            "workspace"@,
            "location "@ + path@ + " is available"@,
        ),
        WorkspacePlace::ParentNotDirectory => blocked(
            "workspace"@,
            "the workspace parent is not a directory"@,
            "Choose a workspace below an existing writable local directory."@,
        ),
        WorkspacePlace::ParentUnavailable(error) => blocked(
            "workspace"@,
            "the workspace parent is unavailable: "@ + error@,
            "Create the parent directory or choose an existing writable local directory."@,
        ),
    }
}

pub fn resolve_workspace(place: &WorkspacePlace) -> (r: Check)
    ensures
        r.view() == place_check(*place),
{
    match place {
        WorkspacePlace::Unnamed => Check::blocker(
            "workspace",
            "the workspace path must name a directory".to_owned(),
            "Pass --workspace with a directory name below an existing local directory.".to_owned(),
        ),
        WorkspacePlace::Found(path) => Check::ok(
            "workspace",
            text::cat3("location ", path.as_str(), " is available"),
        ),
        WorkspacePlace::ParentNotDirectory => Check::blocker(
            "workspace",
            "the workspace parent is not a directory".to_owned(),
            "Choose a workspace below an existing writable local directory.".to_owned(),
        ),
        WorkspacePlace::ParentUnavailable(error) => Check::blocker(
            "workspace",
            text::cat2("the workspace parent is unavailable: ", error.as_str()),
            "Create the parent directory or choose an existing writable local directory.".to_owned(),
        ),
    }
}

/// What looking at the workspace came to: the first thing that was wrong, or
/// that nothing was.
pub enum WorkspaceLook {
    NotDirectory,
    ReadOnly,
    UnsafeBinding(String),
    Changed(String),
    NotWritable(String),
    NoSibling(String),
    Usable,
    DanglingLink,
    CannotCreate(String),
    CanCreate,
    Uninspectable(String),
}

pub open spec fn look_check(path: Seq<char>, look: WorkspaceLook) -> Checked {
    match look {
        WorkspaceLook::NotDirectory => blocked(
            "workspace"@,
            path + " is not a directory"@,
            "Choose a directory for --workspace, then rerun doctor."@,
        ),
        WorkspaceLook::ReadOnly => blocked(
            "workspace"@,
            path + " is not writable"@,
            "Make the workspace directory writable, then rerun doctor."@,
        ),
        WorkspaceLook::UnsafeBinding(error) => blocked(
            "workspace"@,
            path + " has an unsafe binding: "@ + error@,
            "Repair the workspace path or choose another local directory, then rerun doctor."@,
        ),
        WorkspaceLook::Changed(error) => blocked(
            "workspace"@,
            path + " changed during inspection: "@ + error@,
            "Repair the workspace path or choose another local directory, then rerun doctor."@,
        ),
        WorkspaceLook::NotWritable(error) => blocked(
            "workspace"@,
            path + " is not writable: "@ + error@,
            "Make the workspace directory writable, then rerun doctor."@,
        ),
        WorkspaceLook::NoSibling(error) => blocked(
            "workspace"@,
            path + " cannot be checked using sibling scratch space: "@ + error@,
            "Make the workspace parent writable or choose another local directory."@,
        ),
        WorkspaceLook::Usable => fine(
            "workspace"@,
            path + " has a stable writable directory binding and its filesystem accepts sibling scratch create, sync, and remove"@,
        ),
        WorkspaceLook::DanglingLink => blocked(
            "workspace"@,
            path + " does not resolve to a directory"@,
            "Repair the workspace link or choose another local directory, then rerun doctor."@,
        ),
        WorkspaceLook::CannotCreate(error) => blocked(
            "workspace"@,
            path + " cannot be created: "@ + error@,
            "Make the workspace parent writable or choose another local directory."@,
        ),
        WorkspaceLook::CanCreate => fine(
            "workspace"@,
            path + " can be created"@,
        ),
        WorkspaceLook::Uninspectable(error) => blocked(
            "workspace"@,
            "cannot inspect "@ + path + ": "@ + error@,
            "Make the workspace location accessible, then rerun doctor."@,
        ),
    }
}

/// The check of a workspace that was looked at.
pub fn writable_workspace_check(path: &str, look: &WorkspaceLook) -> (r: Check)
    ensures
        r.view() == look_check(path@, *look),
{
    match look {
        WorkspaceLook::NotDirectory => Check::blocker(
            "workspace",
            text::cat2(path, " is not a directory"),
            "Choose a directory for --workspace, then rerun doctor.".to_owned(),
        ),
        WorkspaceLook::ReadOnly => Check::blocker(
            "workspace",
            text::cat2(path, " is not writable"),
            "Make the workspace directory writable, then rerun doctor.".to_owned(),
        ),
        WorkspaceLook::UnsafeBinding(error) => Check::blocker(
            "workspace",
            text::cat3(path, " has an unsafe binding: ", error.as_str()),
            "Repair the workspace path or choose another local directory, then rerun doctor.".to_owned(),
        ),
        WorkspaceLook::Changed(error) => Check::blocker(
            "workspace",
            text::cat3(path, " changed during inspection: ", error.as_str()),
            "Repair the workspace path or choose another local directory, then rerun doctor.".to_owned(),
        ),
        WorkspaceLook::NotWritable(error) => Check::blocker(
            "workspace",
            text::cat3(path, " is not writable: ", error.as_str()),
            "Make the workspace directory writable, then rerun doctor.".to_owned(),
        ),
        WorkspaceLook::NoSibling(error) => Check::blocker(
            "workspace",
            text::cat3(path, " cannot be checked using sibling scratch space: ", error.as_str()),
            "Make the workspace parent writable or choose another local directory.".to_owned(),
        ),
        WorkspaceLook::Usable => Check::ok(
            "workspace",
            text::cat2(path, " has a stable writable directory binding and its filesystem accepts sibling scratch create, sync, and remove"),
        ),
        WorkspaceLook::DanglingLink => Check::blocker(
            "workspace",
            text::cat2(path, " does not resolve to a directory"),
            "Repair the workspace link or choose another local directory, then rerun doctor.".to_owned(),
        ),
        WorkspaceLook::CannotCreate(error) => Check::blocker(
            "workspace",
            text::cat3(path, " cannot be created: ", error.as_str()),
            "Make the workspace parent writable or choose another local directory.".to_owned(),
        ),
        WorkspaceLook::CanCreate => Check::ok(
            "workspace",
            text::cat2(path, " can be created"),
        ),
        WorkspaceLook::Uninspectable(error) => Check::blocker(
            "workspace",
            text::cat4("cannot inspect ", path, ": ", error.as_str()),
            "Make the workspace location accessible, then rerun doctor.".to_owned(),
        ),
    }
}

/// Where the checks of the file system are made.
#[derive(Clone, Debug, PartialEq, Eq)]
pub struct ProbeLocation {
    pub base: Option<String>,
    pub target: String,
    pub scope: String,
}

pub struct Located {
    pub base: Option<Seq<char>>,
    pub target: Seq<char>,
    pub scope: Seq<char>,
}

impl ProbeLocation {
    pub open spec fn view(&self) -> Located {
        Located { base: ghostty::opt_string(self.base), target: self.target@, scope: self.scope@ }
    }
}

/// A path and the directory that it is in.
#[derive(Clone, Debug, PartialEq, Eq)]
pub struct PlacedPath {
    pub path: String,
    pub parent: String,
}

/// The workspace itself where it could be opened, else the place where it would
/// be, else the place beside the package.
pub open spec fn located(
    workspace: Option<PlacedPath>,
    opened: Option<String>,
    fallback: Option<PlacedPath>,
) -> Located {
    match (workspace, opened, fallback) {
        (Some(_), Some(canonical), _) => Located {
            base: Some(canonical@),
            target: canonical@,
            scope: "workspace filesystem at "@ + canonical@,
        },
        (Some(w), None, _) => Located {
            base: Some(w.path@),
            target: w.parent@,
            scope: "workspace-parent filesystem at "@ + w.parent@,
        },
        (None, _, Some(base)) => Located {
            base: Some(base.path@),
            target: base.parent@,
            scope: "workspace-parent filesystem at "@ + base.parent@,
        },
        (None, _, None) => Located {
            base: None,
            target: ""@,
            scope: "unavailable filesystem"@,
        },
    }
}

pub fn filesystem_probe_location(
    workspace: &Option<PlacedPath>,
    opened: &Option<String>,
    fallback: &Option<PlacedPath>,
) -> (r: ProbeLocation)
    ensures
        r.view() == located(*workspace, *opened, *fallback),
{
    match workspace {
        Some(w) => match opened {
            Some(canonical) => ProbeLocation {
                base: Some(canonical.clone()),
                target: canonical.clone(),
                scope: text::cat2("workspace filesystem at ", canonical.as_str()),
            },
            None => ProbeLocation {
                base: Some(w.path.clone()),
                target: w.parent.clone(),
                scope: text::cat2("workspace-parent filesystem at ", w.parent.as_str()),
            },
        },
        None => match fallback {
            Some(b) => ProbeLocation {
                base: Some(b.path.clone()),
                target: b.parent.clone(),
                scope: text::cat2("workspace-parent filesystem at ", b.parent.as_str()),
            },
            None => ProbeLocation {
                base: None,
                target: "".to_owned(),
                scope: "unavailable filesystem".to_owned(),
            },
        },
    }
}

/// What became of the question who owns the workspace.
pub enum Ownership {
    NoWorkspace,
    NoState,
    StateUninspectable(String),
    Released,
    Held(String),
}

pub open spec fn owner_check(ownership: Ownership) -> Checked {
    match ownership {
        Ownership::NoWorkspace => blocked(
            "session ownership"@,
            "not checked because the workspace location is unavailable"@,
            "Choose a workspace below an existing writable local directory, then rerun doctor."@,
        ),
        Ownership::NoState => fine(
            "session ownership"@,
            "no existing session owns the workspace"@,
        ),
        Ownership::StateUninspectable(error) => blocked(
            "session ownership"@,
            "cannot inspect existing session state safely: "@ + error@,
            "Make the existing state accessible or choose another workspace, then rerun doctor."@,
        ),
        Ownership::Released => fine(
            "session ownership"@,
            "the existing workspace is not owned by a live session"@,
        ),
        Ownership::Held(error) => blocked(
            "session ownership"@,
            "a live session may own the workspace, or its state is unsafe: "@ + error@,
            "Close the live Rustrace session or choose another workspace, then rerun doctor."@,
        ),
    }
}

pub fn session_ownership_check(ownership: &Ownership) -> (r: Check)
    ensures
        r.view() == owner_check(*ownership),
{
    match ownership {
        Ownership::NoWorkspace => Check::blocker(
            "session ownership",
            "not checked because the workspace location is unavailable".to_owned(),
            "Choose a workspace below an existing writable local directory, then rerun doctor.".to_owned(),
        ),
        Ownership::NoState => Check::ok(
            "session ownership",
            "no existing session owns the workspace".to_owned(),
        ),
        Ownership::StateUninspectable(error) => Check::blocker(
            "session ownership",
            text::cat2("cannot inspect existing session state safely: ", error.as_str()),
            "Make the existing state accessible or choose another workspace, then rerun doctor.".to_owned(),
        ),
        Ownership::Released => Check::ok(
            "session ownership",
            "the existing workspace is not owned by a live session".to_owned(),
        ),
        Ownership::Held(error) => Check::blocker(
            "session ownership",
            text::cat2("a live session may own the workspace, or its state is unsafe: ", error.as_str()),
            "Close the live Rustrace session or choose another workspace, then rerun doctor.".to_owned(),
        ),
    }
}

// The starter package.

/// What kind of error a package gave.
#[derive(Clone, Copy, Debug, PartialEq, Eq, Structural)]
pub enum PackageFailure {
    Structure,
    Archive,
    Io,
    Other,
}

/// What helps against an error of a package. `causes` tells of each error
/// behind it whether it is one of input and output.
pub open spec fn remedy_for(failure: PackageFailure, causes: Seq<bool>, parent: Seq<char>) -> Seq<char> {
    match failure {
        PackageFailure::Structure => "Ask the course staff for a repackaged assignment whose starter Cargo.toml declares an empty [workspace] table, then re-download."@,
        PackageFailure::Archive | PackageFailure::Io => "Make assignment.rta readable and its directory writable, then rerun doctor."@,
        PackageFailure::Other => if causes.contains(true) {
            "Make the workspace parent "@ + parent + " writable, then rerun doctor."@
        } else {
            "Re-download assignment.rta from the course source, then rerun doctor."@
        },
    }
}

fn holds_true(flags: &Vec<bool>) -> (r: bool)
    ensures
        r == flags@.contains(true),
{
    let mut i: usize = 0;
    while i < flags.len()
        invariant
            i <= flags@.len(),
            forall|j: int| 0 <= j < i ==> !(#[trigger] flags@[j]),
        decreases flags@.len() - i,
    {
        if flags[i] {
            assert(flags@[i as int]);
            return true;
        }
        i += 1;
    }
    false
}

pub fn starter_package_remedy(failure: PackageFailure, causes: &Vec<bool>, parent: &str) -> (r: String)
    ensures
        r@ == remedy_for(failure, causes@, parent@),
{
    match failure {
        PackageFailure::Structure => "Ask the course staff for a repackaged assignment whose starter Cargo.toml declares an empty [workspace] table, then re-download.".to_owned(),
        PackageFailure::Archive | PackageFailure::Io => "Make assignment.rta readable and its directory writable, then rerun doctor.".to_owned(),
        PackageFailure::Other => {
            if holds_true(causes) {
                text::cat3("Make the workspace parent ", parent, " writable, then rerun doctor.")
            } else {
                "Re-download assignment.rta from the course source, then rerun doctor.".to_owned()
            }
        },
    }
}

/// What became of the package: it could not be tried, it was unpacked with so
/// many files, or it failed.
pub enum Starter {
    NoScratch,
    Extracted(u64),
    Failed { error: String, failure: PackageFailure, causes: Vec<bool>, parent: String },
}

/// A temporary directory that could not be removed.
pub struct LeftBehind {
    pub error: String,
    pub path: String,
}

pub open spec fn starter_check(starter: Starter, left: Option<LeftBehind>) -> Checked {
    match left {
        Some(l) => blocked(
            "starter package"@,
            "scratch cleanup failed after validation: "@ + l.error@,
            "Remove the temporary directory "@ + l.path@ + ", then rerun doctor."@,
        ),
        None => match starter {
            Starter::NoScratch => blocked(
                "starter package"@,
                "not checked because no safe scratch location is available"@,
                "Move the package beside an existing writable local directory, then rerun doctor."@,
            ),
            Starter::Extracted(files) => fine(
                "starter package"@,
                "self-contained package: manifest and "@ + text::decimal(files as nat)
                    + " starter files validated and extracted safely"@,
            ),
            Starter::Failed { error, failure, causes, parent } => blocked(
                "starter package"@,
                "validation failed: "@ + error@,
                remedy_for(failure, causes@, parent@),
            ),
        },
    }
}

pub fn check_starter(starter: &Starter, left: &Option<LeftBehind>) -> (r: Check)
    ensures
        r.view() == starter_check(*starter, *left),
{
    match left {
        Some(l) => {
            return Check::blocker(
                "starter package",
                text::cat2("scratch cleanup failed after validation: ", l.error.as_str()),
                text::cat3(
                    "Remove the temporary directory ",
                    l.path.as_str(),
                    ", then rerun doctor.",
                ),
            );
        },
        None => {},
    }
    match starter {
        Starter::NoScratch => Check::blocker(
            "starter package",
            "not checked because no safe scratch location is available".to_owned(),
            "Move the package beside an existing writable local directory, then rerun doctor.".to_owned(),
        ),
        Starter::Extracted(files) => {
            let n = text::write_decimal(*files);
            Check::ok(
                "starter package",
                text::cat3(
                    "self-contained package: manifest and ",
                    n.as_str(),
                    " starter files validated and extracted safely",
                ),
            )
        },
        Starter::Failed { error, failure, causes, parent } => Check::blocker(
            "starter package",
            text::cat2("validation failed: ", error.as_str()),
            starter_package_remedy(*failure, causes, parent.as_str()),
        ),
    }
}

// The file system.

/// What a session may store, and what of it is kept in reserve.
#[derive(Clone, Copy, Debug, PartialEq, Eq, Structural)]
pub struct StorageBudgets {
    pub storage_bytes: u64,
    pub reserve_bytes: u64,
}

/// What trying the file system came to: whether the scratch directory is on it,
/// and what its operations gave.
pub enum FileSystemTrial {
    Elsewhere,
    Unidentified(String),
    Failed(String),
    Passed,
}

pub open spec fn trial_check(trial: FileSystemTrial, scope: Seq<char>) -> Checked {
    match trial {
        FileSystemTrial::Elsewhere => doubtful(
            "filesystem capabilities"@,
            scope + " has no safe sibling scratch location; atomic operations and host-name collision rejection are checked at session start, not by doctor"@,
            "Rerun doctor after choosing a workspace below a directory on the target filesystem."@,
        ),
        FileSystemTrial::Unidentified(error) => blocked(
            "filesystem capabilities"@,
            "cannot identify "@ + scope + " safely: "@ + error@,
            "Move the workspace to a supported local filesystem, then rerun doctor."@,
        ),
        FileSystemTrial::Failed(error) => blocked(
            "filesystem capabilities"@,
            "required checks on "@ + scope + " failed: "@ + error@,
            "Move the workspace to a supported local filesystem, then rerun doctor."@,
        ),
        FileSystemTrial::Passed => fine(
            "filesystem capabilities"@,
            "safe extraction, pinned traversal, atomic save/rename/remove, exclusive creation, and cooperative locking passed on "@ + scope + "; host-name collision rejection is checked at session start, not by doctor"@,
        ),
    }
}

pub fn filesystem_capability_check(trial: &FileSystemTrial, scope: &str) -> (r: Check)
    ensures
        r.view() == trial_check(*trial, scope@),
{
    match trial {
        FileSystemTrial::Elsewhere => Check::warning(
            "filesystem capabilities",
            text::cat2(scope, " has no safe sibling scratch location; atomic operations and host-name collision rejection are checked at session start, not by doctor"),
            "Rerun doctor after choosing a workspace below a directory on the target filesystem.".to_owned(),
        ),
        FileSystemTrial::Unidentified(error) => Check::blocker(
            "filesystem capabilities",
            text::cat4("cannot identify ", scope, " safely: ", error.as_str()),
            "Move the workspace to a supported local filesystem, then rerun doctor.".to_owned(),
        ),
        FileSystemTrial::Failed(error) => Check::blocker(
            "filesystem capabilities",
            text::cat4("required checks on ", scope, " failed: ", error.as_str()),
            "Move the workspace to a supported local filesystem, then rerun doctor.".to_owned(),
        ),
        FileSystemTrial::Passed => Check::ok(
            "filesystem capabilities",
            text::cat3("safe extraction, pinned traversal, atomic save/rename/remove, exclusive creation, and cooperative locking passed on ", scope, "; host-name collision rejection is checked at session start, not by doctor"),
        ),
    }
}

pub open spec fn mib(bytes: int) -> Seq<char> {
    text::decimal((bytes / MEBIBYTE as int) as nat)
}

pub fn mebibytes(bytes: u64) -> (r: u64)
    ensures
        r == bytes / MEBIBYTE,
{
    bytes / MEBIBYTE
}

pub open spec fn room_text(available: u64, scope: Seq<char>, b: StorageBudgets) -> Seq<char> {
    mib(available as int) + " MiB available on "@ + scope + "; "@ + mib(b.storage_bytes as int)
        + " MiB cumulative session budget required"@
}

pub open spec fn disk_check(available: Result<u64, String>, scope: Seq<char>, b: StorageBudgets) -> Checked {
    match available {
        Ok(n) => if n >= b.storage_bytes {
            fine("disk space"@, room_text(n, scope, b))
        } else {
            blocked(
                "disk space"@,
                room_text(n, scope, b),
                "Free local disk space or choose another local workspace, then rerun doctor."@,
            )
        },
        Err(error) => blocked(
            "disk space"@,
            "available storage on "@ + scope + " could not be measured safely: "@ + error@,
            "Use a supported local filesystem and rerun doctor."@,
        ),
    }
}

pub open spec fn usable(b: StorageBudgets) -> int {
    if b.storage_bytes >= b.reserve_bytes {
        b.storage_bytes - b.reserve_bytes
    } else {
        0
    }
}

pub open spec fn headroom_check(available: Result<u64, String>, scope: Seq<char>, b: StorageBudgets) -> Checked {
    match available {
        Ok(n) => if n >= b.storage_bytes {
            fine(
                "cumulative storage headroom"@,
                scope + " has "@ + mib(usable(b)) + " MiB usable before the hard cap with "@ + mib(
                    b.reserve_bytes as int,
                ) + " MiB reserved"@,
            )
        } else {
            blocked(
                "cumulative storage headroom"@,
                scope + " cannot fit the full session budget and recovery reserve"@,
                "Free enough local space for the 2048 MiB session budget, then rerun doctor."@,
            )
        },
        Err(_) => blocked(
            "cumulative storage headroom"@,
            "headroom on "@ + scope + " is unavailable"@,
            "Move the workspace to a supported local filesystem, then rerun doctor."@,
        ),
    }
}

/// The checks of disk space, of the file system, and of the headroom.
pub fn filesystem_checks(
    trial: &FileSystemTrial,
    available: &Result<u64, String>,
    scope: &str,
    budgets: StorageBudgets,
) -> (r: (Check, Check, Check))
    ensures
        r.0.view() == disk_check(*available, scope@, budgets),
        r.1.view() == trial_check(*trial, scope@),
        r.2.view() == headroom_check(*available, scope@, budgets),
{
    let filesystem = filesystem_capability_check(trial, scope);
    match available {
        Ok(n) => {
            let have = text::write_decimal(mebibytes(*n));
            let want = text::write_decimal(mebibytes(budgets.storage_bytes));
            let detail = text::cat5(
                have.as_str(),
                " MiB available on ",
                scope,
                "; ",
                text::cat2(want.as_str(), " MiB cumulative session budget required").as_str(),
            );
            assert(detail@ =~= room_text(*n, scope@, budgets));
            if *n >= budgets.storage_bytes {
                let left: u64 = if budgets.storage_bytes >= budgets.reserve_bytes {
                    budgets.storage_bytes - budgets.reserve_bytes
                } else {
                    0
                };
                let free = text::write_decimal(mebibytes(left));
                let kept = text::write_decimal(mebibytes(budgets.reserve_bytes));
                (
                    Check::ok("disk space", detail),
                    filesystem,
                    Check::ok(
                        "cumulative storage headroom",
                        text::cat6(
                            scope,
                            " has ",
                            free.as_str(),
                            " MiB usable before the hard cap with ",
                            kept.as_str(),
                            " MiB reserved",
                        ),
                    ),
                )
            } else {
                (
                    Check::blocker(
                        "disk space",
                        detail,
                        "Free local disk space or choose another local workspace, then rerun doctor.".to_owned(),
                    ),
                    filesystem,
                    Check::blocker(
                        "cumulative storage headroom",
                        text::cat2(scope, " cannot fit the full session budget and recovery reserve"),
                        "Free enough local space for the 2048 MiB session budget, then rerun doctor.".to_owned(),
                    ),
                )
            }
        },
        Err(error) => (
            Check::blocker(
                "disk space",
                text::cat4(
                    "available storage on ",
                    scope,
                    " could not be measured safely: ",
                    error.as_str(),
                ),
                "Use a supported local filesystem and rerun doctor.".to_owned(),
            ),
            filesystem,
            Check::blocker(
                "cumulative storage headroom",
                text::cat3("headroom on ", scope, " is unavailable"),
                "Move the workspace to a supported local filesystem, then rerun doctor.".to_owned(),
            ),
        ),
    }
}

/// The bytes that a file system has to give: blocks of a size, as far as the
/// number can be held.
pub fn storage_bytes(blocks: u64, block_size: u64) -> (r: u64)
    ensures
        r == if blocks * block_size <= u64::MAX {
            blocks * block_size
        } else {
            u64::MAX as int
        },
{
    let product: u128 = blocks as u128;
    assert(blocks * block_size <= u64::MAX * u64::MAX) by (nonlinear_arith)
        requires
            blocks <= u64::MAX,
            block_size <= u64::MAX,
    ;
    assert(0 <= blocks * block_size) by (nonlinear_arith);
    let product: u128 = product * block_size as u128;
    if product > u64::MAX as u128 {
        u64::MAX
    } else {
        product as u64
    }
}

// The tools.

/// Whether a tool was found: it was looked for, and every look found it.
pub open spec fn is_available(probes: Seq<ToolProbe>, component: Seq<char>) -> bool {
    &&& exists|i: int| 0 <= i < probes.len() && (#[trigger] probes[i]).component@ == component
    &&& forall|i: int|
        0 <= i < probes.len() && (#[trigger] probes[i]).component@ == component ==> probes[i].status
            == ProbeStatus::Available
}

pub fn component_available(report: &ToolchainReport, component: &str) -> (r: bool)
    ensures
        r == is_available(report.probes@, component@),
{
    let probes = &report.probes;
    let mut seen = false;
    let mut i: usize = 0;
    while i < probes.len()
        invariant
            i <= probes@.len(),
            probes == &report.probes,
            seen == exists|j: int| 0 <= j < i && (#[trigger] probes@[j]).component@ == component@,
            forall|j: int|
                0 <= j < i && (#[trigger] probes@[j]).component@ == component@ ==> probes@[j].status
                    == ProbeStatus::Available,
        decreases probes@.len() - i,
    {
        if text::str_eq(probes[i].component.as_str(), component) {
            assert(probes@[i as int].component@ == component@);
            if probes[i].status != ProbeStatus::Available {
                return false;
            }
            seen = true;
        }
        i += 1;
    }
    seen
}

pub open spec fn version_in(versions: Seq<ToolVersion>, component: Seq<char>, from: nat) -> Option<Seq<char>>
    decreases versions.len() - from,
{
    if from >= versions.len() {
        None
    } else if versions[from as int].component@ == component {
        Some(versions[from as int].version@)
    } else {
        version_in(versions, component, from + 1)
    }
}

pub open spec fn version_text(report: ToolchainReport, component: Seq<char>) -> Seq<char> {
    match version_in(report.versions@, component, 0) {
        Some(v) => v,
        None => "installed and available"@,
    }
}

pub fn component_version(report: &ToolchainReport, component: &str) -> (r: String)
    ensures
        r@ == version_text(*report, component@),
{
    let versions = &report.versions;
    let mut i: usize = 0;
    while i < versions.len()
        invariant
            i <= versions@.len(),
            versions == &report.versions,
            version_in(versions@, component@, 0) == version_in(versions@, component@, i as nat),
        decreases versions@.len() - i,
    {
        if text::str_eq(versions[i].component.as_str(), component) {
            return versions[i].version.clone();
        }
        i += 1;
    }
    "installed and available".to_owned()
}

/// The first line that is not blank, without the space around it.
pub open spec fn first_words(lines: Seq<Seq<char>>, from: nat) -> Seq<char>
    decreases lines.len() - from,
{
    if from >= lines.len() {
        Seq::empty()
    } else if text::trimmed(lines[from as int]).len() > 0 {
        text::trimmed(lines[from as int])
    } else {
        first_words(lines, from + 1)
    }
}

/// Why a look failed, in brackets.
pub open spec fn reason_of(stderr: Seq<char>) -> Seq<char> {
    let line = first_words(text::lines(stderr), 0);
    let shown = display::label_of(line, 512);
    if line.len() == 0 || shown.len() == 0 {
        Seq::empty()
    } else {
        " ("@ + shown + ")"@
    }
}

fn write_reason(stderr: &str) -> (r: String)
    ensures
        r@ == reason_of(stderr@),
{
    let lines = text::split_lines(stderr);
    let ghost all = text::lines(stderr@);
    let mut i: usize = 0;
    while i < lines.len()
        invariant
            i <= lines@.len(),
            text::texts(lines@) == all,
            all == text::lines(stderr@),
            first_words(all, 0) == first_words(all, i as nat),
        decreases lines@.len() - i,
    {
        assert(all[i as int] == lines@[i as int]@);
        let line = text::trim(lines[i].as_str());
        let chars = text::chars_of(line.as_str());
        if chars.len() > 0 {
            let shown = display::label(line.as_str(), 512);
            let shown_chars = text::chars_of(shown.as_str());
            if shown_chars.len() == 0 {
                return String::new();
            }
            return text::cat3(" (", shown.as_str(), ")");
        }
        i += 1;
    }
    String::new()
}

pub open spec fn outcome_word(status: ProbeStatus) -> Seq<char> {
    match status {
        ProbeStatus::Available => "succeeded"@,
        ProbeStatus::NotFound => "found no executable"@,
        ProbeStatus::Failed => "failed"@,
        ProbeStatus::TimedOut => "timed out"@,
        ProbeStatus::InvalidOutput => "returned unusable output"@,
    }
}

/// What went wrong with a tool: the first look that did not find it.
pub open spec fn failure_in(probes: Seq<ToolProbe>, component: Seq<char>, from: nat) -> Seq<char>
    decreases probes.len() - from,
{
    if from >= probes.len() {
        "not checked because a required earlier probe failed"@
    } else {
        let p = probes[from as int];
        if p.component@ == component && p.status != ProbeStatus::Available {
            p.purpose@ + " probe "@ + outcome_word(p.status) + reason_of(p.stderr@)
        } else {
            failure_in(probes, component, from + 1)
        }
    }
}

pub fn component_failure(report: &ToolchainReport, component: &str) -> (r: String)
    ensures
        r@ == failure_in(report.probes@, component@, 0),
{
    let probes = &report.probes;
    let mut i: usize = 0;
    while i < probes.len()
        invariant
            i <= probes@.len(),
            probes == &report.probes,
            failure_in(probes@, component@, 0) == failure_in(probes@, component@, i as nat),
        decreases probes@.len() - i,
    {
        let p = &probes[i];
        if text::str_eq(p.component.as_str(), component) && p.status != ProbeStatus::Available {
            let word = match p.status {
                ProbeStatus::Available => "succeeded",
                ProbeStatus::NotFound => "found no executable",
                ProbeStatus::Failed => "failed",
                ProbeStatus::TimedOut => "timed out",
                ProbeStatus::InvalidOutput => "returned unusable output",
            };
            let reason = write_reason(p.stderr.as_str());
            return text::cat4(p.purpose.as_str(), " probe ", word, reason.as_str());
        }
        i += 1;
    }
    "not checked because a required earlier probe failed".to_owned()
}

pub open spec fn component_check(
    report: ToolchainReport,
    component: Seq<char>,
    name: Seq<char>,
    remedy: Seq<char>,
    required: bool,
) -> Checked {
    if is_available(report.probes@, component) {
        fine(name, version_text(report, component))
    } else if required {
        blocked(name, failure_in(report.probes@, component, 0), remedy)
    } else {
        doubtful(name, failure_in(report.probes@, component, 0), remedy)
    }
}

fn check_component(
    report: &ToolchainReport,
    component: &str,
    name: &'static str,
    remedy: String,
    required: bool,
) -> (r: Check)
    ensures
        r.view() == component_check(*report, component@, name@, remedy@, required),
{
    if component_available(report, component) {
        Check::ok(name, component_version(report, component))
    } else if required {
        Check::blocker(name, component_failure(report, component), remedy)
    } else {
        Check::warning(name, component_failure(report, component), remedy)
    }
}

/// The toolchain of an assignment is ready where it and its compiler were found
/// and one is selected.
pub open spec fn toolchain_check(report: ToolchainReport, pin: Seq<char>) -> Checked {
    match report.selected_toolchain {
        Some(selected) => if is_available(report.probes@, "toolchain"@) && is_available(
            report.probes@,
            "rustc"@,
        ) {
            fine(
                "assignment toolchain"@,
                selected@ + " is installed and selected without auto-install"@,
            )
        } else {
            toolchain_missing(report, pin)
        },
        None => toolchain_missing(report, pin),
    }
}

pub open spec fn toolchain_missing(report: ToolchainReport, pin: Seq<char>) -> Checked {
    blocked(
        "assignment toolchain"@,
        failure_in(report.probes@, "toolchain"@, 0),
        "Run rustup toolchain install "@ + pin + ", then rerun doctor."@,
    )
}

pub fn assignment_toolchain_check(report: &ToolchainReport, pin: &str) -> (r: Check)
    ensures
        r.view() == toolchain_check(*report, pin@),
{
    match &report.selected_toolchain {
        Some(selected) => {
            if component_available(report, "toolchain") && component_available(report, "rustc") {
                return Check::ok(
                    "assignment toolchain",
                    text::cat2(
                        selected.as_str(),
                        " is installed and selected without auto-install",
                    ),
                );
            }
        },
        None => {},
    }
    Check::blocker(
        "assignment toolchain",
        component_failure(report, "toolchain"),
        text::cat3("Run rustup toolchain install ", pin, ", then rerun doctor."),
    )
}

pub open spec fn unchecked_tool(name: Seq<char>) -> Checked {
    blocked(
        name,
        "not checked because the assignment manifest is unavailable"@,
        "Fix the starter package, then rerun doctor."@,
    )
}

pub open spec fn unchecked_help(name: Seq<char>, remedy: Seq<char>) -> Checked {
    doubtful(name, "not checked because the assignment manifest is unavailable"@, remedy)
}

/// The checks of the tools: the required ones block, the optional ones warn.
pub open spec fn tools_of(report: Option<ToolchainReport>, pin: Option<Seq<char>>) -> Seq<Checked> {
    let named = match pin {
        Some(p) => p,
        None => "the assignment toolchain"@,
    };
    match report {
        None => seq![
            unchecked_tool("rustup"@),
            unchecked_tool("assignment toolchain"@),
            unchecked_tool("Cargo"@),
            unchecked_help("rustfmt"@, "Run rustup component add rustfmt, then rerun doctor."@),
            unchecked_help("Clippy"@, "Run rustup component add clippy, then rerun doctor."@),
            unchecked_help(
                "rust-analyzer"@,
                "Run rustup component add rust-analyzer, then rerun doctor."@,
            ),
        ],
        Some(r) => seq![
            component_check(
                r,
                "rustup"@,
                "rustup"@,
                "Install or repair rustup from https://rustup.rs, then rerun doctor."@,
                true,
            ),
            toolchain_check(r, named),
            component_check(
                r,
                "cargo"@,
                "Cargo"@,
                "Repair the installed "@ + named + " toolchain, then rerun doctor."@,
                true,
            ),
            component_check(
                r,
                "rustfmt"@,
                "rustfmt"@,
                "Run rustup component add rustfmt, then rerun doctor."@,
                false,
            ),
            component_check(
                r,
                "clippy"@,
                "Clippy"@,
                "Run rustup component add clippy, then rerun doctor."@,
                false,
            ),
            component_check(
                r,
                "rust-analyzer"@,
                "rust-analyzer"@,
                "Run rustup component add rust-analyzer, then rerun doctor."@,
                false,
            ),
        ],
    }
}

fn dependent_tool_blocker(name: &'static str) -> (r: Check)
    ensures
        r.view() == unchecked_tool(name@),
{
    Check::blocker(
        name,
        "not checked because the assignment manifest is unavailable".to_owned(),
        "Fix the starter package, then rerun doctor.".to_owned(),
    )
}

fn dependent_tool_warning(name: &'static str, remedy: &'static str) -> (r: Check)
    ensures
        r.view() == unchecked_help(name@, remedy@),
{
    Check::warning(
        name,
        "not checked because the assignment manifest is unavailable".to_owned(),
        remedy.to_owned(),
    )
}

fn add_check(out: &mut Vec<Check>, check: Check)
    ensures
        checks_view(final(out)@) == checks_view(old(out)@).push(check.view()),
{
    let ghost before = out@;
    out.push(check);
    assert(checks_view(out@) =~= checks_view(before).push(check.view()));
}

pub fn tool_checks(report: Option<&ToolchainReport>, pin: Option<&str>) -> (out: Vec<Check>)
    ensures
        checks_view(out@) == tools_of(
            match report {
                Some(r) => Some(*r),
                None => None,
            },
            ghostty::opt_str(pin),
        ),
{
    let named: &str = match pin {
        Some(p) => p,
        None => "the assignment toolchain",
    };
    let mut out: Vec<Check> = Vec::new();
    match report {
        None => {
            add_check(&mut out, dependent_tool_blocker("rustup"));
            add_check(&mut out, dependent_tool_blocker("assignment toolchain"));
            add_check(&mut out, dependent_tool_blocker("Cargo"));
            add_check(
                &mut out,
                dependent_tool_warning(
                    "rustfmt",
                    "Run rustup component add rustfmt, then rerun doctor.",
                ),
            );
            add_check(
                &mut out,
                dependent_tool_warning("Clippy", "Run rustup component add clippy, then rerun doctor."),
            );
            add_check(
                &mut out,
                dependent_tool_warning(
                    "rust-analyzer",
                    "Run rustup component add rust-analyzer, then rerun doctor.",
                ),
            );
        },
        Some(r) => {
            add_check(
                &mut out,
                check_component(
                    r,
                    "rustup",
                    "rustup",
                    "Install or repair rustup from https://rustup.rs, then rerun doctor.".to_owned(),
                    true,
                ),
            );
            add_check(&mut out, assignment_toolchain_check(r, named));
            add_check(
                &mut out,
                check_component(
                    r,
                    "cargo",
                    "Cargo",
                    text::cat3("Repair the installed ", named, " toolchain, then rerun doctor."),
                    true,
                ),
            );
            add_check(
                &mut out,
                check_component(
                    r,
                    "rustfmt",
                    "rustfmt",
                    "Run rustup component add rustfmt, then rerun doctor.".to_owned(),
                    false,
                ),
            );
            add_check(
                &mut out,
                check_component(
                    r,
                    "clippy",
                    "Clippy",
                    "Run rustup component add clippy, then rerun doctor.".to_owned(),
                    false,
                ),
            );
            add_check(
                &mut out,
                check_component(
                    r,
                    "rust-analyzer",
                    "rust-analyzer",
                    "Run rustup component add rust-analyzer, then rerun doctor.".to_owned(),
                    false,
                ),
            );
        },
    }
    assert(checks_view(out@) =~= tools_of(
        match report {
            Some(r) => Some(*r),
            None => None,
        },
        ghostty::opt_str(pin),
    ));
    out
}

// The terminal.

/// What is known of the terminal. Without one, nothing is checked.
pub enum Terminal {
    Absent,
    Unmeasured(String),
    Sized { columns: u16, rows: u16, term: String, colorterm: bool },
}

pub open spec fn known_terminal(term: Seq<char>) -> bool {
    ||| text::lowered_holds(term, "ansi"@)
    ||| text::lowered_holds(term, "color"@)
    ||| text::lowered_holds(term, "konsole"@)
    ||| text::lowered_holds(term, "linux"@)
    ||| text::lowered_holds(term, "screen"@)
    ||| text::lowered_holds(term, "tmux"@)
    ||| text::lowered_holds(term, "vt100"@)
    ||| text::lowered_holds(term, "xterm"@)
}

pub fn recognizable_terminal(term: &str) -> (r: bool)
    ensures
        r == known_terminal(term@),
{
    text::holds_lowered(term, "ansi") || text::holds_lowered(term, "color") || text::holds_lowered(
        term,
        "konsole",
    ) || text::holds_lowered(term, "linux") || text::holds_lowered(term, "screen")
        || text::holds_lowered(term, "tmux") || text::holds_lowered(term, "vt100")
        || text::holds_lowered(term, "xterm")
}

pub open spec fn size_text(columns: u16, rows: u16) -> Seq<char> {
    text::decimal(columns as nat) + "x"@ + text::decimal(rows as nat)
}

pub open spec fn screen_check(terminal: Terminal) -> Checked {
    match terminal {
        Terminal::Absent => fine("terminal"@, "not checked (no TTY attached)"@),
        Terminal::Unmeasured(error) => blocked(
            "terminal"@,
            "terminal size is unavailable: "@ + error@,
            "Use a supported interactive terminal and rerun doctor."@,
        ),
        Terminal::Sized { columns, rows, term, colorterm } => if columns < MINIMUM_COLUMNS || rows
            < MINIMUM_ROWS {
            blocked(
                "terminal"@,
                size_text(columns, rows) + " attached; at least 80x24 required"@,
                "Resize the terminal to at least 80 columns by 24 rows, then rerun doctor."@,
            )
        } else if term@ == "dumb"@ {
            blocked(
                "terminal"@,
                size_text(columns, rows)
                    + " attached, but TERM=dumb has no required color or paste support"@,
                "Use a supported ANSI terminal with bracketed paste, then rerun doctor."@,
            )
        } else if known_terminal(term@) || colorterm {
            fine(
                "terminal"@,
                size_text(columns, rows) + "; color and bracketed-paste support detected from TERM="@
                    + term@,
            )
        } else {
            doubtful(
                "terminal"@,
                size_text(columns, rows)
                    + "; color and bracketed-paste support could not be detected"@,
                "Use Terminal.app, iTerm2, a mainstream Linux terminal, or Windows Terminal with WSL 2."@,
            )
        },
    }
}

pub fn terminal_check(terminal: &Terminal) -> (r: Check)
    ensures
        r.view() == screen_check(*terminal),
{
    match terminal {
        Terminal::Absent => Check::ok("terminal", "not checked (no TTY attached)".to_owned()),
        Terminal::Unmeasured(error) => Check::blocker(
            "terminal",
            text::cat2("terminal size is unavailable: ", error.as_str()),
            "Use a supported interactive terminal and rerun doctor.".to_owned(),
        ),
        Terminal::Sized { columns, rows, term, colorterm } => {
            let c = text::write_decimal(*columns as u64);
            let w = text::write_decimal(*rows as u64);
            let size = text::cat3(c.as_str(), "x", w.as_str());
            if *columns < MINIMUM_COLUMNS || *rows < MINIMUM_ROWS {
                Check::blocker(
                    "terminal",
                    text::cat2(size.as_str(), " attached; at least 80x24 required"),
                    "Resize the terminal to at least 80 columns by 24 rows, then rerun doctor.".to_owned(),
                )
            } else if text::str_eq(term.as_str(), "dumb") {
                Check::blocker(
                    "terminal",
                    text::cat2(
                        size.as_str(),
                        " attached, but TERM=dumb has no required color or paste support",
                    ),
                    "Use a supported ANSI terminal with bracketed paste, then rerun doctor.".to_owned(),
                )
            } else if recognizable_terminal(term.as_str()) || *colorterm {
                Check::ok(
                    "terminal",
                    text::cat3(
                        size.as_str(),
                        "; color and bracketed-paste support detected from TERM=",
                        term.as_str(),
                    ),
                )
            } else {
                Check::warning(
                    "terminal",
                    text::cat2(
                        size.as_str(),
                        "; color and bracketed-paste support could not be detected",
                    ),
                    "Use Terminal.app, iTerm2, a mainstream Linux terminal, or Windows Terminal with WSL 2.".to_owned(),
                )
            }
        },
    }
}

// The theme.

/// One color of the theme, and the built-in theme that it comes from, if it does.
pub struct ThemeColor {
    pub field: String,
    pub color: String,
    pub built_in: Option<String>,
}

/// Where a color comes from, in words.
pub open spec fn source_of(built_in: Option<Seq<char>>) -> Seq<char> {
    match built_in {
        Some(name) => name + " built-in"@,
        None => "custom"@,
    }
}

pub fn color_source(built_in: &Option<String>) -> (r: String)
    ensures
        r@ == source_of(crate::environment::opt_string(*built_in)),
{
    match built_in {
        Some(name) => text::cat2(name.as_str(), " built-in"),
        None => "custom".to_owned(),
    }
}

/// The theme that is in force.
pub struct Theme {
    pub name: String,
    pub auto_switch: bool,
    pub warning: Option<String>,
    pub colors: Vec<ThemeColor>,
}

pub open spec fn theme_check_of(theme: Theme) -> Checked {
    match theme.warning {
        Some(warning) => doubtful(
            "theme"@,
            warning@ + "; effective "@ + theme.name@,
            "Fix ~/.config/rustrace/config.toml, then rerun doctor."@,
        ),
        None => fine(
            "theme"@,
            "effective "@ + theme.name@ + "; auto_switch = "@ + (if theme.auto_switch {
                "true"@
            } else {
                "false"@
            }),
        ),
    }
}

pub fn theme_check(theme: &Theme) -> (r: Check)
    ensures
        r.view() == theme_check_of(*theme),
{
    match &theme.warning {
        Some(warning) => Check::warning(
            "theme",
            text::cat3(warning.as_str(), "; effective ", theme.name.as_str()),
            "Fix ~/.config/rustrace/config.toml, then rerun doctor.".to_owned(),
        ),
        None => Check::ok(
            "theme",
            text::cat4(
                "effective ",
                theme.name.as_str(),
                "; auto_switch = ",
                if theme.auto_switch {
                    "true"
                } else {
                    "false"
                },
            ),
        ),
    }
}

// All checks.

/// What was found where the package could be unpacked.
pub struct Unpacked {
    pub trial: FileSystemTrial,
    pub available: Result<u64, String>,
    pub report: ToolchainReport,
    pub pin: String,
}

/// Everything that the checks are made from.
pub struct DoctorFacts {
    pub terminal: Terminal,
    pub theme: Theme,
    pub place: WorkspacePlace,
    pub look: WorkspaceLook,
    pub ownership: Ownership,
    pub starter: Starter,
    pub left: Option<LeftBehind>,
    pub scope: String,
    pub budgets: StorageBudgets,
    pub unpacked: Option<Unpacked>,
}

pub open spec fn workspace_check_of(f: DoctorFacts) -> Checked {
    match f.place {
        WorkspacePlace::Found(path) => look_check(path@, f.look),
        _ => place_check(f.place),
    }
}

pub open spec fn ownership_of(f: DoctorFacts) -> Checked {
    match f.place {
        WorkspacePlace::Found(_) => owner_check(f.ownership),
        _ => owner_check(Ownership::NoWorkspace),
    }
}

pub open spec fn storage_of(f: DoctorFacts) -> (Checked, Checked, Checked) {
    match f.unpacked {
        Some(u) => (
            disk_check(u.available, f.scope@, f.budgets),
            trial_check(u.trial, f.scope@),
            headroom_check(u.available, f.scope@, f.budgets),
        ),
        None => (
            blocked(
                "disk space"@,
                "not checked because the starter could not be extracted"@,
                "Fix the starter package or workspace location, then rerun doctor."@,
            ),
            blocked(
                "filesystem capabilities"@,
                "not checked because the starter could not be extracted"@,
                "Use a supported local filesystem and rerun doctor with a valid package."@,
            ),
            blocked(
                "cumulative storage headroom"@,
                "not checked because available local storage could not be measured"@,
                "Fix the starter package or workspace location, then rerun doctor."@,
            ),
        ),
    }
}

pub open spec fn tools_found(f: DoctorFacts) -> Seq<Checked> {
    match f.unpacked {
        Some(u) => tools_of(Some(u.report), Some(u.pin@)),
        None => tools_of(None, None),
    }
}

/// The checks in the order in which they are reported.
pub open spec fn all_checks(f: DoctorFacts) -> Seq<Checked> {
    seq![screen_check(f.terminal), theme_check_of(f.theme), workspace_check_of(f), storage_of(f).0]
        + tools_found(f) + seq![
        starter_check(f.starter, f.left),
        ownership_of(f),
        storage_of(f).1,
        storage_of(f).2,
    ]
}

/// One where a check blocks, else zero.
pub open spec fn doctor_code(checks: Seq<Checked>) -> u8 {
    if level_count(checks, Level::Blocker) > 0 {
        1
    } else {
        0
    }
}

pub open spec fn level_count(checks: Seq<Checked>, level: Level) -> nat
    decreases checks.len(),
{
    if checks.len() == 0 {
        0
    } else {
        level_count(checks.drop_last(), level) + if checks.last().level == level {
            1nat
        } else {
            0nat
        }
    }
}

fn count_level(checks: &Vec<Check>, level: Level) -> (r: usize)
    ensures
        r == level_count(checks_view(checks@), level),
{
    let ghost all = checks_view(checks@);
    let mut n: usize = 0;
    let mut i: usize = 0;
    assert(all.take(0) =~= Seq::<Checked>::empty());
    while i < checks.len()
        invariant
            i <= checks.len(),
            all == checks_view(checks@),
            n <= i,
            n == level_count(all.take(i as int), level),
        decreases checks.len() - i,
    {
        proof {
            assert(all.take(i + 1).drop_last() =~= all.take(i as int));
            assert(all.take(i + 1).last() == checks@[i as int].view());
        }
        if checks[i].level == level {
            n += 1;
        }
        i += 1;
    }
    assert(all.take(all.len() as int) =~= all);
    n
}

fn unextracted() -> (r: (Check, Check, Check))
    ensures
        r.0.view() == blocked(
            "disk space"@,
            "not checked because the starter could not be extracted"@,
            "Fix the starter package or workspace location, then rerun doctor."@,
        ),
        r.1.view() == blocked(
            "filesystem capabilities"@,
            "not checked because the starter could not be extracted"@,
            "Use a supported local filesystem and rerun doctor with a valid package."@,
        ),
        r.2.view() == blocked(
            "cumulative storage headroom"@,
            "not checked because available local storage could not be measured"@,
            "Fix the starter package or workspace location, then rerun doctor."@,
        ),
{
    (
        Check::blocker(
            "disk space",
            "not checked because the starter could not be extracted".to_owned(),
            "Fix the starter package or workspace location, then rerun doctor.".to_owned(),
        ),
        Check::blocker(
            "filesystem capabilities",
            "not checked because the starter could not be extracted".to_owned(),
            "Use a supported local filesystem and rerun doctor with a valid package.".to_owned(),
        ),
        Check::blocker(
            "cumulative storage headroom",
            "not checked because available local storage could not be measured".to_owned(),
            "Fix the starter package or workspace location, then rerun doctor.".to_owned(),
        ),
    )
}

fn move_checks(out: &mut Vec<Check>, more: Vec<Check>)
    ensures
        checks_view(final(out)@) == checks_view(old(out)@) + checks_view(more@),
{
    let ghost before = out@;
    let mut more = more;
    let ghost given = more@;
    out.append(&mut more);
    assert(out@ =~= before + given);
    assert(checks_view(out@) =~= checks_view(before) + checks_view(given));
}

/// Makes all checks from what was found, and the exit code.
pub fn run_doctor(facts: &DoctorFacts) -> (r: (Vec<Check>, u8))
    ensures
        checks_view(r.0@) == all_checks(*facts),
        r.1 == doctor_code(all_checks(*facts)),
{
    let (workspace_check, ownership) = match &facts.place {
        WorkspacePlace::Found(path) => (
            writable_workspace_check(path.as_str(), &facts.look),
            session_ownership_check(&facts.ownership),
        ),
        _ => (
            resolve_workspace(&facts.place),
            session_ownership_check(&Ownership::NoWorkspace),
        ),
    };
    let starter = check_starter(&facts.starter, &facts.left);
    let (storage, tools) = match &facts.unpacked {
        Some(u) => (
            filesystem_checks(&u.trial, &u.available, facts.scope.as_str(), facts.budgets),
            tool_checks(Some(&u.report), Some(u.pin.as_str())),
        ),
        None => (unextracted(), tool_checks(None, None)),
    };
    let (disk, filesystem, cumulative) = storage;
    let mut checks: Vec<Check> = Vec::new();
    add_check(&mut checks, terminal_check(&facts.terminal));
    add_check(&mut checks, theme_check(&facts.theme));
    add_check(&mut checks, workspace_check);
    add_check(&mut checks, disk);
    move_checks(&mut checks, tools);
    add_check(&mut checks, starter);
    add_check(&mut checks, ownership);
    add_check(&mut checks, filesystem);
    add_check(&mut checks, cumulative);
    assert(checks_view(checks@) =~= all_checks(*facts));
    let code: u8 = if count_level(&checks, Level::Blocker) > 0 {
        1
    } else {
        0
    };
    (checks, code)
}

// The report.

pub open spec fn check_lines(c: Checked) -> Seq<Seq<char>> {
    let head = c.level.word() + " "@ + c.name + ": "@ + display::label_of(c.detail, 2048);
    match c.remedy {
        Some(remedy) => seq![head, "  Remedy: "@ + display::label_of(remedy, 2048)],
        None => seq![head],
    }
}

pub open spec fn checks_lines(checks: Seq<Checked>) -> Seq<Seq<char>>
    decreases checks.len(),
{
    if checks.len() == 0 {
        Seq::empty()
    } else {
        checks_lines(checks.drop_last()) + check_lines(checks.last())
    }
}

pub open spec fn color_line(c: ThemeColor) -> Seq<char> {
    "  "@ + c.field@ + " = "@ + c.color@ + " (source: "@ + source_of(
        crate::environment::opt_string(c.built_in),
    ) + ")"@
}

pub open spec fn color_lines(colors: Seq<ThemeColor>) -> Seq<Seq<char>> {
    Seq::new(colors.len(), |i: int| color_line(colors[i]))
}

pub open spec fn key_line(inspection: GhosttyInspection, i: int) -> Seq<char> {
    let status = inspection.bindings.statuses@[i];
    let plain = "  Ghostty key "@ + ghostty::key_of(i) + ": "@ + status.word();
    match inspection.actions@[i] {
        Some(action) => if status != GhosttyBindingStatus::Passed {
            plain + " ("@ + display::label_of(action@, 512) + ")"@
        } else {
            plain
        },
        None => plain,
    }
}

pub open spec fn some_key_kept(inspection: GhosttyInspection) -> bool {
    exists|i: int|
        0 <= i < ghostty::KEY_COUNT && #[trigger] inspection.bindings.statuses@[i]
            != GhosttyBindingStatus::Passed
}

pub open spec fn ghostty_lines(inspection: GhosttyInspection) -> Seq<Seq<char>> {
    seq!["Ghostty key setup:"@] + (if inspection.cli_available {
        Seq::empty()
    } else {
        seq!["  Ghostty CLI unavailable; assuming Ghostty defaults"@]
    }) + Seq::new(ghostty::KEY_COUNT as nat, |i: int| key_line(inspection, i)) + (
    if some_key_kept(inspection) {
        seq![
            "  Run `rustrace doctor --write-ghostty-keys` to write the recommended unbind snippet."@,
        ]
    } else {
        Seq::empty()
    })
}

pub open spec fn summary_line(checks: Seq<Checked>) -> Seq<char> {
    "Doctor summary: "@ + text::decimal(level_count(checks, Level::Fine)) + " OK, "@ + text::decimal(
        level_count(checks, Level::Warning),
    ) + " WARNING, "@ + text::decimal(level_count(checks, Level::Blocker)) + " BLOCKER."@
}

pub open spec fn doctor_lines(
    version: Seq<char>,
    checks: Seq<Checked>,
    colors: Seq<ThemeColor>,
    inspection: Option<GhosttyInspection>,
) -> Seq<Seq<char>> {
    seq!["rustrace "@ + version] + checks_lines(checks) + color_lines(colors) + (match inspection {
        Some(g) => ghostty_lines(g),
        None => Seq::empty(),
    }) + seq![summary_line(checks)]
}

fn write_checks(out: &mut Vec<String>, checks: &Vec<Check>)
    ensures
        text::texts(final(out)@) == text::texts(old(out)@) + checks_lines(checks_view(checks@)),
{
    let ghost all = checks_view(checks@);
    let ghost start = text::texts(out@);
    let mut i: usize = 0;
    assert(all.take(0) =~= Seq::<Checked>::empty());
    assert(start + checks_lines(all.take(0)) =~= start);
    while i < checks.len()
        invariant
            i <= checks@.len(),
            all == checks_view(checks@),
            text::texts(out@) == start + checks_lines(all.take(i as int)),
        decreases checks@.len() - i,
    {
        let ghost before = text::texts(out@);
        let c = &checks[i];
        let detail = display::label(c.detail.as_str(), 2048);
        text::put(out, text::cat5(c.level.label(), " ", c.name, ": ", detail.as_str()));
        match &c.remedy {
            Some(remedy) => {
                let shown = display::label(remedy.as_str(), 2048);
                text::put(out, text::cat2("  Remedy: ", shown.as_str()));
            },
            None => {},
        }
        proof {
            assert(text::texts(out@) =~= before + check_lines(c.view()));
            assert(all.take(i + 1).drop_last() =~= all.take(i as int));
            assert(all.take(i + 1).last() == checks@[i as int].view());
            assert(text::texts(out@) =~= start + checks_lines(all.take(i + 1)));
        }
        i += 1;
    }
    assert(all.take(all.len() as int) =~= all);
}

fn write_colors(out: &mut Vec<String>, colors: &Vec<ThemeColor>)
    ensures
        text::texts(final(out)@) == text::texts(old(out)@) + color_lines(colors@),
{
    let ghost start = text::texts(out@);
    let mut i: usize = 0;
    assert(start + color_lines(colors@).take(0) =~= start);
    while i < colors.len()
        invariant
            i <= colors@.len(),
            text::texts(out@) == start + color_lines(colors@).take(i as int),
        decreases colors@.len() - i,
    {
        let c = &colors[i];
        text::put(
            out,
            text::cat7(
                "  ",
                c.field.as_str(),
                " = ",
                c.color.as_str(),
                " (source: ",
                color_source(&c.built_in).as_str(),
                ")",
            ),
        );
        proof {
            assert(color_lines(colors@).take(i + 1) =~= color_lines(colors@).take(i as int).push(
                color_line(colors@[i as int]),
            ));
            assert(text::texts(out@) =~= start + color_lines(colors@).take(i + 1));
        }
        i += 1;
    }
    assert(color_lines(colors@).take(colors@.len() as int) =~= color_lines(colors@));
}

fn write_key(inspection: &GhosttyInspection, i: usize) -> (r: String)
    requires
        i < ghostty::KEY_COUNT,
        inspection.actions@.len() == ghostty::KEY_COUNT,
    ensures
        r@ == key_line(*inspection, i as int),
{
    let status = inspection.bindings.statuses[i];
    let plain = text::cat4("  Ghostty key ", ghostty::setup_key(i), ": ", status.label());
    match &inspection.actions[i] {
        Some(action) => {
            if status != GhosttyBindingStatus::Passed {
                let shown = display::label(action.as_str(), 512);
                return text::cat4(plain.as_str(), " (", shown.as_str(), ")");
            }
        },
        None => {},
    }
    plain
}

fn write_ghostty_report(out: &mut Vec<String>, inspection: &GhosttyInspection)
    requires
        inspection.actions@.len() == ghostty::KEY_COUNT,
    ensures
        text::texts(final(out)@) == text::texts(old(out)@) + ghostty_lines(*inspection),
{
    let ghost before = text::texts(out@);
    text::put(out, "Ghostty key setup:".to_owned());
    if !inspection.cli_available {
        text::put(out, "  Ghostty CLI unavailable; assuming Ghostty defaults".to_owned());
    }
    let ghost start = text::texts(out@);
    let ghost keys = Seq::new(ghostty::KEY_COUNT as nat, |i: int| key_line(*inspection, i));
    let mut kept = false;
    let mut i: usize = 0;
    assert(start + keys.take(0) =~= start);
    while i < ghostty::KEY_COUNT
        invariant
            i <= ghostty::KEY_COUNT,
            inspection.actions@.len() == ghostty::KEY_COUNT,
            keys == Seq::new(ghostty::KEY_COUNT as nat, |i: int| key_line(*inspection, i)),
            text::texts(out@) == start + keys.take(i as int),
            kept == exists|j: int|
                0 <= j < i && #[trigger] inspection.bindings.statuses@[j]
                    != GhosttyBindingStatus::Passed,
        decreases ghostty::KEY_COUNT - i,
    {
        let line = write_key(inspection, i);
        text::put(out, line);
        if inspection.bindings.statuses[i] != GhosttyBindingStatus::Passed {
            assert(inspection.bindings.statuses@[i as int] != GhosttyBindingStatus::Passed);
            kept = true;
        }
        proof {
            assert(keys.take(i + 1) =~= keys.take(i as int).push(keys[i as int]));
            assert(text::texts(out@) =~= start + keys.take(i + 1));
        }
        i += 1;
    }
    assert(keys.take(keys.len() as int) =~= keys);
    if kept {
        text::put(
            out,
            "  Run `rustrace doctor --write-ghostty-keys` to write the recommended unbind snippet.".to_owned(),
        );
    }
    assert(text::texts(out@) =~= before + ghostty_lines(*inspection));
}

/// Writes the report.
pub fn write_report(
    version: &str,
    checks: &Vec<Check>,
    colors: &Vec<ThemeColor>,
    inspection: Option<&GhosttyInspection>,
) -> (out: Vec<String>)
    requires
        inspection matches Some(g) ==> g.actions@.len() == ghostty::KEY_COUNT,
    ensures
        text::texts(out@) == doctor_lines(
            version@,
            checks_view(checks@),
            colors@,
            match inspection {
                Some(g) => Some(*g),
                None => None,
            },
        ),
{
    let mut out: Vec<String> = Vec::new();
    text::put(&mut out, text::cat2("rustrace ", version));
    write_checks(&mut out, checks);
    write_colors(&mut out, colors);
    match inspection {
        Some(g) => {
            write_ghostty_report(&mut out, g);
        },
        None => {},
    }
    let ok = text::write_decimal(count_level(checks, Level::Fine) as u64);
    let warnings = text::write_decimal(count_level(checks, Level::Warning) as u64);
    let blockers = text::write_decimal(count_level(checks, Level::Blocker) as u64);
    text::put(
        &mut out,
        text::cat7(
            "Doctor summary: ",
            ok.as_str(),
            " OK, ",
            warnings.as_str(),
            " WARNING, ",
            blockers.as_str(),
            " BLOCKER.",
        ),
    );
    assert(text::texts(out@) =~= doctor_lines(
        version@,
        checks_view(checks@),
        colors@,
        match inspection {
            Some(g) => Some(*g),
            None => None,
        },
    ));
    out
}

/// What became of writing the file of keys.
pub enum KeysOutcome {
    Written(String),
    UpToDate(String),
    Failed(String),
}

pub open spec fn keys_lines_of(outcome: KeysOutcome) -> (Seq<Seq<char>>, u8) {
    let told = |action: Seq<char>, path: Seq<char>| seq![
        "Ghostty keys "@ + action + " "@ + path,
        "Add this line to the Ghostty config:"@,
        "config-file = rustrace-keys"@,
        "Reload using Ghostty's own super+shift+,=reload_config binding (⌘⇧,)."@,
    ];
    match outcome {
        KeysOutcome::Written(path) => (told("wrote"@, path@), 0),
        KeysOutcome::UpToDate(path) => (told("already up to date at"@, path@), 0),
        KeysOutcome::Failed(error) => (seq!["Ghostty keys not written: "@ + error@], 1),
    }
}

pub fn write_ghostty_keys(outcome: &KeysOutcome) -> (r: (Vec<String>, u8))
    ensures
        (text::texts(r.0@), r.1) == keys_lines_of(*outcome),
{
    let mut out: Vec<String> = Vec::new();
    let (action, path): (&str, &str) = match outcome {
        KeysOutcome::Written(path) => ("wrote", path.as_str()),
        KeysOutcome::UpToDate(path) => ("already up to date at", path.as_str()),
        KeysOutcome::Failed(error) => {
            text::put(&mut out, text::cat2("Ghostty keys not written: ", error.as_str()));
            assert(text::texts(out@) =~= keys_lines_of(*outcome).0);
            return (out, 1);
        },
    };
    text::put(&mut out, text::cat4("Ghostty keys ", action, " ", path));
    text::put(&mut out, "Add this line to the Ghostty config:".to_owned());
    text::put(&mut out, "config-file = rustrace-keys".to_owned());
    text::put(
        &mut out,
        "Reload using Ghostty's own super+shift+,=reload_config binding (⌘⇧,).".to_owned(),
    );
    assert(text::texts(out@) =~= keys_lines_of(*outcome).0);
    (out, 0)
}

// What holds of all reports.

/// The code is one exactly where a check blocks.
pub proof fn the_code_tells_of_blockers(checks: Seq<Checked>)
    ensures
        doctor_code(checks) == 1 <==> exists|i: int|
            0 <= i < checks.len() && (#[trigger] checks[i]).level == Level::Blocker,
    decreases checks.len(),
{
    if checks.len() > 0 {
        let before = checks.drop_last();
        the_code_tells_of_blockers(before);
        if level_count(before, Level::Blocker) > 0 {
            let i = choose|i: int|
                0 <= i < before.len() && (#[trigger] before[i]).level == Level::Blocker;
            assert(checks[i] == before[i]);
        }
        if exists|i: int| 0 <= i < checks.len() && (#[trigger] checks[i]).level == Level::Blocker {
            let i = choose|i: int|
                0 <= i < checks.len() && (#[trigger] checks[i]).level == Level::Blocker;
            if i < before.len() {
                assert(before[i] == checks[i]);
            }
        }
    }
}

/// Every check that is not fine says what helps, and only such a check does.
pub proof fn what_is_not_fine_has_a_remedy(f: DoctorFacts, i: int)
    requires
        0 <= i < all_checks(f).len(),
    ensures
        all_checks(f)[i].remedy is Some <==> all_checks(f)[i].level != Level::Fine,
{
    let tools = tools_found(f);
    assert(tools.len() == 6);
    assert(forall|j: int|
        0 <= j < 6 ==> ((#[trigger] tools[j]).remedy is Some <==> tools[j].level != Level::Fine));
    if 4 <= i < 10 {
        assert(all_checks(f)[i] == tools[i - 4]);
    }
}

/// A package that was not unpacked blocks: no report on it ends well.
pub proof fn nothing_unpacked_is_a_blocker(f: DoctorFacts)
    requires
        f.unpacked is None,
    ensures
        doctor_code(all_checks(f)) == 1,
{
    let checks = all_checks(f);
    assert(checks[3] == storage_of(f).0);
    the_code_tells_of_blockers(checks);
}

} // verus!
