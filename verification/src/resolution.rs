//! Finding the tools that a language server is started with.

use crate::environment::{CommandExecution, Ran};
use crate::model::{CaptureCompleteness, CommandOutcome, CommandTermination};
use crate::text;
use vstd::prelude::*;
use vstd::utf8::{decode_utf8, valid_utf8};

verus! {

pub const RESOLUTION_DEADLINE: u64 = 30_000;

pub const PROBE_DEADLINE: u64 = 3_000;

/// The system's number for a file that does not exist.
pub const NO_SUCH_FILE: i32 = 2;

/// What one look for a tool came to. The output is bytes, and may be cut.
#[derive(Clone, Debug, PartialEq, Eq)]
pub struct ProbeResult {
    pub outcome: CommandOutcome,
    pub stdout: Vec<u8>,
    pub stdout_completeness: CaptureCompleteness,
    pub stderr: Vec<u8>,
    pub stderr_completeness: CaptureCompleteness,
    pub cleanup_confirmed: bool,
}

/// Bytes as text, or another text where they are none.
pub open spec fn text_or(bytes: Seq<u8>, other: Seq<char>) -> Seq<char> {
    if valid_utf8(bytes) {
        decode_utf8(bytes)
    } else {
        other
    }
}

/// What a look for a tool counts as. Nothing counts as found once a process may
/// have been left behind.
pub open spec fn probed(p: ProbeResult, uncertain: bool, timeout: u64) -> Ran {
    let stdout = text_or(p.stdout@, ""@);
    let stderr = text_or(p.stderr@, "invalid UTF-8 probe output"@);
    let whole = p.stdout_completeness == CaptureCompleteness::Complete && p.stderr_completeness
        == CaptureCompleteness::Complete;
    match p.outcome {
        CommandOutcome::Exited { code } => if code == 0 && whole && !uncertain && p.cleanup_confirmed
            && valid_utf8(p.stdout@) && valid_utf8(p.stderr@) {
            Ran::Succeeded { stdout, stderr }
        } else {
            Ran::Failed { exit_code: None, stdout, stderr }
        },
        CommandOutcome::LaunchFailed { os_code } => if os_code == Some(NO_SUCH_FILE) {
            Ran::NotFound
        } else {
            Ran::Failed { exit_code: None, stdout, stderr }
        },
        CommandOutcome::Terminated { reason, .. } => if reason == CommandTermination::Deadline {
            Ran::TimedOut { timeout, stdout, stderr }
        } else {
            Ran::Failed { exit_code: None, stdout, stderr }
        },
    }
}

fn text_or_other(bytes: &Vec<u8>, other: &str) -> (r: String)
    ensures
        r@ == text_or(bytes@, other@),
{
    match text::utf8_str(bytes.as_slice()) {
        Some(s) => s.to_owned(),
        None => other.to_owned(),
    }
}

/// A process that is reported both as gone and as still to be cleaned up counts
/// as one whose cleanup failed.
pub fn settle_inconsistent(result: &mut ProbeResult, pending_cleanup: bool)
    ensures
        final(result).stdout == old(result).stdout,
        final(result).stderr == old(result).stderr,
        final(result).stdout_completeness == old(result).stdout_completeness,
        final(result).stderr_completeness == old(result).stderr_completeness,
        old(result).cleanup_confirmed && pending_cleanup ==> !final(result).cleanup_confirmed
            && final(result).outcome == (CommandOutcome::Terminated {
            reason: CommandTermination::CleanupFailure,
            signal: None,
        }),
        !(old(result).cleanup_confirmed && pending_cleanup) ==> *final(result) == *old(result),
{
    if result.cleanup_confirmed && pending_cleanup {
        result.cleanup_confirmed = false;
        result.outcome = CommandOutcome::Terminated {
            reason: CommandTermination::CleanupFailure,
            signal: None,
        };
    }
}

/// How long a look for a tool may take: what is left of the whole, and not more
/// than one look may take.
pub fn probe_deadline(until: u64, now: u64) -> (r: u64)
    ensures
        r == if now >= until {
            0
        } else if until - now < PROBE_DEADLINE {
            until - now
        } else {
            PROBE_DEADLINE as int
        },
{
    if now >= until {
        0
    } else if until - now < PROBE_DEADLINE {
        until - now
    } else {
        PROBE_DEADLINE
    }
}

/// The looks for tools so far: whether one may have left a process behind, and
/// how many there were.
#[derive(Clone, Copy, Debug, PartialEq, Eq, Structural)]
pub struct Resolving {
    pub cleanup_uncertain: bool,
    pub captures: usize,
}

impl Resolving {
    pub fn new() -> (r: Resolving)
        ensures
            r == (Resolving { cleanup_uncertain: false, captures: 0 }),
    {
        Resolving { cleanup_uncertain: false, captures: 0 }
    }

    /// A look that was called off.
    pub fn cancelled() -> (r: CommandExecution)
        ensures
            r.view() == (Ran::Failed {
                exit_code: None,
                stdout: ""@,
                stderr: "language-server resolution cancelled"@,
            }),
    {
        CommandExecution::Failed {
            exit_code: None,
            stdout: "".to_owned(),
            stderr: "language-server resolution cancelled".to_owned(),
        }
    }

    /// Takes a look into account, and says what it counts as. Doubt about a
    /// process that was left behind never goes away.
    pub fn observe(&mut self, result: &ProbeResult, timeout: u64) -> (r: CommandExecution)
        ensures
            final(self).cleanup_uncertain == (old(self).cleanup_uncertain || !result.cleanup_confirmed),
            final(self).captures == if old(self).captures < usize::MAX {
                old(self).captures + 1
            } else {
                usize::MAX as int
            },
            r.view() == probed(*result, old(self).cleanup_uncertain, timeout),
    {
        if self.captures < usize::MAX {
            self.captures = self.captures + 1;
        }
        self.cleanup_uncertain = self.cleanup_uncertain || !result.cleanup_confirmed;
        let whole = result.stdout_completeness == CaptureCompleteness::Complete
            && result.stderr_completeness == CaptureCompleteness::Complete;
        let is_text = text::utf8_str(result.stdout.as_slice()).is_some() && text::utf8_str(
            result.stderr.as_slice(),
        ).is_some();
        let stdout = text_or_other(&result.stdout, "");
        let stderr = text_or_other(&result.stderr, "invalid UTF-8 probe output");
        match result.outcome {
            CommandOutcome::Exited { code } => {
                if code == 0 && whole && !self.cleanup_uncertain && is_text {
                    return CommandExecution::Succeeded { stdout, stderr };
                }
            },
            CommandOutcome::LaunchFailed { os_code } => {
                match os_code {
                    Some(code) => {
                        if code == NO_SUCH_FILE {
                            return CommandExecution::NotFound;
                        }
                    },
                    None => {},
                }
            },
            CommandOutcome::Terminated { reason, .. } => {
                if reason == CommandTermination::Deadline {
                    return CommandExecution::TimedOut { timeout, stdout, stderr };
                }
            },
        }
        CommandExecution::Failed { exit_code: None, stdout, stderr }
    }
}

#[derive(Clone, Copy, Debug, PartialEq, Eq, Structural)]
pub enum ProbeStatus {
    Available,
    NotFound,
    Failed,
    TimedOut,
    InvalidOutput,
}

/// One answer about a tool.
#[derive(Debug, PartialEq, Eq)]
pub struct ToolProbe {
    pub component: String,
    pub purpose: String,
    pub status: ProbeStatus,
    pub stdout: String,
    pub stderr: String,
}

/// The version that a tool named.
#[derive(Debug, PartialEq, Eq)]
pub struct ToolVersion {
    pub component: String,
    pub version: String,
}

/// What is known of the tools. `blocked` says that a required one is missing.
#[derive(Debug, PartialEq, Eq)]
pub struct ToolchainReport {
    pub blocked: bool,
    pub selected_toolchain: Option<String>,
    pub probes: Vec<ToolProbe>,
    pub versions: Vec<ToolVersion>,
}

pub struct Probe {
    pub component: Seq<char>,
    pub purpose: Seq<char>,
    pub status: ProbeStatus,
    pub stdout: Seq<char>,
    pub stderr: Seq<char>,
}

pub struct Report {
    pub blocked: bool,
    pub selected_toolchain: Option<Seq<char>>,
    pub probes: Seq<Probe>,
    pub versions: Seq<(Seq<char>, Seq<char>)>,
}

impl ToolProbe {
    pub open spec fn view(&self) -> Probe {
        Probe {
            component: self.component@,
            purpose: self.purpose@,
            status: self.status,
            stdout: self.stdout@,
            stderr: self.stderr@,
        }
    }
}

impl Clone for ToolProbe {
    fn clone(&self) -> (r: ToolProbe)
        ensures
            r.view() == self.view(),
    {
        ToolProbe {
            component: self.component.clone(),
            purpose: self.purpose.clone(),
            status: self.status,
            stdout: self.stdout.clone(),
            stderr: self.stderr.clone(),
        }
    }
}

impl ToolVersion {
    pub open spec fn view(&self) -> (Seq<char>, Seq<char>) {
        (self.component@, self.version@)
    }
}

impl Clone for ToolVersion {
    fn clone(&self) -> (r: ToolVersion)
        ensures
            r.view() == self.view(),
    {
        ToolVersion { component: self.component.clone(), version: self.version.clone() }
    }
}

impl ToolchainReport {
    pub open spec fn view(&self) -> Report {
        Report {
            blocked: self.blocked,
            selected_toolchain: crate::environment::opt_string(self.selected_toolchain),
            probes: Seq::new(self.probes@.len(), |i: int| self.probes@[i].view()),
            versions: Seq::new(self.versions@.len(), |i: int| self.versions@[i].view()),
        }
    }
}

impl Clone for ToolchainReport {
    fn clone(&self) -> (r: ToolchainReport)
        ensures
            r.view() == self.view(),
    {
        let mut probes: Vec<ToolProbe> = Vec::new();
        let mut i: usize = 0;
        while i < self.probes.len()
            invariant
                i <= self.probes@.len(),
                probes@.len() == i,
                forall|k: int| 0 <= k < i ==> (#[trigger] probes@[k]).view() == self.probes@[k].view(),
            decreases self.probes@.len() - i,
        {
            probes.push(self.probes[i].clone());
            i += 1;
        }
        let mut versions: Vec<ToolVersion> = Vec::new();
        let mut j: usize = 0;
        while j < self.versions.len()
            invariant
                j <= self.versions@.len(),
                versions@.len() == j,
                forall|k: int|
                    0 <= k < j ==> (#[trigger] versions@[k]).view() == self.versions@[k].view(),
            decreases self.versions@.len() - j,
        {
            versions.push(self.versions[j].clone());
            j += 1;
        }
        let selected_toolchain = match &self.selected_toolchain {
            Some(s) => Some(s.clone()),
            None => None,
        };
        let r = ToolchainReport { blocked: self.blocked, selected_toolchain, probes, versions };
        assert(r.view().probes =~= self.view().probes);
        assert(r.view().versions =~= self.view().versions);
        r
    }
}

/// What a language server is started with.
#[derive(Clone, Debug, PartialEq, Eq)]
pub struct LaunchSpec {
    pub selection: String,
    pub analyzer: String,
    pub cargo: String,
    pub rustc: String,
    pub rustdoc: String,
}

pub struct Launch {
    pub selection: Seq<char>,
    pub analyzer: Seq<char>,
    pub cargo: Seq<char>,
    pub rustc: Seq<char>,
    pub rustdoc: Seq<char>,
}

impl LaunchSpec {
    pub open spec fn view(&self) -> Launch {
        Launch {
            selection: self.selection@,
            analyzer: self.analyzer@,
            cargo: self.cargo@,
            rustc: self.rustc@,
            rustdoc: self.rustdoc@,
        }
    }
}

/// The path of a tool: that of the first answer that resolved it.
pub open spec fn path_of(probes: Seq<ToolProbe>, component: Seq<char>, from: nat) -> Option<Seq<char>>
    decreases probes.len() - from,
{
    if from >= probes.len() {
        None
    } else if probes[from as int].component@ == component && probes[from as int].purpose@ == "resolve"@
        && probes[from as int].status == ProbeStatus::Available {
        Some(text::trimmed(probes[from as int].stdout@))
    } else {
        path_of(probes, component, from + 1)
    }
}

pub open spec fn missing(component: Seq<char>) -> Seq<char> {
    "selected "@ + component + " is unavailable"@
}

/// What a server can be started with, or what is in the way.
pub open spec fn launch_of(report: ToolchainReport) -> Result<Launch, Seq<char>> {
    let path = |component: Seq<char>| path_of(report.probes@, component, 0);
    if report.blocked {
        Err("required selected-tool resolution failed"@)
    } else {
        match report.selected_toolchain {
            None => Err("selected toolchain is unavailable"@),
            Some(selection) => if path("rust-analyzer"@) is None {
                Err(missing("rust-analyzer"@))
            } else if path("cargo"@) is None {
                Err(missing("cargo"@))
            } else if path("rustc"@) is None {
                Err(missing("rustc"@))
            } else if path("rustdoc"@) is None {
                Err(missing("rustdoc"@))
            } else {
                Ok(
                    Launch {
                        selection: selection@,
                        analyzer: path("rust-analyzer"@)->0,
                        cargo: path("cargo"@)->0,
                        rustc: path("rustc"@)->0,
                        rustdoc: path("rustdoc"@)->0,
                    },
                )
            },
        }
    }
}

fn tool_path(probes: &Vec<ToolProbe>, component: &str) -> (r: Result<String, String>)
    ensures
        match path_of(probes@, component@, 0) {
            Some(p) => r is Ok && r->Ok_0@ == p,
            None => r is Err && r->Err_0@ == missing(component@),
        },
{
    let mut i: usize = 0;
    while i < probes.len()
        invariant
            i <= probes@.len(),
            path_of(probes@, component@, 0) == path_of(probes@, component@, i as nat),
        decreases probes@.len() - i,
    {
        let p = &probes[i];
        if text::str_eq(p.component.as_str(), component) && text::str_eq(p.purpose.as_str(), "resolve")
            && p.status == ProbeStatus::Available {
            return Ok(text::trim(p.stdout.as_str()));
        }
        i += 1;
    }
    let mut m = "selected ".to_owned();
    m.push_str(component);
    m.push_str(" is unavailable");
    Err(m)
}

pub open spec fn same_launch(r: Result<LaunchSpec, String>, l: Result<Launch, Seq<char>>) -> bool {
    match l {
        Ok(launch) => r is Ok && r->Ok_0.view() == launch,
        Err(why) => r is Err && r->Err_0@ == why,
    }
}

pub fn launch_spec(report: &ToolchainReport) -> (r: Result<LaunchSpec, String>)
    ensures
        same_launch(r, launch_of(*report)),
{
    if report.blocked {
        return Err("required selected-tool resolution failed".to_owned());
    }
    let selection = match &report.selected_toolchain {
        Some(s) => s.clone(),
        None => {
            return Err("selected toolchain is unavailable".to_owned());
        },
    };
    let analyzer = tool_path(&report.probes, "rust-analyzer")?;
    let cargo = tool_path(&report.probes, "cargo")?;
    let rustc = tool_path(&report.probes, "rustc")?;
    let rustdoc = tool_path(&report.probes, "rustdoc")?;
    Ok(LaunchSpec { selection, analyzer, cargo, rustc, rustdoc })
}

/// What the search for tools came to.
pub struct Resolution {
    pub generation: u64,
    pub report: ToolchainReport,
    pub launch: Result<LaunchSpec, String>,
    pub cleanup_confirmed: bool,
}

pub open spec fn resolved_launch(report: ToolchainReport, s: Resolving) -> Result<Launch, Seq<char>> {
    match launch_of(report) {
        Err(why) => Err(why),
        Ok(launch) => if s.cleanup_uncertain {
            Err("cleanup was not confirmed during language-server resolution"@)
        } else if s.captures == 0 {
            Err("language-server resolution executed no bounded probes"@)
        } else {
            Ok(launch)
        },
    }
}

/// Ends the search for tools.
pub fn resolve(generation: u64, report: ToolchainReport, looks: Resolving) -> (r: Resolution)
    ensures
        r.generation == generation,
        r.report == report,
        r.cleanup_confirmed == !looks.cleanup_uncertain,
        same_launch(r.launch, resolved_launch(report, looks)),
{
    let launch = match launch_spec(&report) {
        Err(why) => Err(why),
        Ok(launch) => {
            if looks.cleanup_uncertain {
                Err("cleanup was not confirmed during language-server resolution".to_owned())
            } else if looks.captures == 0 {
                Err("language-server resolution executed no bounded probes".to_owned())
            } else {
                Ok(launch)
            }
        },
    };
    Resolution { generation, report, launch, cleanup_confirmed: !looks.cleanup_uncertain }
}

} // verus!
