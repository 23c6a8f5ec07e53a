//! The tools of the environment: what is asked of them and what is made of
//! their answers.

use crate::text;
use vstd::prelude::*;
use vstd::utf8::{decode_utf8, valid_utf8};

verus! {

pub const MAX_EVIDENCE_CHARS: usize = 160;

/// How long a tool may take, in milliseconds.
pub const DEFAULT_PROBE_TIMEOUT: u64 = 3_000;

pub const DEFAULT_CAPTURE_LIMIT_BYTES: usize = 16_384;

/// How long to sleep between two looks at a tool, in milliseconds.
pub const WAIT_POLL_INTERVAL: u64 = 10;

#[derive(Clone, Copy, Debug, PartialEq, Eq, Structural)]
pub enum Requirement {
    Required,
    Optional,
}

impl Requirement {
    pub open spec fn word(self) -> Seq<char> {
        match self {
            Requirement::Required => "required"@,
            Requirement::Optional => "optional"@,
        }
    }

    pub fn as_str(self) -> (r: &'static str)
        ensures
            r@ == self.word(),
    {
        match self {
            Requirement::Required => "required",
            Requirement::Optional => "optional",
        }
    }
}

#[derive(Clone, Copy, Debug, PartialEq, Eq, Structural)]
pub enum ToolStatus {
    Available,
    NotFound,
    Failed,
    TimedOut,
}

#[derive(Clone, Copy, Debug, PartialEq, Eq, Structural)]
pub enum DiagnosticLevel {
    Info,
    Warning,
    Error,
}

impl DiagnosticLevel {
    pub open spec fn word(self) -> Seq<char> {
        match self {
            DiagnosticLevel::Info => "ok"@,
            DiagnosticLevel::Warning => "warning"@,
            DiagnosticLevel::Error => "error"@,
        }
    }

    pub fn as_str(self) -> (r: &'static str)
        ensures
            r@ == self.word(),
    {
        match self {
            DiagnosticLevel::Info => "ok",
            DiagnosticLevel::Warning => "warning",
            DiagnosticLevel::Error => "error",
        }
    }
}

/// What is kept of a tool's answer.
#[derive(Clone, Debug, PartialEq, Eq)]
pub struct ExecutionEvidence {
    pub exit_code: Option<i32>,
    pub timeout_ms: Option<u64>,
    pub stdout: Option<String>,
    pub stderr: Option<String>,
}

pub struct Evidence {
    pub exit_code: Option<i32>,
    pub timeout_ms: Option<u64>,
    pub stdout: Option<Seq<char>>,
    pub stderr: Option<Seq<char>>,
}

pub open spec fn opt_string(s: Option<String>) -> Option<Seq<char>> {
    match s {
        Some(t) => Some(t@),
        None => None,
    }
}

impl ExecutionEvidence {
    pub open spec fn view(&self) -> Evidence {
        Evidence {
            exit_code: self.exit_code,
            timeout_ms: self.timeout_ms,
            stdout: opt_string(self.stdout),
            stderr: opt_string(self.stderr),
        }
    }
}

pub open spec fn no_evidence() -> Evidence {
    Evidence { exit_code: None, timeout_ms: None, stdout: None, stderr: None }
}

impl Default for ExecutionEvidence {
    fn default() -> (r: ExecutionEvidence)
        ensures
            r.view() == no_evidence(),
    {
        ExecutionEvidence { exit_code: None, timeout_ms: None, stdout: None, stderr: None }
    }
}

/// What is found of one tool.
#[derive(Clone, Debug, PartialEq, Eq)]
pub struct ComponentDiagnostic {
    pub component: String,
    pub command: String,
    pub requirement: Requirement,
    pub status: ToolStatus,
    pub level: DiagnosticLevel,
    pub message: String,
    pub evidence: ExecutionEvidence,
    pub remediation: String,
}

pub struct Finding {
    pub component: Seq<char>,
    pub command: Seq<char>,
    pub requirement: Requirement,
    pub status: ToolStatus,
    pub level: DiagnosticLevel,
    pub message: Seq<char>,
    pub evidence: Evidence,
    pub remediation: Seq<char>,
}

impl ComponentDiagnostic {
    pub open spec fn view(&self) -> Finding {
        Finding {
            component: self.component@,
            command: self.command@,
            requirement: self.requirement,
            status: self.status,
            level: self.level,
            message: self.message@,
            evidence: self.evidence.view(),
            remediation: self.remediation@,
        }
    }
}

/// What is found of every tool.
#[derive(Clone, Debug, PartialEq, Eq)]
pub struct EnvironmentReport {
    pub findings: Vec<ComponentDiagnostic>,
}

/// How many tools of a requirement are not available.
pub open spec fn issues(findings: Seq<Finding>, requirement: Requirement) -> nat
    decreases findings.len(),
{
    if findings.len() == 0 {
        0
    } else {
        issues(findings.drop_last(), requirement) + if findings.last().requirement == requirement
            && findings.last().status != ToolStatus::Available {
            1nat
        } else {
            0nat
        }
    }
}

pub open spec fn findings_view(v: Seq<ComponentDiagnostic>) -> Seq<Finding> {
    Seq::new(v.len(), |i: int| v[i].view())
}

impl EnvironmentReport {
    pub open spec fn view(&self) -> Seq<Finding> {
        findings_view(self.findings@)
    }

    pub fn diagnostics(&self) -> (r: &Vec<ComponentDiagnostic>)
        ensures
            *r == self.findings,
    {
        &self.findings
    }

    fn issue_count(&self, requirement: Requirement) -> (r: usize)
        ensures
            r == issues(self.view(), requirement),
    {
        let ghost all = self.view();
        let mut n: usize = 0;
        let mut i: usize = 0;
        assert(all.take(0) =~= Seq::<Finding>::empty());
        while i < self.findings.len()
            invariant
                i <= self.findings.len(),
                all == findings_view(self.findings@),
                n <= i,
                n == issues(all.take(i as int), requirement),
            decreases self.findings.len() - i,
        {
            proof {
                assert(all.take(i + 1).drop_last() =~= all.take(i as int));
                assert(all.take(i + 1).last() == self.findings@[i as int].view());
            }
            let found = &self.findings[i];
            if found.requirement == requirement && found.status != ToolStatus::Available {
                n += 1;
            }
            i += 1;
        }
        assert(all.take(all.len() as int) =~= all);
        n
    }

    pub fn has_blockers(&self) -> (r: bool)
        ensures
            r == (issues(self.view(), Requirement::Required) > 0),
    {
        self.required_issue_count() > 0
    }

    pub fn required_issue_count(&self) -> (r: usize)
        ensures
            r == issues(self.view(), Requirement::Required),
    {
        self.issue_count(Requirement::Required)
    }

    pub fn optional_issue_count(&self) -> (r: usize)
        ensures
            r == issues(self.view(), Requirement::Optional),
    {
        self.issue_count(Requirement::Optional)
    }
}

/// A program and its arguments.
#[derive(Clone, Debug, PartialEq, Eq)]
pub struct ProbeCommand {
    pub program: &'static str,
    pub args: Vec<&'static str>,
}

pub open spec fn words(args: Seq<&'static str>) -> Seq<Seq<char>> {
    Seq::new(args.len(), |i: int| args[i]@)
}

/// A program and the first arguments, with a space before each.
pub open spec fn spaced(program: Seq<char>, args: Seq<&'static str>) -> Seq<char>
    decreases args.len(),
{
    if args.len() == 0 {
        program
    } else {
        spaced(program, args.drop_last()) + " "@ + args.last()@
    }
}

impl ProbeCommand {
    pub fn invocation(&self) -> (r: String)
        ensures
            r@ == spaced(self.program@, self.args@),
    {
        let mut r = self.program.to_owned();
        let mut i: usize = 0;
        assert(self.args@.take(0) =~= Seq::<&'static str>::empty());
        while i < self.args.len()
            invariant
                i <= self.args@.len(),
                r@ == spaced(self.program@, self.args@.take(i as int)),
            decreases self.args@.len() - i,
        {
            proof {
                assert(self.args@.take(i + 1).drop_last() =~= self.args@.take(i as int));
            }
            r.push_str(" ");
            r.push_str(self.args[i]);
            i += 1;
        }
        assert(self.args@.take(self.args@.len() as int) =~= self.args@);
        r
    }
}

/// What came of running a tool. The timeout is in milliseconds.
#[derive(Clone, Debug, PartialEq, Eq)]
pub enum CommandExecution {
    NotFound,
    Succeeded { stdout: String, stderr: String },
    Failed { exit_code: Option<i32>, stdout: String, stderr: String },
    TimedOut { timeout: u64, stdout: String, stderr: String },
}

pub enum Ran {
    NotFound,
    Succeeded { stdout: Seq<char>, stderr: Seq<char> },
    Failed { exit_code: Option<i32>, stdout: Seq<char>, stderr: Seq<char> },
    TimedOut { timeout: u64, stdout: Seq<char>, stderr: Seq<char> },
}

impl CommandExecution {
    pub open spec fn view(&self) -> Ran {
        match self {
            CommandExecution::NotFound => Ran::NotFound,
            CommandExecution::Succeeded { stdout, stderr } => Ran::Succeeded {
                stdout: stdout@,
                stderr: stderr@,
            },
            CommandExecution::Failed { exit_code, stdout, stderr } => Ran::Failed {
                exit_code: *exit_code,
                stdout: stdout@,
                stderr: stderr@,
            },
            CommandExecution::TimedOut { timeout, stdout, stderr } => Ran::TimedOut {
                timeout: *timeout,
                stdout: stdout@,
                stderr: stderr@,
            },
        }
    }
}

/// Runs a tool. Nothing is promised of what comes back.
pub trait CommandRunner {
    fn run(&self, command: &ProbeCommand) -> CommandExecution;
}

/// The limits of a runner that starts processes.
#[derive(Clone, Copy, Debug, PartialEq, Eq, Structural)]
pub struct SystemCommandRunner {
    pub timeout: u64,
    pub capture_limit: usize,
}

impl SystemCommandRunner {
    pub fn with_limits(timeout: u64, capture_limit: usize) -> (r: Self)
        ensures
            r == (SystemCommandRunner { timeout, capture_limit }),
    {
        SystemCommandRunner { timeout, capture_limit }
    }
}

impl Default for SystemCommandRunner {
    fn default() -> (r: SystemCommandRunner)
        ensures
            r.timeout == DEFAULT_PROBE_TIMEOUT,
            r.capture_limit == DEFAULT_CAPTURE_LIMIT_BYTES,
    {
        SystemCommandRunner::with_limits(DEFAULT_PROBE_TIMEOUT, DEFAULT_CAPTURE_LIMIT_BYTES)
    }
}

// What a runner makes of a process.

/// Keeps as much of a chunk as the limit has room for.
pub open spec fn captured_with(captured: Seq<u8>, chunk: Seq<u8>, limit: usize) -> Seq<u8> {
    if captured.len() + chunk.len() <= limit {
        captured + chunk
    } else if captured.len() <= limit {
        captured + chunk.take(limit - captured.len())
    } else {
        captured
    }
}

pub fn capture(captured: &mut Vec<u8>, chunk: &[u8], limit: usize)
    ensures
        final(captured)@ == captured_with(old(captured)@, chunk@, limit),
{
    let ghost before = captured@;
    let mut i: usize = 0;
    assert(before + chunk@.take(0) =~= before);
    while i < chunk.len() && captured.len() < limit
        invariant
            i <= chunk@.len(),
            captured@ == before + chunk@.take(i as int),
            i > 0 ==> captured@.len() <= limit,
        decreases chunk@.len() - i,
    {
        captured.push(chunk[i]);
        assert(chunk@.take(i + 1) =~= chunk@.take(i as int).push(chunk@[i as int]));
        i += 1;
    }
    assert(captured@ =~= captured_with(before, chunk@, limit));
}

/// What is known of a process that is waited for.
#[derive(Clone, Debug, PartialEq, Eq)]
pub enum WaitStatus {
    Exited,
    Running,
    Failed,
}

/// What to do about a process that is waited for.
#[derive(Clone, Copy, Debug, PartialEq, Eq, Structural)]
pub enum WaitStep {
    Exited,
    Expire,
    Fail,
    Sleep(u64),
}

/// Sleeps until the deadline, a short while at a time.
pub fn wait_step(status: &WaitStatus, now: u64, deadline: u64) -> (r: WaitStep)
    ensures
        r == match status {
            WaitStatus::Exited => WaitStep::Exited,
            WaitStatus::Failed => WaitStep::Fail,
            WaitStatus::Running => if now >= deadline {
                WaitStep::Expire
            } else if deadline - now < WAIT_POLL_INTERVAL {
                WaitStep::Sleep((deadline - now) as u64)
            } else {
                WaitStep::Sleep(WAIT_POLL_INTERVAL)
            },
        },
{
    match status {
        WaitStatus::Exited => WaitStep::Exited,
        WaitStatus::Failed => WaitStep::Fail,
        WaitStatus::Running => {
            if now >= deadline {
                WaitStep::Expire
            } else if deadline - now < WAIT_POLL_INTERVAL {
                WaitStep::Sleep(deadline - now)
            } else {
                WaitStep::Sleep(WAIT_POLL_INTERVAL)
            }
        },
    }
}

/// How a process ended.
#[derive(Clone, Debug, PartialEq, Eq)]
pub enum ChildOutcome {
    Exited { success: bool, code: Option<i32> },
    TimedOut(Option<String>),
    Failed(String),
}

/// What went wrong when a process was killed and reaped.
pub open spec fn reap_text(group: Option<Seq<char>>, kill: Option<Seq<char>>, wait: Option<Seq<char>>) -> Option<
    Seq<char>,
> {
    match (kill, wait) {
        (None, None) => group,
        (Some(k), None) => Some("failed to kill timed-out probe: "@ + k),
        (None, Some(w)) => Some("failed to reap timed-out probe: "@ + w),
        (Some(k), Some(w)) => Some(
            "failed to kill timed-out probe: "@ + k + "; failed to reap it: "@ + w,
        ),
    }
}

pub fn reap_message(group: Option<String>, kill: Option<String>, wait: Option<String>) -> (r: Option<String>)
    ensures
        opt_string(r) == reap_text(opt_string(group), opt_string(kill), opt_string(wait)),
{
    match (kill, wait) {
        (None, None) => group,
        (Some(k), None) => {
            let mut m = "failed to kill timed-out probe: ".to_owned();
            m.push_str(k.as_str());
            Some(m)
        },
        (None, Some(w)) => {
            let mut m = "failed to reap timed-out probe: ".to_owned();
            m.push_str(w.as_str());
            Some(m)
        },
        (Some(k), Some(w)) => {
            let mut m = "failed to kill timed-out probe: ".to_owned();
            m.push_str(k.as_str());
            m.push_str("; failed to reap it: ");
            m.push_str(w.as_str());
            Some(m)
        },
    }
}

/// What is said where a group of processes could not be ended.
pub fn group_message(error: &str) -> (r: String)
    ensures
        r@ == "failed to clean up probe process group: "@ + error@,
{
    text::cat2("failed to clean up probe process group: ", error)
}

pub open spec fn wait_text(error: Seq<char>, cleanup: Option<Seq<char>>) -> Seq<char> {
    let told = "failed to wait for probe: "@ + error;
    match cleanup {
        Some(c) => told + "; "@ + c,
        None => told,
    }
}

/// What is said where a process could not be waited for, and what came of ending
/// it then.
pub fn wait_message(error: &str, cleanup: Option<String>) -> (r: String)
    ensures
        r@ == wait_text(error@, opt_string(cleanup)),
{
    let mut r = text::cat2("failed to wait for probe: ", error);
    match cleanup {
        Some(c) => {
            r.push_str("; ");
            r.push_str(c.as_str());
        },
        None => {},
    }
    r
}

/// Milliseconds for which the streams of a process that was ended are still read.
pub const PIPE_DRAIN_GRACE: u64 = 50;

/// What came of a process once what is left of its group was ended, and how long
/// its streams are read: an exit whose group cannot be ended is a failure, and the
/// streams of an exit are read until the deadline.
pub fn after_exit(outcome: ChildOutcome, group_error: Option<String>, now: u64, deadline: u64) -> (r: (
    ChildOutcome,
    u64,
))
    ensures
        match outcome {
            ChildOutcome::Exited { .. } => match group_error {
                Some(error) => r.0 == ChildOutcome::Failed(error) && r.1 == drained_by(now),
                None => r.0 == outcome && r.1 == deadline,
            },
            _ => r.0 == outcome && r.1 == drained_by(now),
        },
{
    let grace: u64 = now.saturating_add(PIPE_DRAIN_GRACE);
    match outcome {
        ChildOutcome::Exited { success, code } => match group_error {
            Some(error) => (ChildOutcome::Failed(error), grace),
            None => (ChildOutcome::Exited { success, code }, deadline),
        },
        other => (other, grace),
    }
}

/// When the streams of a process that was ended are given up.
pub open spec fn drained_by(now: u64) -> u64 {
    if now + PIPE_DRAIN_GRACE > u64::MAX {
        u64::MAX
    } else {
        (now + PIPE_DRAIN_GRACE) as u64
    }
}

pub open spec fn with_error(stderr: Seq<char>, error: Option<Seq<char>>) -> Seq<char> {
    match error {
        None => stderr,
        Some(e) => if stderr.len() == 0 {
            e
        } else {
            stderr.push('\n') + e
        },
    }
}

pub fn append_error(stderr: &mut String, error: Option<String>)
    ensures
        final(stderr)@ == with_error(old(stderr)@, opt_string(error)),
{
    match error {
        None => {},
        Some(e) => {
            let n: usize = text::str_bytes(stderr.as_str());
            proof {
                text::lemma_byte_len_ge(stderr@);
            }
            if n > 0 {
                assert(stderr@.len() > 0) by {
                    if stderr@.len() == 0 {
                        assert(stderr@ =~= Seq::<char>::empty());
                    }
                }
                stderr.push('\n');
            }
            let ghost before = stderr@;
            stderr.push_str(e.as_str());
            assert(stderr@ =~= with_error(old(stderr)@, Some(e@)));
        },
    }
}

pub open spec fn ran_of(
    outcome: ChildOutcome,
    finished: bool,
    timeout: u64,
    stdout: Seq<char>,
    stderr: Seq<char>,
) -> Ran {
    if !finished {
        Ran::TimedOut { timeout, stdout, stderr }
    } else {
        match outcome {
            ChildOutcome::Exited { success, code } => if success {
                Ran::Succeeded { stdout, stderr }
            } else {
                Ran::Failed { exit_code: code, stdout, stderr }
            },
            ChildOutcome::TimedOut(error) => Ran::TimedOut {
                timeout,
                stdout,
                stderr: with_error(stderr, opt_string(error)),
            },
            ChildOutcome::Failed(error) => Ran::Failed {
                exit_code: None,
                stdout,
                stderr: with_error(stderr, Some(error@)),
            },
        }
    }
}

/// What came of a process whose output was read to its end, or was not.
pub fn execution_of(
    outcome: ChildOutcome,
    finished: bool,
    timeout: u64,
    stdout: String,
    stderr: String,
) -> (r: CommandExecution)
    ensures
        r.view() == ran_of(outcome, finished, timeout, stdout@, stderr@),
{
    let mut stderr = stderr;
    if !finished {
        return CommandExecution::TimedOut { timeout, stdout, stderr };
    }
    match outcome {
        ChildOutcome::Exited { success, code } => {
            if success {
                CommandExecution::Succeeded { stdout, stderr }
            } else {
                CommandExecution::Failed { exit_code: code, stdout, stderr }
            }
        },
        ChildOutcome::TimedOut(error) => {
            append_error(&mut stderr, error);
            CommandExecution::TimedOut { timeout, stdout, stderr }
        },
        ChildOutcome::Failed(error) => {
            append_error(&mut stderr, Some(error));
            CommandExecution::Failed { exit_code: None, stdout, stderr }
        },
    }
}

/// What came of a process, from the bytes of its output.
pub fn execution_from(
    outcome: ChildOutcome,
    finished: bool,
    timeout: u64,
    stdout: &[u8],
    stderr: &[u8],
) -> (r: CommandExecution)
    ensures
        r.view() == ran_of(
            outcome,
            finished,
            timeout,
            text::lossy_text(stdout@),
            text::lossy_text(stderr@),
        ),
        valid_utf8(stdout@) && valid_utf8(stderr@) ==> r.view() == ran_of(
            outcome,
            finished,
            timeout,
            decode_utf8(stdout@),
            decode_utf8(stderr@),
        ),
{
    let stdout = text::read_lossily(stdout);
    let stderr = text::read_lossily(stderr);
    execution_of(outcome, finished, timeout, stdout, stderr)
}

// The tools.

/// A tool, how it is asked for its version, and what helps when it is missing.
#[derive(Clone, Debug, PartialEq, Eq)]
pub struct ToolSpec {
    pub component: &'static str,
    pub command: ProbeCommand,
    pub requirement: Requirement,
    pub remediation: &'static str,
}

/// A tool: a program and the arguments it is given, and the two as one line.
pub struct Tool {
    pub component: Seq<char>,
    pub program: Seq<char>,
    pub args: Seq<Seq<char>>,
    pub command: Seq<char>,
    pub requirement: Requirement,
    pub remediation: Seq<char>,
}

impl ToolSpec {
    pub open spec fn view(&self) -> Tool {
        Tool {
            component: self.component@,
            program: self.command.program@,
            args: words(self.command.args@),
            command: spaced(self.command.program@, self.command.args@),
            requirement: self.requirement,
            remediation: self.remediation@,
        }
    }
}

pub open spec fn tool_of(i: int) -> Tool {
    if i == 0 {
        Tool {
            component: "rustup"@,
            program: "rustup"@,
            args: seq!["--version"@],
            command: "rustup"@ + " "@ + "--version"@,
            requirement: Requirement::Required,
            remediation: "Install rustup from https://rustup.rs, then restart the terminal."@,
        }
    } else if i == 1 {
        Tool {
            component: "Rust compiler"@,
            program: "rustc"@,
            args: seq!["-vV"@],
            command: "rustc"@ + " "@ + "-vV"@,
            requirement: Requirement::Required,
            remediation: "Install a Rust toolchain with `rustup toolchain install stable`."@,
        }
    } else if i == 2 {
        Tool {
            component: "Cargo"@,
            program: "cargo"@,
            args: seq!["-V"@],
            command: "cargo"@ + " "@ + "-V"@,
            requirement: Requirement::Required,
            remediation: "Install a Rust toolchain with `rustup toolchain install stable`."@,
        }
    } else if i == 3 {
        Tool {
            component: "rust-analyzer"@,
            program: "rust-analyzer"@,
            args: seq!["--version"@],
            command: "rust-analyzer"@ + " "@ + "--version"@,
            requirement: Requirement::Optional,
            remediation: "Enable language services with `rustup component add rust-analyzer`."@,
        }
    } else if i == 4 {
        Tool {
            component: "rustfmt"@,
            program: "rustfmt"@,
            args: seq!["--version"@],
            command: "rustfmt"@ + " "@ + "--version"@,
            requirement: Requirement::Optional,
            remediation: "Enable formatting with `rustup component add rustfmt`."@,
        }
    } else {
        Tool {
            component: "Clippy"@,
            program: "cargo"@,
            args: seq!["clippy"@, "-V"@],
            command: "cargo"@ + " "@ + "clippy"@ + " "@ + "-V"@,
            requirement: Requirement::Optional,
            remediation: "Enable linting with `rustup component add clippy`."@,
        }
    }
}

pub const TOOL_COUNT: usize = 6;

proof fn lemma_spaced_one(program: Seq<char>, a: &'static str)
    ensures
        spaced(program, seq![a]) == program + " "@ + a@,
{
    reveal_with_fuel(spaced, 2);
    assert(seq![a].drop_last() =~= Seq::<&'static str>::empty());
}

proof fn lemma_spaced_two(program: Seq<char>, a: &'static str, b: &'static str)
    ensures
        spaced(program, seq![a, b]) == program + " "@ + a@ + " "@ + b@,
{
    reveal_with_fuel(spaced, 2);
    assert(seq![a, b].drop_last() =~= seq![a]);
    lemma_spaced_one(program, a);
}

fn asked(program: &'static str, argument: &'static str) -> (r: ProbeCommand)
    ensures
        r.program@ == program@,
        words(r.args@) == seq![argument@],
        spaced(r.program@, r.args@) == program@ + " "@ + argument@,
{
    let r = ProbeCommand { program, args: vec![argument] };
    proof {
        lemma_spaced_one(program@, argument);
        assert(r.args@ =~= seq![argument]);
    }
    r
}

/// The tools in the order in which they are asked.
pub fn tool(i: usize) -> (r: ToolSpec)
    requires
        i < TOOL_COUNT,
    ensures
        r.view() == tool_of(i as int),
{
    if i == 0 {
        ToolSpec {
            component: "rustup",
            command: asked("rustup", "--version"),
            requirement: Requirement::Required,
            remediation: "Install rustup from https://rustup.rs, then restart the terminal.",
        }
    } else if i == 1 {
        ToolSpec {
            component: "Rust compiler",
            command: asked("rustc", "-vV"),
            requirement: Requirement::Required,
            remediation: "Install a Rust toolchain with `rustup toolchain install stable`.",
        }
    } else if i == 2 {
        ToolSpec {
            component: "Cargo",
            command: asked("cargo", "-V"),
            requirement: Requirement::Required,
            remediation: "Install a Rust toolchain with `rustup toolchain install stable`.",
        }
    } else if i == 3 {
        ToolSpec {
            component: "rust-analyzer",
            command: asked("rust-analyzer", "--version"),
            requirement: Requirement::Optional,
            remediation: "Enable language services with `rustup component add rust-analyzer`.",
        }
    } else if i == 4 {
        ToolSpec {
            component: "rustfmt",
            command: asked("rustfmt", "--version"),
            requirement: Requirement::Optional,
            remediation: "Enable formatting with `rustup component add rustfmt`.",
        }
    } else {
        let args: Vec<&'static str> = vec!["clippy", "-V"];
        proof {
            lemma_spaced_two("cargo"@, "clippy", "-V");
            assert(args@ =~= seq!["clippy", "-V"]);
            assert(words(args@) =~= seq!["clippy"@, "-V"@]);
        }
        ToolSpec {
            component: "Clippy",
            command: ProbeCommand { program: "cargo", args },
            requirement: Requirement::Optional,
            remediation: "Enable linting with `rustup component add clippy`.",
        }
    }
}

// Evidence.

/// White space and control characters.
pub open spec fn is_blank(c: char) -> bool {
    text::is_white(c) || text::is_control(c)
}

/// A text with each run of blanks made one space and none at its ends; and
/// whether a space is due before what follows.
pub open spec fn squeezed(s: Seq<char>) -> (Seq<char>, bool)
    decreases s.len(),
{
    if s.len() == 0 {
        (Seq::empty(), false)
    } else {
        let (n, due) = squeezed(s.drop_last());
        if is_blank(s.last()) {
            (n, n.len() > 0)
        } else if due {
            (n.push(' ').push(s.last()), false)
        } else {
            (n.push(s.last()), false)
        }
    }
}

pub open spec fn shortened(s: Seq<char>) -> Option<Seq<char>> {
    if s.len() == 0 {
        None
    } else if s.len() > MAX_EVIDENCE_CHARS {
        Some(s.take(MAX_EVIDENCE_CHARS as int) + "…"@)
    } else {
        Some(s)
    }
}

/// The beginning of an output on one line.
pub open spec fn concise(output: Seq<char>) -> Option<Seq<char>> {
    if output.len() <= DEFAULT_CAPTURE_LIMIT_BYTES {
        shortened(squeezed(output).0)
    } else {
        shortened(squeezed(output.take(DEFAULT_CAPTURE_LIMIT_BYTES as int)).0)
    }
}

proof fn lemma_squeezed_grows(s: Seq<char>, k: int)
    requires
        0 <= k <= s.len(),
    ensures
        squeezed(s.take(k)).0.len() <= squeezed(s).0.len(),
        squeezed(s).0.take(squeezed(s.take(k)).0.len() as int) == squeezed(s.take(k)).0,
    decreases s.len(),
{
    if k == s.len() {
        assert(s.take(k) =~= s);
        assert(squeezed(s).0.take(squeezed(s).0.len() as int) =~= squeezed(s).0);
    } else {
        let t = s.drop_last();
        assert(t.take(k) =~= s.take(k));
        lemma_squeezed_grows(t, k);
        let a = squeezed(s.take(k)).0;
        let b = squeezed(t).0;
        assert(squeezed(s).0.take(a.len() as int) =~= b.take(a.len() as int));
    }
}

fn shorten(out: &Vec<char>) -> (r: Option<String>)
    ensures
        opt_string(r) == shortened(out@),
{
    if out.len() == 0 {
        return None;
    }
    if out.len() > MAX_EVIDENCE_CHARS {
        let mut r = text::string_of(out.as_slice(), 0, MAX_EVIDENCE_CHARS);
        assert(r@ =~= out@.take(MAX_EVIDENCE_CHARS as int));
        r.push_str("…");
        Some(r)
    } else {
        let r = text::string_of(out.as_slice(), 0, out.len());
        assert(r@ =~= out@);
        Some(r)
    }
}

pub fn concise_output(output: &str) -> (r: Option<String>)
    ensures
        opt_string(r) == concise(output@),
{
    let chars = text::chars_of(output);
    let ghost all = if chars@.len() <= DEFAULT_CAPTURE_LIMIT_BYTES {
        chars@
    } else {
        chars@.take(DEFAULT_CAPTURE_LIMIT_BYTES as int)
    };
    let mut out: Vec<char> = Vec::new();
    let mut due = false;
    let mut i: usize = 0;
    assert(all.take(0) =~= Seq::<char>::empty());
    while i < chars.len() && i < DEFAULT_CAPTURE_LIMIT_BYTES
        invariant
            i <= all.len(),
            chars@ == output@,
            all == (if chars@.len() <= DEFAULT_CAPTURE_LIMIT_BYTES {
                chars@
            } else {
                chars@.take(DEFAULT_CAPTURE_LIMIT_BYTES as int)
            }),
            (out@, due) == squeezed(all.take(i as int)),
        decreases chars@.len() - i,
    {
        let c: char = chars[i];
        proof {
            assert(all.take(i + 1).drop_last() =~= all.take(i as int));
            assert(all.take(i + 1).last() == c);
        }
        if text::white(c) || text::control(c) {
            due = out.len() > 0;
        } else {
            if due {
                out.push(' ');
                due = false;
            }
            out.push(c);
            if out.len() > MAX_EVIDENCE_CHARS {
                proof {
                    lemma_squeezed_grows(all, i + 1);
                    let whole = squeezed(all).0;
                    assert(whole.take(MAX_EVIDENCE_CHARS as int) =~= out@.take(
                        MAX_EVIDENCE_CHARS as int,
                    )) by {
                        assert(whole.take(out@.len() as int) == out@);
                        assert forall|j: int| 0 <= j < MAX_EVIDENCE_CHARS implies whole[j] == out@[j] by {
                            assert(whole.take(out@.len() as int)[j] == whole[j]);
                        }
                    }
                }
                return shorten(&out);
            }
        }
        i += 1;
    }
    assert(all.take(all.len() as int) =~= all);
    shorten(&out)
}

pub open spec fn evidence_of(exit_code: Option<i32>, timeout_ms: Option<u64>, stdout: Seq<char>, stderr: Seq<char>) -> Evidence {
    Evidence { exit_code, timeout_ms, stdout: concise(stdout), stderr: concise(stderr) }
}

fn evidence(exit_code: Option<i32>, timeout_ms: Option<u64>, stdout: &str, stderr: &str) -> (r: ExecutionEvidence)
    ensures
        r.view() == evidence_of(exit_code, timeout_ms, stdout@, stderr@),
{
    ExecutionEvidence {
        exit_code,
        timeout_ms,
        stdout: concise_output(stdout),
        stderr: concise_output(stderr),
    }
}

pub open spec fn status_of(e: Ran) -> ToolStatus {
    match e {
        Ran::NotFound => ToolStatus::NotFound,
        Ran::Succeeded { .. } => ToolStatus::Available,
        Ran::Failed { .. } => ToolStatus::Failed,
        Ran::TimedOut { .. } => ToolStatus::TimedOut,
    }
}

pub open spec fn message_of(command: Seq<char>, e: Ran) -> Seq<char> {
    match e {
        Ran::NotFound => "executable was not found for `"@ + command + "`"@,
        Ran::Succeeded { .. } => "version probe succeeded: `"@ + command + "`"@,
        Ran::Failed { .. } => "version probe failed: `"@ + command + "`"@,
        Ran::TimedOut { timeout, .. } => "version probe timed out after "@ + text::decimal(
            timeout as nat,
        ) + " ms: `"@ + command + "`"@,
    }
}

/// What is found of a tool whose run came to this.
pub open spec fn finding(tool: Tool, e: Ran) -> Finding {
    Finding {
        component: tool.component,
        command: tool.command,
        requirement: tool.requirement,
        status: status_of(e),
        level: if status_of(e) == ToolStatus::Available {
            DiagnosticLevel::Info
        } else if tool.requirement == Requirement::Required {
            DiagnosticLevel::Error
        } else {
            DiagnosticLevel::Warning
        },
        message: message_of(tool.command, e),
        evidence: match e {
            Ran::NotFound => no_evidence(),
            Ran::Succeeded { stdout, stderr } => evidence_of(Some(0), None, stdout, stderr),
            Ran::Failed { exit_code, stdout, stderr } => evidence_of(exit_code, None, stdout, stderr),
            Ran::TimedOut { timeout, stdout, stderr } => evidence_of(
                None,
                Some(timeout),
                stdout,
                stderr,
            ),
        },
        remediation: if status_of(e) == ToolStatus::Available {
            ""@
        } else {
            tool.remediation
        },
    }
}

fn quoted(before: &str, command: &str) -> (r: String)
    ensures
        r@ == before@ + command@ + "`"@,
{
    let mut r = before.to_owned();
    r.push_str(command);
    r.push_str("`");
    r
}

pub fn diagnostic_for(tool: &ToolSpec, execution: CommandExecution) -> (r: ComponentDiagnostic)
    ensures
        r.view() == finding(tool.view(), execution.view()),
{
    let invocation = tool.command.invocation();
    let command = invocation.as_str();
    let (status, message, evidence) = match execution {
        CommandExecution::NotFound => (
            ToolStatus::NotFound,
            quoted("executable was not found for `", command),
            ExecutionEvidence::default(),
        ),
        CommandExecution::Succeeded { stdout, stderr } => (
            ToolStatus::Available,
            quoted("version probe succeeded: `", command),
            evidence(Some(0), None, stdout.as_str(), stderr.as_str()),
        ),
        CommandExecution::Failed { exit_code, stdout, stderr } => (
            ToolStatus::Failed,
            quoted("version probe failed: `", command),
            evidence(exit_code, None, stdout.as_str(), stderr.as_str()),
        ),
        CommandExecution::TimedOut { timeout, stdout, stderr } => {
            let mut m = "version probe timed out after ".to_owned();
            m.push_str(text::write_decimal(timeout).as_str());
            m.push_str(" ms: `");
            m.push_str(command);
            m.push_str("`");
            (
                ToolStatus::TimedOut,
                m,
                evidence(None, Some(timeout), stdout.as_str(), stderr.as_str()),
            )
        },
    };
    let level = if status == ToolStatus::Available {
        DiagnosticLevel::Info
    } else if tool.requirement == Requirement::Required {
        DiagnosticLevel::Error
    } else {
        DiagnosticLevel::Warning
    };
    let remediation = if status == ToolStatus::Available {
        "".to_owned()
    } else {
        tool.remediation.to_owned()
    };
    ComponentDiagnostic {
        component: tool.component.to_owned(),
        command: invocation,
        requirement: tool.requirement,
        status,
        level,
        message,
        evidence,
        remediation,
    }
}

/// What is found when the runs of the tools came to these.
pub open spec fn findings_of(runs: Seq<Ran>) -> Seq<Finding> {
    Seq::new(TOOL_COUNT as nat, |i: int| finding(tool_of(i), runs[i]))
}

/// Whether a run is what a runner may answer when it is asked to run a tool.
pub open spec fn answered<R: CommandRunner>(runner: &R, tool: Tool, ran: Ran) -> bool {
    exists|command: ProbeCommand, execution: CommandExecution|
        #![trigger call_ensures(<R as CommandRunner>::run, (runner, &command), execution)]
        command.program@ == tool.program && words(command.args@) == tool.args && execution.view()
            == ran && call_ensures(<R as CommandRunner>::run, (runner, &command), execution)
}

/// Whether these are answers of a runner, one for each tool in order.
pub open spec fn all_answered<R: CommandRunner>(runner: &R, runs: Seq<Ran>) -> bool {
    &&& runs.len() == TOOL_COUNT
    &&& forall|i: int| 0 <= i < TOOL_COUNT ==> answered(runner, tool_of(i), #[trigger] runs[i])
}

/// Asks every tool once, in order, and reports what came back.
pub fn probe_environment<R: CommandRunner>(runner: &R) -> (report: EnvironmentReport)
    ensures
        exists|runs: Seq<Ran>|
            all_answered(runner, runs) && report.view() == #[trigger] findings_of(runs),
{
    let mut findings: Vec<ComponentDiagnostic> = Vec::new();
    let ghost mut runs: Seq<Ran> = Seq::empty();
    let mut i: usize = 0;
    while i < TOOL_COUNT
        invariant
            i <= TOOL_COUNT,
            findings@.len() == i,
            runs.len() == i,
            forall|j: int| 0 <= j < i ==> answered(runner, tool_of(j), #[trigger] runs[j]),
            forall|j: int| 0 <= j < i ==> (#[trigger] findings@[j]).view() == finding(tool_of(j), runs[j]),
        decreases TOOL_COUNT - i,
    {
        let spec = tool(i);
        let execution = runner.run(&spec.command);
        let ghost ran = execution.view();
        assert(answered(runner, tool_of(i as int), ran));
        findings.push(diagnostic_for(&spec, execution));
        proof {
            runs = runs.push(ran);
        }
        i += 1;
    }
    let report = EnvironmentReport { findings };
    assert(report.view() =~= findings_of(runs));
    report
}

/// Required tools block exactly where one of them is not available.
pub proof fn blockers_are_missing_required_tools(findings: Seq<Finding>)
    ensures
        issues(findings, Requirement::Required) > 0 <==> exists|i: int|
            0 <= i < findings.len() && (#[trigger] findings[i]).requirement == Requirement::Required
                && findings[i].status != ToolStatus::Available,
    decreases findings.len(),
{
    if findings.len() > 0 {
        let before = findings.drop_last();
        blockers_are_missing_required_tools(before);
        if issues(before, Requirement::Required) > 0 {
            let i = choose|i: int|
                0 <= i < before.len() && (#[trigger] before[i]).requirement == Requirement::Required
                    && before[i].status != ToolStatus::Available;
            assert(findings[i] == before[i]);
        }
        if exists|i: int|
            0 <= i < findings.len() && (#[trigger] findings[i]).requirement == Requirement::Required
                && findings[i].status != ToolStatus::Available {
            let i = choose|i: int|
                0 <= i < findings.len() && (#[trigger] findings[i]).requirement == Requirement::Required
                    && findings[i].status != ToolStatus::Available;
            if i < before.len() {
                assert(before[i] == findings[i]);
            }
        }
    }
}

} // verus!
