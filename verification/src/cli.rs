//! The command line: what each command does, and what is written of it.

use crate::display;
use crate::environment;
use crate::environment::{
    probe_environment, CommandRunner, ComponentDiagnostic, EnvironmentReport, Finding, Ran,
    Requirement, ToolStatus,
};
use crate::text;
use vstd::prelude::*;

verus! {

pub const USAGE: &'static str = "Usage: rustrace --version [--verbose] | rustrace environment | rustrace update | rustrace update --check | rustrace doctor assignment.rta [--workspace DIR] | rustrace doctor --write-ghostty-keys | rustrace work ... | rustrace replay PATH | rustrace submit WORKSPACE --student-id ID [--allow-incomplete] [--output PATH] | rustrace verify PATH [--reference PATH] | rustrace scan DIRECTORY [--output review.csv] [--reference assignment.rta] | rustrace status WORKSPACE | rustrace privacy WORKSPACE | rustrace revise PARENT_WORKSPACE NEW_WORKSPACE assignment.rta | rustrace cleanup WORKSPACE [--confirm] [--destroy-provenance]";

// The report on the environment.

/// A timed-out finding holds its deadline.
pub open spec fn timed(f: Finding) -> bool {
    f.status == ToolStatus::TimedOut ==> f.evidence.timeout_ms is Some
}

pub open spec fn heading(f: Finding) -> Seq<char> {
    "["@ + f.level.word() + "] "@ + f.component + " ("@ + f.requirement.word() + "): "@
        + display::label_of(f.message, 2048)
}

pub open spec fn status_lines(f: Finding) -> Seq<Seq<char>> {
    if f.status == ToolStatus::Failed {
        match f.evidence.exit_code {
            Some(code) => seq!["  status: "@ + text::signed(code as int)],
            None => seq!["  status: unavailable"@],
        }
    } else {
        Seq::empty()
    }
}

pub open spec fn timeout_lines(f: Finding) -> Seq<Seq<char>> {
    match f.evidence.timeout_ms {
        Some(ms) => if f.status == ToolStatus::TimedOut {
            seq!["  timeout: "@ + text::decimal(ms as nat) + " ms"@]
        } else {
            Seq::empty()
        },
        None => Seq::empty(),
    }
}

pub open spec fn stream_lines(start: Seq<char>, stream: Option<Seq<char>>) -> Seq<Seq<char>> {
    match stream {
        Some(s) => seq![start + display::label_of(s, 2048)],
        None => Seq::empty(),
    }
}

pub open spec fn help_lines(f: Finding) -> Seq<Seq<char>> {
    if f.status != ToolStatus::Available {
        seq!["  help: "@ + f.remediation]
    } else {
        Seq::empty()
    }
}

/// What is written of one tool.
pub open spec fn finding_lines(f: Finding) -> Seq<Seq<char>> {
    seq![heading(f)] + status_lines(f) + timeout_lines(f) + stream_lines(
        "  stdout: "@,
        f.evidence.stdout,
    ) + stream_lines("  stderr: "@, f.evidence.stderr) + help_lines(f)
}

pub open spec fn all_lines(findings: Seq<Finding>) -> Seq<Seq<char>>
    decreases findings.len(),
{
    if findings.len() == 0 {
        Seq::empty()
    } else {
        all_lines(findings.drop_last()) + finding_lines(findings.last())
    }
}

/// The last line: whether the environment will do.
pub open spec fn verdict(findings: Seq<Finding>) -> Seq<char> {
    let required = environment::issues(findings, Requirement::Required);
    let optional = environment::issues(findings, Requirement::Optional);
    if required > 0 {
        "Environment check failed: "@ + text::decimal(required) + " required "@ + (if required
            == 1 {
            "tool is"@
        } else {
            "tools are"@
        }) + " unavailable."@
    } else if optional > 0 {
        "Environment check passed with "@ + text::decimal(optional) + " optional "@ + (if optional
            == 1 {
            "tool"@
        } else {
            "tools"@
        }) + " unavailable."@
    } else {
        "Environment check passed."@
    }
}

pub open spec fn report_of(findings: Seq<Finding>) -> Seq<Seq<char>> {
    all_lines(findings).push(verdict(findings))
}

pub open spec fn code_of(findings: Seq<Finding>) -> u8 {
    if environment::issues(findings, Requirement::Required) > 0 {
        1
    } else {
        0
    }
}

fn write_stream(out: &mut Vec<String>, start: &str, stream: &Option<String>)
    ensures
        text::texts(final(out)@) == text::texts(old(out)@) + stream_lines(
            start@,
            environment::opt_string(*stream),
        ),
{
    let ghost before = text::texts(out@);
    match stream {
        Some(s) => {
            let label = display::label(s.as_str(), 2048);
            text::put(out, text::cat2(start, label.as_str()));
            assert(text::texts(out@) =~= before + stream_lines(start@, Some(s@)));
        },
        None => {
            assert(text::texts(out@) =~= before + stream_lines(start@, None));
        },
    }
}

fn write_status(out: &mut Vec<String>, d: &ComponentDiagnostic)
    ensures
        text::texts(final(out)@) == text::texts(old(out)@) + status_lines(d.view()),
{
    let ghost before = text::texts(out@);
    if d.status == ToolStatus::Failed {
        match d.evidence.exit_code {
            Some(code) => {
                let n = text::write_signed(code);
                text::put(out, text::cat2("  status: ", n.as_str()));
            },
            None => {
                text::put(out, "  status: unavailable".to_owned());
            },
        }
    }
    assert(text::texts(out@) =~= before + status_lines(d.view()));
}

fn write_timeout(out: &mut Vec<String>, d: &ComponentDiagnostic)
    ensures
        text::texts(final(out)@) == text::texts(old(out)@) + timeout_lines(d.view()),
{
    let ghost before = text::texts(out@);
    match d.evidence.timeout_ms {
        Some(ms) => {
            if d.status == ToolStatus::TimedOut {
                let n = text::write_decimal(ms);
                text::put(out, text::cat3("  timeout: ", n.as_str(), " ms"));
            }
        },
        None => {},
    }
    assert(text::texts(out@) =~= before + timeout_lines(d.view()));
}

fn write_finding(out: &mut Vec<String>, d: &ComponentDiagnostic)
    ensures
        text::texts(final(out)@) == text::texts(old(out)@) + finding_lines(d.view()),
{
    let ghost before = text::texts(out@);
    let ghost f = d.view();
    let message = display::label(d.message.as_str(), 2048);
    let line = text::cat7(
        "[",
        d.level.as_str(),
        "] ",
        d.component.as_str(),
        " (",
        d.requirement.as_str(),
        text::cat2("): ", message.as_str()).as_str(),
    );
    proof {
        assert(line@ =~= heading(f));
    }
    text::put(out, line);
    write_status(out, d);
    write_timeout(out, d);
    write_stream(out, "  stdout: ", &d.evidence.stdout);
    write_stream(out, "  stderr: ", &d.evidence.stderr);
    let ghost mid = text::texts(out@);
    if d.status != ToolStatus::Available {
        text::put(out, text::cat2("  help: ", d.remediation.as_str()));
    }
    assert(text::texts(out@) =~= mid + help_lines(f));
    assert(text::texts(out@) =~= before + finding_lines(f));
}

fn write_verdict(report: &EnvironmentReport) -> (r: String)
    ensures
        r@ == verdict(report.view()),
{
    let required = report.required_issue_count();
    let optional = report.optional_issue_count();
    if required > 0 {
        let n = text::write_decimal(required as u64);
        text::cat5(
            "Environment check failed: ",
            n.as_str(),
            " required ",
            if required == 1 {
                "tool is"
            } else {
                "tools are"
            },
            " unavailable.",
        )
    } else if optional > 0 {
        let n = text::write_decimal(optional as u64);
        text::cat5(
            "Environment check passed with ",
            n.as_str(),
            " optional ",
            if optional == 1 {
                "tool"
            } else {
                "tools"
            },
            " unavailable.",
        )
    } else {
        "Environment check passed.".to_owned()
    }
}

/// Writes the report on the environment.
pub fn write_report(report: &EnvironmentReport) -> (out: Vec<String>)
    requires
        forall|i: int| 0 <= i < report.view().len() ==> timed(#[trigger] report.view()[i]),
    ensures
        text::texts(out@) == report_of(report.view()),
{
    let ghost all = report.view();
    let mut out: Vec<String> = Vec::new();
    let mut i: usize = 0;
    assert(all.take(0) =~= Seq::<Finding>::empty());
    assert(text::texts(out@) =~= all_lines(all.take(0)));
    while i < report.findings.len()
        invariant
            i <= report.findings@.len(),
            all == report.view(),
            text::texts(out@) == all_lines(all.take(i as int)),
        decreases report.findings@.len() - i,
    {
        write_finding(&mut out, &report.findings[i]);
        proof {
            assert(all.take(i + 1).drop_last() =~= all.take(i as int));
            assert(all.take(i + 1).last() == report.findings@[i as int].view());
        }
        i += 1;
    }
    assert(all.take(all.len() as int) =~= all);
    let last = write_verdict(report);
    text::put(&mut out, last);
    out
}

// The commands.

/// The commands that are handled elsewhere.
#[derive(Clone, Copy, Debug, PartialEq, Eq, Structural)]
pub enum CliCommand {
    Version { verbose: bool },
    Update,
    Doctor,
    Work,
    Submit,
    Privacy,
    Status,
    Revise,
    Cleanup,
    Verify,
    Scan,
    Replay,
}

/// What a command line comes to: lines and an exit code, or a command with its
/// arguments.
#[derive(Clone, Debug, PartialEq, Eq)]
pub enum CliRun {
    Done { lines: Vec<String>, code: u8 },
    Call { command: CliCommand, args: Vec<String> },
}

pub enum Cli {
    Usage,
    Environment,
    Call(CliCommand, Seq<Seq<char>>),
}

pub open spec fn named_command(name: Seq<char>) -> Option<CliCommand> {
    if name == "update"@ {
        Some(CliCommand::Update)
    } else if name == "doctor"@ {
        Some(CliCommand::Doctor)
    } else if name == "work"@ {
        Some(CliCommand::Work)
    } else if name == "submit"@ {
        Some(CliCommand::Submit)
    } else if name == "privacy"@ {
        Some(CliCommand::Privacy)
    } else if name == "status"@ {
        Some(CliCommand::Status)
    } else if name == "revise"@ {
        Some(CliCommand::Revise)
    } else if name == "cleanup"@ {
        Some(CliCommand::Cleanup)
    } else if name == "verify"@ {
        Some(CliCommand::Verify)
    } else if name == "scan"@ {
        Some(CliCommand::Scan)
    } else if name == "replay"@ {
        Some(CliCommand::Replay)
    } else {
        None
    }
}

/// What a command line asks for. The first argument is the program.
pub open spec fn cli_of(args: Seq<Seq<char>>) -> Cli {
    if args.len() < 2 {
        Cli::Usage
    } else {
        let rest = args.skip(2);
        if args[1] == "--version"@ {
            if rest.len() == 0 {
                Cli::Call(CliCommand::Version { verbose: false }, rest)
            } else if rest.len() == 1 && rest[0] == "--verbose"@ {
                Cli::Call(CliCommand::Version { verbose: true }, rest)
            } else {
                Cli::Usage
            }
        } else {
            match named_command(args[1]) {
                Some(command) => Cli::Call(command, rest),
                None => if args[1] == "environment"@ && rest.len() == 0 {
                    Cli::Environment
                } else {
                    Cli::Usage
                },
            }
        }
    }
}

fn read_command(name: &str) -> (r: Option<CliCommand>)
    ensures
        r == named_command(name@),
{
    if text::str_eq(name, "update") {
        Some(CliCommand::Update)
    } else if text::str_eq(name, "doctor") {
        Some(CliCommand::Doctor)
    } else if text::str_eq(name, "work") {
        Some(CliCommand::Work)
    } else if text::str_eq(name, "submit") {
        Some(CliCommand::Submit)
    } else if text::str_eq(name, "privacy") {
        Some(CliCommand::Privacy)
    } else if text::str_eq(name, "status") {
        Some(CliCommand::Status)
    } else if text::str_eq(name, "revise") {
        Some(CliCommand::Revise)
    } else if text::str_eq(name, "cleanup") {
        Some(CliCommand::Cleanup)
    } else if text::str_eq(name, "verify") {
        Some(CliCommand::Verify)
    } else if text::str_eq(name, "scan") {
        Some(CliCommand::Scan)
    } else if text::str_eq(name, "replay") {
        Some(CliCommand::Replay)
    } else {
        None
    }
}

fn rest_of(args: &Vec<String>) -> (r: Vec<String>)
    requires
        args@.len() >= 2,
    ensures
        text::texts(r@) == text::texts(args@).skip(2),
{
    let ghost all = text::texts(args@);
    let mut r: Vec<String> = Vec::new();
    let mut i: usize = 2;
    assert(text::texts(r@) =~= all.subrange(2, 2));
    while i < args.len()
        invariant
            2 <= i <= args@.len(),
            all == text::texts(args@),
            text::texts(r@) == all.subrange(2, i as int),
        decreases args@.len() - i,
    {
        text::put(&mut r, args[i].clone());
        assert(all.subrange(2, i + 1) =~= all.subrange(2, i as int).push(all[i as int]));
        i += 1;
    }
    assert(all.subrange(2, all.len() as int) =~= all.skip(2));
    r
}

fn usage() -> (r: CliRun)
    ensures
        r matches CliRun::Done { lines, code } && text::texts(lines@) == seq![USAGE@] && code == 2,
{
    let mut lines: Vec<String> = Vec::new();
    text::put(&mut lines, USAGE.to_owned());
    assert(text::texts(lines@) =~= seq![USAGE@]);
    CliRun::Done { lines, code: 2 }
}

/// Runs the command that checks the environment, and says of the other ones
/// which it is. A line that is no command is answered with the usage.
pub fn run_cli<R: CommandRunner>(args: &Vec<String>, runner: &R) -> (r: CliRun)
    ensures
        match cli_of(text::texts(args@)) {
            Cli::Usage => r matches CliRun::Done { lines, code } && text::texts(lines@) == seq![
                USAGE@,
            ] && code == 2,
            Cli::Environment => exists|runs: Seq<Ran>|
                environment::all_answered(runner, runs) && (r matches CliRun::Done { lines, code }
                    && text::texts(lines@) == report_of(#[trigger] environment::findings_of(runs))
                    && code == code_of(environment::findings_of(runs))),
            Cli::Call(c, rest) => r matches CliRun::Call { command, args: given } && command == c
                && text::texts(given@) == rest,
        },
{
    if args.len() < 2 {
        return usage();
    }
    assert(text::texts(args@)[1] == args@[1]@);
    let name = args[1].as_str();
    let rest = rest_of(args);
    if text::str_eq(name, "--version") {
        if rest.len() == 0 {
            return CliRun::Call { command: CliCommand::Version { verbose: false }, args: rest };
        }
        assert(text::texts(rest@)[0] == rest@[0]@);
        if rest.len() == 1 && text::str_eq(rest[0].as_str(), "--verbose") {
            return CliRun::Call { command: CliCommand::Version { verbose: true }, args: rest };
        }
        return usage();
    }
    match read_command(name) {
        Some(command) => CliRun::Call { command, args: rest },
        None => {
            if !text::str_eq(name, "environment") || rest.len() != 0 {
                return usage();
            }
            let report = probe_environment(runner);
            let lines = write_report(&report);
            let code: u8 = if report.has_blockers() {
                1
            } else {
                0
            };
            CliRun::Done { lines, code }
        },
    }
}

/// The word of a command in a message that it stopped.
pub open spec fn stop_word(command: CliCommand) -> Option<Seq<char>> {
    match command {
        CliCommand::Work => Some("work stopped: "@),
        CliCommand::Submit => Some("submit stopped: "@),
        CliCommand::Privacy => Some("privacy stopped: "@),
        CliCommand::Status => Some("status stopped: "@),
        CliCommand::Revise => Some("revise stopped: "@),
        CliCommand::Cleanup => Some("cleanup stopped: "@),
        CliCommand::Scan => Some("scan stopped: "@),
        _ => None,
    }
}

pub open spec fn stop_label(command: CliCommand, pieces: Seq<Seq<char>>) -> Seq<char> {
    match command {
        CliCommand::Work | CliCommand::Submit | CliCommand::Privacy | CliCommand::Status
        | CliCommand::Revise | CliCommand::Cleanup => display::label_fmt_of(pieces, 4096),
        _ => display::label_of(text::joined(pieces), 4096),
    }
}

/// What is written where a command failed, and the exit code.
pub open spec fn stopped(command: CliCommand, pieces: Seq<Seq<char>>) -> (Seq<char>, u8) {
    (
        match stop_word(command) {
            Some(word) => word + stop_label(command, pieces),
            None => stop_label(command, pieces),
        },
        match command {
            CliCommand::Doctor | CliCommand::Verify => 2,
            _ => 1,
        },
    )
}

fn write_stop_word(command: CliCommand) -> (r: Option<&'static str>)
    ensures
        match stop_word(command) {
            Some(w) => r is Some && r->0@ == w,
            None => r is None,
        },
{
    match command {
        CliCommand::Work => Some("work stopped: "),
        CliCommand::Submit => Some("submit stopped: "),
        CliCommand::Privacy => Some("privacy stopped: "),
        CliCommand::Status => Some("status stopped: "),
        CliCommand::Revise => Some("revise stopped: "),
        CliCommand::Cleanup => Some("cleanup stopped: "),
        CliCommand::Scan => Some("scan stopped: "),
        _ => None,
    }
}

/// Says that a command failed. The error comes in the pieces in which it is
/// written.
pub fn write_stopped(command: CliCommand, pieces: &Vec<String>) -> (r: (String, u8))
    ensures
        (r.0@, r.1) == stopped(command, text::texts(pieces@)),
{
    let label = match command {
        CliCommand::Work | CliCommand::Submit | CliCommand::Privacy | CliCommand::Status
        | CliCommand::Revise | CliCommand::Cleanup => display::label_fmt(pieces, 4096),
        _ => {
            let whole = text::join_all(pieces);
            display::label(whole.as_str(), 4096)
        },
    };
    let line = match write_stop_word(command) {
        Some(word) => text::cat2(word, label.as_str()),
        None => label,
    };
    let code: u8 = match command {
        CliCommand::Doctor | CliCommand::Verify => 2,
        _ => 1,
    };
    (line, code)
}

/// Looking at the environment ends with one exactly where a required tool is not
/// available.
pub proof fn the_code_tells_of_required_tools(findings: Seq<Finding>)
    ensures
        code_of(findings) == 1 <==> exists|i: int|
            0 <= i < findings.len() && (#[trigger] findings[i]).requirement == Requirement::Required
                && findings[i].status != ToolStatus::Available,
{
    environment::blockers_are_missing_required_tools(findings);
}

} // verus!
