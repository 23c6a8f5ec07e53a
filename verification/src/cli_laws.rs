//! What a command line means.

use crate::cli;
use crate::cli::{Cli, CliCommand};
use crate::environment::{Finding, Requirement, ToolStatus};
use crate::text;
use vstd::prelude::*;

verus! {

/// The word by which a command is called.
pub open spec fn calls(name: Seq<char>, command: CliCommand) -> bool {
    match command {
        CliCommand::Version { .. } => false,
        CliCommand::Update => name == "update"@,
        CliCommand::Doctor => name == "doctor"@,
        CliCommand::Work => name == "work"@,
        CliCommand::Submit => name == "submit"@,
        CliCommand::Privacy => name == "privacy"@,
        CliCommand::Status => name == "status"@,
        CliCommand::Revise => name == "revise"@,
        CliCommand::Cleanup => name == "cleanup"@,
        CliCommand::Verify => name == "verify"@,
        CliCommand::Scan => name == "scan"@,
        CliCommand::Replay => name == "replay"@,
    }
}

proof fn lemma_words()
    ensures
        "update"@.len() == 6 && "update"@[0] == 'u',
        "doctor"@.len() == 6 && "doctor"@[0] == 'd',
        "work"@.len() == 4 && "work"@[0] == 'w',
        "submit"@.len() == 6 && "submit"@[0] == 's' && "submit"@[1] == 'u',
        "privacy"@.len() == 7 && "privacy"@[0] == 'p',
        "status"@.len() == 6 && "status"@[0] == 's' && "status"@[1] == 't',
        "revise"@.len() == 6 && "revise"@[0] == 'r' && "revise"@[2] == 'v',
        "cleanup"@.len() == 7 && "cleanup"@[0] == 'c',
        "verify"@.len() == 6 && "verify"@[0] == 'v',
        "scan"@.len() == 4 && "scan"@[0] == 's',
        "replay"@.len() == 6 && "replay"@[0] == 'r' && "replay"@[2] == 'p',
        "environment"@.len() == 11,
        "--version"@.len() == 9,
{
    reveal_strlit("update");
    reveal_strlit("doctor");
    reveal_strlit("work");
    reveal_strlit("submit");
    reveal_strlit("privacy");
    reveal_strlit("status");
    reveal_strlit("revise");
    reveal_strlit("cleanup");
    reveal_strlit("verify");
    reveal_strlit("scan");
    reveal_strlit("replay");
    reveal_strlit("environment");
    reveal_strlit("--version");
}

/// A command is called by its word, and gets what stands behind it.
pub proof fn a_command_is_called_by_its_word(args: Seq<Seq<char>>, command: CliCommand)
    requires
        args.len() >= 2,
        calls(args[1], command),
    ensures
        cli::cli_of(args) == Cli::Call(command, args.skip(2)),
{
    lemma_words();
}

/// Nothing else is called: a call of a command has its word, one of the version has
/// `--version` and nothing or `--verbose`, and the environment is asked for alone.
pub proof fn nothing_else_is_called(args: Seq<Seq<char>>)
    ensures
        match cli::cli_of(args) {
            Cli::Usage => true,
            Cli::Environment => args.len() == 2 && args[1] == "environment"@,
            Cli::Call(CliCommand::Version { verbose }, rest) => {
                &&& args[1] == "--version"@
                &&& verbose ==> args.len() == 3 && args[2] == "--verbose"@
                &&& !verbose ==> args.len() == 2
            },
            Cli::Call(command, rest) => {
                &&& args.len() >= 2
                &&& calls(args[1], command)
                &&& rest == args.skip(2)
            },
        },
{
    lemma_words();
}

/// The version and the environment are told where they are asked for as they are
/// documented.
pub proof fn what_is_documented_is_called(name: Seq<char>)
    ensures
        cli::cli_of(seq![name, "--version"@]) == Cli::Call(
            CliCommand::Version { verbose: false },
            Seq::empty(),
        ),
        cli::cli_of(seq![name, "--version"@, "--verbose"@]) == Cli::Call(
            CliCommand::Version { verbose: true },
            seq!["--verbose"@],
        ),
        cli::cli_of(seq![name, "environment"@]) is Environment,
        cli::cli_of(seq![name]) is Usage,
        cli::cli_of(Seq::empty()) is Usage,
{
    lemma_words();
    assert(seq![name, "--version"@].skip(2) =~= Seq::empty());
    assert(seq![name, "--version"@, "--verbose"@].skip(2) =~= seq!["--verbose"@]);
    assert(seq![name, "environment"@].skip(2) =~= Seq::empty());
}

/// A command that stops says that it did and why. The check of a package and that of
/// a machine have a code of their own for it.
pub proof fn a_stop_is_told(command: CliCommand, pieces: Seq<Seq<char>>)
    ensures
        cli::stopped(command, pieces).1 == 2 <==> command is Doctor || command is Verify,
        cli::stopped(command, pieces).1 == 1 <==> !(command is Doctor || command is Verify),
        command is Work ==> cli::stopped(command, pieces).0 == "work stopped: "@
            + crate::display::label_fmt_of(pieces, 4096),
        command is Submit ==> cli::stopped(command, pieces).0 == "submit stopped: "@
            + crate::display::label_fmt_of(pieces, 4096),
        command is Privacy ==> cli::stopped(command, pieces).0 == "privacy stopped: "@
            + crate::display::label_fmt_of(pieces, 4096),
        command is Status ==> cli::stopped(command, pieces).0 == "status stopped: "@
            + crate::display::label_fmt_of(pieces, 4096),
        command is Revise ==> cli::stopped(command, pieces).0 == "revise stopped: "@
            + crate::display::label_fmt_of(pieces, 4096),
        command is Cleanup ==> cli::stopped(command, pieces).0 == "cleanup stopped: "@
            + crate::display::label_fmt_of(pieces, 4096),
        command is Scan ==> cli::stopped(command, pieces).0 == "scan stopped: "@
            + crate::display::label_of(text::joined(pieces), 4096),
        command is Doctor || command is Verify || command is Replay || command is Update
            ==> cli::stopped(command, pieces).0 == crate::display::label_of(
            text::joined(pieces),
            4096,
        ),
{
}

proof fn lemma_regroup<T>(x: Seq<T>, y: Seq<T>, z: Seq<T>)
    ensures
        (x + y) + z == x + (y + z),
{
    assert((x + y) + z =~= x + (y + z));
}

/// The findings are told one behind the other: what is told of two lists of them is
/// what is told of the first and then of the second.
pub proof fn findings_are_reported_in_order(a: Seq<Finding>, b: Seq<Finding>)
    ensures
        cli::all_lines(a + b) == cli::all_lines(a) + cli::all_lines(b),
    decreases b.len(),
{
    if b.len() == 0 {
        assert(a + b =~= a);
        assert(cli::all_lines(a) + Seq::<Seq<char>>::empty() =~= cli::all_lines(a));
    } else {
        assert((a + b).drop_last() =~= a + b.drop_last());
        findings_are_reported_in_order(a, b.drop_last());
        lemma_regroup(
            cli::all_lines(a),
            cli::all_lines(b.drop_last()),
            cli::finding_lines(b.last()),
        );
        assert((a + b).last() == b.last());
    }
}

/// One finding is told with its heading first, and with help last and only where the
/// tool is not available.
pub proof fn a_finding_is_told(f: Finding)
    ensures
        cli::all_lines(seq![f]) == cli::finding_lines(f),
        cli::finding_lines(f).len() >= 1,
        cli::finding_lines(f)[0] == "["@ + f.level.word() + "] "@ + f.component + " ("@
            + f.requirement.word() + "): "@ + crate::display::label_of(f.message, 2048),
        f.status == ToolStatus::Available && f.evidence.stdout is None && f.evidence.stderr is None
            ==> cli::finding_lines(f).len() == 1,
        f.status != ToolStatus::Available ==> cli::finding_lines(f).last() == "  help: "@
            + f.remediation,
        f.evidence.stderr is Some && f.status == ToolStatus::Available
            ==> cli::finding_lines(f).last() == "  stderr: "@ + crate::display::label_of(
            f.evidence.stderr->0,
            2048,
        ),
{
    reveal_with_fuel(cli::all_lines, 2);
    assert(seq![f].drop_last() =~= Seq::empty());
    assert(cli::all_lines(seq![f]) =~= cli::finding_lines(f));
}

/// The report ends in what it comes to.
pub proof fn a_report_ends_in_its_verdict(findings: Seq<Finding>)
    ensures
        cli::report_of(findings).len() == cli::all_lines(findings).len() + 1,
        cli::report_of(findings).drop_last() == cli::all_lines(findings),
        (forall|i: int|
            0 <= i < findings.len() ==> (#[trigger] findings[i]).status == ToolStatus::Available)
            ==> cli::report_of(findings).last() == "Environment check passed."@,
        cli::code_of(findings) <= 1,
{
    assert(cli::report_of(findings).drop_last() =~= cli::all_lines(findings));
    if forall|i: int|
        0 <= i < findings.len() ==> (#[trigger] findings[i]).status == ToolStatus::Available {
        lemma_no_issue(findings, Requirement::Required);
        lemma_no_issue(findings, Requirement::Optional);
    }
}

proof fn lemma_no_issue(findings: Seq<Finding>, requirement: Requirement)
    requires
        forall|i: int|
            0 <= i < findings.len() ==> (#[trigger] findings[i]).status == ToolStatus::Available,
    ensures
        crate::environment::issues(findings, requirement) == 0,
    decreases findings.len(),
{
    if findings.len() > 0 {
        assert forall|i: int| 0 <= i < findings.len() - 1 implies (#[trigger] findings.drop_last()[
        i]).status == ToolStatus::Available by {
            assert(findings[i].status == ToolStatus::Available);
        }
        assert(findings[findings.len() - 1].status == ToolStatus::Available);
        lemma_no_issue(findings.drop_last(), requirement);
    }
}

} // verus!
