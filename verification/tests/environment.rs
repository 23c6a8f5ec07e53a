use rustrace::cli::{run_cli, write_stopped, CliCommand, CliRun, USAGE};
use rustrace::environment::{
    after_exit, append_error, capture, concise_output, execution_from, execution_of, group_message,
    probe_environment, reap_message, wait_message, wait_step,
    ChildOutcome, CommandExecution, CommandRunner, DiagnosticLevel, ProbeCommand, Requirement,
    SystemCommandRunner, ToolStatus, WaitStatus, WaitStep,
};
use std::cell::RefCell;

struct NothingAvailable;

impl CommandRunner for NothingAvailable {
    fn run(&self, _command: &ProbeCommand) -> CommandExecution {
        CommandExecution::NotFound
    }
}

struct Answers;

impl CommandRunner for Answers {
    fn run(&self, command: &ProbeCommand) -> CommandExecution {
        match command.invocation().as_str() {
            "rustc -vV" => CommandExecution::Failed {
                exit_code: Some(-1),
                stdout: String::new(),
                stderr: "no\ttoolchain\n".to_owned(),
            },
            "cargo -V" => CommandExecution::TimedOut {
                timeout: 3_000,
                stdout: String::new(),
                stderr: String::new(),
            },
            _ => CommandExecution::Succeeded {
                stdout: "tool 1.0\n".to_owned(),
                stderr: String::new(),
            },
        }
    }
}

fn args(words: &[&str]) -> Vec<String> {
    words.iter().map(|word| (*word).to_owned()).collect()
}

#[test]
fn injected_runner_controls_the_probe_without_host_commands() {
    let report = probe_environment(&NothingAvailable);

    assert_eq!(report.required_issue_count(), 3);
    assert_eq!(report.optional_issue_count(), 3);
    assert!(report.has_blockers());
}

struct Asked {
    commands: RefCell<Vec<ProbeCommand>>,
}

impl CommandRunner for Asked {
    fn run(&self, command: &ProbeCommand) -> CommandExecution {
        self.commands.borrow_mut().push(command.clone());
        CommandExecution::NotFound
    }
}

#[test]
fn every_tool_is_asked_once_and_in_order() {
    let runner = Asked {
        commands: RefCell::new(Vec::new()),
    };
    let CliRun::Done { lines, code } = run_cli(&args(&["rustrace", "environment"]), &runner) else {
        panic!("not answered");
    };
    let asked: Vec<(&str, Vec<&str>)> = runner
        .commands
        .borrow()
        .iter()
        .map(|command| (command.program, command.args.clone()))
        .collect();
    assert_eq!(
        asked,
        [
            ("rustup", vec!["--version"]),
            ("rustc", vec!["-vV"]),
            ("cargo", vec!["-V"]),
            ("rust-analyzer", vec!["--version"]),
            ("rustfmt", vec!["--version"]),
            ("cargo", vec!["clippy", "-V"]),
        ]
    );
    assert_eq!(code, 1);
    assert_eq!(
        lines.last().unwrap(),
        "Environment check failed: 3 required tools are unavailable."
    );
}

#[test]
fn findings_keep_what_the_tools_said() {
    let report = probe_environment(&Answers);
    let cargo = report
        .diagnostics()
        .iter()
        .find(|found| found.command == "cargo -V")
        .unwrap();
    assert_eq!(cargo.status, ToolStatus::TimedOut);
    assert_eq!(cargo.level, DiagnosticLevel::Error);
    assert_eq!(cargo.requirement, Requirement::Required);
    assert_eq!(cargo.evidence.timeout_ms, Some(3_000));
    assert!(report.has_blockers());
}

#[test]
fn evidence_is_one_short_line() {
    assert_eq!(concise_output(" \n\t"), None);
    assert_eq!(concise_output("a \n b\t c"), Some("a b c".to_owned()));
    let long = "x".repeat(200);
    let shown = concise_output(&long).unwrap();
    assert_eq!(shown.chars().count(), 161);
    assert!(shown.ends_with('…'));
}

#[test]
fn captures_stop_at_their_limit() {
    let mut kept = b"ab".to_vec();
    capture(&mut kept, b"cdef", 4);
    assert_eq!(kept, b"abcd");
    capture(&mut kept, b"more", 4);
    assert_eq!(kept, b"abcd");
}

#[test]
fn waiting_ends_at_the_deadline_and_not_before() {
    assert!(matches!(wait_step(&WaitStatus::Running, 9, 10), WaitStep::Sleep(1)));
    assert!(matches!(wait_step(&WaitStatus::Running, 10, 10), WaitStep::Expire));
}

#[test]
fn errors_are_put_behind_what_a_tool_wrote() {
    let mut stderr = "first".to_owned();
    append_error(&mut stderr, Some("second".to_owned()));
    assert!(stderr.starts_with("first") && stderr.ends_with("second"));
    append_error(&mut stderr, None);
    assert!(stderr.ends_with("second"));
    assert_eq!(reap_message(None, None, None), None);
    assert!(reap_message(None, Some("denied".to_owned()), None)
        .unwrap()
        .contains("denied"));
}

#[test]
fn a_runner_has_the_limits_that_it_is_given() {
    let runner = SystemCommandRunner::with_limits(5, 7);
    assert_eq!((runner.timeout, runner.capture_limit), (5, 7));
    let default = SystemCommandRunner::default();
    assert_eq!((default.timeout, default.capture_limit), (3_000, 16_384));
}

#[test]
fn the_environment_report_names_each_tool_and_ends_with_a_verdict() {
    let CliRun::Done { lines, code } = run_cli(&args(&["rustrace", "environment"]), &Answers) else {
        panic!("not answered");
    };
    assert_eq!(code, 1);
    assert!(lines.iter().any(|line| line == "  status: -1"), "{lines:?}");
    assert!(lines.iter().any(|line| line == "  timeout: 3000 ms"), "{lines:?}");
    assert!(lines.iter().any(|line| line == "  stderr: no toolchain"), "{lines:?}");
    assert_eq!(
        lines.last().unwrap(),
        "Environment check failed: 2 required tools are unavailable."
    );
}

#[test]
fn an_unknown_command_line_is_answered_with_the_usage() {
    for line in [
        &["rustrace"][..],
        &["rustrace", "environment", "more"],
        &["rustrace", "--version", "--loud"],
        &["rustrace", "unknown"],
    ] {
        assert_eq!(
            run_cli(&args(line), &NothingAvailable),
            CliRun::Done {
                lines: vec![USAGE.to_owned()],
                code: 2
            },
            "{line:?}"
        );
    }
}

#[test]
fn commands_are_told_with_their_arguments() {
    assert_eq!(
        run_cli(&args(&["rustrace", "--version", "--verbose"]), &NothingAvailable),
        CliRun::Call {
            command: CliCommand::Version { verbose: true },
            args: args(&["--verbose"])
        }
    );
    assert_eq!(
        run_cli(&args(&["rustrace", "scan", "dir", "--output", "x"]), &NothingAvailable),
        CliRun::Call {
            command: CliCommand::Scan,
            args: args(&["dir", "--output", "x"])
        }
    );
}

#[test]
fn a_stopped_command_says_so_safely() {
    assert_eq!(
        write_stopped(CliCommand::Work, &args(&["bad\u{1b}", " end"])),
        ("work stopped: bad\\u{1b} end".to_owned(), 1)
    );
    assert_eq!(
        write_stopped(CliCommand::Doctor, &args(&["usage"])),
        ("usage".to_owned(), 2)
    );
    assert_eq!(
        write_stopped(CliCommand::Replay, &args(&["lost"])),
        ("lost".to_owned(), 1)
    );
}

#[test]
fn a_child_that_fails_is_told_with_its_error() {
    let told = execution_of(
        ChildOutcome::Failed("denied".to_owned()),
        true,
        3_000,
        String::new(),
        String::new(),
    );
    assert_eq!(
        told,
        CommandExecution::Failed {
            exit_code: None,
            stdout: String::new(),
            stderr: "denied".to_owned()
        }
    );
    assert_eq!(
        execution_of(
            ChildOutcome::Exited { success: true, code: Some(0) },
            false,
            3_000,
            "part".to_owned(),
            String::new(),
        ),
        CommandExecution::TimedOut {
            timeout: 3_000,
            stdout: "part".to_owned(),
            stderr: String::new()
        }
    );
}

#[test]
fn output_is_read_as_text_and_other_bytes_are_marked() {
    let exited = ChildOutcome::Exited {
        success: true,
        code: Some(0),
    };
    assert_eq!(
        execution_from(exited, true, 5, "é".as_bytes(), b"a\xffb"),
        CommandExecution::Succeeded {
            stdout: "é".to_owned(),
            stderr: "a\u{fffd}b".to_owned(),
        }
    );
}

#[test]
fn a_failed_wait_and_a_failed_cleanup_are_both_told() {
    assert_eq!(wait_message("gone", None), "failed to wait for probe: gone");
    assert_eq!(
        wait_message("gone", Some(group_message("denied"))),
        "failed to wait for probe: gone; failed to clean up probe process group: denied"
    );
}

#[test]
fn an_exit_with_a_group_that_stays_is_a_failure() {
    let exited = || ChildOutcome::Exited {
        success: true,
        code: Some(0),
    };
    let (outcome, until) = after_exit(exited(), None, 100, 900);
    assert!(matches!(outcome, ChildOutcome::Exited { success: true, .. }));
    assert_eq!(until, 900);
    let (outcome, until) = after_exit(exited(), Some("stays".to_owned()), 100, 900);
    assert!(matches!(outcome, ChildOutcome::Failed(error) if error == "stays"));
    assert_eq!(until, 150);
    let (outcome, until) = after_exit(ChildOutcome::TimedOut(None), None, 100, 100);
    assert!(matches!(outcome, ChildOutcome::TimedOut(None)));
    assert_eq!(until, 150);
}
