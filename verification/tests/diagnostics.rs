use rustrace::cargo_message::DiagnosticEvidenceIssue;
use rustrace::diagnostics::{
    byte_lines, derive_command_diagnostics, CommandDiagnostics, DiagnosticOutcome, EvidenceRules,
    MAX_OUTPUT_LINE_BYTES,
};
use rustrace::model::{
    CaptureCompleteness, CommandCapture, CommandOutcome, CommandTermination, CommandTreeLink,
    ControlledAction, ControlledCommandFinished, ControlledCommandOutput, ControlledCommandStarted,
    OutputStream,
};

fn tree() -> CommandTreeLink {
    CommandTreeLink {
        checkpoint_sequence: 1,
        checkpoint_event_hash: rustrace::model::Hash::zero(),
        workspace_hash: rustrace::model::Hash::zero(),
        workspace_version: 1,
    }
}

fn derive(
    action: ControlledAction,
    stdout: &[u8],
    stderr: &[u8],
    outcome: CommandOutcome,
    completeness: CaptureCompleteness,
) -> CommandDiagnostics {
    let start = ControlledCommandStarted {
        command_id: "c".to_owned(),
        action,
        argv: vec![],
        selected_toolchain: "1.98.1".to_owned(),
        tools: vec![],
        before: tree(),
        output_limit: 1024 * 1024,
        console: false,
    };
    let mut chunks = Vec::new();
    for (stream, bytes) in [(OutputStream::Stdout, stdout), (OutputStream::Stderr, stderr)] {
        if !bytes.is_empty() {
            chunks.push(ControlledCommandOutput {
                command_id: "c".to_owned(),
                stream,
                offset: 0,
                bytes: Some(bytes.to_vec()),
            });
        }
    }
    let capture = |bytes: &[u8]| CommandCapture {
        bytes: bytes.len() as u64,
        completeness,
    };
    let finish = ControlledCommandFinished {
        command_id: "c".to_owned(),
        after: tree(),
        outcome,
        stdout: capture(stdout),
        stderr: capture(stderr),
    };
    let rules = EvidenceRules {
        max_output_bytes: 16 * 1024 * 1024,
        refused_lines: vec![b"refused".to_vec()],
    };
    derive_command_diagnostics(&start, &chunks, &finish, &rules)
}

const MESSAGE: &str = "{\"reason\":\"compiler-message\",\"package_id\":\"student 0.1.0\",\"manifest_path\":\"/work/Cargo.toml\",\"target\":{\"kind\":[\"bin\"],\"crate_types\":[\"bin\"],\"name\":\"student\",\"src_path\":\"/work/src/main.rs\",\"edition\":\"2024\"},\"message\":{\"rendered\":\"error: broken\\n\",\"message\":\"broken\",\"code\":{\"code\":\"E0308\",\"explanation\":null},\"level\":\"error\",\"spans\":[{\"file_name\":\"src/main.rs\",\"byte_start\":1,\"byte_end\":4,\"line_start\":1,\"line_end\":1,\"column_start\":2,\"column_end\":5,\"is_primary\":true,\"label\":\"here\",\"suggested_replacement\":null,\"suggestion_applicability\":null}],\"children\":[]}}\n";

const SUCCESS: &[u8] = b"{\"reason\":\"build-finished\",\"success\":true}\n";

#[test]
fn a_finished_build_is_a_success() {
    let found = derive(
        ControlledAction::Check,
        SUCCESS,
        b"",
        CommandOutcome::Exited { code: 0 },
        CaptureCompleteness::Complete,
    );
    assert_eq!(found.outcome, DiagnosticOutcome::Success);
    assert!(found.known_empty());
    assert!(found.issues.is_empty());
    assert_eq!(found.structured_messages, 1);
}

#[test]
fn compiler_errors_keep_their_places() {
    let stdout = format!("{MESSAGE}{{\"reason\":\"build-finished\",\"success\":false}}\n");
    let found = derive(
        ControlledAction::Check,
        stdout.as_bytes(),
        b"",
        CommandOutcome::Exited { code: 101 },
        CaptureCompleteness::Complete,
    );
    assert_eq!(found.outcome, DiagnosticOutcome::CompilerErrors);
    let diagnostic = &found.diagnostics[0];
    assert!(diagnostic.is_error());
    assert_eq!(diagnostic.code.as_deref(), Some("E0308"));
    let span = diagnostic.primary_span().unwrap();
    assert_eq!((span.byte_start, span.byte_end), (1, 4));
    assert_eq!(span.label.as_deref(), Some("here"));
    assert!(!found.known_empty());
}

#[test]
fn evidence_that_is_not_whole_is_unknown() {
    for (stdout, completeness, issue) in [
        (&b"not json\n"[..], CaptureCompleteness::Complete, DiagnosticEvidenceIssue::Unexpected),
        (&b""[..], CaptureCompleteness::Complete, DiagnosticEvidenceIssue::Missing),
        (SUCCESS, CaptureCompleteness::Truncated, DiagnosticEvidenceIssue::Truncated),
        (SUCCESS, CaptureCompleteness::ReadFailed, DiagnosticEvidenceIssue::ReadFailed),
        (SUCCESS, CaptureCompleteness::Unavailable, DiagnosticEvidenceIssue::Unavailable),
    ] {
        let found = derive(
            ControlledAction::Check,
            stdout,
            b"",
            CommandOutcome::Exited { code: 0 },
            completeness,
        );
        assert_eq!(found.outcome, DiagnosticOutcome::Unknown, "{issue:?}");
        assert!(found.issues.contains(&issue), "{issue:?}: {:?}", found.issues);
    }
}

#[test]
fn a_command_that_did_not_run_failed() {
    let found = derive(
        ControlledAction::Check,
        SUCCESS,
        b"",
        CommandOutcome::Terminated {
            reason: CommandTermination::Deadline,
            signal: None,
        },
        CaptureCompleteness::Complete,
    );
    assert_eq!(found.outcome, DiagnosticOutcome::ExecutionFailed);
}

#[test]
fn test_output_is_kept_as_lines_of_bytes() {
    let mut stdout = b"running \xff test\n".to_vec();
    stdout.extend_from_slice(SUCCESS);
    let mut long = vec![b'x'; MAX_OUTPUT_LINE_BYTES + 9];
    long.push(b'\n');
    let found = derive(
        ControlledAction::Test,
        &stdout,
        &long,
        CommandOutcome::Exited { code: 0 },
        CaptureCompleteness::Complete,
    );
    let kept = &found.output[0];
    assert_eq!(kept.stream, OutputStream::Stdout);
    assert_eq!(kept.original_bytes().unwrap(), b"running \xff test");
    let cut = found
        .output
        .iter()
        .find(|line| line.stream == OutputStream::Stderr)
        .unwrap();
    assert!(cut.truncated);
    assert_eq!(cut.original_bytes().unwrap().len(), MAX_OUTPUT_LINE_BYTES);
}

#[test]
fn lines_end_at_line_feeds() {
    assert_eq!(
        byte_lines(b"a\n\nb"),
        [b"a".to_vec(), b"".to_vec(), b"b".to_vec()]
    );
    assert!(byte_lines(b"").is_empty());
}

#[test]
fn artifacts_keep_their_profile() {
    for (debuginfo, text) in [("2", "2"), ("null", "null"), ("\"line-tables-only\"", "\"line-tables-only\"")] {
        let artifact = format!(
            "{{\"reason\":\"compiler-artifact\",\"package_id\":\"student 0.1.0\",\"manifest_path\":\"/work/Cargo.toml\",\"target\":{{\"kind\":[\"bin\"],\"crate_types\":[\"bin\"],\"name\":\"student\",\"src_path\":\"/work/src/main.rs\",\"edition\":\"2024\"}},\"profile\":{{\"opt_level\":\"0\",\"debuginfo\":{debuginfo},\"debug_assertions\":true,\"overflow_checks\":true,\"test\":false}},\"features\":[],\"filenames\":[\"/work/target/student\"],\"executable\":\"/work/target/student\",\"fresh\":false}}\n"
        );
        let stdout = [artifact.as_bytes(), SUCCESS].concat();
        let found = derive(
            ControlledAction::Build,
            &stdout,
            b"",
            CommandOutcome::Exited { code: 0 },
            CaptureCompleteness::Complete,
        );
        assert!(found.issues.is_empty(), "{:?}", found.issues);
        assert_eq!(found.artifacts[0].profile.as_ref().unwrap().debuginfo, text);
        assert_eq!(found.artifacts[0].executable.as_deref(), Some("/work/target/student"));
    }
}
