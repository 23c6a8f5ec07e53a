use rustrace::attempt::{AttemptIndicatorAccumulator, ProcessAttempt, ReviewIndicators};
use rustrace::diagnostics::{DiagnosticOutcome, EvidenceRules};
use rustrace::event_list::indicator_links;
use rustrace::model::{
    CaptureCompleteness, CommandCapture, CommandOutcome, CommandStarted, CommandTermination,
    CommandTreeLink, ControlledAction, ControlledCommandFinished, ControlledCommandOutput,
    ControlledCommandStarted, EditOrigin, EditorTransaction, Event, EventEnvelope,
    OutputStream, TextEdit,
};
use rustrace::process_display::{
    display_factual_indicators, display_process_attempt, display_process_attempt_details,
    display_terminal_factual_indicators, INDICATOR_EXPLANATION,
};
use rustrace::process_indicators::{
    add_edit_indicator, checked_increment, merge_factual, CommandEventLink, CommandIndicator,
    EditIndicator, FactualIndicators, IndicatorEventLink, RejectionIndicator,
    MAX_RETAINED_INDICATOR_LINKS,
};
use rustrace::process_rule::{
    evaluate, observations, OriginScalars, ProcessObservations, ProcessRuleOutcome, ProcessValues,
    PROCESS_RULE_VERSION,
};

fn link(sequence: u64) -> IndicatorEventLink {
    IndicatorEventLink {
        segment: 1,
        session_id: "indicator-test".to_owned(),
        sequence,
    }
}

fn rules() -> EvidenceRules {
    EvidenceRules {
        max_output_bytes: 16 * 1024 * 1024,
        refused_lines: vec![],
    }
}

fn eligible_values() -> ProcessValues {
    ProcessValues {
        inserted_keyboard_scalars: 1_000,
        keyboard_transactions: 20,
        appended_keyboard_scalars: 800,
        removed_keyboard_scalars: 100,
        forward_inserted_scalars: 1_250,
        before_first_build_scalars: 800,
        feedback_opportunities: 4,
        error_edit_rebuild_sequences: 1,
        complete_check_test_commands: 5,
        compiler_error_commands: 1,
        failed_test_commands: 0,
        origins: OriginScalars {
            keyboard: 1_000,
            internal_paste: 250,
            ..OriginScalars::default()
        },
    }
}

#[test]
fn exact_sample_and_observation_boundaries_are_inclusive() {
    let exact = eligible_values();
    assert_eq!(
        evaluate(&exact, None),
        ProcessRuleOutcome::Suggested,
        "I=1000, N=20, I/J=0.8, A/I=0.8, R/I=0.1, F/O=0.25, and B/I=0.8 are inclusive"
    );

    let cases = [
        (
            "I=999",
            ProcessValues {
                inserted_keyboard_scalars: 999,
                removed_keyboard_scalars: 99,
                forward_inserted_scalars: 1_248,
                ..exact
            },
        ),
        (
            "N=19",
            ProcessValues {
                keyboard_transactions: 19,
                ..exact
            },
        ),
        (
            "I/J below 0.8",
            ProcessValues {
                forward_inserted_scalars: 1_251,
                ..exact
            },
        ),
        (
            "A/I below 0.8",
            ProcessValues {
                appended_keyboard_scalars: 799,
                ..exact
            },
        ),
        (
            "R/I above 0.1",
            ProcessValues {
                removed_keyboard_scalars: 101,
                ..exact
            },
        ),
        (
            "F/O above 0.25",
            ProcessValues {
                error_edit_rebuild_sequences: 2,
                before_first_build_scalars: 799,
                ..exact
            },
        ),
        (
            "B/I below 0.8",
            ProcessValues {
                before_first_build_scalars: 799,
                error_edit_rebuild_sequences: 2,
                ..exact
            },
        ),
    ];
    for (name, values) in cases {
        assert_ne!(
            evaluate(&values, None),
            ProcessRuleOutcome::Suggested,
            "{name}"
        );
    }
}

#[test]
fn zero_denominators_low_build_count_and_single_signals_never_suggest() {
    assert_ne!(
        evaluate(&ProcessValues::default(), None),
        ProcessRuleOutcome::Suggested
    );
    let exact = eligible_values();
    for values in [
        ProcessValues {
            complete_check_test_commands: 1,
            ..exact
        },
        ProcessValues {
            feedback_opportunities: 1,
            error_edit_rebuild_sequences: 0,
            before_first_build_scalars: 0,
            ..exact
        },
        ProcessValues {
            appended_keyboard_scalars: 0,
            removed_keyboard_scalars: 500,
            ..exact
        },
    ] {
        assert_ne!(evaluate(&values, None), ProcessRuleOutcome::Suggested);
    }
}

#[test]
fn zero_feedback_opportunities_is_ineligible_when_every_other_guard_passes() {
    let values = ProcessValues {
        feedback_opportunities: 0,
        error_edit_rebuild_sequences: 0,
        ..eligible_values()
    };
    assert_eq!(
        evaluate(&values, None),
        ProcessRuleOutcome::NotEligible {
            reason: "O=0 provides no feedback opportunity".to_owned(),
        }
    );
}

#[test]
fn an_unavailable_reason_comes_before_every_other_outcome() {
    assert_eq!(
        evaluate(&eligible_values(), Some("undo".to_owned())),
        ProcessRuleOutcome::Unavailable {
            reason: "undo".to_owned()
        }
    );
}

fn attempt_of(values: ProcessValues, edits: Vec<u64>, commands: Vec<u64>) -> ProcessAttempt {
    ProcessAttempt {
        attempt: 1,
        session_id: "indicator-test".to_owned(),
        rule_version: PROCESS_RULE_VERSION,
        observations: observations(&values),
        outcome: evaluate(&values, None),
        values,
        edit_links: edits.into_iter().map(link).collect(),
        command_links: commands.into_iter().map(link).collect(),
    }
}

#[test]
fn suggestion_is_deduplicated_and_uses_exact_neutral_wording() {
    let attempt = attempt_of(eligible_values(), vec![2], vec![3]);
    let text = display_process_attempt(&attempt);
    assert_eq!(text.matches("Review suggested:").count(), 1, "{text}");
    assert_eq!(
        text,
        "Review suggested: substantial predominantly append entry with limited recorded revision, together with few observed error/edit/rebuild sequences among known opportunities and most qualifying entry preceded the first recorded Check/Test. Planned or familiar work can show the same pattern; these observations do not establish transcription, AI use or intent."
    );
    for prohibited in [
        "misconduct",
        "cheating",
        "AI probability",
        "authorship proof",
    ] {
        assert!(!text.contains(prohibited), "{text}");
    }
}

struct Harness {
    accumulator: AttemptIndicatorAccumulator,
    sequence: u64,
    text: String,
}

fn transaction(origin: EditOrigin, edits: Vec<TextEdit>) -> EditorTransaction {
    EditorTransaction {
        document_id: "doc".to_owned(),
        version_before: 0,
        version_after: 1,
        origin,
        edits,
    }
}

impl Harness {
    fn new() -> Self {
        Self {
            accumulator: AttemptIndicatorAccumulator::new(
                1,
                "indicator-test".to_owned(),
                rules(),
            ),
            sequence: 0,
            text: String::new(),
        }
    }

    fn event(&mut self, event: Event, pre_edit: bool) {
        self.sequence += 1;
        let envelope = EventEnvelope {
            session_id: "indicator-test".to_owned(),
            sequence: self.sequence,
            event,
        };
        let text = if pre_edit {
            Some(self.text.as_str())
        } else {
            None
        };
        self.accumulator.observe(envelope, text).unwrap();
    }

    fn edit(&mut self, origin: EditOrigin, edits: Vec<TextEdit>) {
        self.event(
            Event::FileEdited(EditorTransaction {
                version_before: self.sequence,
                version_after: self.sequence + 1,
                ..transaction(origin, edits.clone())
            }),
            true,
        );
        for edit in edits.into_iter().rev() {
            self.text.replace_range(
                edit.start_byte as usize..edit.end_byte as usize,
                &edit.inserted_text,
            );
        }
    }

    fn finish(self) -> (FactualIndicators, ProcessAttempt) {
        self.accumulator.finish().unwrap()
    }
}

fn insert(start_byte: u64, end_byte: u64, text: &str) -> TextEdit {
    TextEdit {
        start_byte,
        end_byte,
        inserted_text: text.to_owned(),
    }
}

#[test]
fn streamed_edit_counts_use_unicode_scalars_crlf_eof_and_forward_origins() {
    let mut harness = Harness::new();
    harness.edit(EditOrigin::Keyboard, vec![insert(0, 0, "é🦀\r\n")]);
    harness.edit(EditOrigin::Keyboard, vec![insert(0, 2, "e\u{301}")]);
    let eof = harness.text.len() as u64;
    harness.edit(EditOrigin::Unknown, vec![insert(eof, eof, "λ")]);
    let (factual, attempt) = harness.finish();

    assert_eq!(attempt.values.inserted_keyboard_scalars, 6);
    assert_eq!(attempt.values.appended_keyboard_scalars, 4);
    assert_eq!(attempt.values.removed_keyboard_scalars, 1);
    assert_eq!(attempt.values.forward_inserted_scalars, 7);
    assert_eq!(attempt.values.origins.keyboard, 6);
    assert_eq!(attempt.values.origins.unknown, 1);
    assert_eq!(factual.unknown_origin_edit.transactions, 1);
    assert_eq!(factual.unknown_origin_edit.inserted_scalars, 1);
    assert_eq!(factual.unknown_origin_edit.links, [link(3)]);
}

#[test]
fn deletion_replacement_and_multi_range_or_inverse_events_are_classified_exactly() {
    let mut harness = Harness::new();
    harness.text = "abc🦀".to_owned();
    harness.edit(EditOrigin::Keyboard, vec![insert(3, 7, "")]);
    harness.edit(
        EditOrigin::Keyboard,
        vec![insert(0, 0, "x"), insert(1, 1, "y")],
    );
    harness.edit(EditOrigin::Undo, vec![insert(0, 1, "")]);
    let (_, attempt) = harness.finish();

    assert_eq!(attempt.values.removed_keyboard_scalars, 1);
    assert_eq!(attempt.values.inserted_keyboard_scalars, 0);
    assert_eq!(attempt.values.keyboard_transactions, 0);
    assert_eq!(attempt.values.forward_inserted_scalars, 2);
    assert!(matches!(
        attempt.outcome,
        ProcessRuleOutcome::Unavailable { .. }
    ));
}

#[test]
fn append_requires_an_empty_removal_range_at_pre_edit_eof() {
    let mut harness = Harness::new();
    harness.text = "abc".to_owned();
    harness.edit(EditOrigin::Keyboard, vec![insert(1, 1, "x")]);
    harness.edit(EditOrigin::Keyboard, vec![insert(3, 4, "y")]);
    let (_, attempt) = harness.finish();

    assert_eq!(attempt.values.inserted_keyboard_scalars, 2);
    assert_eq!(attempt.values.keyboard_transactions, 2);
    assert_eq!(attempt.values.appended_keyboard_scalars, 0);
    assert_eq!(attempt.values.removed_keyboard_scalars, 1);
}

#[test]
fn genesis_is_excluded_file_creation_allows_later_append_and_lifecycle_blocks_rule() {
    let mut harness = Harness::new();
    harness.event(Event::FileCreated, false);
    harness.text = "starter".to_owned();
    harness.edit(EditOrigin::Keyboard, vec![insert(7, 7, "x")]);
    harness.event(Event::FileRenamed, false);
    let (_, attempt) = harness.finish();
    assert_eq!(attempt.values.forward_inserted_scalars, 1);
    assert!(matches!(
        attempt.outcome,
        ProcessRuleOutcome::Unavailable { ref reason } if reason.contains("file rename")
    ));
}

#[test]
fn factual_paste_and_rejection_metrics_are_exact_linked_and_bounded() {
    let mut harness = Harness::new();
    let paste = || transaction(EditOrigin::Paste, vec![insert(0, 0, "é🦀\r\n")]);
    harness.event(Event::FileEdited(paste()), true);
    harness.event(Event::InternalPaste(paste()), true);
    harness.event(Event::ExternalObservation, false);
    for _ in 0..300 {
        harness.event(Event::PasteRejected, false);
    }
    let (factual, _) = harness.finish();
    assert_eq!(factual.historical_origin_unverified_paste.transactions, 1);
    assert_eq!(
        factual.historical_origin_unverified_paste.inserted_scalars,
        4
    );
    assert_eq!(factual.allowed_internal_paste.transactions, 1);
    assert_eq!(factual.allowed_internal_paste.inserted_scalars, 4);
    assert_eq!(factual.rejected_external_change.attempts, 1);
    assert_eq!(factual.rejected_paste.attempts, 300);
    assert_eq!(
        factual.rejected_paste.links.len(),
        MAX_RETAINED_INDICATOR_LINKS
    );
}

#[test]
fn terminal_factual_summary_keeps_every_count_and_first_compact_link() {
    let mut factual = FactualIndicators {
        rejected_external_change: RejectionIndicator {
            attempts: 2,
            links: vec![link(1), link(2)],
        },
        unknown_origin_edit: EditIndicator {
            transactions: 3,
            inserted_scalars: 4,
            links: vec![link(3)],
        },
        allowed_internal_paste: EditIndicator {
            transactions: 5,
            inserted_scalars: 6,
            links: vec![link(4)],
        },
        historical_origin_unverified_paste: EditIndicator {
            transactions: 7,
            inserted_scalars: 8,
            links: vec![link(5)],
        },
        rejected_paste: RejectionIndicator {
            attempts: 9,
            links: vec![link(6), link(7)],
        },
        ..FactualIndicators::default()
    };
    factual.commands[1] = CommandIndicator {
        action: ControlledAction::Check,
        started: 10,
        complete: 11,
        exit_zero: 12,
        nonzero_exit: 13,
        compiler_errors: 14,
        unknown: 15,
        links: vec![CommandEventLink {
            start: link(8),
            finish: Some(link(9)),
        }],
    };

    let summary = display_terminal_factual_indicators(&factual);
    for expected in [
        "external-change observations: 2 rejected attempts [segment:1 seq:1]",
        "unknown-origin edits: 3 / 4 chars (Unicode scalars) [segment:1 seq:3]",
        "allowed internal paste: 5 / 6 chars (Unicode scalars) [segment:1 seq:4]",
        "historical origin-unverified paste: 7 / 8 chars (Unicode scalars) [segment:1 seq:5]",
        "rejected paste attempts: 9 [segment:1 seq:6]",
        "repeated rejected external-change attempts: 2 [segment:1 seq:1]",
        "repeated rejected paste attempts: 9 [segment:1 seq:6]",
        "Cargo Check: started 10 complete 11 exit-0 12 nonzero 13 compiler-errors 14 unknown 15 [segment:1 seq:8]",
    ] {
        assert!(
            summary.contains(expected),
            "missing {expected:?}: {summary}"
        );
    }
    assert!(!summary.contains("session:"), "{summary}");
    assert!(summary.len() < 4 * 1024, "{summary}");
}

fn tree() -> CommandTreeLink {
    CommandTreeLink {
        checkpoint_sequence: 1,
        checkpoint_event_hash: rustrace::model::Hash::zero(),
        workspace_hash: rustrace::model::Hash::zero(),
        workspace_version: 1,
    }
}

fn started(id: &str, action: ControlledAction) -> ControlledCommandStarted {
    ControlledCommandStarted {
        command_id: id.to_owned(),
        action,
        argv: vec![],
        selected_toolchain: "1.98.1".to_owned(),
        tools: vec![],
        before: tree(),
        output_limit: 1024 * 1024,
        console: false,
    }
}

fn capture(bytes: usize, completeness: CaptureCompleteness) -> CommandCapture {
    CommandCapture {
        bytes: bytes as u64,
        completeness,
    }
}

fn command(
    harness: &mut Harness,
    id: &str,
    action: ControlledAction,
    stdout: &[u8],
    outcome: CommandOutcome,
    completeness: CaptureCompleteness,
) {
    command_with_start(harness, started(id, action), stdout, outcome, completeness);
}

fn command_with_start(
    harness: &mut Harness,
    start: ControlledCommandStarted,
    stdout: &[u8],
    outcome: CommandOutcome,
    completeness: CaptureCompleteness,
) {
    let id = start.command_id.clone();
    let before = start.before;
    harness.event(Event::ControlledCommandStarted(start), false);
    if !stdout.is_empty() {
        harness.event(
            Event::ControlledCommandOutput(ControlledCommandOutput {
                command_id: id.clone(),
                stream: OutputStream::Stdout,
                offset: 0,
                bytes: Some(stdout.to_vec()),
            }),
            false,
        );
    }
    harness.event(
        Event::ControlledCommandFinished(ControlledCommandFinished {
            command_id: id,
            after: before,
            outcome,
            stdout: capture(stdout.len(), completeness),
            stderr: capture(0, completeness),
        }),
        false,
    );
}

fn run_facts(factual: &FactualIndicators, action: ControlledAction) -> &CommandIndicator {
    factual
        .commands
        .iter()
        .find(|facts| facts.action == action)
        .unwrap()
}

fn successful_output() -> &'static [u8] {
    b"{\"reason\":\"build-finished\",\"success\":true}\n"
}

fn compiler_error_output() -> Vec<u8> {
    let diagnostic = "{\"reason\":\"compiler-message\",\"package_id\":\"student 0.1.0\",\"manifest_path\":\"/work/Cargo.toml\",\"target\":{\"kind\":[\"bin\"],\"crate_types\":[\"bin\"],\"name\":\"student\",\"src_path\":\"/work/src/main.rs\",\"edition\":\"2024\"},\"message\":{\"rendered\":\"error: broken\\n\",\"message\":\"broken\",\"code\":null,\"level\":\"error\",\"spans\":[],\"children\":[]}}";
    format!("{diagnostic}\n{{\"reason\":\"build-finished\",\"success\":false}}\n").into_bytes()
}

fn words(words: &[&str]) -> Vec<String> {
    words.iter().map(|word| (*word).to_owned()).collect()
}

#[test]
fn natural_console_and_packaged_runs_are_known_without_structured_diagnostics() {
    for id in ["console-run", "packaged-run"] {
        let mut harness = Harness::new();
        let mut start = started(id, ControlledAction::Run);
        start.argv = words(&["rustup", "run", "1.98.1", "cargo", "run", "--locked"]);
        start.console = true;
        command_with_start(
            &mut harness,
            start,
            b"natural program output\n",
            CommandOutcome::Exited { code: 0 },
            CaptureCompleteness::Complete,
        );

        let (factual, _) = harness.finish();
        let run = run_facts(&factual, ControlledAction::Run);
        assert_eq!(run.started, 1, "{id}");
        assert_eq!(run.complete, 1, "{id}");
        assert_eq!(run.exit_zero, 1, "{id}");
        assert_eq!(run.nonzero_exit, 0, "{id}");
        assert_eq!(run.compiler_errors, 0, "{id}");
        assert_eq!(run.unknown, 0, "{id}");
        assert!(
            display_terminal_factual_indicators(&factual).contains(
                "Cargo Run: started 1 complete 1 exit-0 1 nonzero 0 compiler-errors 0 unknown 0"
            ),
            "{id}"
        );
    }
}

#[test]
fn every_natural_console_action_uses_exit_and_capture_evidence() {
    for action in [
        ControlledAction::Build,
        ControlledAction::Check,
        ControlledAction::Test,
        ControlledAction::Run,
        ControlledAction::Clippy,
        ControlledAction::Doc,
        ControlledAction::Add,
        ControlledAction::Remove,
        ControlledAction::Update,
    ] {
        for (code, completeness, known) in [
            (0, CaptureCompleteness::Complete, true),
            (101, CaptureCompleteness::Complete, true),
            (0, CaptureCompleteness::Truncated, false),
        ] {
            let mut harness = Harness::new();
            let mut start = started("natural-console", action);
            start.argv = words(&["--locked"]);
            start.console = true;
            command_with_start(
                &mut harness,
                start,
                b"ordinary output\n",
                CommandOutcome::Exited { code },
                completeness,
            );
            let (factual, _) = harness.finish();
            let facts = run_facts(&factual, action);
            assert_eq!(facts.complete, u64::from(known), "{action:?}");
            assert_eq!(facts.unknown, u64::from(!known), "{action:?}");
            assert_eq!(facts.exit_zero, u64::from(known && code == 0), "{action:?}");
            assert_eq!(
                facts.nonzero_exit,
                u64::from(known && code != 0),
                "{action:?}"
            );
            assert_eq!(facts.compiler_errors, 0, "{action:?}");
        }
    }
}

#[test]
fn f7_json_run_keeps_structured_diagnostic_classification() {
    let argv = [
        "rustup",
        "run",
        "1.98.1",
        "cargo",
        "run",
        "--message-format=json",
        "--locked",
    ];
    let mut harness = Harness::new();
    let mut start = started("f7-run", ControlledAction::Run);
    start.argv = words(&argv);
    command_with_start(
        &mut harness,
        start,
        successful_output(),
        CommandOutcome::Exited { code: 0 },
        CaptureCompleteness::Complete,
    );
    let mut malformed = started("f7-run-malformed", ControlledAction::Run);
    malformed.argv = words(&argv);
    command_with_start(
        &mut harness,
        malformed,
        b"ordinary non-JSON output\n",
        CommandOutcome::Exited { code: 0 },
        CaptureCompleteness::Complete,
    );

    let (factual, _) = harness.finish();
    let run = run_facts(&factual, ControlledAction::Run);
    assert_eq!(run.complete, 1);
    assert_eq!(run.exit_zero, 1);
    assert_eq!(run.started, 2);
    assert_eq!(run.unknown, 1);
}

#[test]
fn complete_pairing_distinguishes_known_nonzero_and_compiler_errors() {
    let mut harness = Harness::new();
    command(
        &mut harness,
        "check-1",
        ControlledAction::Check,
        &compiler_error_output(),
        CommandOutcome::Exited { code: 1 },
        CaptureCompleteness::Complete,
    );
    harness.edit(EditOrigin::Keyboard, vec![insert(0, 0, "x")]);
    command(
        &mut harness,
        "test-1",
        ControlledAction::Test,
        successful_output(),
        CommandOutcome::Exited { code: 7 },
        CaptureCompleteness::Complete,
    );
    let (factual, attempt) = harness.finish();
    assert_eq!(attempt.values.complete_check_test_commands, 2);
    assert_eq!(attempt.values.feedback_opportunities, 1);
    assert_eq!(attempt.values.error_edit_rebuild_sequences, 1);
    assert_eq!(attempt.values.compiler_error_commands, 1);
    assert_eq!(attempt.values.failed_test_commands, 1);
    assert_eq!(run_facts(&factual, ControlledAction::Test).nonzero_exit, 1);
}

#[test]
fn streamed_eligible_entry_plus_before_build_suggests_once_with_exact_links() {
    let mut harness = Harness::new();
    for _ in 0..20 {
        let eof = harness.text.len() as u64;
        harness.edit(
            EditOrigin::Keyboard,
            vec![insert(eof, eof, &"x".repeat(50))],
        );
    }
    command(
        &mut harness,
        "check-1",
        ControlledAction::Check,
        successful_output(),
        CommandOutcome::Exited { code: 0 },
        CaptureCompleteness::Complete,
    );
    let eof = harness.text.len() as u64;
    harness.edit(EditOrigin::Keyboard, vec![insert(eof, eof, "y")]);
    command(
        &mut harness,
        "check-2",
        ControlledAction::Check,
        successful_output(),
        CommandOutcome::Exited { code: 0 },
        CaptureCompleteness::Complete,
    );
    let (_, attempt) = harness.finish();

    assert_eq!(attempt.values.inserted_keyboard_scalars, 1_001);
    assert_eq!(attempt.values.keyboard_transactions, 21);
    assert_eq!(attempt.values.appended_keyboard_scalars, 1_001);
    assert_eq!(attempt.values.before_first_build_scalars, 1_000);
    assert_eq!(attempt.values.feedback_opportunities, 1);
    assert!(attempt.observations.entry);
    assert!(!attempt.observations.feedback);
    assert!(attempt.observations.before_build);
    assert_eq!(attempt.outcome, ProcessRuleOutcome::Suggested);
    assert_eq!(attempt.edit_links.len(), 21);
    assert_eq!(attempt.command_links.len(), 4);
    assert_eq!(
        display_process_attempt(&attempt)
            .matches("Review suggested:")
            .count(),
        1
    );
}

#[test]
fn launch_timeout_cancel_truncated_and_malformed_or_missing_diagnostics_suppress_rule() {
    let cases = [
        (
            "launch failure",
            CommandOutcome::LaunchFailed { os_code: Some(2) },
            successful_output().to_vec(),
            CaptureCompleteness::Unavailable,
        ),
        (
            "timeout",
            CommandOutcome::Terminated {
                reason: CommandTermination::Deadline,
                signal: None,
            },
            successful_output().to_vec(),
            CaptureCompleteness::Complete,
        ),
        (
            "cancellation",
            CommandOutcome::Terminated {
                reason: CommandTermination::Cancelled,
                signal: None,
            },
            successful_output().to_vec(),
            CaptureCompleteness::Complete,
        ),
        (
            "truncated output",
            CommandOutcome::Exited { code: 0 },
            successful_output().to_vec(),
            CaptureCompleteness::Truncated,
        ),
        (
            "output read failure",
            CommandOutcome::Terminated {
                reason: CommandTermination::CaptureFailure,
                signal: None,
            },
            successful_output().to_vec(),
            CaptureCompleteness::ReadFailed,
        ),
        (
            "malformed diagnostics",
            CommandOutcome::Exited { code: 0 },
            b"not cargo json\n".to_vec(),
            CaptureCompleteness::Complete,
        ),
        (
            "missing diagnostics",
            CommandOutcome::Exited { code: 0 },
            vec![],
            CaptureCompleteness::Complete,
        ),
    ];
    for (reason, outcome, stdout, completeness) in cases {
        let mut harness = Harness::new();
        command(
            &mut harness,
            "check",
            ControlledAction::Check,
            &stdout,
            outcome,
            completeness,
        );
        let (_, attempt) = harness.finish();
        assert!(
            matches!(attempt.outcome, ProcessRuleOutcome::Unavailable { .. }),
            "{reason}: {:?}",
            attempt.outcome
        );
    }
}

#[test]
fn unpaired_commands_are_unknown_and_resume_breaks_feedback_adjacency() {
    let mut unpaired = Harness::new();
    unpaired.event(
        Event::ControlledCommandStarted(started("check", ControlledAction::Check)),
        false,
    );
    let (_, attempt) = unpaired.finish();
    assert!(matches!(
        attempt.outcome,
        ProcessRuleOutcome::Unavailable { ref reason } if reason.contains("unpaired")
    ));

    let mut resumed = Harness::new();
    command(
        &mut resumed,
        "check-1",
        ControlledAction::Check,
        successful_output(),
        CommandOutcome::Exited { code: 0 },
        CaptureCompleteness::Complete,
    );
    resumed.edit(EditOrigin::Keyboard, vec![insert(0, 0, "x")]);
    resumed.event(Event::SessionResumed, false);
    command(
        &mut resumed,
        "check-2",
        ControlledAction::Check,
        successful_output(),
        CommandOutcome::Exited { code: 0 },
        CaptureCompleteness::Complete,
    );
    assert_eq!(resumed.finish().1.values.feedback_opportunities, 0);
}

#[test]
fn orphan_finish_is_unavailable_and_context_commands_are_not_opportunities() {
    let mut orphan = Harness::new();
    let start = started("orphan", ControlledAction::Check);
    orphan.event(
        Event::ControlledCommandFinished(ControlledCommandFinished {
            command_id: start.command_id,
            after: start.before,
            outcome: CommandOutcome::Exited { code: 0 },
            stdout: capture(0, CaptureCompleteness::Complete),
            stderr: capture(0, CaptureCompleteness::Complete),
        }),
        false,
    );
    assert!(matches!(
        orphan.finish().1.outcome,
        ProcessRuleOutcome::Unavailable { ref reason } if reason.contains("unpaired")
    ));

    let mut context = Harness::new();
    command(
        &mut context,
        "check-1",
        ControlledAction::Check,
        successful_output(),
        CommandOutcome::Exited { code: 0 },
        CaptureCompleteness::Complete,
    );
    command(
        &mut context,
        "run-1",
        ControlledAction::Run,
        successful_output(),
        CommandOutcome::Exited { code: 0 },
        CaptureCompleteness::Complete,
    );
    context.edit(EditOrigin::Keyboard, vec![insert(0, 0, "x")]);
    command(
        &mut context,
        "test-1",
        ControlledAction::Test,
        successful_output(),
        CommandOutcome::Exited { code: 0 },
        CaptureCompleteness::Complete,
    );
    let (facts, attempt) = context.finish();
    assert_eq!(attempt.values.feedback_opportunities, 1);
    assert_eq!(attempt.values.complete_check_test_commands, 2);
    assert_eq!(run_facts(&facts, ControlledAction::Run).complete, 1);
}

#[test]
fn historical_cargo_commands_are_counted_as_unknown_and_suppress_check_test_rule() {
    let mut harness = Harness::new();
    harness.event(
        Event::CargoCommandStarted(CommandStarted {
            command_id: "legacy-check".to_owned(),
            program: "/usr/bin/cargo".to_owned(),
            arguments: vec!["check".to_owned()],
        }),
        false,
    );
    harness.event(Event::CargoCommandFinished("legacy-check".to_owned()), false);
    let (factual, attempt) = harness.finish();
    let check = run_facts(&factual, ControlledAction::Check);
    assert_eq!(check.started, 1);
    assert_eq!(check.complete, 0);
    assert_eq!(check.unknown, 1);
    assert_eq!(check.links[0].start, link(1));
    assert_eq!(check.links[0].finish, Some(link(2)));
    assert!(matches!(
        attempt.outcome,
        ProcessRuleOutcome::Unavailable { ref reason }
            if reason.contains("historical capture completeness")
    ));
}

#[test]
fn every_disallowed_edit_shape_has_a_specific_unavailable_result() {
    let cases = vec![
        (
            "undo",
            Event::FileEdited(transaction(EditOrigin::Undo, vec![insert(0, 0, "")])),
        ),
        (
            "redo",
            Event::FileEdited(transaction(EditOrigin::Redo, vec![insert(0, 0, "")])),
        ),
        ("file deletion", Event::FileDeleted),
        ("file rename", Event::FileRenamed),
        (
            "multi-range",
            Event::FileEdited(transaction(
                EditOrigin::Keyboard,
                vec![insert(0, 0, "a"), insert(0, 0, "b")],
            )),
        ),
    ];
    for (name, event) in cases {
        let mut harness = Harness::new();
        harness.event(event, true);
        let outcome = harness.finish().1.outcome;
        assert!(
            matches!(outcome, ProcessRuleOutcome::Unavailable { .. }),
            "{name}: {outcome:?}"
        );
    }
}

#[test]
fn checked_counters_report_overflow_without_wrapping() {
    let mut value = u64::MAX;
    assert_eq!(
        checked_increment(&mut value, "fixture").unwrap_err(),
        "fixture overflow"
    );
    assert_eq!(value, u64::MAX);
}

#[test]
fn navigation_keeps_visible_links_from_later_categories_and_attempts() {
    let mut indicators = ReviewIndicators::default();
    indicators.factual.allowed_internal_paste.links = (1..=MAX_RETAINED_INDICATOR_LINKS as u64)
        .map(link)
        .collect();
    indicators.factual.rejected_paste.links.push(link(300));
    let later = || IndicatorEventLink {
        segment: 2,
        session_id: "second-attempt".to_owned(),
        sequence: 2,
    };
    let attempt = ProcessAttempt {
        attempt: 2,
        session_id: "second-attempt".to_owned(),
        rule_version: PROCESS_RULE_VERSION,
        values: ProcessValues::default(),
        observations: ProcessObservations::default(),
        outcome: ProcessRuleOutcome::NotEligible {
            reason: "fixture".to_owned(),
        },
        edit_links: vec![later()],
        command_links: vec![],
    };
    indicators.attempts.push(attempt);

    let links = indicator_links(&indicators);
    assert!(links.contains(&link(300)));
    assert!(links.contains(&later()));
    assert_eq!(
        links
            .iter()
            .filter(|candidate| candidate.segment == 1)
            .count(),
        9
    );
}

#[test]
fn detailed_presentation_includes_values_thresholds_links_and_neutral_context() {
    let attempt = attempt_of(eligible_values(), vec![2], vec![3, 4]);
    let mut text = display_process_attempt_details(&attempt);
    text.push_str(&display_factual_indicators(&FactualIndicators::default()).join("; "));
    text.push_str(INDICATOR_EXPLANATION);
    for expected in [
        PROCESS_RULE_VERSION,
        "I=1000 N=20 A=800 R=100 J=1250 B=800 O=4 F=1",
        "I/J=1000/1250",
        "thresholds I>=1000",
        "segment:1 session:indicator-test seq:2",
        "complete Check/Test=5",
        "Unknown means a missing origin explanation",
        "Internal paste is allowed and not inherently suspicious",
        "metadata only, never content size",
        "; edit links segment:1 session:indicator-test seq:2; command links segment:1 session:indicator-test seq:3",
    ] {
        assert!(text.contains(expected), "missing {expected:?}: {text}");
    }
    let lower = text.to_ascii_lowercase();
    for prohibited in [
        "misconduct",
        "cheating",
        "ai probability",
        "authorship proof",
    ] {
        assert!(!lower.contains(prohibited), "{text}");
    }
}

#[test]
fn internal_reuse_contributes_context_but_never_an_observation() {
    let mut values = eligible_values();
    values.origins.internal_paste = 250;
    let observations = observations(&values);
    assert!(observations.entry);
    assert!(observations.feedback);
    assert!(observations.before_build);

    values.forward_inserted_scalars = 1_251;
    assert!(matches!(
        evaluate(&values, None),
        ProcessRuleOutcome::NotEligible { .. }
    ));
}

#[test]
fn diagnostic_outcome_enum_keeps_unknown_distinct() {
    assert_ne!(DiagnosticOutcome::Unknown, DiagnosticOutcome::Success);
}

#[test]
fn merged_facts_add_up_and_an_overflow_is_reported() {
    let mut target = FactualIndicators::default();
    let mut more = FactualIndicators::default();
    more.rejected_paste.attempts = 3;
    more.rejected_paste.links = vec![link(5)];
    more.commands[3].started = 2;
    merge_factual(&mut target, more).unwrap();
    assert_eq!(target.rejected_paste.attempts, 3);
    assert_eq!(target.rejected_paste.links, [link(5)]);
    assert_eq!(target.commands[3].started, 2);

    let mut full = FactualIndicators::default();
    full.rejected_paste.attempts = u64::MAX;
    let mut one = FactualIndicators::default();
    one.rejected_paste.attempts = 1;
    assert!(merge_factual(&mut full, one).unwrap_err().ends_with("overflow"));
}

#[test]
fn what_fits_before_an_overflow_stays_counted() {
    let mut target = FactualIndicators::default();
    target.rejected_paste.attempts = u64::MAX;
    let mut more = FactualIndicators::default();
    more.rejected_external_change.attempts = 2;
    more.rejected_paste.attempts = 1;
    more.commands[3].started = 2;
    assert!(merge_factual(&mut target, more).is_err());
    assert_eq!(target.rejected_external_change.attempts, 2);
    assert_eq!(target.rejected_paste.attempts, u64::MAX);
    assert_eq!(target.commands[3].started, 0);

    let mut indicator = EditIndicator::default();
    indicator.inserted_scalars = u64::MAX;
    assert!(add_edit_indicator(&mut indicator, 1, link(1)).is_err());
    assert_eq!(indicator.transactions, 1);
    assert_eq!(indicator.inserted_scalars, u64::MAX);
    assert!(indicator.links.is_empty());
}

#[test]
fn an_event_that_overflows_keeps_what_came_before() {
    let mut harness = Harness::new();
    harness.accumulator.values.inserted_keyboard_scalars = u64::MAX;
    let envelope = EventEnvelope {
        session_id: "indicator-test".to_owned(),
        sequence: 1,
        event: Event::FileEdited(transaction(EditOrigin::Keyboard, vec![insert(0, 0, "ab")])),
    };
    let refused = harness.accumulator.observe(envelope, Some("")).unwrap_err();
    assert_eq!(refused, "I inserted Keyboard scalar count overflow");
    assert_eq!(harness.accumulator.values.forward_inserted_scalars, 2);
    assert_eq!(harness.accumulator.values.origins.keyboard, 2);
    assert_eq!(harness.accumulator.values.keyboard_transactions, 0);
}
