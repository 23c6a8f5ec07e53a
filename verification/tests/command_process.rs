use rustrace::command_process::{
    not_started, refuse_launch, remember_code, take_after_panic, ChildStatus, CleanupProgress, Execution,
    LiveOutput, OwnedProcessCleanup, PanickedProcessCleanup, ProcessCleanupState, ProcessLimits,
    ProcessRules, ReadEvent, Run, SignalEvent, StdinEvent, StreamCapture, SubmittedInput, WaitEvent,
    WriteEvent, MAX_PENDING_STDIN_BYTES, MAX_STDIN_LINE_BYTES,
};
use rustrace::model::{CaptureCompleteness, CommandOutcome, CommandTermination};

const RULES: ProcessRules = ProcessRules {
    max_deadline: 600_000,
    max_output_bytes: 16 * 1024 * 1024,
    cleanup: 1_000,
};

const LIMITS: ProcessLimits = ProcessLimits {
    deadline: 1_000,
    output_bytes: 1024,
};

#[test]
fn live_console_projection_discards_oldest_bytes_at_its_fixed_bound() {
    let mut live = LiveOutput::new(8, 1);
    live.push(b"12345");
    live.push(b"67890");
    assert_eq!(live.snapshot(), b"34567890");
    let positioned = live.positioned_snapshot();
    assert_eq!(positioned.start, 2);
    assert_eq!(positioned.bytes, b"34567890");
    assert_ne!(positioned.id, LiveOutput::new(8, 2).positioned_snapshot().id);
}

#[test]
fn pieces_of_output_make_the_same_window_as_the_whole() {
    let mut whole = LiveOutput::new(5, 1);
    whole.push(b"abcdefgh");
    let mut pieces = LiveOutput::new(5, 1);
    for byte in b"abcdefgh" {
        pieces.push(&[*byte]);
    }
    assert_eq!(whole.positioned_snapshot(), pieces.positioned_snapshot());
    assert_eq!(whole.snapshot(), b"defgh");
}

#[test]
fn cancellation_before_spawn_does_not_invent_empty_captured_streams() {
    for value in [1, 2] {
        let result = not_started(refuse_launch(&LIMITS, &RULES, value).unwrap());
        assert_eq!(result.stdout.completeness, CaptureCompleteness::Unavailable);
        assert_eq!(result.stderr.completeness, CaptureCompleteness::Unavailable);
        assert!(result.stdout.bytes.is_empty() && result.stderr.bytes.is_empty());
        assert!(matches!(
            result.outcome,
            CommandOutcome::Terminated { signal: None, .. }
        ));
        assert!(result.cleanup_confirmed);
    }
}

#[test]
fn a_command_is_refused_for_a_reason() {
    assert_eq!(
        refuse_launch(&LIMITS, &RULES, 1),
        Some(CommandOutcome::Terminated {
            reason: CommandTermination::Cancelled,
            signal: None
        })
    );
    assert_eq!(
        refuse_launch(&LIMITS, &RULES, 2),
        Some(CommandOutcome::Terminated {
            reason: CommandTermination::Quit,
            signal: None
        })
    );
    assert_eq!(refuse_launch(&LIMITS, &RULES, 0), None);
    assert_eq!(
        refuse_launch(
            &ProcessLimits {
                deadline: 0,
                ..LIMITS
            },
            &RULES,
            0
        ),
        Some(CommandOutcome::LaunchFailed { os_code: None })
    );
}

#[test]
fn two_streams_share_one_room() {
    let mut remaining = 6;
    let mut stdout = StreamCapture::new(true);
    let mut stderr = StreamCapture::new(true);
    assert_eq!(stdout.take_read(ReadEvent::Data(b"abcd"), &mut remaining), (4, true));
    let (kept, _) = stderr.take_read(ReadEvent::Data(b"wxyz"), &mut remaining);
    assert_eq!(kept, 2);
    assert_eq!(remaining, 0);
    assert_eq!(stderr.bytes, b"wx");
    assert_eq!(stderr.completeness, CaptureCompleteness::Truncated);
    assert_eq!(stdout.completeness, CaptureCompleteness::Complete);
}

#[test]
fn a_failed_read_keeps_what_was_read() {
    let mut remaining = 100;
    let mut stream = StreamCapture::new(true);
    stream.take_read(ReadEvent::Data(b"kept"), &mut remaining);
    stream.take_read(ReadEvent::Failed, &mut remaining);
    assert!(stream.done);
    assert_eq!(stream.bytes, b"kept");
    assert_eq!(stream.completeness, CaptureCompleteness::ReadFailed);
}

#[test]
fn pending_input_stays_bounded() {
    let mut input = SubmittedInput::new(true);
    assert!(input.begin_turn());
    let line = "x".repeat(MAX_STDIN_LINE_BYTES);
    let mut taken = 0;
    while input.wants_line() && taken < 100 {
        input.take_line(StdinEvent::Line(line.clone()));
        taken += 1;
    }
    assert!(taken < 100);
    assert!(input.pending.len() <= MAX_PENDING_STDIN_BYTES);
    input.written(WriteEvent::Wrote(10));
    assert_eq!(input.pending.len(), taken * (MAX_STDIN_LINE_BYTES + 1) - 10);
}

#[test]
fn lines_get_their_line_feed_and_the_end_closes_the_pipe() {
    let mut input = SubmittedInput::new(true);
    input.begin_turn();
    input.take_line(StdinEvent::Line("héllo".to_owned()));
    assert_eq!(input.pending, "héllo\n".as_bytes());
    input.take_line(StdinEvent::Eof);
    assert!(input.eof);
    input.written(WriteEvent::Wrote("héllo\n".len()));
    input.end_turn();
    assert!(input.pending.is_empty());
    assert!(!input.writable);
}

#[test]
fn an_exit_is_told_with_its_code() {
    let mut execution = Execution::new(0);
    execution.observe(WaitEvent::Ended(ChildStatus {
        code: Some(7),
        signal: None,
    }));
    assert!(execution.decide(0, 100, false, &LIMITS, 5));
    assert!(execution.wants_group());
    execution.signal(SignalEvent::NoGroup);
    let mut stdout = None;
    let mut stderr = StreamCapture::new(true);
    let mut remaining = 10;
    stderr.take_read(ReadEvent::End, &mut remaining);
    assert!(execution.end_turn(&mut stdout, &mut stderr, &RULES, 6));
    assert!(execution.cleanup_confirmed());
    assert_eq!(execution.outcome(), CommandOutcome::Exited { code: 7 });
}

#[test]
fn a_deadline_a_limit_and_a_cancel_are_told_apart() {
    for (cancel, remaining, failed, now, reason) in [
        (0, 10, false, 1_000, CommandTermination::Deadline),
        (1, 10, false, 1, CommandTermination::Cancelled),
        (2, 10, false, 1, CommandTermination::Quit),
        (0, 0, false, 1, CommandTermination::OutputLimit),
        (0, 10, true, 1, CommandTermination::CaptureFailure),
    ] {
        let mut execution = Execution::new(0);
        assert!(execution.decide(cancel, remaining, failed, &LIMITS, now));
        assert_eq!(execution.reason, Some(reason));
        assert!(!execution.decide(1, 10, false, &LIMITS, now), "an ending is kept");
        assert_eq!(execution.reason, Some(reason));
    }
    let mut running = Execution::new(0);
    assert!(!running.decide(0, 10, false, &LIMITS, 999));
    assert_eq!(running.reason, None);
}

#[test]
fn a_group_that_stays_is_a_failed_cleanup() {
    let mut execution = Execution::new(0);
    assert!(execution.decide(1, 10, false, &LIMITS, 10));
    let mut stdout = Some(StreamCapture::new(true));
    let mut stderr = StreamCapture::new(true);
    assert!(!execution.end_turn(&mut stdout, &mut stderr, &RULES, 11));
    assert!(execution.end_turn(&mut stdout, &mut stderr, &RULES, 1_010));
    assert!(!execution.cleanup_confirmed());
    assert!(matches!(
        execution.outcome(),
        CommandOutcome::Terminated {
            reason: CommandTermination::CleanupFailure,
            ..
        }
    ));
    assert_eq!(stderr.completeness, CaptureCompleteness::ReadFailed);
}

#[test]
fn a_cleanup_is_confirmed_once_child_and_group_are_gone() {
    let mut cleanup = OwnedProcessCleanup::new(true);
    let progress = cleanup.poll(
        SignalEvent::Delivered,
        WaitEvent::Running,
        SignalEvent::Failed(Some(1)),
    );
    assert_eq!(
        progress,
        CleanupProgress {
            confirmed: false,
            os_code: Some(1)
        }
    );
    assert_eq!(remember_code(None, progress), Some(1));
    let ended = WaitEvent::Ended(ChildStatus {
        code: None,
        signal: Some(9),
    });
    assert!(cleanup.poll(SignalEvent::Delivered, ended, SignalEvent::NoGroup).confirmed);
    assert!(!cleanup.armed);
}

#[test]
fn a_breakdown_hands_the_child_over_once() {
    for (before, told) in [
        (ProcessCleanupState::NotSpawned, PanickedProcessCleanup::ConfirmedOrNotSpawned),
        (ProcessCleanupState::Confirmed, PanickedProcessCleanup::ConfirmedOrNotSpawned),
        (ProcessCleanupState::Pending, PanickedProcessCleanup::Pending),
        (ProcessCleanupState::Armed, PanickedProcessCleanup::Ambiguous),
    ] {
        let mut state = before;
        assert_eq!(take_after_panic(&mut state), told);
        assert_eq!(take_after_panic(&mut state), PanickedProcessCleanup::Ambiguous);
    }
}

fn exited() -> WaitEvent {
    WaitEvent::Ended(ChildStatus {
        code: Some(0),
        signal: None,
    })
}

#[test]
fn a_run_that_exits_has_all_of_its_output() {
    let mut run = Run::new(0, LIMITS, Some(true), true);
    assert_eq!(run.read_stdout(ReadEvent::Data(b"out")), (3, true));
    assert_eq!(run.read_stdout(ReadEvent::End), (0, false));
    assert_eq!(run.read_stderr(ReadEvent::Data(b"err!")), (4, true));
    run.observe(exited());
    assert!(run.decide(0, 1));
    run.signal(SignalEvent::NoGroup);
    assert!(!run.wants_group());
    assert!(!run.end_turn(&RULES, 1), "standard error is still open");
    assert!(!run.wants_stdout());
    assert_eq!(run.read_stderr(ReadEvent::End), (0, false));
    assert!(!run.decide(0, 2));
    assert!(run.end_turn(&RULES, 2));
    let result = run.result();
    assert_eq!(result.outcome, CommandOutcome::Exited { code: 0 });
    assert_eq!(result.stdout.bytes, b"out");
    assert_eq!(result.stderr.bytes, b"err!");
    assert_eq!(result.stdout.completeness, CaptureCompleteness::Complete);
    assert_eq!(result.stderr.completeness, CaptureCompleteness::Complete);
    assert!(result.cleanup_confirmed);
    assert_eq!(result.cleanup_os_code, None);
}

#[test]
fn both_streams_of_a_run_share_the_bound() {
    let limits = ProcessLimits {
        deadline: 1_000,
        output_bytes: 5,
    };
    let mut run = Run::new(0, limits, Some(true), true);
    run.read_stdout(ReadEvent::Data(b"abc"));
    assert_eq!(run.read_stderr(ReadEvent::Data(b"defg")), (2, false));
    run.read_stdout(ReadEvent::End);
    run.observe(exited());
    assert!(run.decide(0, 1));
    run.signal(SignalEvent::NoGroup);
    assert!(run.end_turn(&RULES, 1));
    let result = run.result();
    assert_eq!(
        result.outcome,
        CommandOutcome::Terminated {
            reason: CommandTermination::OutputLimit,
            signal: None
        }
    );
    assert_eq!(result.stdout.bytes.len() + result.stderr.bytes.len(), 5);
    assert_eq!(result.stderr.completeness, CaptureCompleteness::Truncated);
}

#[test]
fn output_that_went_elsewhere_is_not_available() {
    let mut run = Run::new(0, LIMITS, None, false);
    run.observe(exited());
    assert!(run.decide(0, 1));
    run.signal(SignalEvent::NoGroup);
    assert!(run.end_turn(&RULES, 1));
    let result = run.result();
    assert_eq!(
        result.outcome,
        CommandOutcome::Terminated {
            reason: CommandTermination::CaptureFailure,
            signal: None
        }
    );
    assert_eq!(result.stdout.completeness, CaptureCompleteness::Unavailable);
    assert_eq!(result.stderr.completeness, CaptureCompleteness::ReadFailed);
}
