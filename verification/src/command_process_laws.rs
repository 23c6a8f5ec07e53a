//! When and why a command ends.

use crate::command_process;
use crate::command_process::{
    ChildStatus, Execution, ProcessLimits, ProcessRules, SignalEvent, WaitEvent,
};
use crate::model::{CommandOutcome, CommandTermination};
use vstd::prelude::*;

verus! {

/// A command is launched where its limits are within the rules and nobody has
/// cancelled it. One that was cancelled before is told as quit where the program is
/// being left.
pub proof fn a_command_is_launched_within_its_limits(
    limits: ProcessLimits,
    rules: ProcessRules,
    cancel: u8,
)
    ensures
        ({
            let fit = 0 < limits.deadline <= rules.max_deadline && 0 < limits.output_bytes
                <= rules.max_output_bytes;
            let refusal = command_process::launch_refusal(limits, rules, cancel);
            &&& refusal is None <==> fit && cancel == 0
            &&& !fit ==> refusal == Some(CommandOutcome::LaunchFailed { os_code: None })
            &&& fit && cancel == 2 ==> refusal == Some(
                CommandOutcome::Terminated { reason: CommandTermination::Quit, signal: None },
            )
            &&& fit && cancel == 1 ==> refusal == Some(
                CommandOutcome::Terminated { reason: CommandTermination::Cancelled, signal: None },
            )
        }),
{
}

/// A command goes on until there is a cause to end it: it was cancelled or the
/// program is being left, it has printed as much as it may, its output cannot be
/// read, or it still runs when its time is over.
pub proof fn a_command_ends_for_a_cause(
    e: Execution,
    cancel: u8,
    remaining: usize,
    capture_failed: bool,
    deadline: u64,
    now: u64,
)
    requires
        e.reason is None,
        cancel <= 2,
    ensures
        ({
            let cause = command_process::ending(
                e,
                cancel,
                remaining,
                capture_failed,
                deadline,
                now,
            );
            let late = e.status is None && now - e.started >= deadline && now >= e.started;
            &&& cause is None <==> cancel == 0 && remaining > 0 && !capture_failed && !late
            &&& cause == Some(CommandTermination::Quit) <==> cancel == 2
            &&& cause == Some(CommandTermination::Cancelled) <==> cancel == 1
            &&& cause == Some(CommandTermination::OutputLimit) <==> cancel == 0 && remaining == 0
            &&& cause == Some(CommandTermination::CaptureFailure) <==> cancel == 0 && remaining > 0
                && capture_failed
            &&& cause == Some(CommandTermination::Deadline) <==> cancel == 0 && remaining > 0
                && !capture_failed && late
        }),
{
}

/// What ended a command is told: its own exit code where nothing else ended it, a
/// signal where it has no code, and otherwise the cause.
pub proof fn an_outcome_tells_what_ended_it(e: Execution, code: i32, cause: CommandTermination)
    ensures
        e.reason is None && (e.status matches Some(s) && s.code == Some(code))
            ==> command_process::outcome_of(e) == (CommandOutcome::Exited { code }),
        e.reason is None && (e.status matches Some(s) && s.code is None)
            ==> command_process::outcome_of(e) == (CommandOutcome::Terminated {
            reason: CommandTermination::Signal,
            signal: e.status->0.signal,
        }),
        e.reason == Some(cause) ==> (command_process::outcome_of(e)
            matches CommandOutcome::Terminated { reason, .. } && reason == cause),
{
}

/// How a command ended is kept as it was first seen, and a failure to look is told.
pub proof fn the_first_end_is_kept(e: Execution, status: ChildStatus, code: Option<i32>)
    ensures
        e.status is None ==> command_process::waited(e, WaitEvent::Ended(status)) == (Execution {
            status: Some(status),
            ..e
        }),
        e.status is Some ==> command_process::waited(e, WaitEvent::Ended(status)) == e,
        command_process::waited(e, WaitEvent::Running) == e,
        e.status is None && e.reason is None ==> command_process::waited(e, WaitEvent::Failed(code))
            == (Execution {
            reason: Some(CommandTermination::CleanupFailure),
            cleanup_os_code: code,
            ..e
        }),
{
}

/// A group of processes is known to be gone once the system knows none, and only then.
pub proof fn a_group_is_gone_once_none_is_known(e: Execution, event: SignalEvent)
    requires
        !e.group_absent,
    ensures
        command_process::signalled(e, event).group_absent <==> event is NoGroup,
        command_process::signalled(e, event).reason == Some(CommandTermination::CleanupFailure)
            <==> event is Failed || e.reason == Some(CommandTermination::CleanupFailure),
        command_process::signalled(e, event).status == e.status,
        command_process::reaped(command_process::signalled(e, event)) <==> event is NoGroup
            && e.status is Some,
{
}

/// Cleaning up begins in the turn in which the command ended or is ended, and not
/// before.
pub proof fn cleaning_up_begins_with_the_end(
    e: Execution,
    cancel: u8,
    remaining: usize,
    capture_failed: bool,
    deadline: u64,
    now: u64,
)
    requires
        e.cleanup_started is None,
    ensures
        ({
            let n = command_process::decided(e, cancel, remaining, capture_failed, deadline, now);
            &&& n.cleanup_started is Some <==> n.reason is Some || e.status is Some
            &&& n.cleanup_started is Some ==> n.cleanup_started == Some(now)
            &&& n.status == e.status
        }),
{
}

} // verus!
