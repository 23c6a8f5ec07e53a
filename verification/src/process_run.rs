//! One execution of a child process from its start to its result.

use crate::command_process::{
    cut, decided, out_of_time, outcome_of, reaped, signalled, took, waited, Execution,
    ProcessLimits, ProcessRules, ReadEvent, SignalEvent, StreamCapture, WaitEvent,
};
use crate::model::{CaptureCompleteness, CommandOutcome, CommandTermination};
use vstd::prelude::*;

verus! {

/// What was kept of a stream, and whether that is all of it.
#[derive(Clone, Debug, PartialEq, Eq)]
pub struct CapturedStream {
    pub bytes: Vec<u8>,
    pub completeness: CaptureCompleteness,
}

/// What an execution came to.
#[derive(Clone, Debug, PartialEq, Eq)]
pub struct ProcessResult {
    pub outcome: CommandOutcome,
    pub stdout: CapturedStream,
    pub stderr: CapturedStream,
    pub cleanup_confirmed: bool,
    pub cleanup_os_code: Option<i32>,
}

/// A stream that was not captured.
fn unavailable() -> (r: CapturedStream)
    ensures
        r.bytes@.len() == 0,
        r.completeness == CaptureCompleteness::Unavailable,
{
    CapturedStream { bytes: Vec::new(), completeness: CaptureCompleteness::Unavailable }
}

/// The result of an execution that did not start: there are no streams, and nothing
/// is left behind.
pub fn not_started(outcome: CommandOutcome) -> (r: ProcessResult)
    ensures
        r.outcome == outcome,
        r.stdout.bytes@.len() == 0,
        r.stderr.bytes@.len() == 0,
        r.stdout.completeness == CaptureCompleteness::Unavailable,
        r.stderr.completeness == CaptureCompleteness::Unavailable,
        r.cleanup_confirmed,
        r.cleanup_os_code is None,
{
    ProcessResult {
        outcome,
        stdout: unavailable(),
        stderr: unavailable(),
        cleanup_confirmed: true,
        cleanup_os_code: None,
    }
}

/// An execution with its streams and the room that they share. It is settled once
/// it was decided on what was read; it is over after its last turn.
pub struct Run {
    pub execution: Execution,
    pub stdout: Option<StreamCapture>,
    pub stderr: StreamCapture,
    pub remaining: usize,
    pub limits: ProcessLimits,
    pub settled: bool,
    pub over: bool,
}

/// The bytes that are kept of a stream.
pub open spec fn kept_of(stream: Option<StreamCapture>) -> nat {
    match stream {
        Some(s) => s.bytes@.len(),
        None => 0,
    }
}

/// Whether a stream is all there so far, or was cut for want of room, or failed.
pub open spec fn is_stream(s: StreamCapture, remaining: usize) -> bool {
    &&& s.completeness != CaptureCompleteness::Unavailable
    &&& s.completeness == CaptureCompleteness::Truncated ==> remaining == 0
}

pub open spec fn has_failed(s: StreamCapture) -> bool {
    s.completeness == CaptureCompleteness::ReadFailed
}

fn failed(s: &StreamCapture) -> (r: bool)
    ensures
        r == has_failed(*s),
{
    s.completeness == CaptureCompleteness::ReadFailed
}

impl Run {
    /// Whether both streams are done.
    pub open spec fn is_read(&self) -> bool {
        (self.stdout matches Some(s) ==> s.done) && self.stderr.done
    }

    pub open spec fn capture_failed(&self) -> bool {
        (self.stdout matches Some(s) && has_failed(s)) || has_failed(self.stderr)
    }

    pub open spec fn wf(&self) -> bool {
        &&& kept_of(self.stdout) + self.stderr.bytes@.len() + self.remaining
            == self.limits.output_bytes
        &&& self.stdout matches Some(s) ==> is_stream(s, self.remaining)
        &&& is_stream(self.stderr, self.remaining)
        &&& self.settled && self.execution.reason is None ==> self.remaining > 0
            && !self.capture_failed()
        &&& self.over ==> self.settled && (self.execution.reason is None ==> reaped(self.execution)
            && self.is_read())
    }

    /// An execution that was started. A stream that cannot be read without waiting
    /// is not ready; standard output may go elsewhere.
    pub fn new(started: u64, limits: ProcessLimits, stdout: Option<bool>, stderr: bool) -> (r: Run)
        ensures
            r.wf(),
            !r.settled,
            !r.over,
            r.limits == limits,
            r.remaining == limits.output_bytes,
            r.execution == (Execution {
                started,
                reason: None,
                status: None,
                cleanup_started: None,
                cleanup_os_code: None,
                group_absent: false,
            }),
            r.stdout is Some == stdout is Some,
            r.stdout matches Some(s) ==> s.done == !stdout->0 && s.bytes@.len() == 0 && has_failed(s)
                == !stdout->0,
            r.stderr.done == !stderr,
            r.stderr.bytes@.len() == 0,
            has_failed(r.stderr) == !stderr,
    {
        let stdout = match stdout {
            Some(ready) => Some(StreamCapture::new(ready)),
            None => None,
        };
        Run {
            execution: Execution::new(started),
            stdout,
            stderr: StreamCapture::new(stderr),
            remaining: limits.output_bytes,
            limits,
            settled: false,
            over: false,
        }
    }

    /// Whether standard output is to be read.
    pub fn wants_stdout(&self) -> (r: bool)
        ensures
            r == (self.stdout matches Some(s) && !s.done),
    {
        match &self.stdout {
            Some(s) => !s.done,
            None => false,
        }
    }

    /// Takes in a read of standard output.
    pub fn read_stdout(&mut self, event: ReadEvent<'_>) -> (r: (usize, bool))
        requires
            old(self).wf(),
            !old(self).over,
            old(self).stdout matches Some(s) && !s.done,
        ensures
            final(self).wf(),
            final(self).stdout is Some,
            took(
                old(self).stdout->0,
                event,
                old(self).remaining,
                final(self).stdout->0,
                final(self).remaining,
                r,
            ),
            *final(self) == (Run {
                stdout: final(self).stdout,
                remaining: final(self).remaining,
                settled: false,
                ..*old(self)
            }),
    {
        self.settled = false;
        match &mut self.stdout {
            Some(stream) => stream.take_read(event, &mut self.remaining),
            None => (0, false),
        }
    }

    /// Takes in a read of standard error.
    pub fn read_stderr(&mut self, event: ReadEvent<'_>) -> (r: (usize, bool))
        requires
            old(self).wf(),
            !old(self).over,
            !old(self).stderr.done,
        ensures
            final(self).wf(),
            took(
                old(self).stderr,
                event,
                old(self).remaining,
                final(self).stderr,
                final(self).remaining,
                r,
            ),
            *final(self) == (Run {
                stderr: final(self).stderr,
                remaining: final(self).remaining,
                settled: false,
                ..*old(self)
            }),
    {
        self.settled = false;
        self.stderr.take_read(event, &mut self.remaining)
    }

    /// Takes in a look at the child.
    pub fn observe(&mut self, event: WaitEvent)
        requires
            old(self).wf(),
            !old(self).over,
        ensures
            final(self).wf(),
            *final(self) == (Run { execution: waited(old(self).execution, event), ..*old(self) }),
    {
        self.execution.observe(event);
    }

    /// Settles whether the execution ends, going by what was read. Says whether the
    /// group is to be ended now.
    pub fn decide(&mut self, cancel: u8, now: u64) -> (kill: bool)
        requires
            old(self).wf(),
            !old(self).over,
        ensures
            final(self).wf(),
            *final(self) == (Run {
                execution: decided(
                    old(self).execution,
                    cancel,
                    old(self).remaining,
                    old(self).capture_failed(),
                    old(self).limits.deadline,
                    now,
                ),
                settled: true,
                ..*old(self)
            }),
            kill == (old(self).execution.cleanup_started is None
                && final(self).execution.cleanup_started is Some),
    {
        let capture_failed = failed(&self.stderr) || match &self.stdout {
            Some(s) => failed(s),
            None => false,
        };
        let kill = self.execution.decide(cancel, self.remaining, capture_failed, &self.limits, now);
        self.settled = true;
        kill
    }

    /// Whether to ask if the group is gone.
    pub fn wants_group(&self) -> (r: bool)
        ensures
            r == (self.execution.cleanup_started is Some && !self.execution.group_absent),
    {
        self.execution.wants_group()
    }

    /// Takes in what a signal to the group came to.
    pub fn signal(&mut self, event: SignalEvent)
        requires
            old(self).wf(),
            !old(self).over,
        ensures
            final(self).wf(),
            *final(self) == (Run { execution: signalled(old(self).execution, event), ..*old(self) }),
    {
        self.execution.signal(event);
    }

    /// Ends a turn that was settled. Says whether it was the last.
    pub fn end_turn(&mut self, rules: &ProcessRules, now: u64) -> (over: bool)
        requires
            old(self).wf(),
            old(self).settled,
            !old(self).over,
        ensures
            final(self).wf(),
            final(self).over == over,
            ({
                let whole = reaped(old(self).execution) && old(self).is_read();
                let late = !whole && out_of_time(old(self).execution, rules.cleanup, now);
                &&& over == (whole || late)
                &&& *final(self) == if late {
                    Run {
                        execution: Execution {
                            reason: if !reaped(old(self).execution) {
                                Some(CommandTermination::CleanupFailure)
                            } else if old(self).execution.reason is Some {
                                old(self).execution.reason
                            } else {
                                Some(CommandTermination::CaptureFailure)
                            },
                            ..old(self).execution
                        },
                        stdout: match old(self).stdout {
                            Some(s) => Some(cut(s)),
                            None => None,
                        },
                        stderr: cut(old(self).stderr),
                        over,
                        ..*old(self)
                    }
                } else {
                    Run { over, ..*old(self) }
                }
            }),
    {
        let over = self.execution.end_turn(&mut self.stdout, &mut self.stderr, rules, now);
        self.over = over;
        over
    }

    /// What the execution came to.
    pub fn result(self) -> (r: ProcessResult)
        requires
            self.wf(),
            self.over,
        ensures
            r.outcome == outcome_of(self.execution),
            match self.stdout {
                Some(s) => r.stdout.bytes@ == s.bytes@ && r.stdout.completeness == s.completeness,
                None => r.stdout.bytes@.len() == 0 && r.stdout.completeness
                    == CaptureCompleteness::Unavailable,
            },
            r.stderr.bytes@ == self.stderr.bytes@,
            r.stderr.completeness == self.stderr.completeness,
            r.cleanup_confirmed == reaped(self.execution),
            r.cleanup_os_code == self.execution.cleanup_os_code,
            r.stdout.bytes@.len() + r.stderr.bytes@.len() <= self.limits.output_bytes,
            r.outcome is Exited ==> r.cleanup_confirmed && r.stderr.completeness
                == CaptureCompleteness::Complete && (self.stdout is Some ==> r.stdout.completeness
                == CaptureCompleteness::Complete),
    {
        let outcome = self.execution.outcome();
        let cleanup_confirmed = self.execution.cleanup_confirmed();
        let cleanup_os_code = self.execution.cleanup_os_code;
        let stdout = match self.stdout {
            Some(s) => CapturedStream { bytes: s.bytes, completeness: s.completeness },
            None => unavailable(),
        };
        let stderr = CapturedStream {
            bytes: self.stderr.bytes,
            completeness: self.stderr.completeness,
        };
        ProcessResult { outcome, stdout, stderr, cleanup_confirmed, cleanup_os_code }
    }
}

/// At every moment the bytes that are kept of both streams fit in the bound.
pub proof fn kept_output_is_bounded(run: Run)
    requires
        run.wf(),
    ensures
        kept_of(run.stdout) + run.stderr.bytes@.len() <= run.limits.output_bytes,
{
}

/// An execution that counts as ended by itself left nothing behind, and its streams
/// were read to their ends, with room left.
pub proof fn an_exit_is_whole(run: Run)
    requires
        run.wf(),
        run.over,
        outcome_of(run.execution) is Exited,
    ensures
        reaped(run.execution),
        run.is_read(),
        run.stderr.completeness == CaptureCompleteness::Complete,
        run.stdout matches Some(s) ==> s.completeness == CaptureCompleteness::Complete,
        kept_of(run.stdout) + run.stderr.bytes@.len() < run.limits.output_bytes,
{
}

} // verus!
