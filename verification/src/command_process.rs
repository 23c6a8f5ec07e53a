//! Bounded execution of a child process: what is kept of its output, what is
//! sent to it, when it is ended, and what it came to.

use crate::model::{CaptureCompleteness, CommandOutcome, CommandTermination};
use crate::text;
use vstd::prelude::*;
use vstd::utf8::encode_utf8;

pub use crate::process_run::{not_started, CapturedStream, ProcessResult, Run};

verus! {

pub const MAX_LIVE_OUTPUT_BYTES: usize = 262_144;

pub const MAX_PENDING_STDIN_BYTES: usize = 65_536;

pub const MAX_STDIN_LINE_BYTES: usize = 4096;

/// How often a stream is read before the others get their turn.
pub const READS_PER_TURN: usize = 8;

/// How many lines are taken before writing gets its turn.
pub const LINES_PER_TURN: usize = 16;

// The live end of the output.

/// The last bytes of a sequence, up to a limit.
pub open spec fn tail(s: Seq<u8>, limit: nat) -> Seq<u8> {
    if s.len() <= limit {
        s
    } else {
        s.skip(s.len() - limit)
    }
}

/// The end of a command's output, as much of it as the limit allows. `pushed`
/// counts all bytes there ever were; `id` tells one command from another.
#[derive(Clone, Debug, PartialEq, Eq)]
pub struct LiveOutput {
    pub bytes: Vec<u8>,
    pub limit: usize,
    pub pushed: u64,
    pub id: u64,
}

/// What is kept at a moment: `start` is the place of the first byte within the
/// whole output.
#[derive(Clone, Debug, PartialEq, Eq)]
pub struct LiveSnapshot {
    pub id: u64,
    pub start: u64,
    pub bytes: Vec<u8>,
}

impl Default for LiveSnapshot {
    fn default() -> (r: LiveSnapshot)
        ensures
            r.id == 0,
            r.start == 0,
            r.bytes@.len() == 0,
    {
        LiveSnapshot { id: 0, start: 0, bytes: Vec::new() }
    }
}

pub open spec fn clamped(limit: usize) -> usize {
    if limit < 1 {
        1
    } else if limit > MAX_LIVE_OUTPUT_BYTES {
        MAX_LIVE_OUTPUT_BYTES
    } else {
        limit
    }
}

pub open spec fn count_up(n: u64, more: nat) -> u64 {
    if n + more <= u64::MAX {
        (n + more) as u64
    } else {
        u64::MAX
    }
}

impl LiveOutput {
    pub open spec fn well_formed(&self) -> bool {
        &&& 1 <= self.limit <= MAX_LIVE_OUTPUT_BYTES
        &&& self.bytes@.len() <= self.limit
    }

    pub fn new(limit: usize, id: u64) -> (r: LiveOutput)
        ensures
            r.bytes@.len() == 0,
            r.limit == clamped(limit),
            r.pushed == 0,
            r.id == id,
            r.well_formed(),
    {
        let limit = if limit < 1 {
            1
        } else if limit > MAX_LIVE_OUTPUT_BYTES {
            MAX_LIVE_OUTPUT_BYTES
        } else {
            limit
        };
        LiveOutput { bytes: Vec::new(), limit, pushed: 0, id }
    }

    /// Adds output. The oldest bytes go where there is no room.
    pub fn push(&mut self, bytes: &[u8])
        requires
            old(self).well_formed(),
        ensures
            final(self).bytes@ == tail(old(self).bytes@ + bytes@, old(self).limit as nat),
            final(self).limit == old(self).limit,
            final(self).id == old(self).id,
            final(self).pushed == count_up(old(self).pushed, bytes@.len()),
            final(self).well_formed(),
    {
        let n: usize = bytes.len();
        let held: usize = self.bytes.len();
        let limit: usize = self.limit;
        let mut out: Vec<u8> = Vec::new();
        let keep_from: usize = if n > limit {
            n - limit
        } else {
            0
        };
        let room: usize = limit - (n - keep_from);
        let skip: usize = if held > room {
            held - room
        } else {
            0
        };
        let ghost first = self.bytes@;
        let mut i: usize = skip;
        while i < held
            invariant
                skip <= i <= held,
                held == self.bytes@.len(),
                first == self.bytes@,
                out@ == first.subrange(skip as int, i as int),
            decreases held - i,
        {
            out.push(self.bytes[i]);
            i += 1;
            assert(out@ =~= first.subrange(skip as int, i as int));
        }
        let ghost kept = out@;
        let mut j: usize = keep_from;
        while j < n
            invariant
                keep_from <= j <= n,
                n == bytes@.len(),
                out@ == kept + bytes@.subrange(keep_from as int, j as int),
            decreases n - j,
        {
            out.push(bytes[j]);
            j += 1;
            assert(out@ =~= kept + bytes@.subrange(keep_from as int, j as int));
        }
        assert(out@ =~= tail(first + bytes@, limit as nat));
        self.bytes = out;
        let more: u64 = n as u64;
        if self.pushed <= u64::MAX - more {
            self.pushed = self.pushed + more;
        } else {
            self.pushed = u64::MAX;
        }
    }

    pub fn positioned_snapshot(&self) -> (r: LiveSnapshot)
        ensures
            r.id == self.id,
            r.bytes@ == self.bytes@,
            r.start == if self.pushed >= self.bytes@.len() {
                self.pushed - self.bytes@.len()
            } else {
                0
            },
    {
        let n: u64 = self.bytes.len() as u64;
        let start: u64 = if self.pushed >= n {
            self.pushed - n
        } else {
            0
        };
        LiveSnapshot { id: self.id, start, bytes: self.snapshot() }
    }

    pub fn snapshot(&self) -> (r: Vec<u8>)
        ensures
            r@ == self.bytes@,
    {
        let r = text::copy_bytes(self.bytes.as_slice(), 0, self.bytes.len());
        assert(r@ =~= self.bytes@);
        r
    }
}

/// What is kept does not depend on the pieces in which output comes.
pub proof fn pieces_do_not_matter(held: Seq<u8>, a: Seq<u8>, b: Seq<u8>, limit: nat)
    ensures
        tail(tail(held + a, limit) + b, limit) == tail(held + (a + b), limit),
{
    assert(tail(tail(held + a, limit) + b, limit) =~= tail(held + (a + b), limit));
}

// Reading.

/// What is kept of one stream.
#[derive(Clone, Debug, PartialEq, Eq)]
pub struct StreamCapture {
    pub bytes: Vec<u8>,
    pub completeness: CaptureCompleteness,
    pub done: bool,
}

/// What one read came to. A chunk is not empty.
pub enum ReadEvent<'a> {
    End,
    Data(&'a [u8]),
    WouldBlock,
    Interrupted,
    Failed,
}

/// Whether a read of a stream came to this: the stream and the room then, how many
/// bytes were kept, and whether to read on.
pub open spec fn took(
    before: StreamCapture,
    event: ReadEvent<'_>,
    room: usize,
    after: StreamCapture,
    left: usize,
    told: (usize, bool),
) -> bool {
    match event {
        ReadEvent::Data(chunk) => {
            let keep = if chunk@.len() <= room {
                chunk@.len()
            } else {
                room as nat
            };
            let cut = keep < chunk@.len() || keep == room;
            &&& after.bytes@ == before.bytes@ + chunk@.take(keep as int)
            &&& left == room - keep
            &&& after.done == cut
            &&& after.completeness == if cut {
                CaptureCompleteness::Truncated
            } else {
                before.completeness
            }
            &&& told == (keep as usize, !cut)
        },
        ReadEvent::End => after == (StreamCapture { done: true, ..before }) && left == room && told
            == (0usize, false),
        ReadEvent::WouldBlock => after == before && left == room && told == (0usize, false),
        ReadEvent::Interrupted => after == before && left == room && told == (0usize, true),
        ReadEvent::Failed => after == (StreamCapture {
            done: true,
            completeness: CaptureCompleteness::ReadFailed,
            ..before
        }) && left == room && told == (0usize, false),
    }
}

impl StreamCapture {
    /// A stream that can be read without waiting, or cannot.
    pub fn new(ready: bool) -> (r: StreamCapture)
        ensures
            r.bytes@.len() == 0,
            r.done == !ready,
            r.completeness == if ready {
                CaptureCompleteness::Complete
            } else {
                CaptureCompleteness::ReadFailed
            },
    {
        StreamCapture {
            bytes: Vec::new(),
            completeness: if ready {
                CaptureCompleteness::Complete
            } else {
                CaptureCompleteness::ReadFailed
            },
            done: !ready,
        }
    }

    /// Takes in a read of a stream that is not done. `remaining` is the room
    /// that all streams share. Says how many bytes were kept, and whether to
    /// read on.
    pub fn take_read(&mut self, event: ReadEvent<'_>, remaining: &mut usize) -> (r: (usize, bool))
        requires
            !old(self).done,
        ensures
            took(*old(self), event, *old(remaining), *final(self), *final(remaining), r),
    {
        match event {
            ReadEvent::End => {
                self.done = true;
                (0, false)
            },
            ReadEvent::Data(chunk) => {
                let count: usize = chunk.len();
                let keep: usize = if count <= *remaining {
                    count
                } else {
                    *remaining
                };
                let ghost before = self.bytes@;
                let mut i: usize = 0;
                assert(before + chunk@.take(0) =~= before);
                while i < keep
                    invariant
                        i <= keep <= chunk@.len(),
                        self.bytes@ == before + chunk@.take(i as int),
                        self.completeness == old(self).completeness,
                        self.done == old(self).done,
                    decreases keep - i,
                {
                    self.bytes.push(chunk[i]);
                    assert(chunk@.take(i + 1) =~= chunk@.take(i as int).push(chunk@[i as int]));
                    i += 1;
                }
                *remaining = *remaining - keep;
                if keep < count || *remaining == 0 {
                    self.completeness = CaptureCompleteness::Truncated;
                    self.done = true;
                    return (keep, false);
                }
                (keep, true)
            },
            ReadEvent::WouldBlock => (0, false),
            ReadEvent::Interrupted => (0, true),
            ReadEvent::Failed => {
                self.completeness = CaptureCompleteness::ReadFailed;
                self.done = true;
                (0, false)
            },
        }
    }
}

// Writing.

/// What a queue of lines gives.
pub enum StdinEvent {
    Line(String),
    Eof,
    Empty,
    Disconnected,
}

/// What one write came to.
pub enum WriteEvent {
    Wrote(usize),
    WouldBlock,
    Interrupted,
    Failed,
}

/// Lines on their way to a child. `open` is the queue, `writable` the pipe.
#[derive(Clone, Debug, PartialEq, Eq)]
pub struct SubmittedInput {
    pub open: bool,
    pub writable: bool,
    pub pending: Vec<u8>,
    pub eof: bool,
}

/// A line that may be sent: not too long, and one line.
pub open spec fn is_line(s: Seq<char>) -> bool {
    &&& text::byte_len(s) <= MAX_STDIN_LINE_BYTES
    &&& forall|i: int| 0 <= i < s.len() ==> #[trigger] s[i] != '\n' && s[i] != '\r'
}

fn may_be_sent(line: &str) -> (r: bool)
    ensures
        r == is_line(line@),
{
    if text::str_bytes(line) > MAX_STDIN_LINE_BYTES {
        return false;
    }
    let chars = text::chars_of(line);
    let mut i: usize = 0;
    while i < chars.len()
        invariant
            i <= chars@.len(),
            chars@ == line@,
            forall|j: int| 0 <= j < i ==> #[trigger] line@[j] != '\n' && line@[j] != '\r',
        decreases chars@.len() - i,
    {
        if chars[i] == '\n' || chars[i] == '\r' {
            return false;
        }
        i += 1;
    }
    true
}

impl SubmittedInput {
    pub open spec fn well_formed(&self) -> bool {
        self.pending@.len() <= MAX_PENDING_STDIN_BYTES
    }

    pub fn new(ready: bool) -> (r: SubmittedInput)
        ensures
            r.open == ready,
            r.writable == ready,
            r.eof == !ready,
            r.pending@.len() == 0,
            r.well_formed(),
    {
        SubmittedInput { open: ready, writable: ready, pending: Vec::new(), eof: !ready }
    }

    /// Begins a turn: with no pipe to write to, the queue is let go.
    pub fn begin_turn(&mut self) -> (go: bool)
        requires
            old(self).well_formed(),
        ensures
            go == old(self).writable,
            *final(self) == (SubmittedInput { open: old(self).open && old(self).writable, ..*old(self) }),
            final(self).well_formed(),
    {
        if !self.writable {
            self.open = false;
            return false;
        }
        true
    }

    /// Whether to take a line: the queue is open, and whatever line comes next
    /// has room.
    pub fn wants_line(&self) -> (r: bool)
        ensures
            r == (self.open && self.pending@.len() + MAX_STDIN_LINE_BYTES + 1 <= MAX_PENDING_STDIN_BYTES),
    {
        self.open && self.pending.len() <= MAX_PENDING_STDIN_BYTES - (MAX_STDIN_LINE_BYTES + 1)
    }

    /// Takes in what the queue gave. Says whether to ask again.
    pub fn take_line(&mut self, event: StdinEvent) -> (again: bool)
        requires
            old(self).well_formed(),
            old(self).open,
            old(self).pending@.len() + MAX_STDIN_LINE_BYTES + 1 <= MAX_PENDING_STDIN_BYTES,
        ensures
            final(self).well_formed(),
            final(self).writable == old(self).writable,
            match event {
                StdinEvent::Line(line) => if is_line(line@) {
                    &&& final(self).pending@ == (old(self).pending@ + encode_utf8(line@)).push(0x0au8)
                    &&& final(self).open && final(self).eof == old(self).eof && again
                } else {
                    &&& final(self).pending@ == old(self).pending@
                    &&& !final(self).open && final(self).eof && !again
                },
                StdinEvent::Empty => *final(self) == *old(self) && !again,
                _ => {
                    &&& final(self).pending@ == old(self).pending@
                    &&& !final(self).open && final(self).eof && !again
                },
            },
    {
        match event {
            StdinEvent::Line(line) => {
                if may_be_sent(line.as_str()) {
                    proof {
                        text::lemma_byte_len_encode(line@);
                    }
                    let bytes = line.as_str().as_bytes();
                    let ghost before = self.pending@;
                    let mut i: usize = 0;
                    assert(before + bytes@.take(0) =~= before);
                    while i < bytes.len()
                        invariant
                            i <= bytes@.len(),
                            self.pending@ == before + bytes@.take(i as int),
                            self.open == old(self).open,
                            self.writable == old(self).writable,
                            self.eof == old(self).eof,
                        decreases bytes@.len() - i,
                    {
                        self.pending.push(bytes[i]);
                        assert(bytes@.take(i + 1) =~= bytes@.take(i as int).push(bytes@[i as int]));
                        i += 1;
                    }
                    assert(bytes@.take(bytes@.len() as int) =~= bytes@);
                    self.pending.push(0x0a);
                    return true;
                }
                self.eof = true;
                self.open = false;
                false
            },
            StdinEvent::Empty => false,
            _ => {
                self.eof = true;
                self.open = false;
                false
            },
        }
    }

    /// Takes in a write of what is pending. A pipe that takes nothing, or
    /// fails, is let go.
    pub fn written(&mut self, event: WriteEvent)
        requires
            old(self).well_formed(),
            event matches WriteEvent::Wrote(n) ==> n <= old(self).pending@.len(),
        ensures
            final(self).well_formed(),
            final(self).eof == old(self).eof,
            match event {
                WriteEvent::Wrote(n) => {
                    &&& final(self).pending@ == old(self).pending@.skip(n as int)
                    &&& final(self).writable == (old(self).writable && n > 0)
                    &&& final(self).open == (old(self).open && n > 0)
                },
                WriteEvent::Failed => final(self).pending@.len() == 0 && !final(self).writable
                    && !final(self).open,
                _ => *final(self) == *old(self),
            },
    {
        match event {
            WriteEvent::Wrote(n) => {
                if n == 0 {
                    self.writable = false;
                    self.open = false;
                    assert(self.pending@.skip(0) =~= self.pending@);
                } else {
                    let ghost before = self.pending@;
                    let mut rest: Vec<u8> = Vec::new();
                    let mut i: usize = n;
                    while i < self.pending.len()
                        invariant
                            n <= i <= self.pending@.len(),
                            before == self.pending@,
                            rest@ == before.subrange(n as int, i as int),
                        decreases self.pending@.len() - i,
                    {
                        rest.push(self.pending[i]);
                        i += 1;
                        assert(rest@ =~= before.subrange(n as int, i as int));
                    }
                    assert(rest@ =~= before.skip(n as int));
                    self.pending = rest;
                }
            },
            WriteEvent::Failed => {
                self.pending = Vec::new();
                self.writable = false;
                self.open = false;
            },
            WriteEvent::WouldBlock => {},
            WriteEvent::Interrupted => {},
        }
    }

    /// Ends a turn: once all is written and nothing more comes, the pipe closes.
    pub fn end_turn(&mut self)
        requires
            old(self).well_formed(),
        ensures
            final(self).well_formed(),
            final(self).pending@ == old(self).pending@,
            final(self).eof == old(self).eof,
            final(self).writable == (old(self).writable && !(old(self).eof && old(self).pending@.len() == 0)),
            final(self).open == (old(self).open && !(old(self).eof && old(self).pending@.len() == 0)),
    {
        if self.eof && self.pending.len() == 0 {
            self.writable = false;
            self.open = false;
        }
    }
}

// Starting.

/// The bounds of one execution.
#[derive(Clone, Copy, Debug, PartialEq, Eq, Structural)]
pub struct ProcessLimits {
    pub deadline: u64,
    pub output_bytes: usize,
}

/// The bounds of every execution. Times are in milliseconds.
#[derive(Clone, Copy, Debug, PartialEq, Eq, Structural)]
pub struct ProcessRules {
    pub max_deadline: u64,
    pub max_output_bytes: u64,
    pub cleanup: u64,
}

/// What stands in for an execution that did not start: the streams are not
/// known, and nothing is left behind.
pub open spec fn launch_refusal(limits: ProcessLimits, rules: ProcessRules, cancel: u8) -> Option<CommandOutcome> {
    if limits.deadline == 0 || limits.deadline > rules.max_deadline || limits.output_bytes == 0
        || limits.output_bytes > rules.max_output_bytes {
        Some(CommandOutcome::LaunchFailed { os_code: None })
    } else if cancel == 0 {
        None
    } else {
        Some(
            CommandOutcome::Terminated {
                reason: if cancel == 2 {
                    CommandTermination::Quit
                } else {
                    CommandTermination::Cancelled
                },
                signal: None,
            },
        )
    }
}

/// Whether a command must not be started, and what it counts as.
pub fn refuse_launch(limits: &ProcessLimits, rules: &ProcessRules, cancel: u8) -> (r: Option<CommandOutcome>)
    ensures
        r == launch_refusal(*limits, *rules, cancel),
{
    if limits.deadline == 0 || limits.deadline > rules.max_deadline || limits.output_bytes == 0
        || limits.output_bytes as u64 > rules.max_output_bytes {
        return Some(CommandOutcome::LaunchFailed { os_code: None });
    }
    if cancel == 0 {
        return None;
    }
    let reason = if cancel == 2 {
        CommandTermination::Quit
    } else {
        CommandTermination::Cancelled
    };
    Some(CommandOutcome::Terminated { reason, signal: None })
}

// Running.

/// How a child ended.
#[derive(Clone, Copy, Debug, PartialEq, Eq, Structural)]
pub struct ChildStatus {
    pub code: Option<i32>,
    pub signal: Option<i32>,
}

/// What a look at a child came to.
#[derive(Clone, Copy, Debug, PartialEq, Eq, Structural)]
pub enum WaitEvent {
    Running,
    Ended(ChildStatus),
    Failed(Option<i32>),
}

/// What a signal to a group of processes came to.
#[derive(Clone, Copy, Debug, PartialEq, Eq, Structural)]
pub enum SignalEvent {
    Delivered,
    NoGroup,
    Failed(Option<i32>),
}

/// An execution under way.
#[derive(Clone, Copy, Debug, PartialEq, Eq, Structural)]
pub struct Execution {
    pub started: u64,
    pub reason: Option<CommandTermination>,
    pub status: Option<ChildStatus>,
    pub cleanup_started: Option<u64>,
    pub cleanup_os_code: Option<i32>,
    pub group_absent: bool,
}

pub open spec fn waited(e: Execution, event: WaitEvent) -> Execution {
    if e.status is Some {
        e
    } else {
        match event {
            WaitEvent::Running => e,
            WaitEvent::Ended(status) => Execution { status: Some(status), ..e },
            WaitEvent::Failed(code) => Execution {
                cleanup_os_code: code,
                reason: if e.reason is Some {
                    e.reason
                } else {
                    Some(CommandTermination::CleanupFailure)
                },
                ..e
            },
        }
    }
}

/// Why an execution ends, if it does: the first of these that holds.
pub open spec fn ending(
    e: Execution,
    cancel: u8,
    remaining: usize,
    capture_failed: bool,
    deadline: u64,
    now: u64,
) -> Option<CommandTermination> {
    if e.reason is Some {
        e.reason
    } else if cancel == 2 {
        Some(CommandTermination::Quit)
    } else if cancel == 1 {
        Some(CommandTermination::Cancelled)
    } else if remaining == 0 {
        Some(CommandTermination::OutputLimit)
    } else if capture_failed {
        Some(CommandTermination::CaptureFailure)
    } else if e.status is None && now >= e.started && now - e.started >= deadline {
        Some(CommandTermination::Deadline)
    } else {
        None
    }
}

/// The reason is settled. Where there is one, or the child has ended, its group
/// is ended too, once.
pub open spec fn decided(
    e: Execution,
    cancel: u8,
    remaining: usize,
    capture_failed: bool,
    deadline: u64,
    now: u64,
) -> Execution {
    let reason = ending(e, cancel, remaining, capture_failed, deadline, now);
    Execution {
        reason,
        cleanup_started: if e.cleanup_started is None && (reason is Some || e.status is Some) {
            Some(now)
        } else {
            e.cleanup_started
        },
        ..e
    }
}

pub open spec fn signalled(e: Execution, event: SignalEvent) -> Execution {
    match event {
        SignalEvent::Delivered => e,
        SignalEvent::NoGroup => Execution { group_absent: true, ..e },
        SignalEvent::Failed(code) => Execution {
            cleanup_os_code: code,
            reason: Some(CommandTermination::CleanupFailure),
            ..e
        },
    }
}

/// Whether the child and its group are known to be gone.
pub open spec fn reaped(e: Execution) -> bool {
    e.status is Some && e.group_absent
}

pub open spec fn out_of_time(e: Execution, cleanup: u64, now: u64) -> bool {
    e.cleanup_started matches Some(at) && now >= at && now - at >= cleanup
}

/// What the execution counts as.
pub open spec fn outcome_of(e: Execution) -> CommandOutcome {
    let signal = match e.status {
        Some(s) => s.signal,
        None => None,
    };
    match e.reason {
        Some(reason) => CommandOutcome::Terminated { reason, signal },
        None => match e.status {
            Some(ChildStatus { code: Some(code), .. }) => CommandOutcome::Exited { code },
            _ => CommandOutcome::Terminated { reason: CommandTermination::Signal, signal },
        },
    }
}

impl Execution {
    pub fn new(started: u64) -> (r: Execution)
        ensures
            r == (Execution {
                started,
                reason: None,
                status: None,
                cleanup_started: None,
                cleanup_os_code: None,
                group_absent: false,
            }),
    {
        Execution {
            started,
            reason: None,
            status: None,
            cleanup_started: None,
            cleanup_os_code: None,
            group_absent: false,
        }
    }

    /// Takes in a look at the child.
    pub fn observe(&mut self, event: WaitEvent)
        ensures
            *final(self) == waited(*old(self), event),
    {
        if self.status.is_none() {
            match event {
                WaitEvent::Running => {},
                WaitEvent::Ended(status) => {
                    self.status = Some(status);
                },
                WaitEvent::Failed(code) => {
                    self.cleanup_os_code = code;
                    if self.reason.is_none() {
                        self.reason = Some(CommandTermination::CleanupFailure);
                    }
                },
            }
        }
    }

    /// Settles whether the execution ends. Says whether the group is to be
    /// ended now.
    pub fn decide(
        &mut self,
        cancel: u8,
        remaining: usize,
        capture_failed: bool,
        limits: &ProcessLimits,
        now: u64,
    ) -> (kill: bool)
        ensures
            *final(self) == decided(
                *old(self),
                cancel,
                remaining,
                capture_failed,
                limits.deadline,
                now,
            ),
            kill == (old(self).cleanup_started is None && final(self).cleanup_started is Some),
    {
        if self.reason.is_none() {
            self.reason = if cancel == 2 {
                Some(CommandTermination::Quit)
            } else if cancel == 1 {
                Some(CommandTermination::Cancelled)
            } else if remaining == 0 {
                Some(CommandTermination::OutputLimit)
            } else if capture_failed {
                Some(CommandTermination::CaptureFailure)
            } else if self.status.is_none() && now >= self.started && now - self.started
                >= limits.deadline {
                Some(CommandTermination::Deadline)
            } else {
                None
            };
        }
        if self.cleanup_started.is_none() && (self.reason.is_some() || self.status.is_some()) {
            self.cleanup_started = Some(now);
            return true;
        }
        false
    }

    /// Takes in what a signal to the group came to.
    pub fn signal(&mut self, event: SignalEvent)
        ensures
            *final(self) == signalled(*old(self), event),
    {
        match event {
            SignalEvent::Delivered => {},
            SignalEvent::NoGroup => {
                self.group_absent = true;
            },
            SignalEvent::Failed(code) => {
                self.cleanup_os_code = code;
                self.reason = Some(CommandTermination::CleanupFailure);
            },
        }
    }

    /// Whether to ask if the group is gone.
    pub fn wants_group(&self) -> (r: bool)
        ensures
            r == (self.cleanup_started is Some && !self.group_absent),
    {
        self.cleanup_started.is_some() && !self.group_absent
    }

    /// Ends a turn. The execution is over once the child, its group and its
    /// streams are, or cleaning up took too long; then streams that were not
    /// read to their end count as failed.
    pub fn end_turn(
        &mut self,
        stdout: &mut Option<StreamCapture>,
        stderr: &mut StreamCapture,
        rules: &ProcessRules,
        now: u64,
    ) -> (over: bool)
        ensures
            ({
                let read = (*old(stdout) matches Some(s) ==> s.done) && old(stderr).done;
                let whole = reaped(*old(self)) && read;
                let late = !whole && out_of_time(*old(self), rules.cleanup, now);
                &&& over == (whole || late)
                &&& !late ==> *final(self) == *old(self) && *final(stdout) == *old(stdout)
                    && *final(stderr) == *old(stderr)
                &&& late ==> *final(self) == (Execution {
                    reason: if !reaped(*old(self)) {
                        Some(CommandTermination::CleanupFailure)
                    } else if old(self).reason is Some {
                        old(self).reason
                    } else {
                        Some(CommandTermination::CaptureFailure)
                    },
                    ..*old(self)
                }) && *final(stderr) == cut(*old(stderr)) && *final(stdout) == (match *old(stdout) {
                    Some(s) => Some(cut(s)),
                    None => None,
                })
            }),
    {
        let confirmed = self.status.is_some() && self.group_absent;
        let stdout_done = match &*stdout {
            Some(s) => s.done,
            None => true,
        };
        if confirmed && stdout_done && stderr.done {
            return true;
        }
        let late = match self.cleanup_started {
            Some(at) => now >= at && now - at >= rules.cleanup,
            None => false,
        };
        if !late {
            return false;
        }
        match stdout {
            Some(s) => {
                if !s.done {
                    s.completeness = CaptureCompleteness::ReadFailed;
                }
            },
            None => {},
        }
        if !stderr.done {
            stderr.completeness = CaptureCompleteness::ReadFailed;
        }
        if !confirmed {
            self.reason = Some(CommandTermination::CleanupFailure);
        } else if self.reason.is_none() {
            self.reason = Some(CommandTermination::CaptureFailure);
        }
        true
    }

    /// Whether nothing is left behind.
    pub fn cleanup_confirmed(&self) -> (r: bool)
        ensures
            r == reaped(*self),
    {
        self.status.is_some() && self.group_absent
    }

    /// What the execution counts as.
    pub fn outcome(&self) -> (r: CommandOutcome)
        ensures
            r == outcome_of(*self),
    {
        let signal = match &self.status {
            Some(s) => s.signal,
            None => None,
        };
        match self.reason {
            Some(reason) => CommandOutcome::Terminated { reason, signal },
            None => {
                match &self.status {
                    Some(s) => match s.code {
                        Some(code) => CommandOutcome::Exited { code },
                        None => CommandOutcome::Terminated {
                            reason: CommandTermination::Signal,
                            signal,
                        },
                    },
                    None => CommandOutcome::Terminated {
                        reason: CommandTermination::Signal,
                        signal,
                    },
                }
            },
        }
    }
}

/// A stream that was not read to its end has failed.
pub open spec fn cut(s: StreamCapture) -> StreamCapture {
    if s.done {
        s
    } else {
        StreamCapture { completeness: CaptureCompleteness::ReadFailed, ..s }
    }
}

/// A turn of an execution: a look at the child, the decision, the signals.
pub open spec fn turned(
    e: Execution,
    wait: WaitEvent,
    cancel: u8,
    remaining: usize,
    capture_failed: bool,
    deadline: u64,
    now: u64,
    kill: SignalEvent,
    probe: SignalEvent,
) -> Execution {
    let a = waited(e, wait);
    let b = decided(a, cancel, remaining, capture_failed, deadline, now);
    let c = if a.cleanup_started is None && b.cleanup_started is Some {
        signalled(b, kill)
    } else {
        b
    };
    if c.cleanup_started is Some && !c.group_absent {
        signalled(c, probe)
    } else {
        c
    }
}

/// Once an execution has a reason to end, it keeps that reason, unless cleaning
/// up fails; and what is known of its end stays known.
pub proof fn an_ending_is_kept(
    e: Execution,
    wait: WaitEvent,
    cancel: u8,
    remaining: usize,
    capture_failed: bool,
    deadline: u64,
    now: u64,
    kill: SignalEvent,
    probe: SignalEvent,
)
    ensures
        ({
            let n = turned(e, wait, cancel, remaining, capture_failed, deadline, now, kill, probe);
            &&& e.reason is Some ==> n.reason == e.reason || n.reason == Some(
                CommandTermination::CleanupFailure,
            )
            &&& e.status is Some ==> n.status == e.status
            &&& e.group_absent ==> n.group_absent
            &&& e.cleanup_started is Some ==> n.cleanup_started == e.cleanup_started
            &&& n.reason is Some || n.status is Some ==> n.cleanup_started is Some
        }),
{
}

/// A command counts as ended by itself only where nothing ended it.
pub proof fn an_exit_has_no_other_reason(e: Execution)
    requires
        outcome_of(e) is Exited,
    ensures
        e.reason is None,
        e.status is Some,
{
}

// Cleaning up.

/// What is known of a cleanup.
#[derive(Clone, Copy, Debug, PartialEq, Eq, Structural)]
pub struct CleanupProgress {
    pub confirmed: bool,
    pub os_code: Option<i32>,
}

/// A child and its group that are still to be ended. `child` says that the
/// child has not been reaped.
#[derive(Clone, Copy, Debug, PartialEq, Eq, Structural)]
pub struct OwnedProcessCleanup {
    pub child: bool,
    pub armed: bool,
}

pub open spec fn code_of(event: SignalEvent, before: Option<i32>) -> Option<i32> {
    match event {
        SignalEvent::Failed(code) => code,
        _ => before,
    }
}

impl OwnedProcessCleanup {
    pub fn new(child: bool) -> (r: OwnedProcessCleanup)
        ensures
            r == (OwnedProcessCleanup { child, armed: true }),
    {
        OwnedProcessCleanup { child, armed: true }
    }

    /// One attempt: a signal that ends the group, a look at the child, and a
    /// question whether the group is gone. The look counts only where there is
    /// a child, the question only where the first signal left it open.
    pub fn poll(&mut self, kill: SignalEvent, wait: WaitEvent, probe: SignalEvent) -> (r: CleanupProgress)
        ensures
            ({
                let child = old(self).child && !(wait is Ended);
                let absent = kill == SignalEvent::NoGroup || probe == SignalEvent::NoGroup;
                let first = code_of(kill, None);
                let second = if old(self).child && wait is Failed {
                    wait->Failed_0
                } else {
                    first
                };
                &&& final(self).child == child
                &&& final(self).armed == (old(self).armed && !(!child && absent))
                &&& r.confirmed == (!child && absent)
                &&& r.os_code == if kill == SignalEvent::NoGroup {
                    second
                } else {
                    code_of(probe, second)
                }
            }),
    {
        let mut os_code: Option<i32> = None;
        let mut absent = false;
        match kill {
            SignalEvent::Delivered => {},
            SignalEvent::NoGroup => {
                absent = true;
            },
            SignalEvent::Failed(code) => {
                os_code = code;
            },
        }
        if self.child {
            match wait {
                WaitEvent::Ended(_) => {
                    self.child = false;
                },
                WaitEvent::Running => {},
                WaitEvent::Failed(code) => {
                    os_code = code;
                },
            }
        }
        if !absent {
            match probe {
                SignalEvent::Delivered => {},
                SignalEvent::NoGroup => {
                    absent = true;
                },
                SignalEvent::Failed(code) => {
                    os_code = code;
                },
            }
        }
        let confirmed = !self.child && absent;
        if confirmed {
            self.armed = false;
        }
        CleanupProgress { confirmed, os_code }
    }
}

/// The last number that attempts gave.
pub fn remember_code(known: Option<i32>, progress: CleanupProgress) -> (r: Option<i32>)
    ensures
        r == if progress.os_code is Some {
            progress.os_code
        } else {
            known
        },
{
    if progress.os_code.is_some() {
        progress.os_code
    } else {
        known
    }
}

/// Who answers for a child, should the worker that runs it break down.
#[derive(Clone, Copy, Debug, PartialEq, Eq, Structural)]
pub enum ProcessCleanupState {
    NotSpawned,
    Armed,
    Confirmed,
    Pending,
    Consumed,
}

/// What is known after a breakdown.
#[derive(Clone, Copy, Debug, PartialEq, Eq, Structural)]
pub enum PanickedProcessCleanup {
    ConfirmedOrNotSpawned,
    Pending,
    Ambiguous,
}

/// What was handed over is handed over once; a child that nobody answers for is
/// not taken to be gone.
pub fn take_after_panic(state: &mut ProcessCleanupState) -> (r: PanickedProcessCleanup)
    ensures
        *final(state) == ProcessCleanupState::Consumed,
        r == match *old(state) {
            ProcessCleanupState::NotSpawned => PanickedProcessCleanup::ConfirmedOrNotSpawned,
            ProcessCleanupState::Confirmed => PanickedProcessCleanup::ConfirmedOrNotSpawned,
            ProcessCleanupState::Pending => PanickedProcessCleanup::Pending,
            ProcessCleanupState::Armed => PanickedProcessCleanup::Ambiguous,
            ProcessCleanupState::Consumed => PanickedProcessCleanup::Ambiguous,
        },
{
    let was = *state;
    *state = ProcessCleanupState::Consumed;
    match was {
        ProcessCleanupState::NotSpawned => PanickedProcessCleanup::ConfirmedOrNotSpawned,
        ProcessCleanupState::Confirmed => PanickedProcessCleanup::ConfirmedOrNotSpawned,
        ProcessCleanupState::Pending => PanickedProcessCleanup::Pending,
        ProcessCleanupState::Armed => PanickedProcessCleanup::Ambiguous,
        ProcessCleanupState::Consumed => PanickedProcessCleanup::Ambiguous,
    }
}

} // verus!
