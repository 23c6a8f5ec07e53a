//! Diagnostics derived from the recorded evidence of one Cargo command. The
//! recorded bytes stay what counts; everything here is a bounded projection.

use crate::cargo_message;
use crate::cargo_message::{
    CargoArtifact, CargoDiagnostic, Context, DiagnosticEvidenceIssue, DiagnosticModel, ArtifactModel,
    ParseContext,
};
use crate::json;
use crate::json::{Json, JsonValue};
use crate::model::{
    CaptureCompleteness, CommandCapture, CommandOutcome, CommandTreeLink, ControlledAction,
    ControlledCommandFinished, ControlledCommandOutput, ControlledCommandStarted, OutputStream,
};
use crate::text;
use vstd::prelude::*;
use vstd::utf8::valid_utf8;

verus! {

pub const MAX_CARGO_MESSAGE_BYTES: usize = 262144;

pub const MAX_DIAGNOSTICS: usize = 256;

pub const MAX_ARTIFACTS: usize = 256;

pub const MAX_OUTPUT_LINES: usize = 128;

pub const MAX_OUTPUT_LINE_BYTES: usize = 4096;

/// What the evidence says of a command as a whole.
#[derive(Clone, Copy, Debug, PartialEq, Eq, Structural)]
pub enum DiagnosticOutcome {
    Success,
    CompilerErrors,
    NonzeroExit,
    ExecutionFailed,
    Unknown,
}

/// Where a selected diagnostic leads.
#[derive(Debug, PartialEq, Eq)]
pub enum DiagnosticNavigation {
    Navigated { path: String, start_byte: u64, end_byte: u64 },
    NoDiagnostics,
    MissingTarget,
    UnmanagedTarget,
    OutsideWorkspace,
    InvalidCoordinates,
    Stale,
}

/// Which command the diagnostics belong to.
#[derive(Debug, PartialEq, Eq)]
pub struct DiagnosticIdentity {
    pub command_id: String,
    pub action: ControlledAction,
    pub argv: Vec<String>,
    pub selected_toolchain: String,
    pub tools: Vec<String>,
    pub workspace: CommandTreeLink,
}

/// A line of output as hexadecimal digits, cut to a fixed number of bytes.
#[derive(Clone, Debug, PartialEq, Eq)]
pub struct DiagnosticOutputLine {
    pub stream: OutputStream,
    pub bytes_hex: String,
    pub truncated: bool,
}

pub struct OutputModel {
    pub stream: OutputStream,
    pub bytes_hex: Seq<char>,
    pub truncated: bool,
}

impl DiagnosticOutputLine {
    pub open spec fn view(&self) -> OutputModel {
        OutputModel {
            stream: self.stream,
            bytes_hex: self.bytes_hex@,
            truncated: self.truncated,
        }
    }

    /// The bytes that the digits stand for.
    pub fn original_bytes(&self) -> (r: Result<Vec<u8>, &'static str>)
        ensures
            r is Ok <==> text::is_hex_text(self.bytes_hex@),
            r is Ok ==> r->Ok_0@ == text::bytes_of_hex(self.bytes_hex@),
            r is Err ==> r->Err_0@ == "invalid output preview hex"@,
    {
        match text::decode_hex(self.bytes_hex.as_str()) {
            Some(bytes) => Ok(bytes),
            None => Err("invalid output preview hex"),
        }
    }
}

/// Everything derived from one command.
#[derive(Debug, PartialEq, Eq)]
pub struct CommandDiagnostics {
    pub version: u32,
    pub identity: DiagnosticIdentity,
    pub stdout: CommandCapture,
    pub stderr: CommandCapture,
    pub issues: Vec<DiagnosticEvidenceIssue>,
    pub outcome: DiagnosticOutcome,
    pub diagnostics: Vec<CargoDiagnostic>,
    pub artifacts: Vec<CargoArtifact>,
    pub structured_messages: u64,
    pub output: Vec<DiagnosticOutputLine>,
    pub omitted_output_lines: u64,
}

impl CommandDiagnostics {
    /// The structured stream was understood in full and held no diagnostic.
    /// The exit code plays no part in it.
    pub fn known_empty(&self) -> (r: bool)
        ensures
            r == (self.issues@.len() == 0 && self.diagnostics@.len() == 0),
    {
        self.issues.len() == 0 && self.diagnostics.len() == 0
    }
}

/// Limits on the evidence that lie outside the records: the bound on captured
/// output, and the message lines that the structural JSON preflight turned down.
pub struct EvidenceRules {
    pub max_output_bytes: u64,
    pub refused_lines: Vec<Vec<u8>>,
}

impl EvidenceRules {
    pub open spec fn refuses(&self, line: Seq<u8>) -> bool {
        exists|i: int| 0 <= i < self.refused_lines@.len() && (#[trigger] self.refused_lines@[i])@ == line
    }

    fn is_refused(&self, line: &[u8]) -> (r: bool)
        ensures
            r == self.refuses(line@),
    {
        let mut i: usize = 0;
        while i < self.refused_lines.len()
            invariant
                i <= self.refused_lines@.len(),
                forall|j: int| 0 <= j < i ==> (#[trigger] self.refused_lines@[j])@ != line@,
            decreases self.refused_lines@.len() - i,
        {
            if text::bytes_eq(self.refused_lines[i].as_slice(), line) {
                return true;
            }
            i += 1;
        }
        false
    }
}

/// The issue that an incomplete capture raises.
pub open spec fn capture_issue_of(completeness: CaptureCompleteness, c: Context) -> Context {
    match completeness {
        CaptureCompleteness::Complete => c,
        CaptureCompleteness::Truncated => cargo_message::raise(c, DiagnosticEvidenceIssue::Truncated),
        CaptureCompleteness::ReadFailed => cargo_message::raise(
            c,
            DiagnosticEvidenceIssue::ReadFailed,
        ),
        CaptureCompleteness::Unavailable => cargo_message::raise(
            c,
            DiagnosticEvidenceIssue::Unavailable,
        ),
    }
}

fn capture_issue(completeness: CaptureCompleteness, context: &mut ParseContext)
    ensures
        final(context).view() == capture_issue_of(completeness, old(context).view()),
{
    match completeness {
        CaptureCompleteness::Complete => {},
        CaptureCompleteness::Truncated => context.issue(DiagnosticEvidenceIssue::Truncated),
        CaptureCompleteness::ReadFailed => context.issue(DiagnosticEvidenceIssue::ReadFailed),
        CaptureCompleteness::Unavailable => context.issue(DiagnosticEvidenceIssue::Unavailable),
    }
}

/// Bound on the bytes that are collected of one stream.
pub open spec fn stream_bound(start: ControlledCommandStarted, rules: EvidenceRules) -> nat {
    if start.output_limit <= rules.max_output_bytes {
        start.output_limit as nat
    } else {
        rules.max_output_bytes as nat
    }
}

/// The bytes that the first `n` pieces give of one stream. A piece of another
/// command or with another offset than the bytes collected so far is a gap and
/// gives nothing; the first piece that would pass the bound ends the reading.
pub open spec fn stream_upto(
    start: ControlledCommandStarted,
    chunks: Seq<ControlledCommandOutput>,
    n: nat,
    stream: OutputStream,
    bound: nat,
    c: Context,
) -> (Seq<u8>, Context, bool)
    decreases n,
{
    if n == 0 {
        (Seq::empty(), c, false)
    } else {
        let (bytes, d, stopped) = stream_upto(start, chunks, (n - 1) as nat, stream, bound, c);
        let chunk = chunks[n - 1];
        if stopped || chunk.stream != stream {
            (bytes, d, stopped)
        } else if chunk.command_id@ != start.command_id@ || chunk.offset != bytes.len() {
            (bytes, cargo_message::raise(d, DiagnosticEvidenceIssue::Missing), false)
        } else {
            match chunk.bytes {
                None => (bytes, cargo_message::raise(d, DiagnosticEvidenceIssue::Malformed), false),
                Some(original) => if bytes.len() + original@.len() > bound {
                    (bytes, cargo_message::raise(d, DiagnosticEvidenceIssue::Oversized), true)
                } else {
                    (bytes + original@, d, false)
                },
            }
        }
    }
}

/// The collected bytes of one stream; fewer than the capture counted is a gap.
pub open spec fn stream_of(
    start: ControlledCommandStarted,
    chunks: Seq<ControlledCommandOutput>,
    stream: OutputStream,
    capture: CommandCapture,
    rules: EvidenceRules,
    c: Context,
) -> (Seq<u8>, Context) {
    let (bytes, d, stopped) = stream_upto(
        start,
        chunks,
        chunks.len(),
        stream,
        stream_bound(start, rules),
        c,
    );
    if bytes.len() != capture.bytes {
        (bytes, cargo_message::raise(d, DiagnosticEvidenceIssue::Missing))
    } else {
        (bytes, d)
    }
}

proof fn lemma_stream_stopped(
    start: ControlledCommandStarted,
    chunks: Seq<ControlledCommandOutput>,
    n: nat,
    m: nat,
    stream: OutputStream,
    bound: nat,
    c: Context,
)
    requires
        n <= m,
        stream_upto(start, chunks, n, stream, bound, c).2,
    ensures
        stream_upto(start, chunks, m, stream, bound, c) == stream_upto(
            start,
            chunks,
            n,
            stream,
            bound,
            c,
        ),
    decreases m - n,
{
    if n < m {
        lemma_stream_stopped(start, chunks, n, (m - 1) as nat, stream, bound, c);
    }
}

fn collect_stream(
    start: &ControlledCommandStarted,
    chunks: &[ControlledCommandOutput],
    stream: OutputStream,
    capture: &CommandCapture,
    rules: &EvidenceRules,
    context: &mut ParseContext,
) -> (r: Vec<u8>)
    ensures
        (r@, final(context).view()) == stream_of(
            *start,
            chunks@,
            stream,
            *capture,
            *rules,
            old(context).view(),
        ),
        cargo_message::same_counts(old(context).view(), final(context).view()),
{
    let maximum: u64 = if start.output_limit <= rules.max_output_bytes {
        start.output_limit
    } else {
        rules.max_output_bytes
    };
    let ghost base = context.view();
    let mut bytes: Vec<u8> = Vec::new();
    let mut i: usize = 0;
    let mut stopped = false;
    while i < chunks.len() && !stopped
        invariant
            i <= chunks@.len(),
            maximum == stream_bound(*start, *rules),
            (bytes@, context.view(), stopped) == stream_upto(
                *start,
                chunks@,
                i as nat,
                stream,
                maximum as nat,
                base,
            ),
            bytes@.len() <= maximum,
            cargo_message::same_counts(base, context.view()),
        decreases chunks@.len() - i,
    {
        let chunk = &chunks[i];
        if chunk.stream == stream {
            if !text::str_eq(chunk.command_id.as_str(), start.command_id.as_str()) || chunk.offset
                != bytes.len() as u64 {
                context.issue(DiagnosticEvidenceIssue::Missing);
            } else {
                match &chunk.bytes {
                    None => context.issue(DiagnosticEvidenceIssue::Malformed),
                    Some(original) => {
                        if original.len() as u64 > maximum - bytes.len() as u64 {
                            context.issue(DiagnosticEvidenceIssue::Oversized);
                            stopped = true;
                        } else {
                            let ghost before = bytes@;
                            bytes.extend_from_slice(original.as_slice());
                            assert(bytes@ =~= before + original@);
                        }
                    },
                }
            }
        }
        i += 1;
    }
    proof {
        if stopped {
            lemma_stream_stopped(
                *start,
                chunks@,
                i as nat,
                chunks@.len(),
                stream,
                maximum as nat,
                base,
            );
        }
    }
    if bytes.len() as u64 != capture.bytes {
        context.issue(DiagnosticEvidenceIssue::Missing);
    }
    bytes
}

/// Position of the first line feed, or the length where there is none.
pub open spec fn line_end(bytes: Seq<u8>) -> nat
    decreases bytes.len(),
{
    if bytes.len() == 0 {
        0
    } else if bytes[0] == 10 {
        0
    } else {
        1 + line_end(bytes.skip(1))
    }
}

/// A line without the carriage return at its end.
pub open spec fn strip_cr(line: Seq<u8>) -> Seq<u8> {
    if line.len() > 0 && line.last() == 13 {
        line.drop_last()
    } else {
        line
    }
}

/// The lines of a byte sequence, without their line ends. Nothing follows the
/// last line feed.
pub open spec fn lines_of(bytes: Seq<u8>) -> Seq<Seq<u8>>
    decreases bytes.len(),
    via lines_of_decreases
{
    if bytes.len() == 0 {
        Seq::empty()
    } else {
        let end = line_end(bytes) as int;
        let rest = if end < bytes.len() {
            bytes.skip(end + 1)
        } else {
            Seq::empty()
        };
        seq![strip_cr(bytes.take(end))] + lines_of(rest)
    }
}

#[via_fn]
proof fn lines_of_decreases(bytes: Seq<u8>) {
}

proof fn lemma_line_end(bytes: Seq<u8>, n: int)
    requires
        0 <= n <= bytes.len(),
        forall|i: int| 0 <= i < n ==> bytes[i] != 10,
        n < bytes.len() ==> bytes[n] == 10,
    ensures
        line_end(bytes) == n,
    decreases bytes.len(),
{
    if n > 0 {
        lemma_line_end(bytes.skip(1), n - 1);
    }
}

pub open spec fn byte_lines_view(lines: Seq<Vec<u8>>) -> Seq<Seq<u8>> {
    Seq::new(lines.len(), |i: int| lines[i]@)
}

/// Splits bytes into lines.
pub fn byte_lines(bytes: &[u8]) -> (r: Vec<Vec<u8>>)
    ensures
        byte_lines_view(r@) == lines_of(bytes@),
{
    let mut lines: Vec<Vec<u8>> = Vec::new();
    let mut from: usize = 0;
    assert(bytes@.skip(0) =~= bytes@);
    assert(byte_lines_view(lines@) + lines_of(bytes@.skip(0)) =~= lines_of(bytes@));
    while from < bytes.len()
        invariant
            from <= bytes@.len(),
            byte_lines_view(lines@) + lines_of(bytes@.skip(from as int)) == lines_of(bytes@),
        decreases bytes@.len() - from,
    {
        let mut end: usize = from;
        while end < bytes.len() && bytes[end] != 10
            invariant
                from <= end <= bytes@.len(),
                forall|i: int| from <= i < end ==> bytes@[i] != 10,
            decreases bytes@.len() - end,
        {
            end += 1;
        }
        let ghost rest = bytes@.skip(from as int);
        proof {
            lemma_line_end(rest, end - from);
        }
        let cut: usize = if end > from && bytes[end - 1] == 13 {
            end - 1
        } else {
            end
        };
        let line = text::copy_bytes(bytes, from, cut);
        let ghost before = lines@;
        lines.push(line);
        let next: usize = if end < bytes.len() {
            end + 1
        } else {
            end
        };
        proof {
            assert(rest.take(end - from) =~= bytes@.subrange(from as int, end as int));
            assert(line@ =~= strip_cr(rest.take(end - from)));
            if end < bytes@.len() {
                assert(rest.skip(end - from + 1) =~= bytes@.skip(next as int));
            } else {
                assert(bytes@.skip(next as int) =~= Seq::<u8>::empty());
            }
            assert(byte_lines_view(lines@) =~= byte_lines_view(before).push(line@));
            assert(lines_of(rest) =~= seq![line@] + lines_of(bytes@.skip(next as int)));
            assert(byte_lines_view(lines@) + lines_of(bytes@.skip(next as int))
                =~= byte_lines_view(before) + lines_of(rest));
        }
        from = next;
    }
    assert(bytes@.skip(from as int) =~= Seq::<u8>::empty());
    assert(byte_lines_view(lines@) =~= lines_of(bytes@));
    lines
}

pub open spec fn is_ascii_space(b: u8) -> bool {
    b == 32 || b == 9 || b == 10 || b == 12 || b == 13
}

/// The first byte that is no white space.
pub open spec fn first_visible(line: Seq<u8>) -> Option<u8>
    decreases line.len(),
{
    if line.len() == 0 {
        None
    } else if is_ascii_space(line[0]) {
        first_visible(line.skip(1))
    } else {
        Some(line[0])
    }
}

/// A line that opens a JSON object or array.
pub open spec fn opens_json(line: Seq<u8>) -> bool {
    first_visible(line) == Some(123u8) || first_visible(line) == Some(91u8)
}

fn trim_ascii_start(line: &[u8]) -> (r: Option<u8>)
    ensures
        r == first_visible(line@),
{
    let mut i: usize = 0;
    assert(line@.skip(0) =~= line@);
    while i < line.len()
        invariant
            i <= line@.len(),
            first_visible(line@) == first_visible(line@.skip(i as int)),
        decreases line@.len() - i,
    {
        let b: u8 = line[i];
        if !(b == 32 || b == 9 || b == 10 || b == 12 || b == 13) {
            return Some(b);
        }
        assert(line@.skip(i as int).skip(1) =~= line@.skip(i as int + 1));
        i += 1;
    }
    None
}

/// What has been read of a command's output so far.
pub struct Scan {
    pub context: ParseContext,
    pub diagnostics: Vec<CargoDiagnostic>,
    pub artifacts: Vec<CargoArtifact>,
    pub output: Vec<DiagnosticOutputLine>,
    pub omitted: u64,
    pub messages: u64,
    pub finished: Option<bool>,
}

pub struct ScanModel {
    pub context: Context,
    pub diagnostics: Seq<DiagnosticModel>,
    pub artifacts: Seq<ArtifactModel>,
    pub output: Seq<OutputModel>,
    pub omitted: u64,
    pub messages: u64,
    pub finished: Option<bool>,
}

pub open spec fn diagnostics_view(v: Seq<CargoDiagnostic>) -> Seq<DiagnosticModel> {
    Seq::new(v.len(), |i: int| v[i].view())
}

pub open spec fn artifacts_view(v: Seq<CargoArtifact>) -> Seq<ArtifactModel> {
    Seq::new(v.len(), |i: int| v[i].view())
}

pub open spec fn output_view(v: Seq<DiagnosticOutputLine>) -> Seq<OutputModel> {
    Seq::new(v.len(), |i: int| v[i].view())
}

/// One more, or the largest number there is.
pub open spec fn next_count(n: u64) -> u64 {
    if n == u64::MAX {
        n
    } else {
        (n + 1) as u64
    }
}

/// Keeps a line of output while there is room, and else counts it.
pub open spec fn retained(s: ScanModel, stream: OutputStream, line: Seq<u8>) -> ScanModel {
    if s.output.len() == MAX_OUTPUT_LINES {
        ScanModel { omitted: next_count(s.omitted), ..s }
    } else {
        let shown = if line.len() <= MAX_OUTPUT_LINE_BYTES {
            line
        } else {
            line.take(MAX_OUTPUT_LINE_BYTES as int)
        };
        ScanModel {
            output: s.output.push(
                OutputModel {
                    stream,
                    bytes_hex: text::hex_of(shown),
                    truncated: line.len() > MAX_OUTPUT_LINE_BYTES,
                },
            ),
            ..s
        }
    }
}

pub open spec fn raised(s: ScanModel, issue: DiagnosticEvidenceIssue) -> ScanModel {
    ScanModel { context: cargo_message::raise(s.context, issue), ..s }
}

/// A line that is kept as plain output with an issue.
pub open spec fn rejected(s: ScanModel, issue: DiagnosticEvidenceIssue, line: Seq<u8>) -> ScanModel {
    retained(raised(s, issue), OutputStream::Stdout, line)
}

pub open spec fn is_runtime(action: ControlledAction) -> bool {
    action == ControlledAction::Test || action == ControlledAction::Run
}

/// One record of the message stream.
#[verifier::opaque]
pub open spec fn record_read(s: ScanModel, reason: Seq<char>, o: Seq<(Seq<char>, Json)>) -> ScanModel {
    if reason == "compiler-message"@ {
        if s.diagnostics.len() < MAX_DIAGNOSTICS {
            let (diagnostic, c) = cargo_message::diagnostic_of(o, s.context);
            match diagnostic {
                Some(d) => ScanModel { diagnostics: s.diagnostics.push(d), context: c, ..s },
                None => raised(
                    ScanModel { context: c, ..s },
                    DiagnosticEvidenceIssue::Malformed,
                ),
            }
        } else {
            raised(s, DiagnosticEvidenceIssue::Oversized)
        }
    } else if reason == "compiler-artifact"@ {
        if s.artifacts.len() < MAX_ARTIFACTS {
            let (artifact, c) = cargo_message::artifact_of(o, s.context);
            match artifact {
                Some(a) => ScanModel { artifacts: s.artifacts.push(a), context: c, ..s },
                None => raised(
                    ScanModel { context: c, ..s },
                    DiagnosticEvidenceIssue::Malformed,
                ),
            }
        } else {
            raised(s, DiagnosticEvidenceIssue::Oversized)
        }
    } else if reason == "build-script-executed"@ {
        let (valid, c) = cargo_message::build_script_of(o, s.context);
        if valid {
            ScanModel { context: c, ..s }
        } else {
            raised(ScanModel { context: c, ..s }, DiagnosticEvidenceIssue::Malformed)
        }
    } else if reason == "build-finished"@ {
        match json::json_bool(json::member(o, "success"@)) {
            Some(success) => if s.finished is None {
                ScanModel { finished: Some(success), ..s }
            } else {
                raised(s, DiagnosticEvidenceIssue::Unexpected)
            },
            None => raised(s, DiagnosticEvidenceIssue::Malformed),
        }
    } else {
        raised(s, DiagnosticEvidenceIssue::Unexpected)
    }
}

/// A line whose JSON value is known, if it has one.
pub open spec fn message_read(s: ScanModel, line: Seq<u8>, parsed: Option<Json>) -> ScanModel {
    match parsed {
        None => rejected(s, DiagnosticEvidenceIssue::Malformed, line),
        Some(Json::Object(o)) => match json::json_str(json::member(o, "reason"@)) {
            None => rejected(s, DiagnosticEvidenceIssue::Malformed, line),
            Some(reason) => {
                let begun = ScanModel {
                    messages: next_count(s.messages),
                    context: Context { rejected: false, ..s.context },
                    ..s
                };
                let t = record_read(begun, reason, o);
                if t.context.rejected {
                    retained(t, OutputStream::Stdout, line)
                } else {
                    t
                }
            },
        },
        Some(_) => rejected(s, DiagnosticEvidenceIssue::Unexpected, line),
    }
}

/// One line of standard output. After the record that ends the build, what
/// follows is the program's own output.
#[verifier::opaque]
pub open spec fn line_read(
    s: ScanModel,
    action: ControlledAction,
    rules: EvidenceRules,
    line: Seq<u8>,
) -> ScanModel {
    if s.finished is Some {
        if is_runtime(action) {
            retained(s, OutputStream::Stdout, line)
        } else {
            rejected(s, DiagnosticEvidenceIssue::Unexpected, line)
        }
    } else if !opens_json(line) {
        if valid_utf8(line) {
            rejected(s, DiagnosticEvidenceIssue::Unexpected, line)
        } else {
            rejected(s, DiagnosticEvidenceIssue::InvalidUtf8, line)
        }
    } else if line.len() > MAX_CARGO_MESSAGE_BYTES {
        rejected(s, DiagnosticEvidenceIssue::Oversized, line)
    } else if !valid_utf8(line) {
        rejected(s, DiagnosticEvidenceIssue::InvalidUtf8, line)
    } else if rules.refuses(line) {
        rejected(s, DiagnosticEvidenceIssue::Malformed, line)
    } else {
        message_read(s, line, json::parsed_json(line))
    }
}

/// The first `n` lines of standard output.
pub open spec fn lines_read(
    s: ScanModel,
    action: ControlledAction,
    rules: EvidenceRules,
    lines: Seq<Seq<u8>>,
    n: nat,
) -> ScanModel
    decreases n,
{
    if n == 0 {
        s
    } else {
        line_read(
            lines_read(s, action, rules, lines, (n - 1) as nat),
            action,
            rules,
            lines[n - 1],
        )
    }
}

/// One line of standard error.
pub open spec fn error_line_read(s: ScanModel, line: Seq<u8>) -> ScanModel {
    retained(
        if valid_utf8(line) {
            s
        } else {
            raised(s, DiagnosticEvidenceIssue::InvalidUtf8)
        },
        OutputStream::Stderr,
        line,
    )
}

/// The first `n` lines of standard error.
pub open spec fn error_lines_read(s: ScanModel, lines: Seq<Seq<u8>>, n: nat) -> ScanModel
    decreases n,
{
    if n == 0 {
        s
    } else {
        error_line_read(error_lines_read(s, lines, (n - 1) as nat), lines[n - 1])
    }
}

impl Scan {
    pub open spec fn view(&self) -> ScanModel {
        ScanModel {
            context: self.context.view(),
            diagnostics: diagnostics_view(self.diagnostics@),
            artifacts: artifacts_view(self.artifacts@),
            output: output_view(self.output@),
            omitted: self.omitted,
            messages: self.messages,
            finished: self.finished,
        }
    }

    /// The counters of the parse context are within their budgets.
    pub open spec fn wf(&self) -> bool {
        cargo_message::span_budget(self.context.view())
    }

    /// A scan that has read nothing and raised the given issues.
    pub fn new(context: ParseContext) -> (r: Scan)
        ensures
            r.view() == (ScanModel {
                context: context.view(),
                diagnostics: Seq::empty(),
                artifacts: Seq::empty(),
                output: Seq::empty(),
                omitted: 0,
                messages: 0,
                finished: None,
            }),
    {
        let r = Scan {
            context,
            diagnostics: Vec::new(),
            artifacts: Vec::new(),
            output: Vec::new(),
            omitted: 0,
            messages: 0,
            finished: None,
        };
        assert(r.view().diagnostics =~= Seq::empty());
        assert(r.view().artifacts =~= Seq::empty());
        assert(r.view().output =~= Seq::empty());
        r
    }

    fn retain_output(&mut self, stream: OutputStream, line: &[u8])
        ensures
            final(self).view() == retained(old(self).view(), stream, line@),
            final(self).context == old(self).context,
    {
        if self.output.len() == MAX_OUTPUT_LINES {
            self.omitted = self.omitted.saturating_add(1);
            return ;
        }
        let shown: usize = if line.len() <= MAX_OUTPUT_LINE_BYTES {
            line.len()
        } else {
            MAX_OUTPUT_LINE_BYTES
        };
        let prefix = text::copy_bytes(line, 0, shown);
        proof {
            if line@.len() <= MAX_OUTPUT_LINE_BYTES {
                assert(prefix@ =~= line@);
            } else {
                assert(prefix@ =~= line@.take(MAX_OUTPUT_LINE_BYTES as int));
            }
        }
        let entry = DiagnosticOutputLine {
            stream,
            bytes_hex: text::encode_hex(prefix.as_slice()),
            truncated: shown != line.len(),
        };
        let ghost before = self.output@;
        self.output.push(entry);
        assert(output_view(self.output@) =~= output_view(before).push(entry.view()));
    }

    fn reject(&mut self, issue: DiagnosticEvidenceIssue, line: &[u8])
        requires
            old(self).wf(),
        ensures
            final(self).view() == rejected(old(self).view(), issue, line@),
            final(self).wf(),
    {
        self.context.issue(issue);
        self.retain_output(OutputStream::Stdout, line);
    }

    fn read_record(&mut self, reason: &str, o: &[(String, JsonValue)])
        requires
            old(self).wf(),
        ensures
            final(self).view() == record_read(old(self).view(), reason@, json::members_view(o@)),
            final(self).wf(),
    {
        proof {
            reveal(record_read);
        }
        let ghost before = *self;
        if text::str_eq(reason, "compiler-message") {
            if self.diagnostics.len() < MAX_DIAGNOSTICS {
                match cargo_message::parse_diagnostic(o, &mut self.context) {
                    Some(diagnostic) => {
                        self.diagnostics.push(diagnostic);
                        assert(diagnostics_view(self.diagnostics@) =~= diagnostics_view(
                            before.diagnostics@,
                        ).push(diagnostic.view()));
                    },
                    None => self.context.issue(DiagnosticEvidenceIssue::Malformed),
                }
            } else {
                self.context.issue(DiagnosticEvidenceIssue::Oversized);
            }
        } else if text::str_eq(reason, "compiler-artifact") {
            if self.artifacts.len() < MAX_ARTIFACTS {
                match cargo_message::parse_artifact(o, &mut self.context) {
                    Some(artifact) => {
                        self.artifacts.push(artifact);
                        assert(artifacts_view(self.artifacts@) =~= artifacts_view(
                            before.artifacts@,
                        ).push(artifact.view()));
                    },
                    None => self.context.issue(DiagnosticEvidenceIssue::Malformed),
                }
            } else {
                self.context.issue(DiagnosticEvidenceIssue::Oversized);
            }
        } else if text::str_eq(reason, "build-script-executed") {
            if cargo_message::parse_build_script_executed(o, &mut self.context).is_none() {
                self.context.issue(DiagnosticEvidenceIssue::Malformed);
            }
        } else if text::str_eq(reason, "build-finished") {
            match json::as_bool(json::get_member(o, "success")) {
                Some(success) => if self.finished.is_none() {
                    self.finished = Some(success);
                } else {
                    self.context.issue(DiagnosticEvidenceIssue::Unexpected);
                },
                None => self.context.issue(DiagnosticEvidenceIssue::Malformed),
            }
        } else {
            self.context.issue(DiagnosticEvidenceIssue::Unexpected);
        }
    }

    /// Reads a line whose JSON value is given, if it has one.
    pub fn read_message(&mut self, line: &[u8], parsed: &Option<JsonValue>)
        requires
            old(self).wf(),
        ensures
            final(self).view() == message_read(
                old(self).view(),
                line@,
                match parsed {
                    Some(value) => Some(value.view()),
                    None => None,
                },
            ),
            final(self).wf(),
    {
        let value = match parsed {
            Some(value) => value,
            None => {
                self.reject(DiagnosticEvidenceIssue::Malformed, line);
                return ;
            },
        };
        let object = match json::as_object(Some(value)) {
            Some(object) => object,
            None => {
                self.reject(DiagnosticEvidenceIssue::Unexpected, line);
                return ;
            },
        };
        let reason = match json::as_text(json::get_member(object.as_slice(), "reason")) {
            Some(reason) => reason,
            None => {
                self.reject(DiagnosticEvidenceIssue::Malformed, line);
                return ;
            },
        };
        self.messages = self.messages.saturating_add(1);
        self.context.begin_record();
        self.read_record(reason.as_str(), object.as_slice());
        if self.context.record_rejected {
            self.retain_output(OutputStream::Stdout, line);
        }
    }

    /// Reads one line of standard output.
    pub fn read_line(&mut self, action: ControlledAction, rules: &EvidenceRules, line: &[u8])
        requires
            old(self).wf(),
        ensures
            final(self).view() == line_read(old(self).view(), action, *rules, line@),
            final(self).wf(),
    {
        proof {
            reveal(line_read);
        }
        if self.finished.is_some() {
            if !(action == ControlledAction::Test || action == ControlledAction::Run) {
                self.context.issue(DiagnosticEvidenceIssue::Unexpected);
            }
            self.retain_output(OutputStream::Stdout, line);
            return ;
        }
        let opens = match trim_ascii_start(line) {
            Some(b) => b == 123 || b == 91,
            None => false,
        };
        if !opens {
            if text::is_utf8(line) {
                self.reject(DiagnosticEvidenceIssue::Unexpected, line);
            } else {
                self.reject(DiagnosticEvidenceIssue::InvalidUtf8, line);
            }
            return ;
        }
        if line.len() > MAX_CARGO_MESSAGE_BYTES {
            self.reject(DiagnosticEvidenceIssue::Oversized, line);
            return ;
        }
        if !text::is_utf8(line) {
            self.reject(DiagnosticEvidenceIssue::InvalidUtf8, line);
            return ;
        }
        if rules.is_refused(line) {
            self.reject(DiagnosticEvidenceIssue::Malformed, line);
            return ;
        }
        let parsed = json::parse_json(line);
        self.read_message(line, &parsed);
    }

    /// Reads one line of standard error.
    pub fn read_error_line(&mut self, line: &[u8])
        requires
            old(self).wf(),
        ensures
            final(self).view() == error_line_read(old(self).view(), line@),
            final(self).wf(),
    {
        if !text::is_utf8(line) {
            self.context.issue(DiagnosticEvidenceIssue::InvalidUtf8);
        }
        self.retain_output(OutputStream::Stderr, line);
    }
}

/// The start and the end of a command speak of the same command on the same tree.
pub open spec fn paired(start: ControlledCommandStarted, finish: ControlledCommandFinished) -> bool {
    &&& start.command_id@ == finish.command_id@
    &&& start.before.workspace_hash.bytes@ == finish.after.workspace_hash.bytes@
    &&& start.before.workspace_version == finish.after.workspace_version
}

pub open spec fn has_error(diagnostics: Seq<DiagnosticModel>) -> bool {
    exists|i: int|
        0 <= i < diagnostics.len() && cargo_message::is_error_level(
            (#[trigger] diagnostics[i]).level,
        )
}

/// The build result contradicts the exit code or the diagnostics.
pub open spec fn contradicts(
    finished: Option<bool>,
    code: i32,
    errors: bool,
    action: ControlledAction,
) -> bool {
    ||| finished == Some(false) && code == 0
    ||| finished == Some(true) && errors
    ||| finished == Some(true) && code != 0 && !is_runtime(action)
}

/// The scan of both streams with the issues that the records themselves raise.
pub open spec fn evidence_read(
    start: ControlledCommandStarted,
    chunks: Seq<ControlledCommandOutput>,
    finish: ControlledCommandFinished,
    rules: EvidenceRules,
) -> ScanModel {
    let c0 = Context { issues: Seq::empty(), spans: 0, children: 0, rejected: false };
    let c1 = if paired(start, finish) {
        c0
    } else {
        cargo_message::raise(c0, DiagnosticEvidenceIssue::Missing)
    };
    let c2 = capture_issue_of(finish.stdout.completeness, c1);
    let c3 = capture_issue_of(finish.stderr.completeness, c2);
    let (stdout, c4) = stream_of(start, chunks, OutputStream::Stdout, finish.stdout, rules, c3);
    let (stderr, c5) = stream_of(start, chunks, OutputStream::Stderr, finish.stderr, rules, c4);
    let empty = ScanModel {
        context: c5,
        diagnostics: Seq::empty(),
        artifacts: Seq::empty(),
        output: Seq::empty(),
        omitted: 0,
        messages: 0,
        finished: None,
    };
    let lines = lines_of(stdout);
    let read = lines_read(empty, start.action, rules, lines, lines.len());
    let closed = if read.finished is None {
        raised(read, DiagnosticEvidenceIssue::Missing)
    } else {
        read
    };
    let error_lines = lines_of(stderr);
    error_lines_read(closed, error_lines, error_lines.len())
}

/// The scan with what the outcome of the command adds to it.
pub open spec fn evidence_of(
    start: ControlledCommandStarted,
    chunks: Seq<ControlledCommandOutput>,
    finish: ControlledCommandFinished,
    rules: EvidenceRules,
) -> ScanModel {
    judged(evidence_read(start, chunks, finish, rules), start.action, finish.outcome)
}

/// What the evidence says of the command as a whole. An issue of any kind leaves
/// the outcome of a command that ran unknown.
pub open spec fn outcome_of(s: ScanModel, outcome: CommandOutcome) -> DiagnosticOutcome {
    match outcome {
        CommandOutcome::Exited { code } => if s.context.issues.len() > 0 {
            DiagnosticOutcome::Unknown
        } else if has_error(s.diagnostics) {
            DiagnosticOutcome::CompilerErrors
        } else if code != 0 {
            DiagnosticOutcome::NonzeroExit
        } else if s.finished == Some(true) {
            DiagnosticOutcome::Success
        } else {
            DiagnosticOutcome::Unknown
        },
        _ => DiagnosticOutcome::ExecutionFailed,
    }
}

/// Raises the issues of the records and reads both streams.
fn read_evidence(
    start: &ControlledCommandStarted,
    chunks: &[ControlledCommandOutput],
    finish: &ControlledCommandFinished,
    rules: &EvidenceRules,
) -> (r: Scan)
    ensures
        r.view() == evidence_read(*start, chunks@, *finish, *rules),
{
    let mut context = ParseContext::new();
    if !text::str_eq(start.command_id.as_str(), finish.command_id.as_str())
        || !start.before.workspace_hash.same(&finish.after.workspace_hash)
        || start.before.workspace_version != finish.after.workspace_version {
        context.issue(DiagnosticEvidenceIssue::Missing);
    }
    capture_issue(finish.stdout.completeness, &mut context);
    capture_issue(finish.stderr.completeness, &mut context);
    let stdout = collect_stream(
        start,
        chunks,
        OutputStream::Stdout,
        &finish.stdout,
        rules,
        &mut context,
    );
    let stderr = collect_stream(
        start,
        chunks,
        OutputStream::Stderr,
        &finish.stderr,
        rules,
        &mut context,
    );
    let mut scan = Scan::new(context);
    read_output(&mut scan, start.action, rules, stdout.as_slice());
    if scan.finished.is_none() {
        scan.context.issue(DiagnosticEvidenceIssue::Missing);
    }
    read_errors(&mut scan, stderr.as_slice());
    scan
}

fn read_output(scan: &mut Scan, action: ControlledAction, rules: &EvidenceRules, stdout: &[u8])
    requires
        old(scan).wf(),
    ensures
        final(scan).wf(),
        final(scan).view() == lines_read(
            old(scan).view(),
            action,
            *rules,
            lines_of(stdout@),
            lines_of(stdout@).len(),
        ),
{
    let ghost first = scan.view();
    let lines = byte_lines(stdout);
    let ghost all = byte_lines_view(lines@);
    let mut i: usize = 0;
    while i < lines.len()
        invariant
            i <= lines@.len(),
            all == byte_lines_view(lines@),
            scan.wf(),
            scan.view() == lines_read(first, action, *rules, all, i as nat),
        decreases lines@.len() - i,
    {
        assert(all[i as int] == lines@[i as int]@);
        scan.read_line(action, rules, lines[i].as_slice());
        i += 1;
    }
}

fn read_errors(scan: &mut Scan, stderr: &[u8])
    requires
        old(scan).wf(),
    ensures
        final(scan).view() == error_lines_read(
            old(scan).view(),
            lines_of(stderr@),
            lines_of(stderr@).len(),
        ),
{
    let ghost first = scan.view();
    let lines = byte_lines(stderr);
    let ghost all = byte_lines_view(lines@);
    let mut i: usize = 0;
    while i < lines.len()
        invariant
            i <= lines@.len(),
            all == byte_lines_view(lines@),
            scan.wf(),
            scan.view() == error_lines_read(first, all, i as nat),
        decreases lines@.len() - i,
    {
        assert(all[i as int] == lines@[i as int]@);
        scan.read_error_line(lines[i].as_slice());
        i += 1;
    }
}

/// What the outcome of the command adds to a scan.
pub open spec fn judged(s: ScanModel, action: ControlledAction, outcome: CommandOutcome) -> ScanModel {
    match outcome {
        CommandOutcome::Exited { code } => if contradicts(
            s.finished,
            code,
            has_error(s.diagnostics),
            action,
        ) {
            raised(s, DiagnosticEvidenceIssue::Unexpected)
        } else {
            s
        },
        _ => raised(s, DiagnosticEvidenceIssue::ExecutionFailed),
    }
}

/// Adds what the outcome of the command says and settles the result.
pub fn judge(scan: &mut Scan, action: ControlledAction, command: CommandOutcome) -> (r:
    DiagnosticOutcome)
    ensures
        final(scan).view() == judged(old(scan).view(), action, command),
        r == outcome_of(final(scan).view(), command),
{
    let errors = any_error(&scan.diagnostics);
    match command {
        CommandOutcome::Exited { code } => {
            let runtime = action == ControlledAction::Test || action == ControlledAction::Run;
            let failed = matches!(scan.finished, Some(false));
            let passed = matches!(scan.finished, Some(true));
            if (failed && code == 0) || (passed && errors) || (passed && code != 0 && !runtime) {
                scan.context.issue(DiagnosticEvidenceIssue::Unexpected);
            }
            if scan.context.issues.len() > 0 {
                DiagnosticOutcome::Unknown
            } else if errors {
                DiagnosticOutcome::CompilerErrors
            } else if code != 0 {
                DiagnosticOutcome::NonzeroExit
            } else if passed {
                DiagnosticOutcome::Success
            } else {
                DiagnosticOutcome::Unknown
            }
        },
        _ => {
            scan.context.issue(DiagnosticEvidenceIssue::ExecutionFailed);
            DiagnosticOutcome::ExecutionFailed
        },
    }
}

/// Derives the diagnostics of one command from its records.
pub fn derive_command_diagnostics(
    start: &ControlledCommandStarted,
    chunks: &[ControlledCommandOutput],
    finish: &ControlledCommandFinished,
    rules: &EvidenceRules,
) -> (r: CommandDiagnostics)
    ensures
        ({
            let s = evidence_of(*start, chunks@, *finish, *rules);
            &&& r.issues@ == s.context.issues
            &&& r.outcome == outcome_of(s, finish.outcome)
            &&& diagnostics_view(r.diagnostics@) == s.diagnostics
            &&& artifacts_view(r.artifacts@) == s.artifacts
            &&& r.structured_messages == s.messages
            &&& output_view(r.output@) == s.output
            &&& r.omitted_output_lines == s.omitted
        }),
        r.version == 1,
        r.stdout == finish.stdout,
        r.stderr == finish.stderr,
        r.identity.command_id@ == start.command_id@,
        r.identity.action == start.action,
        r.identity.argv@ == start.argv@,
        r.identity.selected_toolchain@ == start.selected_toolchain@,
        r.identity.tools@ == start.tools@,
        r.identity.workspace == start.before,
{
    let mut scan = read_evidence(start, chunks, finish, rules);
    let outcome = judge(&mut scan, start.action, finish.outcome);
    CommandDiagnostics {
        version: 1,
        identity: DiagnosticIdentity {
            command_id: start.command_id.clone(),
            action: start.action,
            argv: text::copy_strings(&start.argv),
            selected_toolchain: start.selected_toolchain.clone(),
            tools: text::copy_strings(&start.tools),
            workspace: start.before,
        },
        stdout: finish.stdout,
        stderr: finish.stderr,
        issues: scan.context.issues,
        outcome,
        diagnostics: scan.diagnostics,
        artifacts: scan.artifacts,
        structured_messages: scan.messages,
        output: scan.output,
        omitted_output_lines: scan.omitted,
    }
}

fn any_error(diagnostics: &Vec<CargoDiagnostic>) -> (r: bool)
    ensures
        r == has_error(diagnostics_view(diagnostics@)),
{
    let ghost all = diagnostics_view(diagnostics@);
    let mut i: usize = 0;
    while i < diagnostics.len()
        invariant
            i <= diagnostics@.len(),
            all == diagnostics_view(diagnostics@),
            forall|j: int|
                0 <= j < i ==> !cargo_message::is_error_level((#[trigger] all[j]).level),
        decreases diagnostics@.len() - i,
    {
        if diagnostics[i].is_error() {
            assert(cargo_message::is_error_level(all[i as int].level));
            return true;
        }
        assert(!cargo_message::is_error_level(all[i as int].level));
        i += 1;
    }
    false
}

} // verus!
