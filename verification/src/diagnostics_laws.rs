//! What holds of every derived diagnostic report.

use crate::cargo_message;
use crate::cargo_message::{Context, DiagnosticEvidenceIssue};
use crate::diagnostics;
use crate::diagnostics::{EvidenceRules, ScanModel};
use crate::json;
use crate::json::Json;
use crate::model::{
    CommandOutcome, ControlledAction, ControlledCommandFinished, ControlledCommandOutput,
    ControlledCommandStarted, OutputStream,
};
use crate::text;
use vstd::prelude::*;

verus! {

/// No issue stands twice in the list.
pub open spec fn once(c: Context) -> bool {
    c.issues.no_duplicates()
}

/// Nothing that was raised is forgotten, and nothing comes in twice.
pub open spec fn follows(c: Context, d: Context) -> bool {
    &&& once(c) ==> once(d)
    &&& c.issues.len() <= d.issues.len()
    &&& c.issues == d.issues.take(c.issues.len() as int)
}

proof fn lemma_follows_refl(c: Context)
    ensures
        follows(c, c),
{
    assert(c.issues.take(c.issues.len() as int) =~= c.issues);
}

proof fn lemma_follows_trans(c: Context, d: Context, e: Context)
    requires
        follows(c, d),
        follows(d, e),
    ensures
        follows(c, e),
{
    assert(e.issues.take(c.issues.len() as int) =~= d.issues.take(c.issues.len() as int));
}

proof fn lemma_raise(c: Context, issue: DiagnosticEvidenceIssue)
    ensures
        follows(c, cargo_message::raise(c, issue)),
{
    let d = cargo_message::raise(c, issue);
    assert(d.issues.take(c.issues.len() as int) =~= c.issues);
    if once(c) && !c.issues.contains(issue) {
        assert forall|i: int, j: int|
            0 <= i < d.issues.len() && 0 <= j < d.issues.len() && i != j implies d.issues[i]
            != d.issues[j] by {
            if i == c.issues.len() {
                assert(c.issues.contains(d.issues[j]));
            } else if j == c.issues.len() {
                assert(c.issues.contains(d.issues[i]));
            }
        }
    }
}

/// The two facts above for every step at once.
proof fn lemma_steps()
    ensures
        forall|c: Context| #[trigger] follows(c, c),
        forall|c: Context, issue: DiagnosticEvidenceIssue|
            follows(c, #[trigger] cargo_message::raise(c, issue)),
        forall|c: Context, d: Context, e: Context|
            #[trigger] follows(c, d) && #[trigger] follows(d, e) ==> follows(c, e),
        forall|s: Seq<char>, max: nat, c: Context|
            follows(c, (#[trigger] cargo_message::bounded_text(s, max, c)).1),
{
    assert forall|c: Context| #[trigger] follows(c, c) by {
        lemma_follows_refl(c);
    }
    assert forall|c: Context, issue: DiagnosticEvidenceIssue|
        follows(c, #[trigger] cargo_message::raise(c, issue)) by {
        lemma_raise(c, issue);
    }
    assert forall|c: Context, d: Context, e: Context| #[trigger]
        follows(c, d) && #[trigger] follows(d, e) implies follows(c, e) by {
        lemma_follows_trans(c, d, e);
    }
    assert forall|s: Seq<char>, max: nat, c: Context|
        follows(c, (#[trigger] cargo_message::bounded_text(s, max, c)).1) by {
        lemma_follows_refl(c);
        lemma_raise(c, DiagnosticEvidenceIssue::Oversized);
    }
}

proof fn lemma_required_string(o: Seq<(Seq<char>, Json)>, key: Seq<char>, max: nat, c: Context)
    ensures
        follows(c, cargo_message::required_string_of(o, key, max, c).1),
        follows(c, cargo_message::nullable_string_of(o, key, max, c).1),
        follows(c, cargo_message::required_u64_of(o, key, c).1),
        follows(c, cargo_message::required_bool_of(o, key, c).1),
{
    lemma_steps();
}

proof fn lemma_strings(items: Seq<Json>, n: nat, max: nat, c: Context)
    ensures
        follows(c, cargo_message::strings_upto(items, n, max, c).1),
    decreases n,
{
    lemma_steps();
    if n > 0 {
        lemma_strings(items, (n - 1) as nat, max, c);
    }
}

proof fn lemma_string_list(v: Option<Json>, max: nat, c: Context)
    ensures
        follows(c, cargo_message::string_list_of(v, max, c).1),
{
    reveal(cargo_message::string_list_of);
    lemma_steps();
    let (items, d) = cargo_message::required_array_of(v, c);
    if items is Some {
        let e = cargo_message::list_bound(items->0, d);
        lemma_strings(items->0, cargo_message::read_len(items->0), max, e);
        assert(follows(d, e));
    }
}

proof fn lemma_checked(items: Seq<Json>, n: nat, c: Context)
    ensures
        follows(c, cargo_message::checked_upto(items, n, c).1),
    decreases n,
{
    lemma_steps();
    if n > 0 {
        lemma_checked(items, (n - 1) as nat, c);
    }
}

proof fn lemma_environment(items: Seq<Json>, n: nat, c: Context)
    ensures
        follows(c, cargo_message::environment_upto(items, n, c).1),
    decreases n,
{
    lemma_steps();
    if n > 0 {
        lemma_environment(items, (n - 1) as nat, c);
        let d = cargo_message::environment_upto(items, (n - 1) as nat, c).1;
        match items[n - 1] {
            Json::Array(pair) => {
                lemma_checked(pair, 2, d);
            },
            _ => {},
        }
    }
}

proof fn lemma_lists(v: Option<Json>, c: Context)
    ensures
        follows(c, cargo_message::valid_string_list_of(v, c).1),
        follows(c, cargo_message::valid_environment_of(v, c).1),
{
    lemma_steps();
    let (items, d) = cargo_message::required_array_of(v, c);
    if items is Some {
        let e = cargo_message::list_bound(items->0, d);
        assert(follows(d, e));
        lemma_checked(items->0, cargo_message::read_len(items->0), e);
        lemma_environment(items->0, cargo_message::read_len(items->0), e);
    }
}

proof fn lemma_target(v: Option<Json>, c: Context)
    ensures
        follows(c, cargo_message::target_of(v, c).1),
{
    reveal(cargo_message::target_of);
    lemma_steps();
    assert forall|o: Seq<(Seq<char>, Json)>, key: Seq<char>, max: nat, d: Context|
        follows(d, (#[trigger] cargo_message::required_string_of(o, key, max, d)).1) by {
        lemma_required_string(o, key, max, d);
    }
    assert forall|w: Option<Json>, max: nat, d: Context|
        follows(d, (#[trigger] cargo_message::string_list_of(w, max, d)).1) by {
        lemma_string_list(w, max, d);
    }
}

/// Every reader of a part of a record goes on from where it was called.
proof fn lemma_fields()
    ensures
        forall|o: Seq<(Seq<char>, Json)>, key: Seq<char>, max: nat, d: Context|
            follows(d, (#[trigger] cargo_message::required_string_of(o, key, max, d)).1),
        forall|o: Seq<(Seq<char>, Json)>, key: Seq<char>, max: nat, d: Context|
            follows(d, (#[trigger] cargo_message::nullable_string_of(o, key, max, d)).1),
        forall|o: Seq<(Seq<char>, Json)>, key: Seq<char>, d: Context|
            follows(d, (#[trigger] cargo_message::required_u64_of(o, key, d)).1),
        forall|o: Seq<(Seq<char>, Json)>, key: Seq<char>, d: Context|
            follows(d, (#[trigger] cargo_message::required_bool_of(o, key, d)).1),
        forall|w: Option<Json>, max: nat, d: Context|
            follows(d, (#[trigger] cargo_message::string_list_of(w, max, d)).1),
        forall|w: Option<Json>, d: Context|
            follows(d, (#[trigger] cargo_message::target_of(w, d)).1),
        forall|w: Option<Json>, d: Context|
            follows(d, (#[trigger] cargo_message::valid_string_list_of(w, d)).1),
        forall|w: Option<Json>, d: Context|
            follows(d, (#[trigger] cargo_message::valid_environment_of(w, d)).1),
{
    assert forall|o: Seq<(Seq<char>, Json)>, key: Seq<char>, max: nat, d: Context|
        follows(d, (#[trigger] cargo_message::required_string_of(o, key, max, d)).1) by {
        lemma_required_string(o, key, max, d);
    }
    assert forall|o: Seq<(Seq<char>, Json)>, key: Seq<char>, max: nat, d: Context|
        follows(d, (#[trigger] cargo_message::nullable_string_of(o, key, max, d)).1) by {
        lemma_required_string(o, key, max, d);
    }
    assert forall|o: Seq<(Seq<char>, Json)>, key: Seq<char>, d: Context|
        follows(d, (#[trigger] cargo_message::required_u64_of(o, key, d)).1) by {
        lemma_required_string(o, key, 0, d);
    }
    assert forall|o: Seq<(Seq<char>, Json)>, key: Seq<char>, d: Context|
        follows(d, (#[trigger] cargo_message::required_bool_of(o, key, d)).1) by {
        lemma_required_string(o, key, 0, d);
    }
    assert forall|w: Option<Json>, max: nat, d: Context|
        follows(d, (#[trigger] cargo_message::string_list_of(w, max, d)).1) by {
        lemma_string_list(w, max, d);
    }
    assert forall|w: Option<Json>, d: Context|
        follows(d, (#[trigger] cargo_message::target_of(w, d)).1) by {
        lemma_target(w, d);
    }
    assert forall|w: Option<Json>, d: Context|
        follows(d, (#[trigger] cargo_message::valid_string_list_of(w, d)).1) by {
        lemma_lists(w, d);
    }
    assert forall|w: Option<Json>, d: Context|
        follows(d, (#[trigger] cargo_message::valid_environment_of(w, d)).1) by {
        lemma_lists(w, d);
    }
}

proof fn lemma_level(o: Seq<(Seq<char>, Json)>, c: Context)
    ensures
        follows(c, cargo_message::level_of(o, c).1),
{
    reveal(cargo_message::level_of);
    lemma_steps();
    lemma_fields();
}

proof fn lemma_code(v: Option<Json>, c: Context)
    ensures
        follows(c, cargo_message::code_of(v, c).1),
{
    reveal(cargo_message::code_of);
    lemma_steps();
    lemma_fields();
}

proof fn lemma_profile(v: Option<Json>, c: Context)
    ensures
        follows(c, cargo_message::profile_of(v, c).1),
{
    reveal(cargo_message::profile_of);
    lemma_steps();
    lemma_fields();
}

proof fn lemma_span(o: Seq<(Seq<char>, Json)>, c: Context)
    ensures
        follows(c, cargo_message::span_of(o, c).1),
{
    reveal(cargo_message::span_of);
    lemma_steps();
    lemma_fields();
}

proof fn lemma_build_script(o: Seq<(Seq<char>, Json)>, c: Context)
    ensures
        follows(c, cargo_message::build_script_of(o, c).1),
{
    reveal(cargo_message::build_script_of);
    lemma_steps();
    lemma_fields();
}

proof fn lemma_level_code(o: Seq<(Seq<char>, Json)>, v: Option<Json>, c: Context)
    ensures
        follows(c, cargo_message::level_of(o, c).1),
        follows(c, cargo_message::code_of(v, c).1),
        follows(c, cargo_message::profile_of(v, c).1),
        follows(c, cargo_message::span_of(o, c).1),
        follows(c, cargo_message::build_script_of(o, c).1),
{
    lemma_level(o, c);
    lemma_code(v, c);
    lemma_profile(v, c);
    lemma_span(o, c);
    lemma_build_script(o, c);
}

proof fn lemma_spans(items: Seq<Json>, n: nat, c: Context)
    ensures
        follows(c, cargo_message::spans_upto(items, n, c).1),
    decreases n,
{
    lemma_steps();
    if n > 0 {
        lemma_spans(items, (n - 1) as nat, c);
        let d = cargo_message::spans_upto(items, (n - 1) as nat, c).1;
        match items[n - 1] {
            Json::Object(o) => {
                lemma_level_code(o, None, d);
            },
            _ => {},
        }
    }
}

proof fn lemma_span_list(v: Option<Json>, c: Context)
    ensures
        follows(c, cargo_message::spans_of(v, c).1),
{
    reveal(cargo_message::spans_of);
    lemma_steps();
    let (items, d) = cargo_message::required_array_of(v, c);
    if items is Some {
        lemma_spans(items->0, cargo_message::read_len(items->0), d);
    }
}

proof fn lemma_child(item: Json, depth: nat, c: Context)
    ensures
        follows(c, cargo_message::child_of(item, depth, c).1),
    decreases cargo_message::MAX_CHILD_DEPTH - depth, 0int, 0int,
{
    lemma_steps();
    lemma_fields();
    match item {
        Json::Object(o) => {
            lemma_level_code(o, None, c);
            let c1 = cargo_message::level_of(o, c).1;
            let c2 = cargo_message::required_string_of(
                o,
                "message"@,
                cargo_message::MAX_FIELD_BYTES as nat,
                c1,
            ).1;
            let code = crate::json::member(o, "code"@);
            lemma_level_code(o, code, c2);
            let c3 = cargo_message::code_of(code, c2).1;
            let c4 = cargo_message::nullable_string_of(
                o,
                "rendered"@,
                cargo_message::MAX_RENDERED_BYTES as nat,
                c3,
            ).1;
            let spans = crate::json::member(o, "spans"@);
            lemma_span_list(spans, c4);
            let c5 = cargo_message::spans_of(spans, c4).1;
            if depth + 1 < cargo_message::MAX_CHILD_DEPTH {
                lemma_children(crate::json::member(o, "children"@), depth + 1, c5);
            }
        },
        _ => {},
    }
}

proof fn lemma_children_upto(items: Seq<Json>, n: nat, depth: nat, c: Context)
    ensures
        follows(c, cargo_message::children_upto(items, n, depth, c).1),
    decreases cargo_message::MAX_CHILD_DEPTH - depth, 0int, n,
{
    lemma_steps();
    if n > 0 {
        lemma_children_upto(items, (n - 1) as nat, depth, c);
        let d = cargo_message::children_upto(items, (n - 1) as nat, depth, c).1;
        let e = Context { children: d.children + 1, ..d };
        lemma_follows_refl(d);
        assert(follows(d, e));
        lemma_child(items[n - 1], depth, e);
    }
}

proof fn lemma_children(v: Option<Json>, depth: nat, c: Context)
    ensures
        follows(c, cargo_message::children_of(v, depth, c).1),
    decreases cargo_message::MAX_CHILD_DEPTH - depth, 1int, 0int,
{
    lemma_steps();
    let (items, d) = cargo_message::required_array_of(v, c);
    if items is Some {
        let e = if items->0.len() > cargo_message::MAX_LIST_ITEMS || depth
            >= cargo_message::MAX_CHILD_DEPTH {
            cargo_message::raise(d, DiagnosticEvidenceIssue::Oversized)
        } else {
            d
        };
        lemma_children_upto(items->0, cargo_message::read_len(items->0), depth, e);
    }
}

proof fn lemma_records(o: Seq<(Seq<char>, Json)>, c: Context)
    ensures
        follows(c, cargo_message::diagnostic_of(o, c).1),
        follows(c, cargo_message::artifact_of(o, c).1),
{
    reveal(cargo_message::diagnostic_of);
    reveal(cargo_message::artifact_of);
    lemma_steps();
    lemma_fields();
    assert forall|m: Seq<(Seq<char>, Json)>, d: Context|
        follows(d, (#[trigger] cargo_message::level_of(m, d)).1) by {
        lemma_level_code(m, None, d);
    }
    assert forall|w: Option<Json>, d: Context|
        follows(d, (#[trigger] cargo_message::code_of(w, d)).1) by {
        lemma_level_code(o, w, d);
    }
    assert forall|w: Option<Json>, d: Context|
        follows(d, (#[trigger] cargo_message::profile_of(w, d)).1) by {
        lemma_level_code(o, w, d);
    }
    assert forall|w: Option<Json>, d: Context|
        follows(d, (#[trigger] cargo_message::spans_of(w, d)).1) by {
        lemma_span_list(w, d);
    }
    assert forall|w: Option<Json>, d: Context|
        follows(d, (#[trigger] cargo_message::children_of(w, 0, d)).1) by {
        lemma_children(w, 0, d);
    }
}

/// A scan within its bounds: no issue twice, and no list longer than it may be.
pub open spec fn bounded_scan(s: ScanModel) -> bool {
    &&& once(s.context)
    &&& s.diagnostics.len() <= diagnostics::MAX_DIAGNOSTICS
    &&& s.artifacts.len() <= diagnostics::MAX_ARTIFACTS
    &&& s.output.len() <= diagnostics::MAX_OUTPUT_LINES
    &&& forall|i: int|
        0 <= i < s.output.len() ==> #[trigger] s.output[i].bytes_hex.len() <= 2
            * diagnostics::MAX_OUTPUT_LINE_BYTES && text::is_hex_text(s.output[i].bytes_hex)
}

proof fn lemma_retained(s: ScanModel, stream: OutputStream, line: Seq<u8>)
    requires
        bounded_scan(s),
    ensures
        bounded_scan(diagnostics::retained(s, stream, line)),
{
    let shown = if line.len() <= diagnostics::MAX_OUTPUT_LINE_BYTES {
        line
    } else {
        line.take(diagnostics::MAX_OUTPUT_LINE_BYTES as int)
    };
    text::hex_round_trip(shown);
}

proof fn lemma_line_read(
    s: ScanModel,
    action: ControlledAction,
    rules: EvidenceRules,
    line: Seq<u8>,
)
    requires
        bounded_scan(s),
    ensures
        bounded_scan(diagnostics::line_read(s, action, rules, line)),
{
    reveal(diagnostics::line_read);
    reveal(diagnostics::record_read);
    lemma_steps();
    assert forall|t: ScanModel| bounded_scan(t) implies #[trigger] bounded_scan(
        diagnostics::retained(t, OutputStream::Stdout, line),
    ) by {
        lemma_retained(t, OutputStream::Stdout, line);
    }
    assert forall|t: ScanModel, issue: DiagnosticEvidenceIssue| bounded_scan(t) implies bounded_scan(
        #[trigger] diagnostics::raised(t, issue),
    ) by {
        lemma_raise(t.context, issue);
    }
    match crate::json::parsed_json(line) {
        Some(Json::Object(o)) => {
            let c = Context { rejected: false, ..s.context };
            lemma_records(o, c);
            lemma_level_code(o, None, c);
        },
        _ => {},
    }
}

proof fn lemma_lines_read(
    s: ScanModel,
    action: ControlledAction,
    rules: EvidenceRules,
    lines: Seq<Seq<u8>>,
    n: nat,
)
    requires
        bounded_scan(s),
    ensures
        bounded_scan(diagnostics::lines_read(s, action, rules, lines, n)),
    decreases n,
{
    if n > 0 {
        lemma_lines_read(s, action, rules, lines, (n - 1) as nat);
        lemma_line_read(
            diagnostics::lines_read(s, action, rules, lines, (n - 1) as nat),
            action,
            rules,
            lines[n - 1],
        );
    }
}

proof fn lemma_error_lines_read(s: ScanModel, lines: Seq<Seq<u8>>, n: nat)
    requires
        bounded_scan(s),
    ensures
        bounded_scan(diagnostics::error_lines_read(s, lines, n)),
    decreases n,
{
    if n > 0 {
        lemma_error_lines_read(s, lines, (n - 1) as nat);
        let t = diagnostics::error_lines_read(s, lines, (n - 1) as nat);
        lemma_raise(t.context, DiagnosticEvidenceIssue::InvalidUtf8);
        lemma_retained(t, OutputStream::Stderr, lines[n - 1]);
        lemma_retained(
            diagnostics::raised(t, DiagnosticEvidenceIssue::InvalidUtf8),
            OutputStream::Stderr,
            lines[n - 1],
        );
    }
}

proof fn lemma_stream(
    start: ControlledCommandStarted,
    chunks: Seq<ControlledCommandOutput>,
    n: nat,
    stream: OutputStream,
    bound: nat,
    c: Context,
)
    ensures
        follows(c, diagnostics::stream_upto(start, chunks, n, stream, bound, c).1),
    decreases n,
{
    lemma_steps();
    if n > 0 {
        lemma_stream(start, chunks, (n - 1) as nat, stream, bound, c);
    }
}

/// Whatever a command printed, its report is bounded: no issue stands twice, at
/// most `MAX_DIAGNOSTICS` diagnostics, `MAX_ARTIFACTS` artifacts and
/// `MAX_OUTPUT_LINES` lines are kept, and each kept line is hexadecimal text of
/// at most `MAX_OUTPUT_LINE_BYTES` bytes.
pub proof fn report_is_bounded(
    start: ControlledCommandStarted,
    chunks: Seq<ControlledCommandOutput>,
    finish: ControlledCommandFinished,
    rules: EvidenceRules,
)
    ensures
        bounded_scan(diagnostics::evidence_of(start, chunks, finish, rules)),
{
    lemma_steps();
    let c0 = Context { issues: Seq::empty(), spans: 0, children: 0, rejected: false };
    let c1 = if diagnostics::paired(start, finish) {
        c0
    } else {
        cargo_message::raise(c0, DiagnosticEvidenceIssue::Missing)
    };
    let c2 = diagnostics::capture_issue_of(finish.stdout.completeness, c1);
    let c3 = diagnostics::capture_issue_of(finish.stderr.completeness, c2);
    let bound = diagnostics::stream_bound(start, rules);
    lemma_stream(start, chunks, chunks.len(), OutputStream::Stdout, bound, c3);
    let (stdout, c4) = diagnostics::stream_of(
        start,
        chunks,
        OutputStream::Stdout,
        finish.stdout,
        rules,
        c3,
    );
    lemma_stream(start, chunks, chunks.len(), OutputStream::Stderr, bound, c4);
    let (stderr, c5) = diagnostics::stream_of(
        start,
        chunks,
        OutputStream::Stderr,
        finish.stderr,
        rules,
        c4,
    );
    assert(once(c0));
    assert(once(c5));
    let empty = ScanModel {
        context: c5,
        diagnostics: Seq::empty(),
        artifacts: Seq::empty(),
        output: Seq::empty(),
        omitted: 0,
        messages: 0,
        finished: None,
    };
    let lines = diagnostics::lines_of(stdout);
    lemma_lines_read(empty, start.action, rules, lines, lines.len());
    let read = diagnostics::lines_read(empty, start.action, rules, lines, lines.len());
    lemma_raise(read.context, DiagnosticEvidenceIssue::Missing);
    let closed = if read.finished is None {
        diagnostics::raised(read, DiagnosticEvidenceIssue::Missing)
    } else {
        read
    };
    let error_lines = diagnostics::lines_of(stderr);
    lemma_error_lines_read(closed, error_lines, error_lines.len());
    let s = diagnostics::error_lines_read(closed, error_lines, error_lines.len());
    lemma_raise(s.context, DiagnosticEvidenceIssue::Unexpected);
    lemma_raise(s.context, DiagnosticEvidenceIssue::ExecutionFailed);
}

/// Success is reported only on clean evidence: the command exited with code
/// zero, the build said that it succeeded, no diagnostic is an error and no issue
/// was raised.
pub proof fn success_needs_clean_evidence(s: ScanModel, outcome: CommandOutcome)
    ensures
        diagnostics::outcome_of(s, outcome) == diagnostics::DiagnosticOutcome::Success <==> {
            &&& outcome == (CommandOutcome::Exited { code: 0 })
            &&& s.context.issues.len() == 0
            &&& !diagnostics::has_error(s.diagnostics)
            &&& s.finished == Some(true)
        },
{
}

/// A command that never ran to its own exit is never anything but a failed
/// execution, whatever it printed.
pub proof fn unfinished_execution_is_never_known(
    start: ControlledCommandStarted,
    chunks: Seq<ControlledCommandOutput>,
    finish: ControlledCommandFinished,
    rules: EvidenceRules,
)
    requires
        !(finish.outcome is Exited),
    ensures
        ({
            let s = diagnostics::evidence_of(start, chunks, finish, rules);
            &&& diagnostics::outcome_of(s, finish.outcome)
                == diagnostics::DiagnosticOutcome::ExecutionFailed
            &&& s.context.issues.contains(DiagnosticEvidenceIssue::ExecutionFailed)
        }),
{
    let read = diagnostics::evidence_read(start, chunks, finish, rules);
    let issues = read.context.issues;
    if !issues.contains(DiagnosticEvidenceIssue::ExecutionFailed) {
        assert(issues.push(DiagnosticEvidenceIssue::ExecutionFailed)[issues.len() as int]
            == DiagnosticEvidenceIssue::ExecutionFailed);
    }
}

/// A kept line of output reads back to the bytes that were printed, up to the
/// bound on one line.
pub proof fn kept_line_reads_back(s: ScanModel, stream: OutputStream, line: Seq<u8>)
    requires
        s.output.len() < diagnostics::MAX_OUTPUT_LINES,
    ensures
        ({
            let kept = diagnostics::retained(s, stream, line).output.last();
            let bytes = text::bytes_of_hex(kept.bytes_hex);
            &&& text::is_hex_text(kept.bytes_hex)
            &&& kept.truncated <==> bytes.len() < line.len()
            &&& bytes == line.take(bytes.len() as int)
            &&& !kept.truncated ==> bytes == line
        }),
{
    let shown = if line.len() <= diagnostics::MAX_OUTPUT_LINE_BYTES {
        line
    } else {
        line.take(diagnostics::MAX_OUTPUT_LINE_BYTES as int)
    };
    text::hex_round_trip(shown);
    assert(line.take(line.len() as int) =~= line);
}

// What a report says of what the compiler said.

/// The text under a name, where there is one.
pub open spec fn text_at(o: Seq<(Seq<char>, Json)>, key: Seq<char>) -> Seq<char> {
    match json::member(o, key) {
        Some(Json::Text(t)) => t,
        _ => Seq::empty(),
    }
}

/// The level and the text of a message of the compiler.
pub open spec fn words_of(o: Seq<(Seq<char>, Json)>) -> (Seq<char>, Seq<char>) {
    match json::member(o, "message"@) {
        Some(Json::Object(m)) => (text_at(m, "level"@), text_at(m, "message"@)),
        _ => (Seq::empty(), Seq::empty()),
    }
}

/// What the first lines say, until the build has ended: the level and the text of
/// each message of the compiler, in order, and how the build ended.
pub open spec fn said(lines: Seq<Seq<u8>>, n: nat) -> (Seq<(Seq<char>, Seq<char>)>, Option<bool>)
    decreases n,
{
    if n == 0 {
        (Seq::empty(), None)
    } else {
        let (words, ended) = said(lines, (n - 1) as nat);
        match json::parsed_json(lines[n - 1]) {
            Some(Json::Object(o)) if ended is None => if text_at(o, "reason"@)
                == "compiler-message"@ {
                (words.push(words_of(o)), None)
            } else if text_at(o, "reason"@) == "build-finished"@ {
                (words, Some(json::member(o, "success"@) == Some(Json::Bool(true))))
            } else {
                (words, None)
            },
            _ => (words, ended),
        }
    }
}

/// What one stream of a command printed.
pub open spec fn printed(
    chunks: Seq<ControlledCommandOutput>,
    n: nat,
    stream: OutputStream,
) -> Seq<u8>
    decreases n,
{
    if n == 0 {
        Seq::empty()
    } else if chunks[n - 1].stream == stream && chunks[n - 1].bytes is Some {
        printed(chunks, (n - 1) as nat, stream) + chunks[n - 1].bytes->0@
    } else {
        printed(chunks, (n - 1) as nat, stream)
    }
}

/// The levels and the texts of a list of diagnostics.
pub open spec fn words(
    list: Seq<cargo_message::DiagnosticModel>,
) -> Seq<(Seq<char>, Seq<char>)> {
    Seq::new(list.len(), |i: int| (list[i].level, list[i].message))
}

/// Whether one of the messages is an error.
pub open spec fn tells_of_an_error(told: Seq<(Seq<char>, Seq<char>)>) -> bool {
    exists|i: int|
        0 <= i < told.len() && ((#[trigger] told[i]).0 == "error"@ || told[i].0
            == "failure-note"@ || told[i].0 == "error: internal compiler error"@)
}

proof fn lemma_raise_shows(c: Context, issue: DiagnosticEvidenceIssue)
    ensures
        cargo_message::raise(c, issue).issues.len() > 0,
{
    if c.issues.contains(issue) {
        assert(c.issues.len() > 0);
    }
}

proof fn lemma_clean_diagnostic(o: Seq<(Seq<char>, Json)>, c: Context)
    requires
        cargo_message::diagnostic_of(o, c).1.issues.len() == 0,
    ensures
        cargo_message::diagnostic_of(o, c).0 matches Some(d) ==> (d.level, d.message) == words_of(
            o,
        ),
{
    reveal(cargo_message::diagnostic_of);
    reveal(cargo_message::level_of);
    lemma_steps();
    lemma_fields();
    assert forall|x: Context, issue: DiagnosticEvidenceIssue| (#[trigger] cargo_message::raise(
        x,
        issue,
    )).issues.len() > 0 by {
        lemma_raise_shows(x, issue);
    }
    assert forall|m: Seq<(Seq<char>, Json)>, d: Context|
        follows(d, (#[trigger] cargo_message::level_of(m, d)).1) by {
        lemma_level_code(m, None, d);
    }
    assert forall|w: Option<Json>, d: Context|
        follows(d, (#[trigger] cargo_message::code_of(w, d)).1) by {
        lemma_level_code(o, w, d);
    }
    assert forall|w: Option<Json>, d: Context|
        follows(d, (#[trigger] cargo_message::spans_of(w, d)).1) by {
        lemma_span_list(w, d);
    }
    assert forall|w: Option<Json>, d: Context|
        follows(d, (#[trigger] cargo_message::children_of(w, 0, d)).1) by {
        lemma_children(w, 0, d);
    }
}

proof fn lemma_record_follows(s: ScanModel, reason: Seq<char>, o: Seq<(Seq<char>, Json)>)
    ensures
        follows(s.context, diagnostics::record_read(s, reason, o).context),
{
    reveal(diagnostics::record_read);
    lemma_steps();
    lemma_records(o, s.context);
    lemma_level_code(o, None, s.context);
}

proof fn lemma_line_follows(
    s: ScanModel,
    action: ControlledAction,
    rules: EvidenceRules,
    line: Seq<u8>,
)
    ensures
        follows(s.context, diagnostics::line_read(s, action, rules, line).context),
{
    reveal(diagnostics::line_read);
    lemma_steps();
    match json::parsed_json(line) {
        Some(Json::Object(o)) => {
            let begun = ScanModel {
                messages: diagnostics::next_count(s.messages),
                context: Context { rejected: false, ..s.context },
                ..s
            };
            lemma_record_follows(begun, text_at(o, "reason"@), o);
        },
        _ => {},
    }
}

/// One record, where nothing was raised.
proof fn lemma_clean_record(s: ScanModel, reason: Seq<char>, o: Seq<(Seq<char>, Json)>)
    requires
        diagnostics::record_read(s, reason, o).context.issues.len() == 0,
        s.finished is None,
    ensures
        ({
            let t = diagnostics::record_read(s, reason, o);
            if reason == "compiler-message"@ {
                words(t.diagnostics) == words(s.diagnostics).push(words_of(o)) && t.finished is None
            } else if reason == "build-finished"@ {
                t.diagnostics == s.diagnostics && t.finished == Some(
                    json::member(o, "success"@) == Some(Json::Bool(true)),
                )
            } else {
                t.diagnostics == s.diagnostics && t.finished is None
            }
        }),
{
    reveal(diagnostics::record_read);
    assert forall|x: Context, issue: DiagnosticEvidenceIssue| (#[trigger] cargo_message::raise(
        x,
        issue,
    )).issues.len() > 0 by {
        lemma_raise_shows(x, issue);
    }
    let t = diagnostics::record_read(s, reason, o);
    if reason == "compiler-message"@ {
        lemma_clean_diagnostic(o, s.context);
        assert(words(t.diagnostics) =~= words(s.diagnostics).push(words_of(o)));
    } else {
        reveal_strlit("compiler-artifact");
        reveal_strlit("build-script-executed");
        reveal_strlit("build-finished");
        assert("compiler-artifact"@.len() != "build-finished"@.len());
        assert("build-script-executed"@.len() != "build-finished"@.len());
    }
}

proof fn lemma_clean_line(
    s: ScanModel,
    action: ControlledAction,
    rules: EvidenceRules,
    lines: Seq<Seq<u8>>,
    n: nat,
)
    requires
        n > 0,
        (words(s.diagnostics), s.finished) == said(lines, (n - 1) as nat),
        diagnostics::line_read(s, action, rules, lines[n - 1]).context.issues.len() == 0,
    ensures
        ({
            let t = diagnostics::line_read(s, action, rules, lines[n - 1]);
            (words(t.diagnostics), t.finished) == said(lines, n)
        }),
{
    reveal(diagnostics::line_read);
    let line = lines[n - 1];
    let t = diagnostics::line_read(s, action, rules, line);
    assert forall|x: Context, issue: DiagnosticEvidenceIssue| (#[trigger] cargo_message::raise(
        x,
        issue,
    )).issues.len() > 0 by {
        lemma_raise_shows(x, issue);
    }
    if s.finished is None {
        match json::parsed_json(line) {
            Some(Json::Object(o)) => {
                let begun = ScanModel {
                    messages: diagnostics::next_count(s.messages),
                    context: Context { rejected: false, ..s.context },
                    ..s
                };
                assert(json::member(o, "reason"@) == Some(Json::Text(text_at(o, "reason"@))));
                lemma_clean_record(begun, text_at(o, "reason"@), o);
                reveal_strlit("compiler-message");
                reveal_strlit("build-finished");
                assert("compiler-message"@.len() != "build-finished"@.len());
            },
            _ => {},
        }
    }
}

proof fn lemma_clean_lines(
    s: ScanModel,
    action: ControlledAction,
    rules: EvidenceRules,
    lines: Seq<Seq<u8>>,
    n: nat,
)
    requires
        s.diagnostics.len() == 0,
        s.finished is None,
    ensures
        ({
            let t = diagnostics::lines_read(s, action, rules, lines, n);
            &&& follows(s.context, t.context)
            &&& t.context.issues.len() == 0 ==> (words(t.diagnostics), t.finished) == said(
                lines,
                n,
            )
        }),
    decreases n,
{
    lemma_steps();
    if n == 0 {
        assert(words(s.diagnostics) =~= Seq::empty());
    } else {
        lemma_clean_lines(s, action, rules, lines, (n - 1) as nat);
        let t = diagnostics::lines_read(s, action, rules, lines, (n - 1) as nat);
        lemma_line_follows(t, action, rules, lines[n - 1]);
        if diagnostics::line_read(t, action, rules, lines[n - 1]).context.issues.len() == 0 {
            lemma_clean_line(t, action, rules, lines, n);
        }
    }
}

proof fn lemma_error_lines_follow(s: ScanModel, lines: Seq<Seq<u8>>, n: nat)
    ensures
        ({
            let t = diagnostics::error_lines_read(s, lines, n);
            &&& follows(s.context, t.context)
            &&& t.diagnostics == s.diagnostics
            &&& t.artifacts == s.artifacts
            &&& t.finished == s.finished
        }),
    decreases n,
{
    lemma_steps();
    if n > 0 {
        lemma_error_lines_follow(s, lines, (n - 1) as nat);
    }
}

proof fn lemma_clean_stream(
    start: ControlledCommandStarted,
    chunks: Seq<ControlledCommandOutput>,
    n: nat,
    stream: OutputStream,
    bound: nat,
    c: Context,
)
    requires
        diagnostics::stream_upto(start, chunks, n, stream, bound, c).1.issues.len() == 0,
    ensures
        ({
            let r = diagnostics::stream_upto(start, chunks, n, stream, bound, c);
            &&& r.0 == printed(chunks, n, stream)
            &&& !r.2
        }),
    decreases n,
{
    lemma_steps();
    assert forall|x: Context, issue: DiagnosticEvidenceIssue| (#[trigger] cargo_message::raise(
        x,
        issue,
    )).issues.len() > 0 by {
        lemma_raise_shows(x, issue);
    }
    if n > 0 {
        let d = diagnostics::stream_upto(start, chunks, (n - 1) as nat, stream, bound, c).1;
        assert(follows(d, diagnostics::stream_upto(start, chunks, n, stream, bound, c).1));
        lemma_clean_stream(start, chunks, (n - 1) as nat, stream, bound, c);
    }
}

/// A report without an issue is what the compiler said: one diagnostic for each of
/// its messages, in the order in which it printed them and with their levels and
/// texts. The build told how it ended. The outcome is that of compiler errors where
/// one of the messages is an error, else that of the exit code.
pub proof fn the_report_is_what_the_compiler_said(
    start: ControlledCommandStarted,
    chunks: Seq<ControlledCommandOutput>,
    finish: ControlledCommandFinished,
    rules: EvidenceRules,
)
    requires
        diagnostics::evidence_of(start, chunks, finish, rules).context.issues.len() == 0,
    ensures
        ({
            let s = diagnostics::evidence_of(start, chunks, finish, rules);
            let stdout = printed(chunks, chunks.len(), OutputStream::Stdout);
            let lines = diagnostics::lines_of(stdout);
            let (told, ended) = said(lines, lines.len());
            &&& words(s.diagnostics) == told
            &&& s.finished == ended
            &&& ended is Some
            &&& stdout.len() == finish.stdout.bytes
            &&& printed(chunks, chunks.len(), OutputStream::Stderr).len() == finish.stderr.bytes
            &&& finish.outcome matches CommandOutcome::Exited { code } && {
                diagnostics::outcome_of(s, finish.outcome) == if tells_of_an_error(told) {
                    diagnostics::DiagnosticOutcome::CompilerErrors
                } else if code != 0 {
                    diagnostics::DiagnosticOutcome::NonzeroExit
                } else {
                    diagnostics::DiagnosticOutcome::Success
                }
            }
        }),
{
    lemma_steps();
    assert forall|x: Context, issue: DiagnosticEvidenceIssue| (#[trigger] cargo_message::raise(
        x,
        issue,
    )).issues.len() > 0 by {
        lemma_raise_shows(x, issue);
    }
    let c0 = Context { issues: Seq::empty(), spans: 0, children: 0, rejected: false };
    let c1 = if diagnostics::paired(start, finish) {
        c0
    } else {
        cargo_message::raise(c0, DiagnosticEvidenceIssue::Missing)
    };
    let c2 = diagnostics::capture_issue_of(finish.stdout.completeness, c1);
    let c3 = diagnostics::capture_issue_of(finish.stderr.completeness, c2);
    let bound = diagnostics::stream_bound(start, rules);
    let (stdout, c4) = diagnostics::stream_of(
        start,
        chunks,
        OutputStream::Stdout,
        finish.stdout,
        rules,
        c3,
    );
    let (stderr, c5) = diagnostics::stream_of(
        start,
        chunks,
        OutputStream::Stderr,
        finish.stderr,
        rules,
        c4,
    );
    let d4 = diagnostics::stream_upto(start, chunks, chunks.len(), OutputStream::Stdout, bound, c3).1;
    let d5 = diagnostics::stream_upto(start, chunks, chunks.len(), OutputStream::Stderr, bound, c4).1;
    let empty = ScanModel {
        context: c5,
        diagnostics: Seq::empty(),
        artifacts: Seq::empty(),
        output: Seq::empty(),
        omitted: 0,
        messages: 0,
        finished: None,
    };
    let lines = diagnostics::lines_of(stdout);
    let read = diagnostics::lines_read(empty, start.action, rules, lines, lines.len());
    lemma_clean_lines(empty, start.action, rules, lines, lines.len());
    let closed = if read.finished is None {
        diagnostics::raised(read, DiagnosticEvidenceIssue::Missing)
    } else {
        read
    };
    let error_lines = diagnostics::lines_of(stderr);
    lemma_error_lines_follow(closed, error_lines, error_lines.len());
    let all = diagnostics::evidence_read(start, chunks, finish, rules);
    assert(all == diagnostics::error_lines_read(closed, error_lines, error_lines.len()));
    let s = diagnostics::evidence_of(start, chunks, finish, rules);
    assert(s == all);
    assert(follows(closed.context, all.context));
    assert(closed == read);
    assert(follows(c5, read.context));
    assert(follows(d5, c5));
    lemma_stream(start, chunks, chunks.len(), OutputStream::Stderr, bound, c4);
    lemma_clean_stream(start, chunks, chunks.len(), OutputStream::Stderr, bound, c4);
    assert(follows(d4, c4));
    lemma_clean_stream(start, chunks, chunks.len(), OutputStream::Stdout, bound, c3);
    let told = said(lines, lines.len()).0;
    assert(told == words(s.diagnostics));
    assert forall|i: int| 0 <= i < told.len() implies (#[trigger] told[i]).0
        == s.diagnostics[i].level by {}
    if diagnostics::has_error(s.diagnostics) {
        let i = choose|i: int|
            0 <= i < s.diagnostics.len() && cargo_message::is_error_level(
                (#[trigger] s.diagnostics[i]).level,
            );
        assert(told[i].0 == s.diagnostics[i].level);
    } else {
        assert forall|i: int| 0 <= i < told.len() implies !cargo_message::is_error_level(
            (#[trigger] told[i]).0,
        ) by {
            assert(told[i].0 == s.diagnostics[i].level);
        }
    }
    let outcome = diagnostics::outcome_of(s, finish.outcome);
    assert(tells_of_an_error(told) == diagnostics::has_error(s.diagnostics));
    assert(finish.outcome->code == 0 ==> s.finished == Some(true));
    assert(tells_of_an_error(told) ==> outcome == diagnostics::DiagnosticOutcome::CompilerErrors);
}

/// A record of the compiler is kept or its loss is told: the list grows by one behind
/// what it held, or it stays as it is and an issue stands in the report.
pub proof fn a_message_is_kept_or_its_loss_is_told(s: ScanModel, line: Seq<u8>, value: Json)
    requires
        value is Object,
        json::member(value->Object_0, "reason"@) == Some(Json::Text("compiler-message"@)),
    ensures
        ({
            let t = diagnostics::message_read(s, line, Some(value));
            ||| t.diagnostics.len() == s.diagnostics.len() + 1 && t.diagnostics.drop_last()
                == s.diagnostics
            ||| t.diagnostics == s.diagnostics && t.context.rejected && t.context.issues.len() > 0
        }),
{
    reveal(diagnostics::record_read);
    assert forall|x: Context, issue: DiagnosticEvidenceIssue| (#[trigger] cargo_message::raise(
        x,
        issue,
    )).issues.len() > 0 by {
        lemma_raise_shows(x, issue);
    }
    let t = diagnostics::message_read(s, line, Some(value));
    if t.diagnostics.len() == s.diagnostics.len() + 1 {
        assert(t.diagnostics.drop_last() =~= s.diagnostics);
    }
}

} // verus!
