//! What the records of a build mean, said by the members that Cargo writes.

use crate::cargo_message;
use crate::cargo_message::{
    ArtifactModel, ChildModel, Context, DiagnosticModel, ProfileModel, SpanModel, TargetModel,
};
use crate::diagnostics;
use crate::diagnostics::{EvidenceRules, ScanModel};
use crate::json;
use crate::json::Json;
use crate::json_laws::{has, members_are_found_by_name};
use crate::model::ControlledAction;
use crate::text;
use vstd::prelude::*;
use vstd::utf8::valid_utf8;

verus! {

proof fn lemma_has(value: Json, key: Seq<char>, x: Json)
    requires
        has(value, key, x),
    ensures
        json::member(value->Object_0, key) == Some(x),
        value is Object,
{
    members_are_found_by_name(value->Object_0, key);
}

/// Whether an object has a text under a name, of no more than so many bytes.
pub open spec fn has_text(value: Json, key: Seq<char>, t: Seq<char>, max: nat) -> bool {
    has(value, key, Json::Text(t)) && text::byte_len(t) <= max
}

/// Whether an object has a text or nothing under a name.
pub open spec fn has_nullable(value: Json, key: Seq<char>, t: Option<Seq<char>>, max: nat) -> bool {
    match t {
        Some(t) => has_text(value, key, t, max),
        None => has(value, key, Json::Null),
    }
}

/// Whether an object has a list of texts under a name.
pub open spec fn has_texts(value: Json, key: Seq<char>, ts: Seq<Seq<char>>, max: nat) -> bool {
    exists|items: Seq<Json>| #[trigger] has(value, key, Json::Array(items)) && are_texts(items, ts, max)
}

pub open spec fn are_texts(items: Seq<Json>, ts: Seq<Seq<char>>, max: nat) -> bool {
    &&& items.len() == ts.len() <= 256
    &&& forall|i: int|
        0 <= i < items.len() ==> (#[trigger] items[i]) == Json::Text(ts[i]) && text::byte_len(ts[i])
            <= max
}

proof fn lemma_text(value: Json, key: Seq<char>, t: Seq<char>, max: nat, c: Context)
    requires
        has_text(value, key, t, max),
    ensures
        cargo_message::required_string_of(value->Object_0, key, max, c) == (Some(t), c),
{
    lemma_has(value, key, Json::Text(t));
}

proof fn lemma_nullable(value: Json, key: Seq<char>, t: Option<Seq<char>>, max: nat, c: Context)
    requires
        has_nullable(value, key, t, max),
    ensures
        cargo_message::nullable_string_of(value->Object_0, key, max, c) == (Some(t), c),
{
    match t {
        Some(s) => lemma_has(value, key, Json::Text(s)),
        None => lemma_has(value, key, Json::Null),
    }
}

proof fn lemma_number(value: Json, key: Seq<char>, n: u64, c: Context)
    requires
        has(value, key, Json::Unsigned(n)),
    ensures
        cargo_message::required_u64_of(value->Object_0, key, c) == (Some(n), c),
{
    lemma_has(value, key, Json::Unsigned(n));
}

proof fn lemma_flag(value: Json, key: Seq<char>, b: bool, c: Context)
    requires
        has(value, key, Json::Bool(b)),
    ensures
        cargo_message::required_bool_of(value->Object_0, key, c) == (Some(b), c),
{
    lemma_has(value, key, Json::Bool(b));
}

proof fn lemma_strings(items: Seq<Json>, ts: Seq<Seq<char>>, max: nat, n: nat, c: Context)
    requires
        are_texts(items, ts, max),
        n <= items.len(),
    ensures
        cargo_message::strings_upto(items, n, max, c) == (ts.take(n as int), c),
    decreases n,
{
    if n == 0 {
        assert(ts.take(0) =~= Seq::<Seq<char>>::empty());
    } else {
        lemma_strings(items, ts, max, (n - 1) as nat, c);
        assert(items[n - 1] == Json::Text(ts[n - 1]));
        assert(ts.take(n - 1).push(ts[n - 1]) =~= ts.take(n as int));
    }
}

proof fn lemma_texts(value: Json, key: Seq<char>, ts: Seq<Seq<char>>, max: nat, c: Context)
    requires
        has_texts(value, key, ts, max),
    ensures
        cargo_message::string_list_of(json::member(value->Object_0, key), max, c) == (Some(ts), c),
        value is Object,
{
    reveal(cargo_message::string_list_of);
    let items = choose|items: Seq<Json>| #[trigger]
        has(value, key, Json::Array(items)) && are_texts(items, ts, max);
    lemma_has(value, key, Json::Array(items));
    lemma_strings(items, ts, max, items.len(), c);
    assert(ts.take(ts.len() as int) =~= ts);
}

// Targets, spans and notes.

/// Whether a value is a target of a package.
pub open spec fn is_target(value: Json, t: TargetModel) -> bool {
    &&& has_text(value, "name"@, t.name, 4096)
    &&& has_texts(value, "kind"@, t.kind, 128)
    &&& has_texts(value, "crate_types"@, t.crate_types, 128)
    &&& has_text(value, "src_path"@, t.src_path, 4096)
    &&& has_text(value, "edition"@, t.edition, 64)
}

proof fn lemma_target(value: Json, t: TargetModel, c: Context)
    requires
        is_target(value, t),
    ensures
        cargo_message::target_of(Some(value), c) == (Some(t), c),
{
    reveal(cargo_message::target_of);
    lemma_text(value, "name"@, t.name, 4096, c);
    lemma_texts(value, "kind"@, t.kind, 128, c);
    lemma_texts(value, "crate_types"@, t.crate_types, 128, c);
    lemma_text(value, "src_path"@, t.src_path, 4096, c);
    lemma_text(value, "edition"@, t.edition, 64, c);
}

/// Whether a value is a span: a place of a file that does not end before it starts,
/// with lines and columns that count from one.
pub open spec fn is_span(value: Json, s: SpanModel) -> bool {
    &&& has_text(value, "file_name"@, s.file_name, 4096)
    &&& has(value, "byte_start"@, Json::Unsigned(s.byte_start))
    &&& has(value, "byte_end"@, Json::Unsigned(s.byte_end))
    &&& has(value, "line_start"@, Json::Unsigned(s.line_start))
    &&& has(value, "line_end"@, Json::Unsigned(s.line_end))
    &&& has(value, "column_start"@, Json::Unsigned(s.column_start))
    &&& has(value, "column_end"@, Json::Unsigned(s.column_end))
    &&& has(value, "is_primary"@, Json::Bool(s.is_primary))
    &&& has_nullable(value, "label"@, s.label, 4096)
    &&& has_nullable(value, "suggested_replacement"@, s.suggested_replacement, 16384)
    &&& has_nullable(value, "suggestion_applicability"@, s.suggestion_applicability, 128)
    &&& s.byte_start <= s.byte_end
    &&& 1 <= s.line_start <= s.line_end
    &&& s.column_start >= 1
    &&& s.column_end >= 1
}

/// A span is read as the place that it names.
pub proof fn a_span_is_read(value: Json, s: SpanModel, c: Context)
    requires
        is_span(value, s),
    ensures
        cargo_message::span_of(value->Object_0, c) == (Some(s), c),
{
    reveal(cargo_message::span_of);
    lemma_text(value, "file_name"@, s.file_name, 4096, c);
    lemma_number(value, "byte_start"@, s.byte_start, c);
    lemma_number(value, "byte_end"@, s.byte_end, c);
    lemma_number(value, "line_start"@, s.line_start, c);
    lemma_number(value, "line_end"@, s.line_end, c);
    lemma_number(value, "column_start"@, s.column_start, c);
    lemma_number(value, "column_end"@, s.column_end, c);
    lemma_flag(value, "is_primary"@, s.is_primary, c);
    lemma_nullable(value, "label"@, s.label, 4096, c);
    lemma_nullable(value, "suggested_replacement"@, s.suggested_replacement, 16384, c);
    lemma_nullable(value, "suggestion_applicability"@, s.suggestion_applicability, 128, c);
}

/// Whether these are spans, one by one.
pub open spec fn are_spans(items: Seq<Json>, spans: Seq<SpanModel>) -> bool {
    &&& items.len() == spans.len() <= 256
    &&& forall|i: int| 0 <= i < items.len() ==> is_span(#[trigger] items[i], spans[i])
}

pub open spec fn has_spans(value: Json, spans: Seq<SpanModel>) -> bool {
    exists|items: Seq<Json>| #[trigger] has(value, "spans"@, Json::Array(items)) && are_spans(
        items,
        spans,
    )
}

proof fn lemma_spans_upto(items: Seq<Json>, spans: Seq<SpanModel>, n: nat, c: Context)
    requires
        are_spans(items, spans),
        n <= items.len(),
        c.spans + n <= 1024,
    ensures
        cargo_message::spans_upto(items, n, c) == (
            spans.take(n as int),
            Context { spans: c.spans + n, ..c },
            false,
        ),
    decreases n,
{
    if n == 0 {
        assert(spans.take(0) =~= Seq::<SpanModel>::empty());
    } else {
        lemma_spans_upto(items, spans, (n - 1) as nat, c);
        assert(is_span(items[n - 1], spans[n - 1]));
        lemma_has(items[n - 1], "byte_start"@, Json::Unsigned(spans[n - 1].byte_start));
        a_span_is_read(items[n - 1], spans[n - 1], Context { spans: c.spans + n - 1, ..c });
        assert(spans.take(n - 1).push(spans[n - 1]) =~= spans.take(n as int));
    }
}

proof fn lemma_spans(value: Json, spans: Seq<SpanModel>, c: Context)
    requires
        has_spans(value, spans),
        c.spans + spans.len() <= 1024,
    ensures
        cargo_message::spans_of(json::member(value->Object_0, "spans"@), c) == (
            Some(spans),
            Context { spans: c.spans + spans.len(), ..c },
        ),
        value is Object,
{
    reveal(cargo_message::spans_of);
    let items = choose|items: Seq<Json>| #[trigger]
        has(value, "spans"@, Json::Array(items)) && are_spans(items, spans);
    lemma_has(value, "spans"@, Json::Array(items));
    lemma_spans_upto(items, spans, items.len(), c);
    assert(spans.take(spans.len() as int) =~= spans);
}

/// The levels of the compiler.
pub open spec fn is_level(level: Seq<char>) -> bool {
    ||| level == "error"@
    ||| level == "warning"@
    ||| level == "note"@
    ||| level == "help"@
    ||| level == "failure-note"@
    ||| level == "error: internal compiler error"@
}

/// Whether an object has a level, a text and an error code.
pub open spec fn has_words(value: Json, level: Seq<char>, message: Seq<char>, code: Option<Seq<char>>) -> bool {
    &&& has_text(value, "level"@, level, 64)
    &&& is_level(level)
    &&& has_text(value, "message"@, message, 4096)
    &&& match code {
        Some(t) => exists|c: Json| #[trigger] has(value, "code"@, c) && has_text(c, "code"@, t, 128),
        None => has(value, "code"@, Json::Null),
    }
}

proof fn lemma_words(value: Json, level: Seq<char>, message: Seq<char>, code: Option<Seq<char>>, c: Context)
    requires
        has_words(value, level, message, code),
    ensures
        cargo_message::level_of(value->Object_0, c) == (Some(level), c),
        cargo_message::required_string_of(value->Object_0, "message"@, 4096, c) == (Some(message), c),
        cargo_message::code_of(json::member(value->Object_0, "code"@), c) == (Some(code), c),
        value is Object,
{
    reveal(cargo_message::level_of);
    reveal(cargo_message::code_of);
    lemma_text(value, "level"@, level, 64, c);
    lemma_text(value, "message"@, message, 4096, c);
    lemma_has(value, "level"@, Json::Text(level));
    match code {
        Some(t) => {
            let inner = choose|inner: Json| #[trigger]
                has(value, "code"@, inner) && has_text(inner, "code"@, t, 128);
            lemma_has(value, "code"@, inner);
            lemma_text(inner, "code"@, t, 128, c);
            lemma_has(inner, "code"@, Json::Text(t));
        },
        None => {
            lemma_has(value, "code"@, Json::Null);
        },
    }
}

/// Whether a value is a note below a message, with nothing below itself.
pub open spec fn is_note(value: Json, n: ChildModel) -> bool {
    &&& has_words(value, n.level, n.message, None)
    &&& has(value, "rendered"@, Json::Null)
    &&& has_spans(value, n.spans)
    &&& has(value, "children"@, Json::Array(Seq::empty()))
    &&& n.children == Seq::<ChildModel>::empty()
}

proof fn lemma_note(value: Json, n: ChildModel, c: Context)
    requires
        is_note(value, n),
        c.spans + n.spans.len() <= 1024,
    ensures
        cargo_message::child_of(value, 0, c) == (
            Some(n),
            Context { spans: c.spans + n.spans.len(), ..c },
        ),
{
    lemma_words(value, n.level, n.message, None, c);
    lemma_nullable(value, "rendered"@, None, 16384, c);
    lemma_spans(value, n.spans, c);
    lemma_has(value, "children"@, Json::Array(Seq::empty()));
    reveal_with_fuel(cargo_message::child_of, 2);
    reveal_with_fuel(cargo_message::children_of, 2);
    reveal_with_fuel(cargo_message::children_upto, 2);
}

/// Spans of the first notes.
pub open spec fn note_spans(notes: Seq<ChildModel>, n: nat) -> nat
    decreases n,
{
    if n == 0 {
        0
    } else {
        note_spans(notes, (n - 1) as nat) + notes[n - 1].spans.len()
    }
}

pub open spec fn are_notes(items: Seq<Json>, notes: Seq<ChildModel>) -> bool {
    &&& items.len() == notes.len() <= 256
    &&& forall|i: int| 0 <= i < items.len() ==> is_note(#[trigger] items[i], notes[i])
}

pub open spec fn has_notes(value: Json, notes: Seq<ChildModel>) -> bool {
    exists|items: Seq<Json>| #[trigger] has(value, "children"@, Json::Array(items)) && are_notes(
        items,
        notes,
    )
}

proof fn lemma_notes_upto(items: Seq<Json>, notes: Seq<ChildModel>, n: nat, c: Context)
    requires
        are_notes(items, notes),
        n <= items.len(),
        c.children + n <= 256,
        c.spans + note_spans(notes, n) <= 1024,
    ensures
        cargo_message::children_upto(items, n, 0, c) == (
            notes.take(n as int),
            Context { spans: c.spans + note_spans(notes, n), children: c.children + n, ..c },
            false,
        ),
    decreases n,
{
    if n == 0 {
        assert(notes.take(0) =~= Seq::<ChildModel>::empty());
    } else {
        lemma_notes_upto(items, notes, (n - 1) as nat, c);
        assert(is_note(items[n - 1], notes[n - 1]));
        lemma_note(
            items[n - 1],
            notes[n - 1],
            Context {
                spans: c.spans + note_spans(notes, (n - 1) as nat),
                children: c.children + n,
                ..c
            },
        );
        assert(notes.take(n - 1).push(notes[n - 1]) =~= notes.take(n as int));
    }
}

proof fn lemma_notes(value: Json, notes: Seq<ChildModel>, c: Context)
    requires
        has_notes(value, notes),
        c.children + notes.len() <= 256,
        c.spans + note_spans(notes, notes.len()) <= 1024,
    ensures
        cargo_message::children_of(json::member(value->Object_0, "children"@), 0, c) == (
            Some(notes),
            Context {
                spans: c.spans + note_spans(notes, notes.len()),
                children: c.children + notes.len(),
                ..c
            },
        ),
{
    let items = choose|items: Seq<Json>| #[trigger]
        has(value, "children"@, Json::Array(items)) && are_notes(items, notes);
    lemma_has(value, "children"@, Json::Array(items));
    lemma_notes_upto(items, notes, items.len(), c);
    assert(notes.take(notes.len() as int) =~= notes);
}

// Records.

/// Whether a record is a message of the compiler that says this.
pub open spec fn is_message(value: Json, d: DiagnosticModel) -> bool {
    &&& has(value, "reason"@, Json::Text("compiler-message"@))
    &&& has_text(value, "package_id"@, d.package_id, 4096)
    &&& has_text(value, "manifest_path"@, d.manifest_path, 4096)
    &&& exists|t: Json| #[trigger] has(value, "target"@, t) && is_target(t, d.target)
    &&& exists|m: Json| #[trigger] has(value, "message"@, m) && is_rendering(m, d)
}

pub open spec fn is_rendering(m: Json, d: DiagnosticModel) -> bool {
    &&& has_words(m, d.level, d.message, d.code)
    &&& has_nullable(m, "rendered"@, d.rendered, 16384)
    &&& has_spans(m, d.spans)
    &&& has_notes(m, d.children)
}

/// Whether there is room for a message, its spans and its notes.
pub open spec fn has_room(s: ScanModel, d: DiagnosticModel) -> bool {
    &&& s.diagnostics.len() < 256
    &&& s.context.spans + d.spans.len() + note_spans(d.children, d.children.len()) <= 1024
    &&& s.context.children + d.children.len() <= 256
}

proof fn lemma_message(value: Json, d: DiagnosticModel, c: Context)
    requires
        is_message(value, d),
        c.spans + d.spans.len() + note_spans(d.children, d.children.len()) <= 1024,
        c.children + d.children.len() <= 256,
    ensures
        cargo_message::diagnostic_of(value->Object_0, c) == (
            Some(d),
            Context {
                spans: c.spans + d.spans.len() + note_spans(d.children, d.children.len()),
                children: c.children + d.children.len(),
                ..c
            },
        ),
{
    reveal(cargo_message::diagnostic_of);
    let t = choose|t: Json| #[trigger] has(value, "target"@, t) && is_target(t, d.target);
    let m = choose|m: Json| #[trigger] has(value, "message"@, m) && is_rendering(m, d);
    lemma_text(value, "package_id"@, d.package_id, 4096, c);
    lemma_text(value, "manifest_path"@, d.manifest_path, 4096, c);
    lemma_has(value, "target"@, t);
    lemma_target(t, d.target, c);
    lemma_has(value, "message"@, m);
    lemma_words(m, d.level, d.message, d.code, c);
    lemma_nullable(m, "rendered"@, d.rendered, 16384, c);
    lemma_spans(m, d.spans, c);
    lemma_notes(m, d.children, Context { spans: c.spans + d.spans.len(), ..c });
}

/// A message of the compiler, for which there is room, becomes one more diagnostic
/// behind the others: that which it says. It raises nothing and is counted.
pub proof fn a_message_becomes_a_diagnostic(s: ScanModel, line: Seq<u8>, value: Json, d: DiagnosticModel)
    requires
        is_message(value, d),
        has_room(s, d),
    ensures
        ({
            let t = diagnostics::message_read(s, line, Some(value));
            &&& t.diagnostics == s.diagnostics.push(d)
            &&& t.context.issues == s.context.issues
            &&& t.artifacts == s.artifacts
            &&& t.output == s.output
            &&& t.finished == s.finished
            &&& s.messages < u64::MAX ==> t.messages == s.messages + 1
        }),
{
    reveal(diagnostics::record_read);
    lemma_has(value, "reason"@, Json::Text("compiler-message"@));
    lemma_message(value, d, Context { rejected: false, ..s.context });
}

/// Whether a line is one of the records of a build: an object of no more than the
/// bytes that a record may have, and nothing that was turned down.
pub open spec fn is_record(line: Seq<u8>, value: Json, rules: EvidenceRules) -> bool {
    &&& line.len() > 0
    &&& line[0] == 123
    &&& line.len() <= 262144
    &&& valid_utf8(line)
    &&& !rules.refuses(line)
    &&& json::parsed_json(line) == Some(value)
}

/// A line that is a record is read as that record, until the build has ended.
pub proof fn a_record_line_is_read(
    s: ScanModel,
    action: ControlledAction,
    rules: EvidenceRules,
    line: Seq<u8>,
    value: Json,
)
    requires
        s.finished is None,
        is_record(line, value, rules),
    ensures
        diagnostics::line_read(s, action, rules, line) == diagnostics::message_read(
            s,
            line,
            Some(value),
        ),
{
    reveal(diagnostics::line_read);
}

/// The record that ends a build tells whether it succeeded, and nothing else.
pub proof fn the_end_of_a_build_is_read(s: ScanModel, line: Seq<u8>, value: Json, success: bool)
    requires
        has(value, "reason"@, Json::Text("build-finished"@)),
        has(value, "success"@, Json::Bool(success)),
        s.finished is None,
    ensures
        ({
            let t = diagnostics::message_read(s, line, Some(value));
            &&& t.finished == Some(success)
            &&& t.diagnostics == s.diagnostics
            &&& t.artifacts == s.artifacts
            &&& t.context.issues == s.context.issues
            &&& t.output == s.output
        }),
{
    reveal(diagnostics::record_read);
    lemma_reasons_differ();
    lemma_has(value, "reason"@, Json::Text("build-finished"@));
    lemma_has(value, "success"@, Json::Bool(success));
}

proof fn lemma_reasons_differ()
    ensures
        "build-finished"@ != "compiler-message"@,
        "build-finished"@ != "compiler-artifact"@,
        "build-finished"@ != "build-script-executed"@,
        "compiler-artifact"@ != "compiler-message"@,
{
    reveal_strlit("build-finished");
    reveal_strlit("compiler-message");
    reveal_strlit("compiler-artifact");
    reveal_strlit("build-script-executed");
    assert("build-finished"@.len() != "compiler-message"@.len());
    assert("build-finished"@.len() != "compiler-artifact"@.len());
    assert("build-finished"@.len() != "build-script-executed"@.len());
    assert("compiler-artifact"@.len() != "compiler-message"@.len());
}

/// Whether a value is the profile of a build.
pub open spec fn is_profile(value: Json, p: ProfileModel) -> bool {
    &&& has_text(value, "opt_level"@, p.opt_level, 64)
    &&& exists|d: Json| #[trigger] has(value, "debuginfo"@, d) && (d is Null || d is Text || d
        is Unsigned) && p.debuginfo == json::json_text(d) && text::byte_len(p.debuginfo) <= 64
    &&& has(value, "debug_assertions"@, Json::Bool(p.debug_assertions))
    &&& has(value, "overflow_checks"@, Json::Bool(p.overflow_checks))
    &&& has(value, "test"@, Json::Bool(p.test))
}

/// Whether a record tells of an artifact.
pub open spec fn is_artifact(value: Json, a: ArtifactModel) -> bool {
    &&& has(value, "reason"@, Json::Text("compiler-artifact"@))
    &&& has_text(value, "package_id"@, a.package_id, 4096)
    &&& has_text(value, "manifest_path"@, a.manifest_path, 4096)
    &&& exists|t: Json| #[trigger] has(value, "target"@, t) && is_target(t, a.target)
    &&& a.profile is Some
    &&& exists|p: Json| #[trigger] has(value, "profile"@, p) && is_profile(p, a.profile->0)
    &&& has_texts(value, "features"@, a.features, 4096)
    &&& has_texts(value, "filenames"@, a.filenames, 4096)
    &&& has_nullable(value, "executable"@, a.executable, 4096)
    &&& has(value, "fresh"@, Json::Bool(a.fresh))
}

proof fn lemma_profile(value: Json, p: ProfileModel, c: Context)
    requires
        is_profile(value, p),
    ensures
        cargo_message::profile_of(Some(value), c) == (Some(p), c),
{
    reveal(cargo_message::profile_of);
    let d = choose|d: Json| #[trigger] has(value, "debuginfo"@, d) && (d is Null || d is Text || d
        is Unsigned) && p.debuginfo == json::json_text(d) && text::byte_len(p.debuginfo) <= 64;
    lemma_has(value, "debuginfo"@, d);
    lemma_text(value, "opt_level"@, p.opt_level, 64, c);
    lemma_flag(value, "debug_assertions"@, p.debug_assertions, c);
    lemma_flag(value, "overflow_checks"@, p.overflow_checks, c);
    lemma_flag(value, "test"@, p.test, c);
}

/// An artifact, for which there is room, becomes one more artifact behind the others.
pub proof fn an_artifact_is_kept(s: ScanModel, line: Seq<u8>, value: Json, a: ArtifactModel)
    requires
        is_artifact(value, a),
        s.artifacts.len() < 256,
    ensures
        ({
            let t = diagnostics::message_read(s, line, Some(value));
            &&& t.artifacts == s.artifacts.push(a)
            &&& t.diagnostics == s.diagnostics
            &&& t.context.issues == s.context.issues
            &&& t.output == s.output
            &&& t.finished == s.finished
        }),
{
    reveal(diagnostics::record_read);
    reveal(cargo_message::artifact_of);
    lemma_reasons_differ();
    let c = Context { rejected: false, ..s.context };
    let t = choose|t: Json| #[trigger] has(value, "target"@, t) && is_target(t, a.target);
    let p = choose|p: Json| #[trigger] has(value, "profile"@, p) && is_profile(p, a.profile->0);
    lemma_has(value, "reason"@, Json::Text("compiler-artifact"@));
    lemma_text(value, "package_id"@, a.package_id, 4096, c);
    lemma_text(value, "manifest_path"@, a.manifest_path, 4096, c);
    lemma_has(value, "target"@, t);
    lemma_target(t, a.target, c);
    lemma_has(value, "profile"@, p);
    lemma_profile(p, a.profile->0, c);
    lemma_texts(value, "features"@, a.features, 4096, c);
    lemma_texts(value, "filenames"@, a.filenames, 4096, c);
    lemma_nullable(value, "executable"@, a.executable, 4096, c);
    lemma_flag(value, "fresh"@, a.fresh, c);
}

// Lines and whole builds.

pub open spec fn has_no_feed(line: Seq<u8>) -> bool {
    forall|i: int| 0 <= i < line.len() ==> #[trigger] line[i] != 10
}

proof fn lemma_line_end(line: Seq<u8>, rest: Seq<u8>)
    requires
        has_no_feed(line),
        rest.len() == 0 || rest[0] == 10,
    ensures
        diagnostics::line_end(line + rest) == line.len(),
    decreases line.len(),
{
    let all = line + rest;
    if line.len() == 0 {
        assert(all =~= rest);
    } else {
        assert(all[0] == line[0]);
        assert forall|i: int| 0 <= i < line.skip(1).len() implies #[trigger] line.skip(1)[i] != 10 by {
            assert(line[i + 1] != 10);
        }
        assert(all.skip(1) =~= line.skip(1) + rest);
        lemma_line_end(line.skip(1), rest);
    }
}

/// What a stream printed is its lines: what stands before the first newline, without a
/// return at its end, and then the lines of the rest. What stands behind the last
/// newline is a line where it is not empty.
pub proof fn a_stream_is_its_lines(line: Seq<u8>, rest: Seq<u8>)
    requires
        has_no_feed(line),
    ensures
        diagnostics::lines_of(Seq::empty()) == Seq::<Seq<u8>>::empty(),
        ({
            let bare = if line.len() > 0 && line.last() == 13 {
                line.drop_last()
            } else {
                line
            };
            &&& line.len() > 0 ==> diagnostics::lines_of(line) == seq![bare]
            &&& diagnostics::lines_of(line + seq![10u8] + rest) == seq![bare]
                + diagnostics::lines_of(rest)
        }),
{
    lemma_line_end(line, Seq::empty());
    assert(line + Seq::<u8>::empty() =~= line);
    assert(line.take(line.len() as int) =~= line);
    let tail = seq![10u8] + rest;
    let all = line + seq![10u8] + rest;
    assert(all =~= line + tail);
    lemma_line_end(line, tail);
    assert(all.take(line.len() as int) =~= line);
    assert(all.skip(line.len() as int + 1) =~= rest);
    let bare = diagnostics::strip_cr(line);
    assert(diagnostics::lines_of(Seq::empty()) =~= Seq::<Seq<u8>>::empty());
    if line.len() > 0 {
        assert(diagnostics::lines_of(line) =~= seq![bare]);
    }
    assert(diagnostics::lines_of(all) =~= seq![bare] + diagnostics::lines_of(rest));
}

/// Whether the lines are messages of the compiler, one by one.
pub open spec fn are_messages(
    lines: Seq<Seq<u8>>,
    said: Seq<DiagnosticModel>,
    rules: EvidenceRules,
) -> bool {
    &&& lines.len() == said.len() <= 256
    &&& forall|i: int|
        0 <= i < lines.len() ==> exists|value: Json| #[trigger]
            is_record(lines[i], value, rules) && is_message(value, #[trigger] said[i])
}

/// The spans and the notes of the first messages.
pub open spec fn spans_said(said: Seq<DiagnosticModel>, n: nat) -> nat
    decreases n,
{
    if n == 0 {
        0
    } else {
        spans_said(said, (n - 1) as nat) + said[n - 1].spans.len() + note_spans(
            said[n - 1].children,
            said[n - 1].children.len(),
        )
    }
}

pub open spec fn notes_said(said: Seq<DiagnosticModel>, n: nat) -> nat
    decreases n,
{
    if n == 0 {
        0
    } else {
        notes_said(said, (n - 1) as nat) + said[n - 1].children.len()
    }
}

/// Messages of the compiler, up to as many as are kept, become the diagnostics: each of
/// them one, in the order of their lines, and nothing is raised.
pub proof fn messages_become_the_diagnostics(
    s: ScanModel,
    action: ControlledAction,
    rules: EvidenceRules,
    lines: Seq<Seq<u8>>,
    said: Seq<DiagnosticModel>,
    n: nat,
)
    requires
        are_messages(lines, said, rules),
        n <= lines.len(),
        s.diagnostics.len() == 0,
        s.finished is None,
        s.context.spans == 0,
        s.context.children == 0,
        spans_said(said, n) <= 1024,
        notes_said(said, n) <= 256,
    ensures
        ({
            let t = diagnostics::lines_read(s, action, rules, lines, n);
            &&& t.diagnostics == said.take(n as int)
            &&& t.context.issues == s.context.issues
            &&& t.context.spans == spans_said(said, n)
            &&& t.context.children == notes_said(said, n)
            &&& t.finished is None
        }),
    decreases n,
{
    if n == 0 {
        assert(s.diagnostics =~= said.take(0));
    } else {
        messages_become_the_diagnostics(s, action, rules, lines, said, (n - 1) as nat);
        let t = diagnostics::lines_read(s, action, rules, lines, (n - 1) as nat);
        let line = lines[n - 1];
        let d = said[n - 1];
        let value = choose|value: Json| #[trigger]
            is_record(line, value, rules) && is_message(value, d);
        a_record_line_is_read(t, action, rules, line, value);
        a_message_becomes_a_diagnostic(t, line, value, d);
        lemma_message(value, d, Context { rejected: false, ..t.context });
        lemma_counts(t, line, value, d);
        assert(said.take(n - 1).push(d) =~= said.take(n as int));
    }
}

proof fn lemma_counts(s: ScanModel, line: Seq<u8>, value: Json, d: DiagnosticModel)
    requires
        is_message(value, d),
        has_room(s, d),
    ensures
        ({
            let t = diagnostics::message_read(s, line, Some(value));
            &&& t.context.spans == s.context.spans + d.spans.len() + note_spans(
                d.children,
                d.children.len(),
            )
            &&& t.context.children == s.context.children + d.children.len()
        }),
{
    reveal(diagnostics::record_read);
    lemma_has(value, "reason"@, Json::Text("compiler-message"@));
    lemma_message(value, d, Context { rejected: false, ..s.context });
}

// Build scripts.

/// Whether a list is one of texts, each of no more than 4096 bytes.
pub open spec fn is_text_list(items: Seq<Json>) -> bool {
    &&& items.len() <= 256
    &&& forall|i: int|
        0 <= i < items.len() ==> (#[trigger] items[i]) is Text && text::byte_len(
            items[i]->Text_0,
        ) <= 4096
}

pub open spec fn has_text_list(value: Json, key: Seq<char>) -> bool {
    exists|items: Seq<Json>| #[trigger] has(value, key, Json::Array(items)) && is_text_list(items)
}

/// Whether a list is one of pairs of texts.
pub open spec fn is_pair_list(items: Seq<Json>) -> bool {
    &&& items.len() <= 256
    &&& forall|i: int|
        0 <= i < items.len() ==> (#[trigger] items[i]) is Array && items[i]->Array_0.len() == 2
            && is_text_list(items[i]->Array_0)
}

/// Whether a record tells that a build script ran.
pub open spec fn is_build_script(value: Json) -> bool {
    &&& has(value, "reason"@, Json::Text("build-script-executed"@))
    &&& exists|t: Seq<char>| #[trigger] has_text(value, "package_id"@, t, 4096)
    &&& has_text_list(value, "linked_libs"@)
    &&& has_text_list(value, "linked_paths"@)
    &&& has_text_list(value, "cfgs"@)
    &&& exists|items: Seq<Json>| #[trigger] has(value, "env"@, Json::Array(items)) && is_pair_list(
        items,
    )
    &&& exists|t: Seq<char>| #[trigger] has_text(value, "out_dir"@, t, 4096)
}

proof fn lemma_checked(items: Seq<Json>, n: nat, c: Context)
    requires
        is_text_list(items),
        n <= items.len(),
    ensures
        cargo_message::checked_upto(items, n, c) == (true, c),
    decreases n,
{
    if n > 0 {
        lemma_checked(items, (n - 1) as nat, c);
        assert(items[n - 1] is Text);
    }
}

proof fn lemma_text_list(value: Json, key: Seq<char>, c: Context)
    requires
        has_text_list(value, key),
    ensures
        cargo_message::valid_string_list_of(json::member(value->Object_0, key), c) == (true, c),
{
    let items = choose|items: Seq<Json>| #[trigger]
        has(value, key, Json::Array(items)) && is_text_list(items);
    lemma_has(value, key, Json::Array(items));
    lemma_checked(items, items.len(), c);
}

proof fn lemma_pairs(items: Seq<Json>, n: nat, c: Context)
    requires
        is_pair_list(items),
        n <= items.len(),
    ensures
        cargo_message::environment_upto(items, n, c) == (true, c),
    decreases n,
{
    if n > 0 {
        lemma_pairs(items, (n - 1) as nat, c);
        assert(items[n - 1] is Array);
        lemma_checked(items[n - 1]->Array_0, 2, c);
    }
}

/// A build script that ran is passed over: it is counted, and nothing else is changed.
pub proof fn a_build_script_is_passed_over(s: ScanModel, line: Seq<u8>, value: Json)
    requires
        is_build_script(value),
    ensures
        ({
            let t = diagnostics::message_read(s, line, Some(value));
            &&& t.diagnostics == s.diagnostics
            &&& t.artifacts == s.artifacts
            &&& t.context.issues == s.context.issues
            &&& t.output == s.output
            &&& t.finished == s.finished
            &&& s.messages < u64::MAX ==> t.messages == s.messages + 1
        }),
{
    reveal(diagnostics::record_read);
    reveal(cargo_message::build_script_of);
    reveal_strlit("build-script-executed");
    reveal_strlit("compiler-message");
    reveal_strlit("compiler-artifact");
    assert("build-script-executed"@.len() != "compiler-message"@.len());
    assert("build-script-executed"@.len() != "compiler-artifact"@.len());
    let c = Context { rejected: false, ..s.context };
    lemma_has(value, "reason"@, Json::Text("build-script-executed"@));
    let id = choose|t: Seq<char>| #[trigger] has_text(value, "package_id"@, t, 4096);
    lemma_text(value, "package_id"@, id, 4096, c);
    lemma_text_list(value, "linked_libs"@, c);
    lemma_text_list(value, "linked_paths"@, c);
    lemma_text_list(value, "cfgs"@, c);
    let items = choose|items: Seq<Json>| #[trigger]
        has(value, "env"@, Json::Array(items)) && is_pair_list(items);
    lemma_has(value, "env"@, Json::Array(items));
    lemma_pairs(items, items.len(), c);
    let out = choose|t: Seq<char>| #[trigger] has_text(value, "out_dir"@, t, 4096);
    lemma_text(value, "out_dir"@, out, 4096, c);
}

} // verus!
