//! The records of Cargo's JSON message stream: what each must hold, how long
//! its fields may be, and which evidence issues a departure raises.

use crate::json;
use crate::json::{Json, JsonValue};
use crate::text;
use crate::text::texts;
use vstd::prelude::*;

verus! {

pub const MAX_DIAGNOSTIC_SPANS: usize = 1024;

pub const MAX_DIAGNOSTIC_CHILDREN: usize = 256;

pub const MAX_FIELD_BYTES: usize = 4096;

pub const MAX_RENDERED_BYTES: usize = 16384;

pub const MAX_LIST_ITEMS: usize = 256;

pub const MAX_CHILD_DEPTH: usize = 4;

/// What can be wrong with the evidence of a command.
#[derive(Clone, Copy, Debug, PartialEq, Eq, Structural)]
pub enum DiagnosticEvidenceIssue {
    Missing,
    Malformed,
    Oversized,
    Unexpected,
    InvalidUtf8,
    Truncated,
    ReadFailed,
    Unavailable,
    ExecutionFailed,
}

/// A target of a package.
#[derive(Clone, Debug, PartialEq, Eq)]
pub struct CargoTarget {
    pub name: String,
    pub kind: Vec<String>,
    pub crate_types: Vec<String>,
    pub src_path: String,
    pub edition: String,
}

/// A region of a source file that a diagnostic points at.
#[derive(Clone, Debug, PartialEq, Eq)]
pub struct DiagnosticSpan {
    pub file_name: String,
    pub byte_start: u64,
    pub byte_end: u64,
    pub line_start: u64,
    pub line_end: u64,
    pub column_start: u64,
    pub column_end: u64,
    pub is_primary: bool,
    pub label: Option<String>,
    pub suggested_replacement: Option<String>,
    pub suggestion_applicability: Option<String>,
}

/// A note or help text below a diagnostic.
#[derive(Debug, PartialEq, Eq)]
pub struct DiagnosticChild {
    pub level: String,
    pub message: String,
    pub spans: Vec<DiagnosticSpan>,
    pub children: Vec<DiagnosticChild>,
}

/// One compiler message.
#[derive(Debug, PartialEq, Eq)]
pub struct CargoDiagnostic {
    pub package_id: String,
    pub manifest_path: String,
    pub target: CargoTarget,
    pub code: Option<String>,
    pub level: String,
    pub message: String,
    pub rendered: Option<String>,
    pub spans: Vec<DiagnosticSpan>,
    pub children: Vec<DiagnosticChild>,
}

/// The profile that an artifact was built with.
#[derive(Clone, Debug, PartialEq, Eq)]
pub struct CargoProfile {
    pub opt_level: String,
    pub debuginfo: String,
    pub debug_assertions: bool,
    pub overflow_checks: bool,
    pub test: bool,
}

/// One built artifact.
#[derive(Clone, Debug, PartialEq, Eq)]
pub struct CargoArtifact {
    pub package_id: String,
    pub manifest_path: String,
    pub target: CargoTarget,
    pub profile: Option<CargoProfile>,
    pub features: Vec<String>,
    pub filenames: Vec<String>,
    pub executable: Option<String>,
    pub fresh: bool,
}

/// The characters of an optional string.
pub open spec fn opt_text(o: Option<String>) -> Option<Seq<char>> {
    match o {
        Some(s) => Some(s@),
        None => None,
    }
}

pub struct TargetModel {
    pub name: Seq<char>,
    pub kind: Seq<Seq<char>>,
    pub crate_types: Seq<Seq<char>>,
    pub src_path: Seq<char>,
    pub edition: Seq<char>,
}

pub struct SpanModel {
    pub file_name: Seq<char>,
    pub byte_start: u64,
    pub byte_end: u64,
    pub line_start: u64,
    pub line_end: u64,
    pub column_start: u64,
    pub column_end: u64,
    pub is_primary: bool,
    pub label: Option<Seq<char>>,
    pub suggested_replacement: Option<Seq<char>>,
    pub suggestion_applicability: Option<Seq<char>>,
}

pub struct ChildModel {
    pub level: Seq<char>,
    pub message: Seq<char>,
    pub spans: Seq<SpanModel>,
    pub children: Seq<ChildModel>,
}

pub struct DiagnosticModel {
    pub package_id: Seq<char>,
    pub manifest_path: Seq<char>,
    pub target: TargetModel,
    pub code: Option<Seq<char>>,
    pub level: Seq<char>,
    pub message: Seq<char>,
    pub rendered: Option<Seq<char>>,
    pub spans: Seq<SpanModel>,
    pub children: Seq<ChildModel>,
}

pub struct ProfileModel {
    pub opt_level: Seq<char>,
    pub debuginfo: Seq<char>,
    pub debug_assertions: bool,
    pub overflow_checks: bool,
    pub test: bool,
}

pub struct ArtifactModel {
    pub package_id: Seq<char>,
    pub manifest_path: Seq<char>,
    pub target: TargetModel,
    pub profile: Option<ProfileModel>,
    pub features: Seq<Seq<char>>,
    pub filenames: Seq<Seq<char>>,
    pub executable: Option<Seq<char>>,
    pub fresh: bool,
}

impl CargoTarget {
    pub open spec fn view(&self) -> TargetModel {
        TargetModel {
            name: self.name@,
            kind: texts(self.kind@),
            crate_types: texts(self.crate_types@),
            src_path: self.src_path@,
            edition: self.edition@,
        }
    }
}

impl DiagnosticSpan {
    pub open spec fn view(&self) -> SpanModel {
        SpanModel {
            file_name: self.file_name@,
            byte_start: self.byte_start,
            byte_end: self.byte_end,
            line_start: self.line_start,
            line_end: self.line_end,
            column_start: self.column_start,
            column_end: self.column_end,
            is_primary: self.is_primary,
            label: opt_text(self.label),
            suggested_replacement: opt_text(self.suggested_replacement),
            suggestion_applicability: opt_text(self.suggestion_applicability),
        }
    }
}

pub open spec fn spans_view(v: Seq<DiagnosticSpan>) -> Seq<SpanModel> {
    Seq::new(v.len(), |i: int| v[i].view())
}

impl DiagnosticChild {
    pub open spec fn view(&self) -> ChildModel
        decreases self,
    {
        ChildModel {
            level: self.level@,
            message: self.message@,
            spans: spans_view(self.spans@),
            children: Seq::new(
                self.children@.len(),
                |i: int|
                    if 0 <= i < self.children@.len() {
                        self.children@[i].view()
                    } else {
                        arbitrary()
                    },
            ),
        }
    }
}

pub open spec fn children_view(v: Seq<DiagnosticChild>) -> Seq<ChildModel> {
    Seq::new(v.len(), |i: int| v[i].view())
}

impl CargoDiagnostic {
    pub open spec fn view(&self) -> DiagnosticModel {
        DiagnosticModel {
            package_id: self.package_id@,
            manifest_path: self.manifest_path@,
            target: self.target.view(),
            code: opt_text(self.code),
            level: self.level@,
            message: self.message@,
            rendered: opt_text(self.rendered),
            spans: spans_view(self.spans@),
            children: children_view(self.children@),
        }
    }
}

impl CargoProfile {
    pub open spec fn view(&self) -> ProfileModel {
        ProfileModel {
            opt_level: self.opt_level@,
            debuginfo: self.debuginfo@,
            debug_assertions: self.debug_assertions,
            overflow_checks: self.overflow_checks,
            test: self.test,
        }
    }
}

impl CargoArtifact {
    pub open spec fn view(&self) -> ArtifactModel {
        ArtifactModel {
            package_id: self.package_id@,
            manifest_path: self.manifest_path@,
            target: self.target.view(),
            profile: match self.profile {
                Some(p) => Some(p.view()),
                None => None,
            },
            features: texts(self.features@),
            filenames: texts(self.filenames@),
            executable: opt_text(self.executable),
            fresh: self.fresh,
        }
    }
}

/// Whether a level is that of an error.
pub open spec fn is_error_level(level: Seq<char>) -> bool {
    level == "error"@ || level == "failure-note"@ || level == "error: internal compiler error"@
}

/// Whether a level is one that the compiler is known to write.
pub open spec fn is_known_level(level: Seq<char>) -> bool {
    is_error_level(level) || level == "warning"@ || level == "note"@ || level == "help"@
}

impl CargoDiagnostic {
    /// Whether the message reports an error.
    pub fn is_error(&self) -> (r: bool)
        ensures
            r == is_error_level(self.level@),
    {
        let level = self.level.as_str();
        text::str_eq(level, "error") || text::str_eq(level, "failure-note") || text::str_eq(
            level,
            "error: internal compiler error",
        )
    }

    /// The first primary span, or else the first span.
    pub fn primary_span(&self) -> (r: Option<&DiagnosticSpan>)
        ensures
            r is None <==> self.spans@.len() == 0,
            r is Some ==> exists|i: int|
                0 <= i < self.spans@.len() && *r->0 == #[trigger] self.spans@[i] && (forall|j: int|
                    0 <= j < i ==> !(#[trigger] self.spans@[j]).is_primary) && (
                self.spans@[i].is_primary || (i == 0 && forall|j: int|
                    0 <= j < self.spans@.len() ==> !(#[trigger] self.spans@[j]).is_primary)),
    {
        let mut i: usize = 0;
        while i < self.spans.len()
            invariant
                i <= self.spans@.len(),
                forall|j: int| 0 <= j < i ==> !(#[trigger] self.spans@[j]).is_primary,
            decreases self.spans@.len() - i,
        {
            if self.spans[i].is_primary {
                return Some(&self.spans[i]);
            }
            i += 1;
        }
        if self.spans.len() == 0 {
            None
        } else {
            Some(&self.spans[0])
        }
    }
}

/// The issues raised so far, how many spans and children were kept, and whether
/// the current record has raised an issue.
pub struct ParseContext {
    pub issues: Vec<DiagnosticEvidenceIssue>,
    pub span_count: usize,
    pub child_count: usize,
    pub record_rejected: bool,
}

pub struct Context {
    pub issues: Seq<DiagnosticEvidenceIssue>,
    pub spans: int,
    pub children: int,
    pub rejected: bool,
}

/// The context after an issue: the record is rejected, and an issue that was
/// not raised before is put behind the others.
pub open spec fn raise(c: Context, issue: DiagnosticEvidenceIssue) -> Context {
    Context {
        issues: if c.issues.contains(issue) {
            c.issues
        } else {
            c.issues.push(issue)
        },
        rejected: true,
        ..c
    }
}

/// The longest prefix within the bound, with an issue where something was cut.
pub open spec fn bounded_text(s: Seq<char>, max: nat, c: Context) -> (Seq<char>, Context) {
    if text::byte_len(s) <= max {
        (s, c)
    } else {
        (text::fit_prefix(s, max), raise(c, DiagnosticEvidenceIssue::Oversized))
    }
}

impl ParseContext {
    pub open spec fn view(&self) -> Context {
        Context {
            issues: self.issues@,
            spans: self.span_count as int,
            children: self.child_count as int,
            rejected: self.record_rejected,
        }
    }

    /// A context in which nothing has happened.
    pub fn new() -> (r: ParseContext)
        ensures
            r.view() == (Context { issues: Seq::empty(), spans: 0, children: 0, rejected: false }),
    {
        ParseContext { issues: Vec::new(), span_count: 0, child_count: 0, record_rejected: false }
    }

    /// Raises an issue once.
    pub fn issue(&mut self, issue: DiagnosticEvidenceIssue)
        ensures
            final(self).view() == raise(old(self).view(), issue),
    {
        self.record_rejected = true;
        let mut i: usize = 0;
        while i < self.issues.len()
            invariant
                i <= self.issues@.len(),
                forall|j: int| 0 <= j < i ==> self.issues@[j] != issue,
                self.view() == (Context { rejected: true, ..old(self).view() }),
            decreases self.issues@.len() - i,
        {
            if self.issues[i] == issue {
                assert(self.issues@.contains(issue));
                return;
            }
            i += 1;
        }
        self.issues.push(issue);
    }

    /// Starts a record that has raised no issue yet.
    pub fn begin_record(&mut self)
        ensures
            final(self).view() == (Context { rejected: false, ..old(self).view() }),
    {
        self.record_rejected = false;
    }

    /// Copies a string, cut to `maximum` bytes.
    pub fn bounded(&mut self, value: &str, maximum: usize) -> (r: String)
        ensures
            (r@, final(self).view()) == bounded_text(value@, maximum as nat, old(self).view()),
    {
        if text::str_bytes(value) <= maximum {
            return value.to_owned();
        }
        self.issue(DiagnosticEvidenceIssue::Oversized);
        text::fit(value, maximum)
    }
}

pub open spec fn required_string_of(
    o: Seq<(Seq<char>, Json)>,
    key: Seq<char>,
    max: nat,
    c: Context,
) -> (Option<Seq<char>>, Context) {
    match json::json_str(json::member(o, key)) {
        Some(s) => {
            let (t, d) = bounded_text(s, max, c);
            (Some(t), d)
        },
        None => (None, raise(c, DiagnosticEvidenceIssue::Malformed)),
    }
}

pub open spec fn nullable_string_of(
    o: Seq<(Seq<char>, Json)>,
    key: Seq<char>,
    max: nat,
    c: Context,
) -> (Option<Option<Seq<char>>>, Context) {
    match json::member(o, key) {
        Some(Json::Null) => (Some(None), c),
        Some(Json::Text(s)) => {
            let (t, d) = bounded_text(s, max, c);
            (Some(Some(t)), d)
        },
        _ => (None, raise(c, DiagnosticEvidenceIssue::Malformed)),
    }
}

pub open spec fn required_u64_of(o: Seq<(Seq<char>, Json)>, key: Seq<char>, c: Context) -> (
    Option<u64>,
    Context,
) {
    match json::json_u64(json::member(o, key)) {
        Some(n) => (Some(n), c),
        None => (None, raise(c, DiagnosticEvidenceIssue::Malformed)),
    }
}

pub open spec fn required_bool_of(o: Seq<(Seq<char>, Json)>, key: Seq<char>, c: Context) -> (
    Option<bool>,
    Context,
) {
    match json::json_bool(json::member(o, key)) {
        Some(b) => (Some(b), c),
        None => (None, raise(c, DiagnosticEvidenceIssue::Malformed)),
    }
}

/// Neither counter has moved.
pub open spec fn same_counts(c: Context, d: Context) -> bool {
    c.spans == d.spans && c.children == d.children
}

fn required_string(
    o: &[(String, JsonValue)],
    key: &str,
    maximum: usize,
    context: &mut ParseContext,
) -> (r: Option<String>)
    ensures
        (opt_text(r), final(context).view()) == required_string_of(
            json::members_view(o@),
            key@,
            maximum as nat,
            old(context).view(),
        ),
{
    match json::as_text(json::get_member(o, key)) {
        Some(value) => Some(context.bounded(value.as_str(), maximum)),
        None => {
            context.issue(DiagnosticEvidenceIssue::Malformed);
            None
        },
    }
}

pub open spec fn opt_opt_text(r: Option<Option<String>>) -> Option<Option<Seq<char>>> {
    match r {
        Some(o) => Some(opt_text(o)),
        None => None,
    }
}

fn required_nullable_string(
    o: &[(String, JsonValue)],
    key: &str,
    maximum: usize,
    context: &mut ParseContext,
) -> (r: Option<Option<String>>)
    ensures
        (opt_opt_text(r), final(context).view()) == nullable_string_of(
            json::members_view(o@),
            key@,
            maximum as nat,
            old(context).view(),
        ),
{
    match json::get_member(o, key) {
        Some(JsonValue::Null) => Some(None),
        Some(JsonValue::Text(value)) => Some(Some(context.bounded(value.as_str(), maximum))),
        _ => {
            context.issue(DiagnosticEvidenceIssue::Malformed);
            None
        },
    }
}

fn required_u64(o: &[(String, JsonValue)], key: &str, context: &mut ParseContext) -> (r: Option<u64>)
    ensures
        (r, final(context).view()) == required_u64_of(
            json::members_view(o@),
            key@,
            old(context).view(),
        ),
{
    let r = json::as_u64(json::get_member(o, key));
    if r.is_none() {
        context.issue(DiagnosticEvidenceIssue::Malformed);
    }
    r
}

fn required_bool(o: &[(String, JsonValue)], key: &str, context: &mut ParseContext) -> (r: Option<
    bool,
>)
    ensures
        (r, final(context).view()) == required_bool_of(
            json::members_view(o@),
            key@,
            old(context).view(),
        ),
{
    let r = json::as_bool(json::get_member(o, key));
    if r.is_none() {
        context.issue(DiagnosticEvidenceIssue::Malformed);
    }
    r
}

pub open spec fn required_array_of(v: Option<Json>, c: Context) -> (Option<Seq<Json>>, Context) {
    match json::json_array(v) {
        Some(items) => (Some(items), c),
        None => (None, raise(c, DiagnosticEvidenceIssue::Malformed)),
    }
}

fn required_array<'a>(value: Option<&'a JsonValue>, context: &mut ParseContext) -> (r: Option<
    &'a Vec<JsonValue>,
>)
    ensures
        r is Some <==> required_array_of(json::json_ref(value), old(context).view()).0 is Some,
        r is Some ==> json::items_view(r->0@) == required_array_of(
            json::json_ref(value),
            old(context).view(),
        ).0->0,
        final(context).view() == required_array_of(json::json_ref(value), old(context).view()).1,
{
    let r = json::as_array(value);
    if r.is_none() {
        context.issue(DiagnosticEvidenceIssue::Malformed);
    }
    r
}

#[verifier::opaque]
pub open spec fn level_of(o: Seq<(Seq<char>, Json)>, c: Context) -> (Option<Seq<char>>, Context) {
    let (level, d) = required_string_of(o, "level"@, 64, c);
    match level {
        Some(l) => if is_known_level(l) {
            (Some(l), d)
        } else {
            (None, raise(d, DiagnosticEvidenceIssue::Unexpected))
        },
        None => (None, d),
    }
}

fn parse_diagnostic_level(o: &[(String, JsonValue)], context: &mut ParseContext) -> (r: Option<
    String,
>)
    ensures
        (opt_text(r), final(context).view()) == level_of(
            json::members_view(o@),
            old(context).view(),
        ),
        same_counts(old(context).view(), final(context).view()),
{
    proof {
        reveal(level_of);
    }
    let level = required_string(o, "level", 64, context)?;
    let known = {
        let l = level.as_str();
        text::str_eq(l, "error") || text::str_eq(l, "warning") || text::str_eq(l, "note")
            || text::str_eq(l, "help") || text::str_eq(l, "failure-note") || text::str_eq(
            l,
            "error: internal compiler error",
        )
    };
    if known {
        Some(level)
    } else {
        context.issue(DiagnosticEvidenceIssue::Unexpected);
        None
    }
}

#[verifier::opaque]
pub open spec fn code_of(v: Option<Json>, c: Context) -> (Option<Option<Seq<char>>>, Context) {
    match v {
        Some(Json::Null) => (Some(None), c),
        Some(Json::Object(members)) => {
            let (code, d) = required_string_of(members, "code"@, 128, c);
            match code {
                Some(t) => (Some(Some(t)), d),
                None => (None, d),
            }
        },
        _ => (None, raise(c, DiagnosticEvidenceIssue::Malformed)),
    }
}

fn parse_diagnostic_code(value: Option<&JsonValue>, context: &mut ParseContext) -> (r: Option<
    Option<String>,
>)
    ensures
        (opt_opt_text(r), final(context).view()) == code_of(
            json::json_ref(value),
            old(context).view(),
        ),
        same_counts(old(context).view(), final(context).view()),
{
    proof {
        reveal(code_of);
    }
    match value {
        Some(JsonValue::Null) => Some(None),
        Some(JsonValue::Object(members)) => {
            proof {
                assert(json::members_view(members@) =~= json::json_object(
                    json::json_ref(value),
                )->0);
            }
            let code = required_string(members.as_slice(), "code", 128, context)?;
            Some(Some(code))
        },
        _ => {
            context.issue(DiagnosticEvidenceIssue::Malformed);
            None
        },
    }
}

/// Number of items of a list that are read at all.
pub open spec fn read_len(items: Seq<Json>) -> nat {
    if items.len() <= MAX_LIST_ITEMS {
        items.len()
    } else {
        MAX_LIST_ITEMS as nat
    }
}

/// An issue where a list has more items than are read.
pub open spec fn list_bound(items: Seq<Json>, c: Context) -> Context {
    if items.len() > MAX_LIST_ITEMS {
        raise(c, DiagnosticEvidenceIssue::Oversized)
    } else {
        c
    }
}

/// The strings among the first `n` items, each cut to `max` bytes.
pub open spec fn strings_upto(items: Seq<Json>, n: nat, max: nat, c: Context) -> (
    Seq<Seq<char>>,
    Context,
)
    decreases n,
{
    if n == 0 {
        (Seq::empty(), c)
    } else {
        let (done, d) = strings_upto(items, (n - 1) as nat, max, c);
        match items[n - 1] {
            Json::Text(s) => {
                let (t, e) = bounded_text(s, max, d);
                (done.push(t), e)
            },
            _ => (done, raise(d, DiagnosticEvidenceIssue::Malformed)),
        }
    }
}

#[verifier::opaque]
pub open spec fn string_list_of(v: Option<Json>, max: nat, c: Context) -> (
    Option<Seq<Seq<char>>>,
    Context,
) {
    let (items, d) = required_array_of(v, c);
    match items {
        None => (None, d),
        Some(items) => {
            let (strings, e) = strings_upto(items, read_len(items), max, list_bound(items, d));
            (Some(strings), e)
        },
    }
}

pub open spec fn opt_texts(r: Option<Vec<String>>) -> Option<Seq<Seq<char>>> {
    match r {
        Some(v) => Some(texts(v@)),
        None => None,
    }
}

fn parse_string_list(
    value: Option<&JsonValue>,
    maximum: usize,
    context: &mut ParseContext,
) -> (r: Option<Vec<String>>)
    ensures
        (opt_texts(r), final(context).view()) == string_list_of(
            json::json_ref(value),
            maximum as nat,
            old(context).view(),
        ),
        same_counts(old(context).view(), final(context).view()),
{
    proof {
        reveal(string_list_of);
    }
    let values = required_array(value, context)?;
    if values.len() > MAX_LIST_ITEMS {
        context.issue(DiagnosticEvidenceIssue::Oversized);
    }
    let ghost items = json::items_view(values@);
    let ghost base = context.view();
    let n: usize = if values.len() <= MAX_LIST_ITEMS {
        values.len()
    } else {
        MAX_LIST_ITEMS
    };
    let mut strings: Vec<String> = Vec::new();
    let mut i: usize = 0;
    assert(texts(strings@) =~= Seq::<Seq<char>>::empty());
    while i < n
        invariant
            i <= n <= values@.len(),
            items == json::items_view(values@),
            (texts(strings@), context.view()) == strings_upto(
                items,
                i as nat,
                maximum as nat,
                base,
            ),
            same_counts(base, context.view()),
        decreases n - i,
    {
        let ghost before = strings@;
        assert(items[i as int] == values@[i as int].view());
        match json::as_text(Some(&values[i])) {
            None => {
                context.issue(DiagnosticEvidenceIssue::Malformed);
            },
            Some(value) => {
                let t = context.bounded(value.as_str(), maximum);
                strings.push(t);
                assert(texts(strings@) =~= texts(before).push(t@));
            },
        }
        i += 1;
    }
    Some(strings)
}

/// The context after the first `n` items of a list of strings were checked, and
/// whether each of them was a string.
pub open spec fn checked_upto(items: Seq<Json>, n: nat, c: Context) -> (bool, Context)
    decreases n,
{
    if n == 0 {
        (true, c)
    } else {
        let (valid, d) = checked_upto(items, (n - 1) as nat, c);
        match items[n - 1] {
            Json::Text(s) => (valid, bounded_text(s, MAX_FIELD_BYTES as nat, d).1),
            _ => (false, raise(d, DiagnosticEvidenceIssue::Malformed)),
        }
    }
}

pub open spec fn valid_string_list_of(v: Option<Json>, c: Context) -> (bool, Context) {
    let (items, d) = required_array_of(v, c);
    match items {
        None => (false, d),
        Some(items) => checked_upto(items, read_len(items), list_bound(items, d)),
    }
}

fn validate_string_list(value: Option<&JsonValue>, context: &mut ParseContext) -> (r: Option<()>)
    ensures
        (r is Some, final(context).view()) == valid_string_list_of(
            json::json_ref(value),
            old(context).view(),
        ),
        same_counts(old(context).view(), final(context).view()),
{
    let values = required_array(value, context)?;
    if values.len() > MAX_LIST_ITEMS {
        context.issue(DiagnosticEvidenceIssue::Oversized);
    }
    let ghost items = json::items_view(values@);
    let ghost base = context.view();
    let n: usize = if values.len() <= MAX_LIST_ITEMS {
        values.len()
    } else {
        MAX_LIST_ITEMS
    };
    let mut valid = true;
    let mut i: usize = 0;
    while i < n
        invariant
            i <= n <= values@.len(),
            items == json::items_view(values@),
            (valid, context.view()) == checked_upto(items, i as nat, base),
            same_counts(base, context.view()),
        decreases n - i,
    {
        assert(items[i as int] == values@[i as int].view());
        match json::as_text(Some(&values[i])) {
            Some(value) => {
                let _ = context.bounded(value.as_str(), MAX_FIELD_BYTES);
            },
            None => {
                context.issue(DiagnosticEvidenceIssue::Malformed);
                valid = false;
            },
        }
        i += 1;
    }
    if valid {
        Some(())
    } else {
        None
    }
}

/// The pair at `items[n - 1]` must hold two strings.
pub open spec fn environment_upto(items: Seq<Json>, n: nat, c: Context) -> (bool, Context)
    decreases n,
{
    if n == 0 {
        (true, c)
    } else {
        let (valid, d) = environment_upto(items, (n - 1) as nat, c);
        match items[n - 1] {
            Json::Array(pair) => if pair.len() == 2 {
                let (both, e) = checked_upto(pair, 2, d);
                (valid && both, e)
            } else {
                (false, raise(d, DiagnosticEvidenceIssue::Malformed))
            },
            _ => (false, raise(d, DiagnosticEvidenceIssue::Malformed)),
        }
    }
}

pub open spec fn valid_environment_of(v: Option<Json>, c: Context) -> (bool, Context) {
    let (items, d) = required_array_of(v, c);
    match items {
        None => (false, d),
        Some(items) => environment_upto(items, read_len(items), list_bound(items, d)),
    }
}

fn validate_build_script_environment(
    value: Option<&JsonValue>,
    context: &mut ParseContext,
) -> (r: Option<()>)
    ensures
        (r is Some, final(context).view()) == valid_environment_of(
            json::json_ref(value),
            old(context).view(),
        ),
        same_counts(old(context).view(), final(context).view()),
{
    let values = required_array(value, context)?;
    if values.len() > MAX_LIST_ITEMS {
        context.issue(DiagnosticEvidenceIssue::Oversized);
    }
    let ghost items = json::items_view(values@);
    let ghost base = context.view();
    let n: usize = if values.len() <= MAX_LIST_ITEMS {
        values.len()
    } else {
        MAX_LIST_ITEMS
    };
    let mut valid = true;
    let mut i: usize = 0;
    while i < n
        invariant
            i <= n <= values@.len(),
            items == json::items_view(values@),
            (valid, context.view()) == environment_upto(items, i as nat, base),
            same_counts(base, context.view()),
        decreases n - i,
    {
        assert(items[i as int] == values@[i as int].view());
        let ghost before = context.view();
        let ghost valid_before = valid;
        match json::as_array(Some(&values[i])) {
            Some(pair) => {
                if pair.len() == 2 {
                    let ghost pair_items = json::items_view(pair@);
                    let mut j: usize = 0;
                    let mut both = true;
                    while j < 2
                        invariant
                            j <= 2,
                            pair@.len() == 2,
                            pair_items == json::items_view(pair@),
                            (both, context.view()) == checked_upto(pair_items, j as nat, before),
                            same_counts(before, context.view()),
                        decreases 2 - j,
                    {
                        assert(pair_items[j as int] == pair@[j as int].view());
                        match json::as_text(Some(&pair[j])) {
                            Some(item) => {
                                let _ = context.bounded(item.as_str(), MAX_FIELD_BYTES);
                            },
                            None => {
                                context.issue(DiagnosticEvidenceIssue::Malformed);
                                both = false;
                            },
                        }
                        j += 1;
                    }
                    valid = valid && both;
                } else {
                    context.issue(DiagnosticEvidenceIssue::Malformed);
                    valid = false;
                }
            },
            None => {
                context.issue(DiagnosticEvidenceIssue::Malformed);
                valid = false;
            },
        }
        i += 1;
    }
    if valid {
        Some(())
    } else {
        None
    }
}

#[verifier::opaque]
pub open spec fn target_of(v: Option<Json>, c: Context) -> (Option<TargetModel>, Context) {
    match json::json_object(v) {
        None => (None, raise(c, DiagnosticEvidenceIssue::Malformed)),
        Some(o) => {
            let (name, c1) = required_string_of(o, "name"@, MAX_FIELD_BYTES as nat, c);
            if name is None {
                (None, c1)
            } else {
                let (kind, c2) = string_list_of(json::member(o, "kind"@), 128, c1);
                if kind is None {
                    (None, c2)
                } else {
                    let (types, c3) = string_list_of(json::member(o, "crate_types"@), 128, c2);
                    if types is None {
                        (None, c3)
                    } else {
                        let (src_path, c4) = required_string_of(
                            o,
                            "src_path"@,
                            MAX_FIELD_BYTES as nat,
                            c3,
                        );
                        if src_path is None {
                            (None, c4)
                        } else {
                            let (edition, c5) = required_string_of(o, "edition"@, 64, c4);
                            match edition {
                                None => (None, c5),
                                Some(edition) => (
                                    Some(
                                        TargetModel {
                                            name: name->0,
                                            kind: kind->0,
                                            crate_types: types->0,
                                            src_path: src_path->0,
                                            edition,
                                        },
                                    ),
                                    c5,
                                ),
                            }
                        }
                    }
                }
            }
        },
    }
}

pub open spec fn opt_target(r: Option<CargoTarget>) -> Option<TargetModel> {
    match r {
        Some(t) => Some(t.view()),
        None => None,
    }
}

fn parse_target(value: Option<&JsonValue>, context: &mut ParseContext) -> (r: Option<CargoTarget>)
    ensures
        (opt_target(r), final(context).view()) == target_of(
            json::json_ref(value),
            old(context).view(),
        ),
        same_counts(old(context).view(), final(context).view()),
{
    proof {
        reveal(target_of);
    }
    let object = match json::as_object(value) {
        Some(o) => o,
        None => {
            context.issue(DiagnosticEvidenceIssue::Malformed);
            return None;
        },
    };
    let o = object.as_slice();
    let name = required_string(o, "name", MAX_FIELD_BYTES, context)?;
    let kind = parse_string_list(json::get_member(o, "kind"), 128, context)?;
    let crate_types = parse_string_list(json::get_member(o, "crate_types"), 128, context)?;
    let src_path = required_string(o, "src_path", MAX_FIELD_BYTES, context)?;
    let edition = required_string(o, "edition", 64, context)?;
    Some(CargoTarget { name, kind, crate_types, src_path, edition })
}

pub open spec fn required_object_of(v: Option<Json>, c: Context) -> (
    Option<Seq<(Seq<char>, Json)>>,
    Context,
) {
    match json::json_object(v) {
        Some(o) => (Some(o), c),
        None => (None, raise(c, DiagnosticEvidenceIssue::Malformed)),
    }
}

fn required_object<'a>(value: Option<&'a JsonValue>, context: &mut ParseContext) -> (r: Option<
    &'a Vec<(String, JsonValue)>,
>)
    ensures
        r is Some <==> required_object_of(json::json_ref(value), old(context).view()).0 is Some,
        r is Some ==> json::members_view(r->0@) == required_object_of(
            json::json_ref(value),
            old(context).view(),
        ).0->0,
        final(context).view() == required_object_of(json::json_ref(value), old(context).view()).1,
{
    let r = json::as_object(value);
    if r.is_none() {
        context.issue(DiagnosticEvidenceIssue::Malformed);
    }
    r
}

/// The debug-information setting as JSON text: null, a string or a number.
pub open spec fn debuginfo_of(v: Option<Json>, c: Context) -> (Option<Seq<char>>, Context) {
    match v {
        Some(value) => if value is Null || value is Text || value is Unsigned {
            let (t, d) = bounded_text(json::json_text(value), 64, c);
            (Some(t), d)
        } else {
            (None, raise(c, DiagnosticEvidenceIssue::Malformed))
        },
        None => (None, raise(c, DiagnosticEvidenceIssue::Malformed)),
    }
}

fn parse_debuginfo(value: Option<&JsonValue>, context: &mut ParseContext) -> (r: Option<String>)
    ensures
        (opt_text(r), final(context).view()) == debuginfo_of(
            json::json_ref(value),
            old(context).view(),
        ),
{
    match value {
        Some(value) => {
            let accepted = match value {
                JsonValue::Null => true,
                JsonValue::Text(_) => true,
                JsonValue::Number(json::JsonNumber::Unsigned(_)) => true,
                _ => false,
            };
            if accepted {
                let written = json::write_json(value);
                Some(context.bounded(written.as_str(), 64))
            } else {
                context.issue(DiagnosticEvidenceIssue::Malformed);
                None
            }
        },
        None => {
            context.issue(DiagnosticEvidenceIssue::Malformed);
            None
        },
    }
}

#[verifier::opaque]
pub open spec fn profile_of(v: Option<Json>, c: Context) -> (Option<ProfileModel>, Context) {
    let (o, c1) = required_object_of(v, c);
    if o is None {
        (None, c1)
    } else {
        let (debuginfo, c2) = debuginfo_of(json::member(o->0, "debuginfo"@), c1);
        if debuginfo is None {
            (None, c2)
        } else {
            let (opt_level, c3) = required_string_of(o->0, "opt_level"@, 64, c2);
            if opt_level is None {
                (None, c3)
            } else {
                let (debug_assertions, c4) = required_bool_of(o->0, "debug_assertions"@, c3);
                if debug_assertions is None {
                    (None, c4)
                } else {
                    let (overflow_checks, c5) = required_bool_of(o->0, "overflow_checks"@, c4);
                    if overflow_checks is None {
                        (None, c5)
                    } else {
                        let (test, c6) = required_bool_of(o->0, "test"@, c5);
                        if test is None {
                            (None, c6)
                        } else {
                            (
    Some(
        ProfileModel {
            opt_level: opt_level->0,
            debuginfo: debuginfo->0,
            debug_assertions: debug_assertions->0,
            overflow_checks: overflow_checks->0,
            test: test->0,
        },
    ),
    c6,
)
                        }
                    }
                }
            }
        }
    }
}

pub open spec fn opt_profile(r: Option<CargoProfile>) -> Option<ProfileModel> {
    match r {
        Some(t) => Some(t.view()),
        None => None,
    }
}

fn parse_profile(value: Option<&JsonValue>, context: &mut ParseContext) -> (r: Option<CargoProfile>)
    ensures
        (opt_profile(r), final(context).view()) == profile_of(
            json::json_ref(value),
            old(context).view(),
        ),
        same_counts(old(context).view(), final(context).view()),
{
    proof {
        reveal(profile_of);
    }
    let o = required_object(value, context)?.as_slice();
    let debuginfo = parse_debuginfo(json::get_member(o, "debuginfo"), context)?;
    let opt_level = required_string(o, "opt_level", 64, context)?;
    let debug_assertions = required_bool(o, "debug_assertions", context)?;
    let overflow_checks = required_bool(o, "overflow_checks", context)?;
    let test = required_bool(o, "test", context)?;
    Some(CargoProfile { opt_level, debuginfo, debug_assertions, overflow_checks, test })
}

/// Lines and columns count from one, and a span does not end before it starts.
pub open spec fn span_in_order(span: SpanModel) -> bool {
    &&& span.byte_start <= span.byte_end
    &&& span.line_start > 0
    &&& span.line_end > 0
    &&& span.column_start > 0
    &&& span.column_end > 0
    &&& span.line_start <= span.line_end
}

pub open spec fn well_placed_span(span: SpanModel, c: Context) -> (Option<SpanModel>, Context) {
    if span_in_order(span) {
        (Some(span), c)
    } else {
        (None, raise(c, DiagnosticEvidenceIssue::Malformed))
    }
}

#[verifier::opaque]
pub open spec fn span_of(o: Seq<(Seq<char>, Json)>, c: Context) -> (Option<SpanModel>, Context) {
    let (file_name, c1) = required_string_of(o, "file_name"@, MAX_FIELD_BYTES as nat, c);
    if file_name is None {
        (None, c1)
    } else {
        let (byte_start, c2) = required_u64_of(o, "byte_start"@, c1);
        if byte_start is None {
            (None, c2)
        } else {
            let (byte_end, c3) = required_u64_of(o, "byte_end"@, c2);
            if byte_end is None {
                (None, c3)
            } else {
                let (line_start, c4) = required_u64_of(o, "line_start"@, c3);
                if line_start is None {
                    (None, c4)
                } else {
                    let (line_end, c5) = required_u64_of(o, "line_end"@, c4);
                    if line_end is None {
                        (None, c5)
                    } else {
                        let (column_start, c6) = required_u64_of(o, "column_start"@, c5);
                        if column_start is None {
                            (None, c6)
                        } else {
                            let (column_end, c7) = required_u64_of(o, "column_end"@, c6);
                            if column_end is None {
                                (None, c7)
                            } else {
                                let (is_primary, c8) = required_bool_of(o, "is_primary"@, c7);
                                if is_primary is None {
                                    (None, c8)
                                } else {
                                    let (label, c9) = nullable_string_of(o, "label"@, MAX_FIELD_BYTES as nat, c8);
                                    if label is None {
                                        (None, c9)
                                    } else {
                                        let (replacement, c10) = nullable_string_of(o, "suggested_replacement"@, MAX_RENDERED_BYTES as nat, c9);
                                        if replacement is None {
                                            (None, c10)
                                        } else {
                                            let (applicability, c11) = nullable_string_of(o, "suggestion_applicability"@, 128, c10);
                                            if applicability is None {
                                                (None, c11)
                                            } else {
                                                well_placed_span(SpanModel {
    file_name: file_name->0,
    byte_start: byte_start->0,
    byte_end: byte_end->0,
    line_start: line_start->0,
    line_end: line_end->0,
    column_start: column_start->0,
    column_end: column_end->0,
    is_primary: is_primary->0,
    label: label->0,
    suggested_replacement: replacement->0,
    suggestion_applicability: applicability->0,
}, c11)
                                            }
                                        }
                                    }
                                }
                            }
                        }
                    }
                }
            }
        }
    }
}

pub open spec fn opt_span(r: Option<DiagnosticSpan>) -> Option<SpanModel> {
    match r {
        Some(t) => Some(t.view()),
        None => None,
    }
}

fn parse_span(o: &[(String, JsonValue)], context: &mut ParseContext) -> (r: Option<DiagnosticSpan>)
    ensures
        (opt_span(r), final(context).view()) == span_of(
            json::members_view(o@),
            old(context).view(),
        ),
{
    proof {
        reveal(span_of);
    }
    let file_name = required_string(o, "file_name", MAX_FIELD_BYTES, context)?;
    let byte_start = required_u64(o, "byte_start", context)?;
    let byte_end = required_u64(o, "byte_end", context)?;
    let line_start = required_u64(o, "line_start", context)?;
    let line_end = required_u64(o, "line_end", context)?;
    let column_start = required_u64(o, "column_start", context)?;
    let column_end = required_u64(o, "column_end", context)?;
    let is_primary = required_bool(o, "is_primary", context)?;
    let label = required_nullable_string(o, "label", MAX_FIELD_BYTES, context)?;
    let suggested_replacement = required_nullable_string(
        o,
        "suggested_replacement",
        MAX_RENDERED_BYTES,
        context,
    )?;
    let suggestion_applicability = required_nullable_string(
        o,
        "suggestion_applicability",
        128,
        context,
    )?;
    if byte_start > byte_end || line_start == 0 || line_end == 0 || column_start == 0 || column_end
        == 0 || line_start > line_end {
        context.issue(DiagnosticEvidenceIssue::Malformed);
        return None;
    }
    Some(
        DiagnosticSpan {
            file_name,
            byte_start,
            byte_end,
            line_start,
            line_end,
            column_start,
            column_end,
            is_primary,
            label,
            suggested_replacement,
            suggestion_applicability,
        },
    )
}

/// The spans among the first `n` items. Reading stops for good at the first
/// item that is met with the span budget spent.
pub open spec fn spans_upto(items: Seq<Json>, n: nat, c: Context) -> (Seq<SpanModel>, Context, bool)
    decreases n,
{
    if n == 0 {
        (Seq::empty(), c, false)
    } else {
        let (done, d, stopped) = spans_upto(items, (n - 1) as nat, c);
        if stopped {
            (done, d, true)
        } else if d.spans == MAX_DIAGNOSTIC_SPANS {
            (done, raise(d, DiagnosticEvidenceIssue::Oversized), true)
        } else {
            match items[n - 1] {
                Json::Object(o) => {
                    let (span, e) = span_of(o, d);
                    match span {
                        Some(span) => (
                            done.push(span),
                            Context { spans: e.spans + 1, ..e },
                            false,
                        ),
                        None => (done, e, false),
                    }
                },
                _ => (done, raise(d, DiagnosticEvidenceIssue::Malformed), false),
            }
        }
    }
}

#[verifier::opaque]
pub open spec fn spans_of(v: Option<Json>, c: Context) -> (Option<Seq<SpanModel>>, Context) {
    let (items, d) = required_array_of(v, c);
    match items {
        None => (None, d),
        Some(items) => {
            let (spans, e, stopped) = spans_upto(items, read_len(items), d);
            (Some(spans), list_bound(items, e))
        },
    }
}

pub proof fn lemma_spans_stopped(items: Seq<Json>, n: nat, m: nat, c: Context)
    requires
        n <= m,
        spans_upto(items, n, c).2,
    ensures
        spans_upto(items, m, c) == spans_upto(items, n, c),
    decreases m - n,
{
    if n < m {
        lemma_spans_stopped(items, n, (m - 1) as nat, c);
    }
}

pub open spec fn opt_spans(r: Option<Vec<DiagnosticSpan>>) -> Option<Seq<SpanModel>> {
    match r {
        Some(v) => Some(spans_view(v@)),
        None => None,
    }
}

/// A number of spans within the budget of one command.
pub open spec fn span_budget(c: Context) -> bool {
    0 <= c.spans <= MAX_DIAGNOSTIC_SPANS && 0 <= c.children <= MAX_DIAGNOSTIC_CHILDREN
}

fn parse_spans(value: Option<&JsonValue>, context: &mut ParseContext) -> (r: Option<
    Vec<DiagnosticSpan>,
>)
    requires
        span_budget(old(context).view()),
    ensures
        (opt_spans(r), final(context).view()) == spans_of(
            json::json_ref(value),
            old(context).view(),
        ),
        span_budget(final(context).view()),
{
    proof {
        reveal(spans_of);
    }
    let values = required_array(value, context)?;
    let ghost items = json::items_view(values@);
    let ghost base = context.view();
    let n: usize = if values.len() <= MAX_LIST_ITEMS {
        values.len()
    } else {
        MAX_LIST_ITEMS
    };
    let mut spans: Vec<DiagnosticSpan> = Vec::new();
    let mut i: usize = 0;
    let mut stopped = false;
    assert(spans_view(spans@) =~= Seq::<SpanModel>::empty());
    while i < n && !stopped
        invariant
            i <= n <= values@.len(),
            items == json::items_view(values@),
            (spans_view(spans@), context.view(), stopped) == spans_upto(items, i as nat, base),
            span_budget(context.view()),
        decreases n - i,
    {
        let ghost before = spans@;
        assert(items[i as int] == values@[i as int].view());
        if context.span_count == MAX_DIAGNOSTIC_SPANS {
            context.issue(DiagnosticEvidenceIssue::Oversized);
            stopped = true;
        } else {
            match json::as_object(Some(&values[i])) {
                None => {
                    context.issue(DiagnosticEvidenceIssue::Malformed);
                },
                Some(object) => {
                    let ghost entry = context.view();
                    match parse_span(object.as_slice(), context) {
                        Some(span) => {
                            proof {
                                lemma_span_counts(json::members_view(object@), entry);
                            }
                            context.span_count += 1;
                            spans.push(span);
                            assert(spans_view(spans@) =~= spans_view(before).push(span.view()));
                        },
                        None => {
                            proof {
                                lemma_span_counts(json::members_view(object@), entry);
                            }
                        },
                    }
                },
            }
        }
        i += 1;
    }
    proof {
        if stopped {
            lemma_spans_stopped(items, i as nat, n as nat, base);
        }
    }
    if values.len() > MAX_LIST_ITEMS {
        context.issue(DiagnosticEvidenceIssue::Oversized);
    }
    Some(spans)
}

/// Reading the fields of one span moves neither counter.
pub proof fn lemma_span_counts(o: Seq<(Seq<char>, Json)>, c: Context)
    ensures
        span_of(o, c).1.spans == c.spans,
        span_of(o, c).1.children == c.children,
{
    reveal(span_of);
}

/// One child at the given depth. Below the deepest level only an empty list of
/// children is in order.
pub open spec fn child_of(item: Json, depth: nat, c: Context) -> (Option<ChildModel>, Context)
    decreases MAX_CHILD_DEPTH - depth, 0int, 0int,
{
    match item {
        Json::Object(o) => {
            let (level, c1) = level_of(o, c);
            if level is None {
                (None, c1)
            } else {
                let (message, c2) = required_string_of(
                    o,
                    "message"@,
                    MAX_FIELD_BYTES as nat,
                    c1,
                );
                if message is None {
                    (None, c2)
                } else {
                    let (code, c3) = code_of(json::member(o, "code"@), c2);
                    if code is None {
                        (None, c3)
                    } else {
                        let (rendered, c4) = nullable_string_of(
                            o,
                            "rendered"@,
                            MAX_RENDERED_BYTES as nat,
                            c3,
                        );
                        if rendered is None {
                            (None, c4)
                        } else {
                            let (spans, c5) = spans_of(json::member(o, "spans"@), c4);
                            if spans is None {
                                (None, c5)
                            } else {
                                let below = json::member(o, "children"@);
                                let (nested, c6) = if depth + 1 < MAX_CHILD_DEPTH {
                                    let (list, d) = children_of(below, depth + 1, c5);
                                    match list {
                                        Some(list) => (list, d),
                                        None => (Seq::empty(), d),
                                    }
                                } else {
                                    let (list, d) = required_array_of(below, c5);
                                    if list is Some && list->0.len() > 0 {
                                        (
                                            Seq::empty(),
                                            raise(d, DiagnosticEvidenceIssue::Oversized),
                                        )
                                    } else {
                                        (Seq::empty(), d)
                                    }
                                };
                                (
                                    Some(
                                        ChildModel {
                                            level: level->0,
                                            message: message->0,
                                            spans: spans->0,
                                            children: nested,
                                        },
                                    ),
                                    c6,
                                )
                            }
                        }
                    }
                }
            }
        },
        _ => (None, raise(c, DiagnosticEvidenceIssue::Malformed)),
    }
}

/// The children among the first `n` items. Every item that is met counts toward
/// the child budget; reading stops for good once it is spent.
pub open spec fn children_upto(items: Seq<Json>, n: nat, depth: nat, c: Context) -> (
    Seq<ChildModel>,
    Context,
    bool,
)
    decreases MAX_CHILD_DEPTH - depth, 0int, n,
{
    if n == 0 {
        (Seq::empty(), c, false)
    } else {
        let (done, d, stopped) = children_upto(items, (n - 1) as nat, depth, c);
        if stopped {
            (done, d, true)
        } else if d.children == MAX_DIAGNOSTIC_CHILDREN {
            (done, raise(d, DiagnosticEvidenceIssue::Oversized), true)
        } else {
            let (child, e) = child_of(
                items[n - 1],
                depth,
                Context { children: d.children + 1, ..d },
            );
            match child {
                Some(child) => (done.push(child), e, false),
                None => (done, e, false),
            }
        }
    }
}

pub open spec fn children_of(v: Option<Json>, depth: nat, c: Context) -> (
    Option<Seq<ChildModel>>,
    Context,
)
    decreases MAX_CHILD_DEPTH - depth, 1int, 0int,
{
    let (items, d) = required_array_of(v, c);
    match items {
        None => (None, d),
        Some(items) => {
            let e = if items.len() > MAX_LIST_ITEMS || depth >= MAX_CHILD_DEPTH {
                raise(d, DiagnosticEvidenceIssue::Oversized)
            } else {
                d
            };
            let (list, f, stopped) = children_upto(items, read_len(items), depth, e);
            (Some(list), f)
        },
    }
}

pub proof fn lemma_children_stopped(items: Seq<Json>, n: nat, m: nat, depth: nat, c: Context)
    requires
        n <= m,
        children_upto(items, n, depth, c).2,
    ensures
        children_upto(items, m, depth, c) == children_upto(items, n, depth, c),
    decreases m - n,
{
    if n < m {
        lemma_children_stopped(items, n, (m - 1) as nat, depth, c);
    }
}

pub open spec fn opt_children(r: Option<Vec<DiagnosticChild>>) -> Option<Seq<ChildModel>> {
    match r {
        Some(v) => Some(children_view(v@)),
        None => None,
    }
}

pub open spec fn opt_child(r: Option<DiagnosticChild>) -> Option<ChildModel> {
    match r {
        Some(v) => Some(v.view()),
        None => None,
    }
}

fn parse_child(value: &JsonValue, depth: usize, context: &mut ParseContext) -> (r: Option<
    DiagnosticChild,
>)
    requires
        span_budget(old(context).view()),
        depth < MAX_CHILD_DEPTH,
    ensures
        (opt_child(r), final(context).view()) == child_of(
            value.view(),
            depth as nat,
            old(context).view(),
        ),
        span_budget(final(context).view()),
    decreases MAX_CHILD_DEPTH - depth, 0int, 0int,
{
    let object = match json::as_object(Some(value)) {
        Some(o) => o,
        None => {
            context.issue(DiagnosticEvidenceIssue::Malformed);
            return None;
        },
    };
    let o = object.as_slice();
    let level = parse_diagnostic_level(o, context)?;
    let message = required_string(o, "message", MAX_FIELD_BYTES, context)?;
    if parse_diagnostic_code(json::get_member(o, "code"), context).is_none() {
        return None;
    }
    if required_nullable_string(o, "rendered", MAX_RENDERED_BYTES, context).is_none() {
        return None;
    }
    let spans = parse_spans(json::get_member(o, "spans"), context)?;
    let below = json::get_member(o, "children");
    let mut children: Vec<DiagnosticChild> = Vec::new();
    if depth + 1 < MAX_CHILD_DEPTH {
        if let Some(list) = parse_children(below, depth + 1, context) {
            children = list;
        }
    } else {
        if let Some(list) = required_array(below, context) {
            if list.len() > 0 {
                context.issue(DiagnosticEvidenceIssue::Oversized);
            }
        }
    }
    let child = DiagnosticChild { level, message, spans, children };
    assert(child.view().children =~= child_of(
        value.view(),
        depth as nat,
        old(context).view(),
    ).0->0.children);
    Some(child)
}

fn parse_children(value: Option<&JsonValue>, depth: usize, context: &mut ParseContext) -> (r:
    Option<Vec<DiagnosticChild>>)
    requires
        span_budget(old(context).view()),
        depth < MAX_CHILD_DEPTH,
    ensures
        (opt_children(r), final(context).view()) == children_of(
            json::json_ref(value),
            depth as nat,
            old(context).view(),
        ),
        span_budget(final(context).view()),
    decreases MAX_CHILD_DEPTH - depth, 1int, 0int,
{
    let values = required_array(value, context)?;
    if values.len() > MAX_LIST_ITEMS || depth >= MAX_CHILD_DEPTH {
        context.issue(DiagnosticEvidenceIssue::Oversized);
    }
    let ghost items = json::items_view(values@);
    let ghost base = context.view();
    let n: usize = if values.len() <= MAX_LIST_ITEMS {
        values.len()
    } else {
        MAX_LIST_ITEMS
    };
    let mut children: Vec<DiagnosticChild> = Vec::new();
    let mut i: usize = 0;
    let mut stopped = false;
    assert(children_view(children@) =~= Seq::<ChildModel>::empty());
    while i < n && !stopped
        invariant
            i <= n <= values@.len(),
            depth < MAX_CHILD_DEPTH,
            items == json::items_view(values@),
            (children_view(children@), context.view(), stopped) == children_upto(
                items,
                i as nat,
                depth as nat,
                base,
            ),
            span_budget(context.view()),
        decreases n - i,
    {
        let ghost before = children@;
        assert(items[i as int] == values@[i as int].view());
        if context.child_count == MAX_DIAGNOSTIC_CHILDREN {
            context.issue(DiagnosticEvidenceIssue::Oversized);
            stopped = true;
        } else {
            context.child_count += 1;
            if let Some(child) = parse_child(&values[i], depth, context) {
                children.push(child);
                assert(children_view(children@) =~= children_view(before).push(child.view()));
            }
        }
        i += 1;
    }
    proof {
        if stopped {
            lemma_children_stopped(items, i as nat, n as nat, depth as nat, base);
        }
    }
    Some(children)
}

#[verifier::opaque]
pub open spec fn diagnostic_of(o: Seq<(Seq<char>, Json)>, c: Context) -> (
    Option<DiagnosticModel>,
    Context,
) {
    let (package_id, c1) = required_string_of(o, "package_id"@, MAX_FIELD_BYTES as nat, c);
    if package_id is None {
        (None, c1)
    } else {
        let (manifest_path, c2) = required_string_of(o, "manifest_path"@, MAX_FIELD_BYTES as nat, c1);
        if manifest_path is None {
            (None, c2)
        } else {
            let (target, c3) = target_of(json::member(o, "target"@), c2);
            if target is None {
                (None, c3)
            } else {
                let (message, c4) = required_object_of(json::member(o, "message"@), c3);
                if message is None {
                    (None, c4)
                } else {
                    let (level, c5) = level_of(message->0, c4);
                    if level is None {
                        (None, c5)
                    } else {
                        let (line, c6) = required_string_of(message->0, "message"@, MAX_FIELD_BYTES as nat, c5);
                        if line is None {
                            (None, c6)
                        } else {
                            let (code, c7) = code_of(json::member(message->0, "code"@), c6);
                            if code is None {
                                (None, c7)
                            } else {
                                let (rendered, c8) = nullable_string_of(message->0, "rendered"@, MAX_RENDERED_BYTES as nat, c7);
                                if rendered is None {
                                    (None, c8)
                                } else {
                                    let (spans, c9) = spans_of(json::member(message->0, "spans"@), c8);
                                    if spans is None {
                                        (None, c9)
                                    } else {
                                        let (children, c10) = children_of(json::member(message->0, "children"@), 0, c9);
                                        if children is None {
                                            (None, c10)
                                        } else {
                                            (
    Some(
        DiagnosticModel {
            package_id: package_id->0,
            manifest_path: manifest_path->0,
            target: target->0,
            code: code->0,
            level: level->0,
            message: line->0,
            rendered: rendered->0,
            spans: spans->0,
            children: children->0,
        },
    ),
    c10,
)
                                        }
                                    }
                                }
                            }
                        }
                    }
                }
            }
        }
    }
}

pub open spec fn opt_diagnostic(r: Option<CargoDiagnostic>) -> Option<DiagnosticModel> {
    match r {
        Some(t) => Some(t.view()),
        None => None,
    }
}

/// Reads a compiler message.
pub fn parse_diagnostic(o: &[(String, JsonValue)], context: &mut ParseContext) -> (r: Option<
    CargoDiagnostic,
>)
    requires
        span_budget(old(context).view()),
    ensures
        (opt_diagnostic(r), final(context).view()) == diagnostic_of(
            json::members_view(o@),
            old(context).view(),
        ),
        span_budget(final(context).view()),
{
    proof {
        reveal(diagnostic_of);
    }
    let package_id = required_string(o, "package_id", MAX_FIELD_BYTES, context)?;
    let manifest_path = required_string(o, "manifest_path", MAX_FIELD_BYTES, context)?;
    let target = parse_target(json::get_member(o, "target"), context)?;
    let message = required_object(json::get_member(o, "message"), context)?.as_slice();
    let level = parse_diagnostic_level(message, context)?;
    let line = required_string(message, "message", MAX_FIELD_BYTES, context)?;
    let code = parse_diagnostic_code(json::get_member(message, "code"), context)?;
    let rendered = required_nullable_string(message, "rendered", MAX_RENDERED_BYTES, context)?;
    let spans = parse_spans(json::get_member(message, "spans"), context)?;
    let children = parse_children(json::get_member(message, "children"), 0, context)?;
    Some(
        CargoDiagnostic {
            package_id,
            manifest_path,
            target,
            code,
            level,
            message: line,
            rendered,
            spans,
            children,
        },
    )
}

#[verifier::opaque]
pub open spec fn artifact_of(o: Seq<(Seq<char>, Json)>, c: Context) -> (
    Option<ArtifactModel>,
    Context,
) {
    let (package_id, c1) = required_string_of(o, "package_id"@, MAX_FIELD_BYTES as nat, c);
    if package_id is None {
        (None, c1)
    } else {
        let (manifest_path, c2) = required_string_of(o, "manifest_path"@, MAX_FIELD_BYTES as nat, c1);
        if manifest_path is None {
            (None, c2)
        } else {
            let (target, c3) = target_of(json::member(o, "target"@), c2);
            if target is None {
                (None, c3)
            } else {
                let (profile, c4) = profile_of(json::member(o, "profile"@), c3);
                if profile is None {
                    (None, c4)
                } else {
                    let (features, c5) = string_list_of(json::member(o, "features"@), MAX_FIELD_BYTES as nat, c4);
                    if features is None {
                        (None, c5)
                    } else {
                        let (filenames, c6) = string_list_of(json::member(o, "filenames"@), MAX_FIELD_BYTES as nat, c5);
                        if filenames is None {
                            (None, c6)
                        } else {
                            let (executable, c7) = nullable_string_of(o, "executable"@, MAX_FIELD_BYTES as nat, c6);
                            if executable is None {
                                (None, c7)
                            } else {
                                let (fresh, c8) = required_bool_of(o, "fresh"@, c7);
                                if fresh is None {
                                    (None, c8)
                                } else {
                                    (
    Some(
        ArtifactModel {
            package_id: package_id->0,
            manifest_path: manifest_path->0,
            target: target->0,
            profile: Some(profile->0),
            features: features->0,
            filenames: filenames->0,
            executable: executable->0,
            fresh: fresh->0,
        },
    ),
    c8,
)
                                }
                            }
                        }
                    }
                }
            }
        }
    }
}

pub open spec fn opt_artifact(r: Option<CargoArtifact>) -> Option<ArtifactModel> {
    match r {
        Some(t) => Some(t.view()),
        None => None,
    }
}

/// Reads an artifact message.
pub fn parse_artifact(o: &[(String, JsonValue)], context: &mut ParseContext) -> (r: Option<
    CargoArtifact,
>)
    ensures
        (opt_artifact(r), final(context).view()) == artifact_of(
            json::members_view(o@),
            old(context).view(),
        ),
        same_counts(old(context).view(), final(context).view()),
{
    proof {
        reveal(artifact_of);
    }
    let package_id = required_string(o, "package_id", MAX_FIELD_BYTES, context)?;
    let manifest_path = required_string(o, "manifest_path", MAX_FIELD_BYTES, context)?;
    let target = parse_target(json::get_member(o, "target"), context)?;
    let profile = parse_profile(json::get_member(o, "profile"), context)?;
    let features = parse_string_list(json::get_member(o, "features"), MAX_FIELD_BYTES, context)?;
    let filenames = parse_string_list(json::get_member(o, "filenames"), MAX_FIELD_BYTES, context)?;
    let executable = required_nullable_string(o, "executable", MAX_FIELD_BYTES, context)?;
    let fresh = required_bool(o, "fresh", context)?;
    Some(
        CargoArtifact {
            package_id,
            manifest_path,
            target,
            profile: Some(profile),
            features,
            filenames,
            executable,
            fresh,
        },
    )
}

#[verifier::opaque]
pub open spec fn build_script_of(o: Seq<(Seq<char>, Json)>, c: Context) -> (bool, Context) {
    let (package_id, c1) = required_string_of(o, "package_id"@, MAX_FIELD_BYTES as nat, c);
    if package_id is None {
        (false, c1)
    } else {
        let (libs, c2) = valid_string_list_of(json::member(o, "linked_libs"@), c1);
        if !libs {
            (false, c2)
        } else {
            let (paths, c3) = valid_string_list_of(json::member(o, "linked_paths"@), c2);
            if !paths {
                (false, c3)
            } else {
                let (cfgs, c4) = valid_string_list_of(json::member(o, "cfgs"@), c3);
                if !cfgs {
                    (false, c4)
                } else {
                    let (env, c5) = valid_environment_of(json::member(o, "env"@), c4);
                    if !env {
                        (false, c5)
                    } else {
                        let (out_dir, c6) = required_string_of(
                            o,
                            "out_dir"@,
                            MAX_FIELD_BYTES as nat,
                            c5,
                        );
                        (out_dir is Some, c6)
                    }
                }
            }
        }
    }
}

/// Checks a build-script message, of which nothing is kept.
pub fn parse_build_script_executed(o: &[(String, JsonValue)], context: &mut ParseContext) -> (r:
    Option<()>)
    ensures
        (r is Some, final(context).view()) == build_script_of(
            json::members_view(o@),
            old(context).view(),
        ),
        same_counts(old(context).view(), final(context).view()),
{
    proof {
        reveal(build_script_of);
    }
    required_string(o, "package_id", MAX_FIELD_BYTES, context)?;
    validate_string_list(json::get_member(o, "linked_libs"), context)?;
    validate_string_list(json::get_member(o, "linked_paths"), context)?;
    validate_string_list(json::get_member(o, "cfgs"), context)?;
    validate_build_script_environment(json::get_member(o, "env"), context)?;
    required_string(o, "out_dir", MAX_FIELD_BYTES, context)?;
    Some(())
}

} // verus!
