//! Completions and diagnostics as a language server sends them.

use crate::display;
use crate::json;
use crate::json::{items_view, Json, JsonValue};
use crate::lsp_json;
use crate::lsp_json::LspLimits;
use crate::text;
use vstd::prelude::*;

verus! {

pub const MAX_COMPLETION_ITEMS: usize = 16;

pub const MAX_LIVE_DIAGNOSTICS_PER_DOCUMENT: usize = 64;

pub const MAX_LIVE_DIAGNOSTIC_MESSAGE_BYTES: usize = 1024;

/// A line and a column counted in words of UTF-16.
#[derive(Clone, Copy, Debug, PartialEq, Eq, Structural)]
pub struct Utf16Position {
    pub line: u32,
    pub character: u32,
}

/// What a completion does to the document.
#[derive(Clone, Debug, PartialEq, Eq)]
pub enum CompletionEdit {
    Insert(String),
    Replace { start: Utf16Position, end: Utf16Position, new_text: String },
}

#[derive(Clone, Debug, PartialEq, Eq)]
pub struct CompletionItem {
    pub label: String,
    pub kind: Option<u8>,
    pub edit: CompletionEdit,
}

pub enum Edit {
    Insert(Seq<char>),
    Replace { start: Utf16Position, end: Utf16Position, new_text: Seq<char> },
}

pub struct Item {
    pub label: Seq<char>,
    pub kind: Option<u8>,
    pub edit: Edit,
}

#[derive(Clone, Copy, Debug, PartialEq, Eq, Structural)]
pub enum LiveDiagnosticSeverity {
    Error,
    Warning,
    Information,
    Hint,
}

#[derive(Clone, Debug, PartialEq, Eq)]
pub struct LiveDiagnostic {
    pub start: Utf16Position,
    pub end: Utf16Position,
    pub severity: LiveDiagnosticSeverity,
    pub message: String,
}

pub struct Live {
    pub start: Utf16Position,
    pub end: Utf16Position,
    pub severity: LiveDiagnosticSeverity,
    pub message: Seq<char>,
}

impl CompletionEdit {
    pub open spec fn view(&self) -> Edit {
        match self {
            CompletionEdit::Insert(t) => Edit::Insert(t@),
            CompletionEdit::Replace { start, end, new_text } => Edit::Replace {
                start: *start,
                end: *end,
                new_text: new_text@,
            },
        }
    }
}

impl CompletionItem {
    pub open spec fn view(&self) -> Item {
        Item { label: self.label@, kind: self.kind, edit: self.edit.view() }
    }
}

impl LiveDiagnostic {
    pub open spec fn view(&self) -> Live {
        Live {
            start: self.start,
            end: self.end,
            severity: self.severity,
            message: self.message@,
        }
    }
}

pub open spec fn completions_view(v: Seq<CompletionItem>) -> Seq<Item> {
    Seq::new(v.len(), |i: int| v[i].view())
}

pub open spec fn lives_view(v: Seq<LiveDiagnostic>) -> Seq<Live> {
    Seq::new(v.len(), |i: int| v[i].view())
}

/// The value of an object's member.
pub open spec fn field(value: Option<Json>, key: Seq<char>) -> Option<Json> {
    match json::json_object(value) {
        Some(members) => json::member(members, key),
        None => None,
    }
}

/// Whether a value is an object with two members, of these names.
pub open spec fn is_pair(value: Option<Json>, first: Seq<char>, second: Seq<char>) -> bool {
    &&& json::json_object(value) matches Some(members)
    &&& members.len() == 2
    &&& json::member(members, first) is Some
    &&& json::member(members, second) is Some
}

pub open spec fn word(value: Option<Json>) -> Option<u32> {
    match json::json_u64(value) {
        Some(n) => if n <= 0x7fff_ffff {
            Some(n as u32)
        } else {
            None
        },
        None => None,
    }
}

/// A position: a line and a character that fit in a signed word of 32 bits, and
/// nothing else.
pub open spec fn position_of(value: Option<Json>) -> Option<Utf16Position> {
    if !is_pair(value, "line"@, "character"@) {
        None
    } else {
        match (word(field(value, "line"@)), word(field(value, "character"@))) {
            (Some(line), Some(character)) => Some(Utf16Position { line, character }),
            _ => None,
        }
    }
}

fn get_field<'a>(value: Option<&'a JsonValue>, key: &str) -> (r: Option<&'a JsonValue>)
    ensures
        json::json_ref(r) == field(json::json_ref(value), key@),
{
    match json::as_object(value) {
        Some(members) => json::get_member(members.as_slice(), key),
        None => None,
    }
}

fn is_object_pair(value: Option<&JsonValue>, first: &str, second: &str) -> (r: bool)
    ensures
        r == is_pair(json::json_ref(value), first@, second@),
{
    match json::as_object(value) {
        Some(members) => {
            let n = members.len();
            assert(json::members_view(members@).len() == members@.len());
            n == 2 && json::get_member(members.as_slice(), first).is_some() && json::get_member(
                members.as_slice(),
                second,
            ).is_some()
        },
        None => false,
    }
}

fn get_word(value: Option<&JsonValue>) -> (r: Option<u32>)
    ensures
        r == word(json::json_ref(value)),
{
    match json::as_u64(value) {
        Some(n) => if n <= 0x7fff_ffff {
            Some(n as u32)
        } else {
            None
        },
        None => None,
    }
}

pub fn parse_utf16_position(value: Option<&JsonValue>) -> (r: Option<Utf16Position>)
    ensures
        r == position_of(json::json_ref(value)),
{
    if !is_object_pair(value, "line", "character") {
        return None;
    }
    match (get_word(get_field(value, "line")), get_word(get_field(value, "character"))) {
        (Some(line), Some(character)) => Some(Utf16Position { line, character }),
        _ => None,
    }
}

// Completions.

/// Members that ask for more than one edit of one document.
pub open spec fn asks_more(value: Option<Json>) -> bool {
    ||| field(value, "additionalTextEdits"@) is Some
    ||| field(value, "command"@) is Some
    ||| field(value, "textDocument"@) is Some
    ||| field(value, "workspaceEdit"@) is Some
    ||| field(value, "documentChanges"@) is Some
    ||| field(value, "textEditText"@) is Some
    ||| field(value, "insertTextMode"@) is Some
}

/// The kind of an item: none, or one of the twenty-five; nothing for any other.
pub open spec fn kind_of(value: Option<Json>) -> Option<Option<u8>> {
    match value {
        None => Some(None),
        Some(v) => match json::json_u64(value) {
            Some(n) => if 1 <= n <= 25 {
                Some(Some(n as u8))
            } else {
                None
            },
            None => None,
        },
    }
}

pub open spec fn replace_of(value: Option<Json>, max: usize) -> Option<Edit> {
    let range = field(value, "range"@);
    if !is_pair(value, "range"@, "newText"@) || !is_pair(range, "start"@, "end"@) {
        None
    } else {
        match json::json_str(field(value, "newText"@)) {
            None => None,
            Some(t) => if text::byte_len(t) > max {
                None
            } else {
                match (position_of(field(range, "start"@)), position_of(field(range, "end"@))) {
                    (Some(start), Some(end)) => Some(Edit::Replace { start, end, new_text: t }),
                    _ => None,
                }
            },
        }
    }
}

pub open spec fn insert_of(value: Option<Json>, label: Seq<char>, max: usize) -> Option<Edit> {
    let chosen = match value {
        None => Some(label),
        Some(v) => json::json_str(value),
    };
    match chosen {
        None => None,
        Some(t) => if text::byte_len(t) > max {
            None
        } else {
            Some(Edit::Insert(t))
        },
    }
}

/// What one item offers: one edit of one document, in plain text.
pub open spec fn item_of(value: Option<Json>, limits: LspLimits) -> Option<Item> {
    let insert_text = field(value, "insertText"@);
    let text_edit = field(value, "textEdit"@);
    let format = field(value, "insertTextFormat"@);
    match (json::json_str(field(value, "label"@)), kind_of(field(value, "kind"@))) {
        (Some(label), Some(kind)) => if asks_more(value) || text::byte_len(label)
            > limits.label_bytes || (format is Some && json::json_u64(format) != Some(1u64)) || (
        insert_text is Some && text_edit is Some) {
            None
        } else {
            let edit = if text_edit is Some {
                replace_of(text_edit, limits.inserted_bytes)
            } else {
                insert_of(insert_text, label, limits.inserted_bytes)
            };
            match edit {
                Some(edit) => Some(Item { label, kind, edit }),
                None => None,
            }
        },
        _ => None,
    }
}

pub open spec fn opt_item(o: Option<CompletionItem>) -> Option<Item> {
    match o {
        Some(i) => Some(i.view()),
        None => None,
    }
}

pub open spec fn opt_edit(o: Option<CompletionEdit>) -> Option<Edit> {
    match o {
        Some(i) => Some(i.view()),
        None => None,
    }
}

fn asks_for_more(value: Option<&JsonValue>) -> (r: bool)
    ensures
        r == asks_more(json::json_ref(value)),
{
    get_field(value, "additionalTextEdits").is_some() || get_field(value, "command").is_some()
        || get_field(value, "textDocument").is_some() || get_field(value, "workspaceEdit").is_some()
        || get_field(value, "documentChanges").is_some() || get_field(
        value,
        "textEditText",
    ).is_some() || get_field(value, "insertTextMode").is_some()
}

fn parse_kind(value: Option<&JsonValue>) -> (r: Option<Option<u8>>)
    ensures
        r == kind_of(json::json_ref(value)),
{
    match value {
        None => Some(None),
        Some(_) => match json::as_u64(value) {
            Some(n) => if 1 <= n && n <= 25 {
                Some(Some(n as u8))
            } else {
                None
            },
            None => None,
        },
    }
}

fn parse_replace(value: Option<&JsonValue>, max: usize) -> (r: Option<CompletionEdit>)
    ensures
        opt_edit(r) == replace_of(json::json_ref(value), max),
{
    let range = get_field(value, "range");
    if !is_object_pair(value, "range", "newText") || !is_object_pair(range, "start", "end") {
        return None;
    }
    let new_text = match json::as_text(get_field(value, "newText")) {
        Some(t) => t,
        None => {
            return None;
        },
    };
    if text::str_bytes(new_text.as_str()) > max {
        return None;
    }
    match (parse_utf16_position(get_field(range, "start")), parse_utf16_position(
        get_field(range, "end"),
    )) {
        (Some(start), Some(end)) => Some(
            CompletionEdit::Replace { start, end, new_text: new_text.clone() },
        ),
        _ => None,
    }
}

fn parse_insert(value: Option<&JsonValue>, label: &str, max: usize) -> (r: Option<CompletionEdit>)
    ensures
        opt_edit(r) == insert_of(json::json_ref(value), label@, max),
{
    let chosen = match value {
        None => label.to_owned(),
        Some(_) => match json::as_text(value) {
            Some(t) => t.clone(),
            None => {
                return None;
            },
        },
    };
    if text::str_bytes(chosen.as_str()) > max {
        return None;
    }
    Some(CompletionEdit::Insert(chosen))
}

pub fn parse_completion_item(value: &JsonValue, limits: &LspLimits) -> (r: Option<CompletionItem>)
    ensures
        opt_item(r) == item_of(Some(value.view()), *limits),
{
    let value = Some(value);
    if asks_for_more(value) {
        return None;
    }
    let label = match json::as_text(get_field(value, "label")) {
        Some(label) => label,
        None => {
            return None;
        },
    };
    if text::str_bytes(label.as_str()) > limits.label_bytes {
        return None;
    }
    let kind = match parse_kind(get_field(value, "kind")) {
        Some(kind) => kind,
        None => {
            return None;
        },
    };
    let format = get_field(value, "insertTextFormat");
    if format.is_some() {
        match json::as_u64(format) {
            Some(1) => {},
            _ => {
                return None;
            },
        }
    }
    let insert_text = get_field(value, "insertText");
    let text_edit = get_field(value, "textEdit");
    if insert_text.is_some() && text_edit.is_some() {
        return None;
    }
    let edit = if text_edit.is_some() {
        parse_replace(text_edit, limits.inserted_bytes)
    } else {
        parse_insert(insert_text, label.as_str(), limits.inserted_bytes)
    };
    match edit {
        Some(edit) => Some(CompletionItem { label: label.clone(), kind, edit }),
        None => None,
    }
}

/// The values that a reply lists.
pub open spec fn offered(result: Option<Json>) -> Seq<Json> {
    match result {
        Some(Json::Array(items)) => items,
        Some(Json::Object(list)) => if json::member(list, "itemDefaults"@) is Some {
            Seq::empty()
        } else {
            match json::json_array(json::member(list, "items"@)) {
                Some(items) => items,
                None => Seq::empty(),
            }
        },
        _ => Seq::empty(),
    }
}

/// The first items that can be used, up to the limit.
pub open spec fn usable(items: Seq<Json>, limits: LspLimits) -> Seq<Item>
    decreases items.len(),
{
    if items.len() == 0 {
        Seq::empty()
    } else {
        let before = usable(items.drop_last(), limits);
        match item_of(Some(items.last()), limits) {
            Some(item) => if before.len() < MAX_COMPLETION_ITEMS {
                before.push(item)
            } else {
                before
            },
            None => before,
        }
    }
}

/// No more items are kept than the limit, however many are offered.
pub proof fn completions_are_bounded(items: Seq<Json>, limits: LspLimits)
    ensures
        usable(items, limits).len() <= MAX_COMPLETION_ITEMS,
    decreases items.len(),
{
    if items.len() > 0 {
        completions_are_bounded(items.drop_last(), limits);
    }
}

proof fn lemma_usable_full(items: Seq<Json>, n: int, limits: LspLimits)
    requires
        0 <= n <= items.len(),
        usable(items.take(n), limits).len() == MAX_COMPLETION_ITEMS,
    ensures
        usable(items, limits) == usable(items.take(n), limits),
    decreases items.len() - n,
{
    if n < items.len() {
        assert(items.take(n + 1).drop_last() =~= items.take(n));
        lemma_usable_full(items, n + 1, limits);
    } else {
        assert(items.take(n) =~= items);
    }
}

fn parse_items(items: &Vec<JsonValue>, limits: &LspLimits) -> (r: Vec<CompletionItem>)
    ensures
        completions_view(r@) == usable(items_view(items@), *limits),
{
    let ghost all = items_view(items@);
    let mut r: Vec<CompletionItem> = Vec::new();
    let mut i: usize = 0;
    assert(all.take(0) =~= Seq::<Json>::empty());
    assert(completions_view(r@) =~= Seq::<Item>::empty());
    while i < items.len()
        invariant
            i <= items@.len(),
            all == items_view(items@),
            completions_view(r@) == usable(all.take(i as int), *limits),
        decreases items@.len() - i,
    {
        if r.len() == MAX_COMPLETION_ITEMS {
            proof {
                assert(completions_view(r@).len() == r@.len());
                lemma_usable_full(all, i as int, *limits);
            }
            return r;
        }
        proof {
            completions_are_bounded(all.take(i as int), *limits);
            assert(completions_view(r@).len() == r@.len());
            assert(all.take(i + 1).drop_last() =~= all.take(i as int));
            assert(all.take(i + 1).last() == items@[i as int].view());
        }
        match parse_completion_item(&items[i], limits) {
            Some(item) => {
                let ghost before = r@;
                r.push(item);
                assert(completions_view(r@) =~= completions_view(before).push(item.view()));
            },
            None => {},
        }
        i += 1;
    }
    assert(all.take(all.len() as int) =~= all);
    r
}

pub fn parse_completion_result(result: Option<&JsonValue>, limits: &LspLimits) -> (r: Vec<
    CompletionItem,
>)
    ensures
        completions_view(r@) == usable(offered(json::json_ref(result)), *limits),
        r@.len() <= MAX_COMPLETION_ITEMS,
{
    proof {
        completions_are_bounded(offered(json::json_ref(result)), *limits);
    }
    let none: Vec<CompletionItem> = Vec::new();
    assert(completions_view(none@) =~= Seq::<Item>::empty());
    match json::as_array(result) {
        Some(items) => {
            let r = parse_items(items, limits);
            assert(completions_view(r@).len() == r@.len());
            return r;
        },
        None => {},
    }
    match json::as_object(result) {
        Some(list) => {
            if json::get_member(list.as_slice(), "itemDefaults").is_some() {
                return none;
            }
            match json::as_array(json::get_member(list.as_slice(), "items")) {
                Some(items) => {
                    let r = parse_items(items, limits);
                    assert(completions_view(r@).len() == r@.len());
                    r
                },
                None => none,
            }
        },
        None => none,
    }
}

// Diagnostics.

pub open spec fn severity_of(value: Option<Json>) -> Option<LiveDiagnosticSeverity> {
    match value {
        None => Some(LiveDiagnosticSeverity::Information),
        Some(Json::Null) => Some(LiveDiagnosticSeverity::Information),
        Some(Json::Unsigned(1)) => Some(LiveDiagnosticSeverity::Error),
        Some(Json::Unsigned(2)) => Some(LiveDiagnosticSeverity::Warning),
        Some(Json::Unsigned(3)) => Some(LiveDiagnosticSeverity::Information),
        Some(Json::Unsigned(4)) => Some(LiveDiagnosticSeverity::Hint),
        _ => None,
    }
}

fn parse_severity(value: Option<&JsonValue>) -> (r: Option<LiveDiagnosticSeverity>)
    ensures
        r == severity_of(json::json_ref(value)),
{
    match value {
        None => Some(LiveDiagnosticSeverity::Information),
        Some(JsonValue::Null) => Some(LiveDiagnosticSeverity::Information),
        Some(_) => match json::as_u64(value) {
            Some(1) => Some(LiveDiagnosticSeverity::Error),
            Some(2) => Some(LiveDiagnosticSeverity::Warning),
            Some(3) => Some(LiveDiagnosticSeverity::Information),
            Some(4) => Some(LiveDiagnosticSeverity::Hint),
            _ => None,
        },
    }
}

/// One diagnostic, its message made safe to show on one line.
pub open spec fn live_of(value: Option<Json>) -> Option<Live> {
    let range = field(value, "range"@);
    match (
        position_of(field(range, "start"@)),
        position_of(field(range, "end"@)),
        severity_of(field(value, "severity"@)),
        json::json_str(field(value, "message"@)),
    ) {
        (Some(start), Some(end), Some(severity), Some(message)) => Some(
            Live {
                start,
                end,
                severity,
                message: display::label_of(message, MAX_LIVE_DIAGNOSTIC_MESSAGE_BYTES),
            },
        ),
        _ => None,
    }
}

pub open spec fn opt_live(o: Option<LiveDiagnostic>) -> Option<Live> {
    match o {
        Some(d) => Some(d.view()),
        None => None,
    }
}

pub fn parse_live_diagnostic(value: &JsonValue) -> (r: Option<LiveDiagnostic>)
    ensures
        opt_live(r) == live_of(Some(value.view())),
{
    let value = Some(value);
    let range = get_field(value, "range");
    let start = parse_utf16_position(get_field(range, "start"));
    let end = parse_utf16_position(get_field(range, "end"));
    let severity = parse_severity(get_field(value, "severity"));
    match (start, end, severity, json::as_text(get_field(value, "message"))) {
        (Some(start), Some(end), Some(severity), Some(message)) => {
            let message = display::label(message.as_str(), MAX_LIVE_DIAGNOSTIC_MESSAGE_BYTES);
            Some(LiveDiagnostic { start, end, severity, message })
        },
        _ => None,
    }
}

/// The diagnostics of a list, all of them or nothing.
pub open spec fn all_lives(values: Seq<Json>) -> Option<Seq<Live>>
    decreases values.len(),
{
    if values.len() == 0 {
        Some(Seq::empty())
    } else {
        match (all_lives(values.drop_last()), live_of(Some(values.last()))) {
            (Some(before), Some(live)) => Some(before.push(live)),
            _ => None,
        }
    }
}

/// The diagnostics of a list up to the limit, or nothing where one of them is
/// malformed.
pub open spec fn lives_of(values: Seq<Json>) -> Option<Seq<Live>> {
    if values.len() <= MAX_LIVE_DIAGNOSTICS_PER_DOCUMENT {
        all_lives(values)
    } else {
        all_lives(values.take(MAX_LIVE_DIAGNOSTICS_PER_DOCUMENT as int))
    }
}

proof fn lemma_lives_stop(values: Seq<Json>, n: int)
    requires
        0 <= n <= values.len(),
        all_lives(values.take(n)) is None,
    ensures
        all_lives(values) is None,
    decreases values.len() - n,
{
    if n < values.len() {
        assert(values.take(n + 1).drop_last() =~= values.take(n));
        lemma_lives_stop(values, n + 1);
    } else {
        assert(values.take(n) =~= values);
    }
}

pub open spec fn opt_lives(o: Option<Vec<LiveDiagnostic>>) -> Option<Seq<Live>> {
    match o {
        Some(d) => Some(lives_view(d@)),
        None => None,
    }
}

pub fn parse_live_diagnostics(values: &Vec<JsonValue>) -> (r: Option<Vec<LiveDiagnostic>>)
    ensures
        opt_lives(r) == lives_of(items_view(values@)),
        r is Some ==> r->0@.len() <= MAX_LIVE_DIAGNOSTICS_PER_DOCUMENT,
{
    let ghost all = if values@.len() <= MAX_LIVE_DIAGNOSTICS_PER_DOCUMENT {
        items_view(values@)
    } else {
        items_view(values@).take(MAX_LIVE_DIAGNOSTICS_PER_DOCUMENT as int)
    };
    let mut r: Vec<LiveDiagnostic> = Vec::new();
    let mut i: usize = 0;
    assert(all.take(0) =~= Seq::<Json>::empty());
    assert(lives_view(r@) =~= Seq::<Live>::empty());
    while i < values.len() && i < MAX_LIVE_DIAGNOSTICS_PER_DOCUMENT
        invariant
            i <= values@.len(),
            i <= MAX_LIVE_DIAGNOSTICS_PER_DOCUMENT,
            r@.len() <= i,
            all.len() == (if values@.len() <= MAX_LIVE_DIAGNOSTICS_PER_DOCUMENT {
                values@.len()
            } else {
                MAX_LIVE_DIAGNOSTICS_PER_DOCUMENT as nat
            }),
            forall|j: int| 0 <= j < all.len() ==> #[trigger] all[j] == values@[j].view(),
            lives_of(items_view(values@)) == all_lives(all),
            all_lives(all.take(i as int)) == Some(lives_view(r@)),
        decreases values@.len() - i,
    {
        proof {
            assert(all.take(i + 1).drop_last() =~= all.take(i as int));
            assert(all.take(i + 1).last() == values@[i as int].view());
        }
        match parse_live_diagnostic(&values[i]) {
            Some(live) => {
                let ghost before = r@;
                r.push(live);
                assert(lives_view(r@) =~= lives_view(before).push(live.view()));
            },
            None => {
                proof {
                    lemma_lives_stop(all, i + 1);
                }
                return None;
            },
        }
        i += 1;
    }
    assert(all.take(all.len() as int) =~= all);
    Some(r)
}

/// What a publication says: an address, a version and a list.
pub open spec fn publication_of(params: Option<Json>) -> Option<(Seq<char>, u64, Seq<Json>)> {
    match (
        json::json_str(field(params, "uri"@)),
        json::json_u64(field(params, "version"@)),
        json::json_array(field(params, "diagnostics"@)),
    ) {
        (Some(uri), Some(version), Some(values)) => if lsp_json::version_fault(version) is Some {
            None
        } else {
            Some((uri, version, values))
        },
        _ => None,
    }
}

pub fn parse_publish_diagnostics_params<'a>(params: Option<&'a JsonValue>) -> (r: Option<
    (&'a String, u64, &'a Vec<JsonValue>),
>)
    ensures
        match r {
            Some((uri, version, values)) => publication_of(json::json_ref(params)) == Some(
                (uri@, version, items_view(values@)),
            ),
            None => publication_of(json::json_ref(params)) is None,
        },
{
    match (
        json::as_text(get_field(params, "uri")),
        json::as_u64(get_field(params, "version")),
        json::as_array(get_field(params, "diagnostics")),
    ) {
        (Some(uri), Some(version), Some(values)) => match lsp_json::checked_version(version) {
            Ok(_) => Some((uri, version, values)),
            Err(_) => None,
        },
        _ => None,
    }
}

} // verus!
