//! What the messages of the language server protocol mean, said by the numbers and
//! the words of the protocol.

use crate::display;
use crate::json;
use crate::json::Json;
use crate::json_laws::{has, lacks, members_are_found_by_name};
use crate::lsp_json;
use crate::lsp_json::LspLimits;
use crate::lsp_parse;
use crate::lsp_parse::{
    Edit, Item, Live, LiveDiagnosticSeverity, Utf16Position, MAX_COMPLETION_ITEMS,
    MAX_LIVE_DIAGNOSTICS_PER_DOCUMENT,
};
use crate::protocol::{Doc, Proto, Published, Waiting};
use crate::protocol_documents;
use crate::protocol_replies;
use crate::text;
use vstd::prelude::*;

verus! {

proof fn lemma_has(value: Json, key: Seq<char>, x: Json)
    requires
        has(value, key, x),
    ensures
        lsp_parse::field(Some(value), key) == Some(x),
        json::member(value->Object_0, key) == Some(x),
{
    members_are_found_by_name(value->Object_0, key);
}

proof fn lemma_lacks(value: Json, key: Seq<char>)
    requires
        lacks(value, key),
    ensures
        lsp_parse::field(Some(value), key) is None,
        json::member(value->Object_0, key) is None,
{
    members_are_found_by_name(value->Object_0, key);
}

// Positions and diagnostics.

/// Whether a value is a position of the protocol.
pub open spec fn is_position(value: Json, at: Utf16Position) -> bool {
    &&& has(value, "line"@, Json::Unsigned(at.line as u64))
    &&& has(value, "character"@, Json::Unsigned(at.character as u64))
    &&& value->Object_0.len() == 2
    &&& at.line <= 0x7fff_ffff
    &&& at.character <= 0x7fff_ffff
}

/// Whether a value is a range of the protocol.
pub open spec fn is_range(value: Json, start: Utf16Position, end: Utf16Position) -> bool {
    exists|a: Json, b: Json|
        #![trigger has(value, "start"@, a), has(value, "end"@, b)]
        has(value, "start"@, a) && has(value, "end"@, b) && is_position(a, start) && is_position(b, end)
}

/// A position is read as its line and its character.
pub proof fn a_position_is_read(value: Json, at: Utf16Position)
    requires
        is_position(value, at),
    ensures
        lsp_parse::position_of(Some(value)) == Some(at),
{
    lemma_has(value, "line"@, Json::Unsigned(at.line as u64));
    lemma_has(value, "character"@, Json::Unsigned(at.character as u64));
}

/// The severities of the protocol by their numbers.
pub open spec fn severity_number(severity: LiveDiagnosticSeverity) -> u64 {
    match severity {
        LiveDiagnosticSeverity::Error => 1,
        LiveDiagnosticSeverity::Warning => 2,
        LiveDiagnosticSeverity::Information => 3,
        LiveDiagnosticSeverity::Hint => 4,
    }
}

/// Whether a value is a diagnostic of the protocol: a range, a severity by its number
/// and a message. Without a severity it is information.
pub open spec fn is_diagnostic(
    value: Json,
    start: Utf16Position,
    end: Utf16Position,
    severity: LiveDiagnosticSeverity,
    message: Seq<char>,
) -> bool {
    &&& exists|range: Json| #[trigger] has(value, "range"@, range) && is_range(range, start, end)
    &&& has(value, "message"@, Json::Text(message))
    &&& has(value, "severity"@, Json::Unsigned(severity_number(severity))) || severity
        is Information && (has(value, "severity"@, Json::Null) || lacks(value, "severity"@))
}

/// A diagnostic is read as what it says: its range, its severity by the protocol's
/// numbers, and its message, made safe to show.
pub proof fn a_diagnostic_is_read(
    value: Json,
    start: Utf16Position,
    end: Utf16Position,
    severity: LiveDiagnosticSeverity,
    message: Seq<char>,
)
    requires
        is_diagnostic(value, start, end, severity, message),
    ensures
        ({
            let r = lsp_parse::live_of(Some(value));
            &&& r is Some
            &&& r->0.start == start
            &&& r->0.end == end
            &&& r->0.severity == severity
            &&& r->0.message == display::label_of(
                message,
                lsp_parse::MAX_LIVE_DIAGNOSTIC_MESSAGE_BYTES,
            )
        }),
{
    let range = choose|range: Json| #[trigger] has(value, "range"@, range) && is_range(range, start, end);
    let (a, b) = choose|a: Json, b: Json|
        #![trigger has(range, "start"@, a), has(range, "end"@, b)]
        has(range, "start"@, a) && has(range, "end"@, b) && is_position(a, start) && is_position(b, end);
    lemma_has(value, "range"@, range);
    lemma_has(range, "start"@, a);
    lemma_has(range, "end"@, b);
    a_position_is_read(a, start);
    a_position_is_read(b, end);
    lemma_has(value, "message"@, Json::Text(message));
    let number = Json::Unsigned(severity_number(severity));
    if has(value, "severity"@, number) {
        lemma_has(value, "severity"@, number);
    } else if has(value, "severity"@, Json::Null) {
        lemma_has(value, "severity"@, Json::Null);
    } else {
        lemma_lacks(value, "severity"@);
    }
}

/// Whatever diagnostic is taken in at all has the severity of its number.
pub proof fn a_severity_is_never_another(value: Json, n: u64)
    requires
        has(value, "severity"@, Json::Unsigned(n)),
        lsp_parse::live_of(Some(value)) is Some,
    ensures
        severity_number(lsp_parse::live_of(Some(value))->0.severity) == n,
{
    lemma_has(value, "severity"@, Json::Unsigned(n));
}

/// Whether a value is a diagnostic of the protocol that says this, its message made
/// safe to show.
pub open spec fn says(value: Json, live: Live) -> bool {
    exists|message: Seq<char>| #[trigger]
        is_diagnostic(value, live.start, live.end, live.severity, message) && live.message
            == display::label_of(message, lsp_parse::MAX_LIVE_DIAGNOSTIC_MESSAGE_BYTES)
}

/// What a list of diagnostics says, one by one.
pub open spec fn said_one_by_one(values: Seq<Json>, lives: Seq<Live>) -> bool {
    &&& lives.len() == values.len()
    &&& forall|i: int| 0 <= i < values.len() ==> says(#[trigger] values[i], lives[i])
}

proof fn lemma_lives(values: Seq<Json>, lives: Seq<Live>)
    requires
        said_one_by_one(values, lives),
    ensures
        lsp_parse::all_lives(values) == Some(lives),
    decreases values.len(),
{
    if values.len() == 0 {
        assert(lives =~= Seq::<Live>::empty());
    } else {
        let n = values.len() - 1;
        let before = lives.drop_last();
        assert forall|i: int| 0 <= i < n implies says(#[trigger] values.drop_last()[i], before[i]) by {
            assert(says(values[i], lives[i]));
        }
        lemma_lives(values.drop_last(), before);
        assert(says(values[n], lives[n]));
        let message = choose|message: Seq<char>| #[trigger]
            is_diagnostic(values[n], lives[n].start, lives[n].end, lives[n].severity, message)
                && lives[n].message == display::label_of(
                message,
                lsp_parse::MAX_LIVE_DIAGNOSTIC_MESSAGE_BYTES,
            );
        a_diagnostic_is_read(values[n], lives[n].start, lives[n].end, lives[n].severity, message);
        assert(before.push(lives[n]) =~= lives);
    }
}

/// Whether a message is a notification of a method.
pub open spec fn is_notification(message: Json, method: Seq<char>, params: Json) -> bool {
    &&& has(message, "jsonrpc"@, Json::Text("2.0"@))
    &&& has(message, "method"@, Json::Text(method))
    &&& has(message, "params"@, params)
    &&& lacks(message, "id"@)
}

/// Whether these are the parameters of diagnostics of a document's version.
pub open spec fn publishes(params: Json, uri: Seq<char>, version: u64, values: Seq<Json>) -> bool {
    &&& has(params, "uri"@, Json::Text(uri))
    &&& has(params, "version"@, Json::Unsigned(version))
    &&& has(params, "diagnostics"@, Json::Array(values))
}

proof fn lemma_addressed(docs: Seq<Doc>, root: Seq<char>, k: int, from: nat)
    requires
        from <= k < docs.len(),
        forall|i: int|
            from <= i < k ==> (#[trigger] docs[i]).version != docs[k].version
                || lsp_json::document_address(root, docs[i].path) != lsp_json::document_address(
                root,
                docs[k].path,
            ),
    ensures
        protocol_replies::addressed(
            docs,
            root,
            lsp_json::document_address(root, docs[k].path),
            docs[k].version,
            from,
        ) == Some(k),
    decreases k - from,
{
    if from < k {
        assert(docs[from as int].version != docs[k].version || lsp_json::document_address(
            root,
            docs[from as int].path,
        ) != lsp_json::document_address(root, docs[k].path));
        lemma_addressed(docs, root, k, from + 1);
    }
}

/// Diagnostics of an open document, in the version that the server knows, are
/// published as they were sent: all of them, in their order, each with its range and
/// its severity; those that were there of the document go, and those of other
/// documents stay unless there is no room.
pub proof fn diagnostics_are_published_as_sent(
    p: Proto,
    message: Json,
    params: Json,
    k: int,
    values: Seq<Json>,
    lives: Seq<Live>,
    now: u64,
)
    requires
        0 <= k < p.documents.len(),
        forall|i: int|
            0 <= i < k ==> (#[trigger] p.documents[i]).version != p.documents[k].version
                || lsp_json::document_address(p.root_uri, p.documents[i].path)
                != lsp_json::document_address(p.root_uri, p.documents[k].path),
        p.documents[k].version <= 0x7fff_ffff,
        is_notification(message, "textDocument/publishDiagnostics"@, params),
        publishes(
            params,
            lsp_json::document_address(p.root_uri, p.documents[k].path),
            p.documents[k].version,
            values,
        ),
        said_one_by_one(values, lives),
        values.len() <= MAX_LIVE_DIAGNOSTICS_PER_DOCUMENT,
    ensures
        ({
            let doc = p.documents[k];
            let s = protocol_replies::handled(p, message, now);
            let d = s.next.diagnostics;
            &&& s.fault is None
            &&& d.len() > 0
            &&& d.last() == (Published {
                generation: p.generation,
                id: doc.id,
                path: doc.path,
                version: doc.version,
                diagnostics: lives,
            })
            &&& forall|i: int| 0 <= i < d.len() - 1 ==> (#[trigger] d[i]).id != doc.id
            &&& p.diagnostics.len() < p.limits.files ==> forall|i: int|
                0 <= i < p.diagnostics.len() && (#[trigger] p.diagnostics[i]).id != doc.id
                    ==> d.contains(p.diagnostics[i])
            &&& s.next.documents == p.documents
            &&& s.next.state == p.state
            &&& s.next.outbox == p.outbox
            &&& s.next.pending == p.pending
        }),
{
    let doc = p.documents[k];
    let uri = lsp_json::document_address(p.root_uri, doc.path);
    lemma_has(message, "jsonrpc"@, Json::Text("2.0"@));
    lemma_has(message, "method"@, Json::Text("textDocument/publishDiagnostics"@));
    lemma_has(message, "params"@, params);
    lemma_lacks(message, "id"@);
    lemma_has(params, "uri"@, Json::Text(uri));
    lemma_has(params, "version"@, Json::Unsigned(doc.version));
    lemma_has(params, "diagnostics"@, Json::Array(values));
    lemma_addressed(p.documents, p.root_uri, k, 0);
    lemma_lives(values, lives);
    let keep = |d: Published| d.id != doc.id;
    let others = protocol_replies::of_others(p.diagnostics, doc.id);
    assert(others == p.diagnostics.filter(keep));
    p.diagnostics.lemma_filter_len(keep);
    p.diagnostics.filter_lemma(keep);
    let d = protocol_replies::handled(p, message, now).next.diagnostics;
    assert forall|i: int| 0 <= i < d.len() - 1 implies (#[trigger] d[i]).id != doc.id by {
        let j = if others.len() == p.limits.files && p.limits.files > 0 {
            i + 1
        } else {
            i
        };
        assert(d[i] == others[j]);
        assert(keep(others[j]));
    }
    if p.diagnostics.len() < p.limits.files {
        assert forall|i: int|
            0 <= i < p.diagnostics.len() && (#[trigger] p.diagnostics[i]).id != doc.id implies d.contains(
            p.diagnostics[i],
        ) by {
            let x = p.diagnostics[i];
            assert(keep(x));
            assert(others.contains(x));
            let j = others.index_of(x);
            assert(d[j] == x);
        }
    }
}

// Completions.

/// Whether an item offers no more than one edit of the document.
pub open spec fn is_simple(value: Json) -> bool {
    &&& lacks(value, "additionalTextEdits"@)
    &&& lacks(value, "command"@)
    &&& lacks(value, "textDocument"@)
    &&& lacks(value, "workspaceEdit"@)
    &&& lacks(value, "documentChanges"@)
    &&& lacks(value, "textEditText"@)
    &&& lacks(value, "insertTextMode"@)
    &&& lacks(value, "insertTextFormat"@) || has(value, "insertTextFormat"@, Json::Unsigned(1))
}

/// Whether a value is a completion of the protocol with a label, a kind and the edit
/// that it stands for: that of its own, else the text to insert, else the label.
pub open spec fn is_offer(value: Json, item: Item, limits: LspLimits) -> bool {
    &&& is_simple(value)
    &&& has(value, "label"@, Json::Text(item.label))
    &&& text::byte_len(item.label) <= limits.label_bytes
    &&& match item.kind {
        Some(k) => has(value, "kind"@, Json::Unsigned(k as u64)) && 1 <= k <= 25,
        None => lacks(value, "kind"@),
    }
    &&& match item.edit {
        Edit::Insert(t) => {
            &&& lacks(value, "textEdit"@)
            &&& has(value, "insertText"@, Json::Text(t)) || lacks(value, "insertText"@) && t
                == item.label
            &&& text::byte_len(t) <= limits.inserted_bytes
        },
        Edit::Replace { start, end, new_text } => {
            &&& lacks(value, "insertText"@)
            &&& text::byte_len(new_text) <= limits.inserted_bytes
            &&& exists|edit: Json, range: Json|
                #![trigger has(value, "textEdit"@, edit), has(edit, "range"@, range)]
                has(value, "textEdit"@, edit) && has(edit, "range"@, range) && has(
                    edit,
                    "newText"@,
                    Json::Text(new_text),
                ) && edit->Object_0.len() == 2 && is_range(range, start, end)
                    && range->Object_0.len() == 2
        },
    }
}

/// An offer is read as what it says.
pub proof fn an_offer_is_read(value: Json, item: Item, limits: LspLimits)
    requires
        is_offer(value, item, limits),
    ensures
        lsp_parse::item_of(Some(value), limits) == Some(item),
{
    lemma_lacks(value, "additionalTextEdits"@);
    lemma_lacks(value, "command"@);
    lemma_lacks(value, "textDocument"@);
    lemma_lacks(value, "workspaceEdit"@);
    lemma_lacks(value, "documentChanges"@);
    lemma_lacks(value, "textEditText"@);
    lemma_lacks(value, "insertTextMode"@);
    if lacks(value, "insertTextFormat"@) {
        lemma_lacks(value, "insertTextFormat"@);
    } else {
        lemma_has(value, "insertTextFormat"@, Json::Unsigned(1));
    }
    lemma_has(value, "label"@, Json::Text(item.label));
    match item.kind {
        Some(k) => {
            lemma_has(value, "kind"@, Json::Unsigned(k as u64));
        },
        None => {
            lemma_lacks(value, "kind"@);
        },
    }
    match item.edit {
        Edit::Insert(t) => {
            lemma_lacks(value, "textEdit"@);
            if has(value, "insertText"@, Json::Text(t)) {
                lemma_has(value, "insertText"@, Json::Text(t));
            } else {
                lemma_lacks(value, "insertText"@);
            }
        },
        Edit::Replace { start, end, new_text } => {
            lemma_lacks(value, "insertText"@);
            let (edit, range) = choose|edit: Json, range: Json|
                #![trigger has(value, "textEdit"@, edit), has(edit, "range"@, range)]
                has(value, "textEdit"@, edit) && has(edit, "range"@, range) && has(
                    edit,
                    "newText"@,
                    Json::Text(new_text),
                ) && edit->Object_0.len() == 2 && is_range(range, start, end)
                    && range->Object_0.len() == 2;
            let (a, b) = choose|a: Json, b: Json|
                #![trigger has(range, "start"@, a), has(range, "end"@, b)]
                has(range, "start"@, a) && has(range, "end"@, b) && is_position(a, start)
                    && is_position(b, end);
            lemma_has(value, "textEdit"@, edit);
            lemma_has(edit, "range"@, range);
            lemma_has(edit, "newText"@, Json::Text(new_text));
            lemma_has(range, "start"@, a);
            lemma_has(range, "end"@, b);
            a_position_is_read(a, start);
            a_position_is_read(b, end);
        },
    }
}

/// Whether these are offers, one by one.
pub open spec fn offered_one_by_one(values: Seq<Json>, items: Seq<Item>, limits: LspLimits) -> bool {
    &&& items.len() == values.len()
    &&& forall|i: int| 0 <= i < values.len() ==> is_offer(#[trigger] values[i], items[i], limits)
}

proof fn lemma_usable(values: Seq<Json>, items: Seq<Item>, limits: LspLimits)
    requires
        offered_one_by_one(values, items, limits),
        values.len() <= MAX_COMPLETION_ITEMS,
    ensures
        lsp_parse::usable(values, limits) == items,
    decreases values.len(),
{
    if values.len() == 0 {
        assert(items =~= Seq::<Item>::empty());
    } else {
        let n = values.len() - 1;
        assert forall|i: int| 0 <= i < n implies is_offer(
            #[trigger] values.drop_last()[i],
            items.drop_last()[i],
            limits,
        ) by {
            assert(is_offer(values[i], items[i], limits));
        }
        lemma_usable(values.drop_last(), items.drop_last(), limits);
        assert(is_offer(values[n], items[n], limits));
        an_offer_is_read(values[n], items[n], limits);
        assert(items.drop_last().push(items[n]) =~= items);
    }
}

/// Whether a message is the answer to a request.
pub open spec fn is_answer(message: Json, id: i64, result: Json) -> bool {
    &&& has(message, "jsonrpc"@, Json::Text("2.0"@))
    &&& id >= 0
    &&& has(message, "id"@, Json::Unsigned(id as u64))
    &&& has(message, "result"@, result)
    &&& lacks(message, "error"@)
    &&& lacks(message, "method"@)
}

proof fn lemma_place(pending: Seq<Waiting>, k: int, from: nat)
    requires
        from <= k < pending.len(),
        forall|i: int| from <= i < k ==> (#[trigger] pending[i]).id != pending[k].id,
    ensures
        protocol_replies::place_of(pending, pending[k].id, from) == Some(k),
    decreases k - from,
{
    if from < k {
        assert(pending[from as int].id != pending[k].id);
        lemma_place(pending, k, from + 1);
    }
}

proof fn lemma_answer(p: Proto, message: Json, k: int, result: Json)
    requires
        0 <= k < p.pending.len(),
        forall|i: int| 0 <= i < k ==> (#[trigger] p.pending[i]).id != p.pending[k].id,
        is_answer(message, p.pending[k].id, result),
    ensures
        forall|now: u64| #[trigger]
            protocol_replies::handled(p, message, now) == protocol_replies::answered(
                protocol_replies::taken(p, k),
                p.pending[k],
                message->Object_0,
                now,
            ),
        json::member(message->Object_0, "result"@) == Some(result),
        json::member(message->Object_0, "error"@) is None,
{
    lemma_has(message, "jsonrpc"@, Json::Text("2.0"@));
    lemma_has(message, "id"@, Json::Unsigned(p.pending[k].id as u64));
    lemma_has(message, "result"@, result);
    lemma_lacks(message, "error"@);
    lemma_lacks(message, "method"@);
    lemma_place(p.pending, k, 0);
}

/// Completions that come in time are handed over as they were offered, in their
/// order, with the request that they answer; those that come late are none.
pub proof fn completions_are_handed_over_as_offered(
    p: Proto,
    message: Json,
    k: int,
    values: Seq<Json>,
    items: Seq<Item>,
    now: u64,
)
    requires
        0 <= k < p.pending.len(),
        forall|i: int| 0 <= i < k ==> (#[trigger] p.pending[i]).id != p.pending[k].id,
        p.pending[k].kind is Completion,
        p.pending[k].generation == p.generation,
        is_answer(message, p.pending[k].id, Json::Array(values)),
        offered_one_by_one(values, items, p.limits),
        values.len() <= MAX_COMPLETION_ITEMS,
    ensures
        ({
            let s = protocol_replies::handled(p, message, now);
            let c = s.next.completions;
            &&& s.fault is None
            &&& c.len() > 0
            &&& c.last().request == p.pending[k].kind->Completion_0
            &&& c.last().items == if now < p.pending[k].deadline {
                items
            } else {
                Seq::empty()
            }
            &&& s.next.pending == p.pending.remove(k)
            &&& s.next.documents == p.documents
        }),
{
    lemma_answer(p, message, k, Json::Array(values));
    lemma_usable(values, items, p.limits);
}

// Requests of the server.

/// A request of the server that has a number or a name is answered once, under the
/// same, or the conversation ends.
pub proof fn a_request_is_answered_under_its_own_name(
    p: Proto,
    message: Json,
    id: Json,
    method: Seq<char>,
    now: u64,
)
    requires
        has(message, "jsonrpc"@, Json::Text("2.0"@)),
        has(message, "method"@, Json::Text(method)),
        has(message, "id"@, id),
        id is Unsigned || id is Negative || id is Text,
        protocol_replies::handled(p, message, now).fault is None,
    ensures
        ({
            let next = protocol_replies::handled(p, message, now).next;
            &&& next.outbox.len() == p.outbox.len() + 1
            &&& next.outbox.drop_last() == p.outbox
            &&& has(next.outbox.last(), "id"@, id)
            &&& has(next.outbox.last(), "jsonrpc"@, Json::Text("2.0"@))
            &&& next.documents == p.documents && next.diagnostics == p.diagnostics && next.pending
                == p.pending && next.state == p.state
        }),
{
    lemma_has(message, "jsonrpc"@, Json::Text("2.0"@));
    lemma_has(message, "method"@, Json::Text(method));
    lemma_has(message, "id"@, id);
    let next = protocol_replies::handled(p, message, now).next;
    assert(next.outbox.drop_last() =~= p.outbox);
    let o = next.outbox.last()->Object_0;
    reveal_strlit("jsonrpc");
    reveal_strlit("id");
    assert(o[0] == ("jsonrpc"@, Json::Text("2.0"@)));
    assert(o[1] == ("id"@, id));
    assert("jsonrpc"@.len() != "id"@.len());
}

// Documents.

/// Whether a message tells of the text of a document in a version.
pub open spec fn tells_text(message: Json, uri: Seq<char>, version: u64, content: Seq<char>) -> bool {
    exists|params: Json, named: Json|
        #![trigger has(message, "params"@, params), has(params, "textDocument"@, named)]
        {
            &&& has(message, "params"@, params)
            &&& has(params, "textDocument"@, named)
            &&& has(named, "uri"@, Json::Text(uri))
            &&& has(named, "version"@, Json::Unsigned(version))
            &&& has(message, "method"@, Json::Text("textDocument/didOpen"@)) && has(
                named,
                "text"@,
                Json::Text(content),
            ) || has(message, "method"@, Json::Text("textDocument/didChange"@)) && (exists|change: Json|
                #[trigger] has(params, "contentChanges"@, Json::Array(seq![change])) && has(
                    change,
                    "text"@,
                    Json::Text(content),
                ))
        }
}

proof fn lemma_keys_differ()
    ensures
        "jsonrpc"@ != "method"@,
        "jsonrpc"@ != "params"@,
        "method"@ != "params"@,
        "uri"@ != "languageId"@,
        "uri"@ != "version"@,
        "uri"@ != "text"@,
        "languageId"@ != "version"@,
        "languageId"@ != "text"@,
        "version"@ != "text"@,
        "textDocument"@ != "contentChanges"@,
{
    reveal_strlit("jsonrpc");
    reveal_strlit("method");
    reveal_strlit("params");
    reveal_strlit("uri");
    reveal_strlit("languageId");
    reveal_strlit("version");
    reveal_strlit("text");
    reveal_strlit("textDocument");
    reveal_strlit("contentChanges");
    assert("method"@[0] != "params"@[0]);
    assert("textDocument"@.len() != "contentChanges"@.len());
    assert("uri"@.len() != "languageId"@.len());
    assert("uri"@.len() != "version"@.len());
    assert("uri"@.len() != "text"@.len());
    assert("languageId"@.len() != "version"@.len());
    assert("languageId"@.len() != "text"@.len());
    assert("version"@.len() != "text"@.len());
}

/// A document that the server does not have as it is, is told to it: the message names
/// its address, its version and the whole of its text, and it is the only one.
pub proof fn a_new_text_is_told_in_full(p: Proto, doc: Doc)
    requires
        protocol_documents::shared(p, doc).fault is None,
        protocol_documents::doc_of(p.documents, doc.id) matches Some(known) ==> known.version
            != doc.version || known.text != doc.text,
    ensures
        ({
            let next = protocol_documents::shared(p, doc).next;
            &&& next.outbox.len() == p.outbox.len() + 1
            &&& next.outbox.drop_last() == p.outbox
            &&& tells_text(
                next.outbox.last(),
                lsp_json::document_address(p.root_uri, doc.path),
                doc.version,
                doc.text,
            )
        }),
{
    lemma_keys_differ();
    let uri = lsp_json::document_address(p.root_uri, doc.path);
    let next = protocol_documents::shared(p, doc).next;
    assert(next.outbox.drop_last() =~= p.outbox);
    let message = next.outbox.last();
    let o = message->Object_0;
    let params = o[2].1;
    let named = params->Object_0[0].1;
    assert(o[1].0 == "method"@);
    assert(o[2] == ("params"@, params));
    assert(o[0].0 == "jsonrpc"@);
    assert(has(message, "params"@, params));
    assert(params->Object_0[0] == ("textDocument"@, named));
    assert(has(params, "textDocument"@, named));
    let n = named->Object_0;
    assert(n[0] == ("uri"@, Json::Text(uri)));
    assert(has(named, "uri"@, Json::Text(uri)));
    if protocol_documents::doc_of(p.documents, doc.id) is None {
        assert(o[1] == ("method"@, Json::Text("textDocument/didOpen"@)));
        assert(has(message, "method"@, Json::Text("textDocument/didOpen"@)));
        assert(n[1].0 == "languageId"@);
        assert(n[2] == ("version"@, Json::Unsigned(doc.version)));
        assert(has(named, "version"@, Json::Unsigned(doc.version)));
        assert(n[3] == ("text"@, Json::Text(doc.text)));
        assert(has(named, "text"@, Json::Text(doc.text)));
    } else {
        assert(o[1] == ("method"@, Json::Text("textDocument/didChange"@)));
        assert(has(message, "method"@, Json::Text("textDocument/didChange"@)));
        assert(n[1] == ("version"@, Json::Unsigned(doc.version)));
        assert(has(named, "version"@, Json::Unsigned(doc.version)));
        let change = Json::Object(seq![("text"@, Json::Text(doc.text))]);
        assert(change->Object_0[0] == ("text"@, Json::Text(doc.text)));
        assert(has(change, "text"@, Json::Text(doc.text)));
        assert(params->Object_0[1] == ("contentChanges"@, Json::Array(seq![change])));
        assert(has(params, "contentChanges"@, Json::Array(seq![change])));
    }
}

} // verus!
