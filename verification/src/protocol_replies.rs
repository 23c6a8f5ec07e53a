//! What a language server says, and what follows from it.

use crate::json;
use crate::json::{items_view, Json, JsonValue};
use crate::lsp_json;
use crate::lsp_json::{answers, document_address, options, sync_fault};
use crate::lsp_parse;
use crate::lsp_parse::{
    completions_view, field, lives_of, offered, publication_of, usable, CompletionItem, Item,
};
use crate::protocol::{
    docs_view, enqueued, failed, fine, folder, notified, pending_view, published_view, responses_view, Asked,
    CompletionRequest, CompletionResponse, Doc, Kind, PendingKind, PendingRequest, Proto, Protocol, ProtocolState,
    Published, PublishedDiagnostics, Response, Stepped, Waiting, LSP_POSITION_ENCODING, MAX_CONFIGURATION_ITEMS,
    MAX_DIAGNOSTIC_DROP_LOGS, MAX_PENDING_REQUESTS,
};
use crate::text;
use vstd::prelude::*;

verus! {

// Requests of the server.

pub open spec fn is_answerable(id: Json) -> bool {
    id is Text || id is Unsigned || id is Negative || id is Float
}

/// What the server gets for a request that is known, or nothing.
pub open spec fn reply_of(p: Proto, method: Seq<char>, count: nat) -> Option<Json> {
    if method == "workspace/configuration"@ {
        Some(Json::Array(Seq::new(count, |i: int| options())))
    } else if method == "workspace/workspaceFolders"@ {
        Some(Json::Array(seq![folder(p)]))
    } else if method == "window/workDoneProgress/create"@ || method == "window/showMessageRequest"@ {
        Some(Json::Null)
    } else {
        None
    }
}

pub open spec fn unsupported() -> Json {
    Json::Object(
        seq![
            ("code"@, Json::Negative(-32601i64 as i64)),
            ("message"@, Json::Text("unsupported by rustrace"@)),
        ],
    )
}

pub open spec fn configuration_count(params: Option<Json>) -> nat {
    match json::json_array(field(params, "items"@)) {
        Some(items) => items.len(),
        None => 0,
    }
}

pub open spec fn server_asked(p: Proto, id: Json, method: Seq<char>, params: Option<Json>) -> Stepped {
    let count = configuration_count(params);
    if !is_answerable(id) {
        fine(p)
    } else if method == "workspace/configuration"@ && count > MAX_CONFIGURATION_ITEMS {
        failed(p, "language-server configuration request exceeds item limit"@)
    } else {
        match reply_of(p, method, count) {
            Some(result) => enqueued(
                p,
                Json::Object(seq![("jsonrpc"@, Json::Text("2.0"@)), ("id"@, id), ("result"@, result)]),
            ),
            None => enqueued(
                p,
                Json::Object(
                    seq![("jsonrpc"@, Json::Text("2.0"@)), ("id"@, id), ("error"@, unsupported())],
                ),
            ),
        }
    }
}

fn repeated_options(count: usize) -> (r: JsonValue)
    ensures
        r.view() == Json::Array(Seq::new(count as nat, |i: int| options())),
{
    let mut items: Vec<JsonValue> = Vec::new();
    let mut i: usize = 0;
    while i < count
        invariant
            i <= count,
            items@.len() == i,
            forall|j: int| 0 <= j < i ==> (#[trigger] items@[j]).view() == options(),
        decreases count - i,
    {
        items.push(lsp_json::initialization_options());
        i += 1;
    }
    assert(items_view(items@) =~= Seq::new(count as nat, |i: int| options()));
    lsp_json::array_value(items)
}

// Diagnostics.

/// The place of the first document of a version and an address.
pub open spec fn addressed(docs: Seq<Doc>, root: Seq<char>, uri: Seq<char>, version: u64, from: nat) -> Option<
    int,
>
    decreases docs.len() - from,
{
    if from >= docs.len() {
        None
    } else if docs[from as int].version == version && document_address(root, docs[from as int].path)
        == uri {
        Some(from as int)
    } else {
        addressed(docs, root, uri, version, from + 1)
    }
}

/// What is published of other documents.
pub open spec fn of_others(published: Seq<Published>, id: Seq<char>) -> Seq<Published> {
    published.filter(|d: Published| d.id != id)
}

pub open spec fn drop_counted(p: Proto) -> Proto {
    Proto {
        drops: if p.drops < MAX_DIAGNOSTIC_DROP_LOGS {
            (p.drops + 1) as usize
        } else {
            p.drops
        },
        ..p
    }
}

pub open spec fn room_made(published: Seq<Published>, files: usize) -> Seq<Published> {
    if published.len() == files && files > 0 {
        published.skip(1)
    } else {
        published
    }
}

/// Diagnostics take effect for the version of a document that the server was
/// told of, in place of those that were there.
pub open spec fn diagnosed(p: Proto, params: Option<Json>) -> Proto {
    match publication_of(params) {
        None => drop_counted(p),
        Some((uri, version, values)) => match addressed(p.documents, p.root_uri, uri, version, 0) {
            None => p,
            Some(k) => match lives_of(values) {
                None => drop_counted(p),
                Some(lives) => {
                    let doc = p.documents[k];
                    Proto {
                        diagnostics: room_made(of_others(p.diagnostics, doc.id), p.limits.files).push(
                            Published {
                                generation: p.generation,
                                id: doc.id,
                                path: doc.path,
                                version,
                                diagnostics: lives,
                            },
                        ),
                        ..p
                    }
                },
            },
        },
    }
}

// Answers.

/// The place of the request of a number.
pub open spec fn place_of(pending: Seq<Waiting>, id: i64, from: nat) -> Option<int>
    decreases pending.len() - from,
{
    if from >= pending.len() {
        None
    } else if pending[from as int].id == id {
        Some(from as int)
    } else {
        place_of(pending, id, from + 1)
    }
}

/// A completion's answer is kept; of too many the oldest goes.
pub open spec fn completed(p: Proto, request: Asked, items: Seq<Item>) -> Proto {
    let kept = if p.completions.len() == MAX_PENDING_REQUESTS {
        p.completions.skip(1)
    } else {
        p.completions
    };
    Proto { completions: kept.push(Response { request, items }), ..p }
}

pub open spec fn initialized(p: Proto, object: Seq<(Seq<char>, Json)>, now: u64) -> Stepped {
    if p.state != ProtocolState::Initializing {
        fine(p)
    } else {
        match json::json_object(json::member(object, "result"@)) {
            None => failed(p, "initialize response result is not an object"@),
            Some(result) => match json::json_object(json::member(result, "capabilities"@)) {
                None => failed(p, "initialize response capabilities are not an object"@),
                Some(capabilities) => {
                    let encoding = match json::json_str(
                        json::member(capabilities, "positionEncoding"@),
                    ) {
                        Some(e) => e,
                        None => LSP_POSITION_ENCODING@,
                    };
                    if encoding != LSP_POSITION_ENCODING@ {
                        failed(p, "language server selected an unsupported position encoding"@)
                    } else {
                        match sync_fault(json::member(capabilities, "textDocumentSync"@)) {
                            Some(why) => failed(p, why),
                            None => {
                                let s = notified(p, "initialized"@, Json::Object(Seq::empty()));
                                match s.fault {
                                    Some(why) => s,
                                    None => fine(
                                        Proto {
                                            state: ProtocolState::Ready,
                                            ready_since: Some(now),
                                            ..s.next
                                        },
                                    ),
                                }
                            },
                        }
                    }
                },
            },
        }
    }
}

pub open spec fn refusal(kind: Kind) -> Seq<char> {
    match kind {
        Kind::Initialize => "language-server Initialize request failed"@,
        Kind::Reload => "language-server Reload request failed"@,
        _ => "language-server Shutdown request failed"@,
    }
}

/// What an answer does to a conversation from which the request is gone.
pub open spec fn answered(p: Proto, w: Waiting, object: Seq<(Seq<char>, Json)>, now: u64) -> Stepped {
    let result = json::member(object, "result"@);
    if w.generation != p.generation {
        fine(p)
    } else {
        match w.kind {
            Kind::Completion(request) => if now >= w.deadline || json::member(object, "error"@) is Some {
                fine(completed(p, request, Seq::empty()))
            } else {
                fine(completed(p, request, usable(offered(result), p.limits)))
            },
            _ => if json::member(object, "error"@) is Some {
                failed(p, refusal(w.kind))
            } else if w.kind is Initialize {
                initialized(p, object, now)
            } else if w.kind is Reload {
                if result == Some(Json::Null) {
                    fine(p)
                } else {
                    failed(p, "language-server reload returned a non-null result"@)
                }
            } else if p.state != ProtocolState::Stopping {
                fine(p)
            } else if result != Some(Json::Null) {
                failed(p, "language-server shutdown returned a non-null result"@)
            } else {
                let s = notified(p, "exit"@, Json::Null);
                match s.fault {
                    Some(why) => s,
                    None => fine(Proto { state: ProtocolState::ExitSent, ..s.next }),
                }
            },
        }
    }
}

pub open spec fn taken(p: Proto, k: int) -> Proto {
    Proto { pending: p.pending.remove(k), ..p }
}

/// What a message does. Notifications other than diagnostics, and answers to
/// what was not asked, do nothing.
pub open spec fn handled(p: Proto, message: Json, now: u64) -> Stepped {
    match json::json_object(Some(message)) {
        None => failed(p, "language-server message is not an object"@),
        Some(object) => if json::json_str(json::member(object, "jsonrpc"@)) != Some("2.0"@) {
            failed(p, "language-server message has an invalid JSON-RPC version"@)
        } else {
            match json::json_str(json::member(object, "method"@)) {
                Some(method) => match json::member(object, "id"@) {
                    Some(id) => server_asked(p, id, method, json::member(object, "params"@)),
                    None => if method == "textDocument/publishDiagnostics"@ {
                        fine(diagnosed(p, json::member(object, "params"@)))
                    } else {
                        fine(p)
                    },
                },
                None => match json::json_i64(json::member(object, "id"@)) {
                    None => fine(p),
                    Some(id) => match place_of(p.pending, id, 0) {
                        None => fine(p),
                        Some(k) => answered(taken(p, k), p.pending[k], object, now),
                    },
                },
            }
        },
    }
}

pub proof fn lemma_place(pending: Seq<Waiting>, id: i64, from: nat)
    ensures
        match place_of(pending, id, from) {
            Some(k) => from <= k < pending.len() && pending[k].id == id,
            None => true,
        },
    decreases pending.len() - from,
{
    if from < pending.len() && pending[from as int].id != id {
        lemma_place(pending, id, from + 1);
    }
}

proof fn lemma_addressed(docs: Seq<Doc>, root: Seq<char>, uri: Seq<char>, version: u64, from: nat)
    ensures
        match addressed(docs, root, uri, version, from) {
            Some(k) => from <= k < docs.len() && docs[k].version == version,
            None => true,
        },
    decreases docs.len() - from,
{
    if from < docs.len() {
        lemma_addressed(docs, root, uri, version, from + 1);
    }
}

pub proof fn lemma_taken_numbered(p: Proto, k: int)
    requires
        p.numbered(),
        0 <= k < p.pending.len(),
    ensures
        taken(p, k).numbered(),
{
    let q = taken(p, k);
    assert forall|i: int| 0 <= i < q.pending.len() implies (#[trigger] q.pending[i]).id < q.next_id by {
        assert(q.pending[i] == if i < k {
            p.pending[i]
        } else {
            p.pending[i + 1]
        });
    }
    assert forall|i: int, j: int| 0 <= i < j < q.pending.len() implies (#[trigger] q.pending[i]).id < (
    #[trigger] q.pending[j]).id by {
        let a = if i < k {
            i
        } else {
            i + 1
        };
        let b = if j < k {
            j
        } else {
            j + 1
        };
        assert(q.pending[i] == p.pending[a] && q.pending[j] == p.pending[b]);
    }
}

/// Copies the published diagnostics of other documents.
fn others(published: &mut Vec<PublishedDiagnostics>, id: &str)
    ensures
        published_view(final(published)@) == of_others(published_view(old(published)@), id@),
{
    let ghost all = published_view(published@);
    let ghost keep = |d: Published| d.id != id@;
    let mut i: usize = 0;
    let ghost mut done: int = 0;
    proof {
        assert(all.take(0).filter(keep) =~= Seq::<Published>::empty()) by {
            reveal(Seq::filter);
            assert(all.take(0).len() == 0);
        }
        assert(all.take(0).filter(keep) + all.skip(0) =~= all);
    }
    while i < published.len()
        invariant
            0 <= done <= all.len(),
            keep == (|d: Published| d.id != id@),
            published_view(published@) == all.take(done).filter(keep) + all.skip(done),
            i == all.take(done).filter(keep).len(),
        decreases published@.len() - i,
    {
        proof {
            let front = all.take(done).filter(keep);
            assert(published_view(published@).len() == published@.len());
            assert(done < all.len());
            assert((front + all.skip(done))[i as int] == all[done]);
            assert(published@[i as int].view() == published_view(published@)[i as int]);
            assert(all.take(done + 1).drop_last() =~= all.take(done));
            assert(all.take(done + 1).last() == all[done]);
            reveal(Seq::filter);
        }
        let ghost before = published@;
        if text::str_eq(published[i].document_id.as_str(), id) {
            published.remove(i);
            proof {
                assert(published_view(published@) =~= published_view(before).remove(i as int));
                assert(all.take(done + 1).filter(keep) == all.take(done).filter(keep));
                assert(published_view(published@) =~= all.take(done + 1).filter(keep) + all.skip(
                    done + 1,
                ));
            }
        } else {
            i += 1;
            proof {
                assert(all.take(done + 1).filter(keep) == all.take(done).filter(keep).push(all[done]));
                assert(published_view(published@) =~= all.take(done + 1).filter(keep) + all.skip(
                    done + 1,
                ));
            }
        }
        proof {
            done = done + 1;
        }
    }
    proof {
        assert(published_view(published@).len() == published@.len());
        assert(all.skip(done).len() == 0);
        assert(all.take(done) =~= all);
        assert(published_view(published@) =~= all.filter(keep));
    }
}

impl Protocol {
    pub(crate) fn drop_published(&mut self, id: &str)
        ensures
            final(self).view() == (Proto {
                diagnostics: of_others(old(self).view().diagnostics, id@),
                ..old(self).view()
            }),
    {
        others(&mut self.diagnostics, id);
    }

    fn log_dropped_diagnostic(&mut self)
        ensures
            final(self).view() == drop_counted(old(self).view()),
    {
        if self.diagnostic_drop_logs < MAX_DIAGNOSTIC_DROP_LOGS {
            self.diagnostic_drop_logs = self.diagnostic_drop_logs + 1;
        }
    }

    pub(crate) fn push_completion(&mut self, request: CompletionRequest, items: Vec<CompletionItem>)
        ensures
            final(self).view() == completed(
                old(self).view(),
                request.view(),
                completions_view(items@),
            ),
    {
        assert(self.view().completions.len() == self.completions@.len());
        let ghost first = self.completions@;
        if self.completions.len() == MAX_PENDING_REQUESTS {
            self.completions.remove(0);
            assert(responses_view(self.completions@) =~= responses_view(first).skip(1));
        }
        let ghost before = self.completions@;
        let response = CompletionResponse { request, items };
        self.completions.push(response);
        assert(responses_view(self.completions@) =~= responses_view(before).push(response.view()));
    }

    fn find_addressed(&self, uri: &str, version: u64) -> (r: Option<usize>)
        ensures
            match addressed(self.view().documents, self.root_uri@, uri@, version, 0) {
                Some(k) => r is Some && r->0 == k && k < self.documents@.len(),
                None => r is None,
            },
    {
        let ghost docs = self.view().documents;
        let mut i: usize = 0;
        while i < self.documents.len()
            invariant
                i <= self.documents@.len(),
                docs == docs_view(self.documents@),
                addressed(docs, self.root_uri@, uri@, version, 0) == addressed(
                    docs,
                    self.root_uri@,
                    uri@,
                    version,
                    i as nat,
                ),
            decreases self.documents@.len() - i,
        {
            assert(docs[i as int] == self.documents@[i as int].view());
            let address = lsp_json::document_uri(
                self.root_uri.as_str(),
                self.documents[i].path.as_str(),
            );
            if self.documents[i].version == version && text::str_eq(address.as_str(), uri) {
                return Some(i);
            }
            i += 1;
        }
        None
    }

    pub(crate) fn handle_publish_diagnostics(&mut self, params: Option<&JsonValue>)
        ensures
            final(self).view() == diagnosed(old(self).view(), json::json_ref(params)),
    {
        let (uri, version, values) = match lsp_parse::parse_publish_diagnostics_params(params) {
            Some(parts) => parts,
            None => {
                self.log_dropped_diagnostic();
                return ;
            },
        };
        let k = match self.find_addressed(uri.as_str(), version) {
            Some(k) => k,
            None => {
                return ;
            },
        };
        let diagnostics = match lsp_parse::parse_live_diagnostics(values) {
            Some(diagnostics) => diagnostics,
            None => {
                self.log_dropped_diagnostic();
                return ;
            },
        };
        assert(self.view().documents[k as int] == self.documents@[k as int].view());
        let document_id = self.documents[k].document_id.clone();
        let path = self.documents[k].path.clone();
        self.drop_published(document_id.as_str());
        assert(self.view().diagnostics.len() == self.diagnostics@.len());
        let ghost first = self.diagnostics@;
        if self.diagnostics.len() == self.limits.files && self.limits.files > 0 {
            self.diagnostics.remove(0);
            assert(published_view(self.diagnostics@) =~= published_view(first).skip(1));
        }
        let ghost before = self.diagnostics@;
        let published = PublishedDiagnostics {
            generation: self.generation,
            document_id,
            path,
            version,
            diagnostics,
        };
        self.diagnostics.push(published);
        assert(published_view(self.diagnostics@) =~= published_view(before).push(published.view()));
    }

    pub(crate) fn handle_server_request(&mut self, id: &JsonValue, method: &str, params: Option<&JsonValue>) -> (r:
        Result<(), String>)
        ensures
            final(self).view() == server_asked(
                old(self).view(),
                id.view(),
                method@,
                json::json_ref(params),
            ).next,
            answers(
                r,
                server_asked(old(self).view(), id.view(), method@, json::json_ref(params)).fault,
            ),
    {
        match id {
            JsonValue::Text(_) => {},
            JsonValue::Number(_) => {},
            _ => {
                return Ok(());
            },
        }
        let items = match json::as_object(params) {
            Some(members) => json::as_array(json::get_member(members.as_slice(), "items")),
            None => None,
        };
        let count: usize = match items {
            Some(items) => items.len(),
            None => 0,
        };
        assert(count == configuration_count(json::json_ref(params)));
        let result = if text::str_eq(method, "workspace/configuration") {
            if count > MAX_CONFIGURATION_ITEMS {
                return Err("language-server configuration request exceeds item limit".to_owned());
            }
            Some(repeated_options(count))
        } else if text::str_eq(method, "workspace/workspaceFolders") {
            Some(lsp_json::one(self.folder_value()))
        } else if text::str_eq(method, "window/workDoneProgress/create") || text::str_eq(
            method,
            "window/showMessageRequest",
        ) {
            Some(JsonValue::Null)
        } else {
            None
        };
        let message = match result {
            Some(result) => lsp_json::object3(
                "jsonrpc",
                lsp_json::text_value("2.0"),
                "id",
                id.copy(),
                "result",
                result,
            ),
            None => {
                let error = lsp_json::object2(
                    "code",
                    lsp_json::integer_value(-32601),
                    "message",
                    lsp_json::text_value("unsupported by rustrace"),
                );
                lsp_json::object3(
                    "jsonrpc",
                    lsp_json::text_value("2.0"),
                    "id",
                    id.copy(),
                    "error",
                    error,
                )
            },
        };
        self.enqueue(message)
    }

    fn handle_initialized(&mut self, object: &Vec<(String, JsonValue)>, now: u64) -> (r: Result<
        (),
        String,
    >)
        ensures
            final(self).view() == initialized(
                old(self).view(),
                json::members_view(object@),
                now,
            ).next,
            answers(r, initialized(old(self).view(), json::members_view(object@), now).fault),
    {
        if self.state != ProtocolState::Initializing {
            return Ok(());
        }
        let result = match json::as_object(json::get_member(object.as_slice(), "result")) {
            Some(result) => result,
            None => {
                return Err("initialize response result is not an object".to_owned());
            },
        };
        let capabilities = match json::as_object(
            json::get_member(result.as_slice(), "capabilities"),
        ) {
            Some(capabilities) => capabilities,
            None => {
                return Err("initialize response capabilities are not an object".to_owned());
            },
        };
        match json::as_text(json::get_member(capabilities.as_slice(), "positionEncoding")) {
            Some(encoding) => {
                if !text::str_eq(encoding.as_str(), LSP_POSITION_ENCODING) {
                    return Err(
                        "language server selected an unsupported position encoding".to_owned(),
                    );
                }
            },
            None => {},
        }
        match lsp_json::validate_text_sync(
            json::get_member(capabilities.as_slice(), "textDocumentSync"),
        ) {
            Ok(()) => {},
            Err(why) => {
                return Err(why);
            },
        }
        let none: Vec<(String, JsonValue)> = Vec::new();
        assert(json::members_view(none@) =~= Seq::<(Seq<char>, Json)>::empty());
        self.notify("initialized", lsp_json::object_value(none))?;
        self.state = ProtocolState::Ready;
        self.ready_since = Some(now);
        Ok(())
    }

    fn find_pending(&self, id: i64) -> (r: Option<usize>)
        ensures
            match place_of(self.view().pending, id, 0) {
                Some(k) => r is Some && r->0 == k && k < self.pending@.len(),
                None => r is None,
            },
    {
        let ghost all = self.view().pending;
        let mut i: usize = 0;
        while i < self.pending.len()
            invariant
                i <= self.pending@.len(),
                all == pending_view(self.pending@),
                place_of(all, id, 0) == place_of(all, id, i as nat),
            decreases self.pending@.len() - i,
        {
            assert(all[i as int] == self.pending@[i as int].view());
            if self.pending[i].id == id {
                return Some(i);
            }
            i += 1;
        }
        None
    }

    pub(crate) fn take_pending(&mut self, k: usize) -> (r: PendingRequest)
        requires
            k < old(self).pending@.len(),
        ensures
            final(self).view() == taken(old(self).view(), k as int),
            r.view() == old(self).view().pending[k as int],
    {
        let ghost before = self.pending@;
        let r = self.pending.remove(k);
        assert(pending_view(self.pending@) =~= pending_view(before).remove(k as int));
        r
    }

    fn answer(&mut self, pending: PendingRequest, object: &Vec<(String, JsonValue)>, now: u64) -> (r:
        Result<(), String>)
        ensures
            final(self).view() == answered(
                old(self).view(),
                pending.view(),
                json::members_view(object@),
                now,
            ).next,
            answers(
                r,
                answered(old(self).view(), pending.view(), json::members_view(object@), now).fault,
            ),
    {
        if pending.generation != self.generation {
            return Ok(());
        }
        let late = now >= pending.deadline;
        let refused = json::get_member(object.as_slice(), "error").is_some();
        let result = json::get_member(object.as_slice(), "result");
        let null = match result {
            Some(JsonValue::Null) => true,
            _ => false,
        };
        match pending.kind {
            PendingKind::Completion(request) => {
                let items = if late || refused {
                    let none: Vec<CompletionItem> = Vec::new();
                    assert(completions_view(none@) =~= Seq::<Item>::empty());
                    none
                } else {
                    lsp_parse::parse_completion_result(result, &self.limits)
                };
                self.push_completion(request, items);
                Ok(())
            },
            PendingKind::Initialize => {
                if refused {
                    return Err("language-server Initialize request failed".to_owned());
                }
                self.handle_initialized(object, now)
            },
            PendingKind::Reload => {
                if refused {
                    return Err("language-server Reload request failed".to_owned());
                }
                if !null {
                    return Err("language-server reload returned a non-null result".to_owned());
                }
                Ok(())
            },
            PendingKind::Shutdown => {
                if refused {
                    return Err("language-server Shutdown request failed".to_owned());
                }
                if self.state == ProtocolState::Stopping {
                    if !null {
                        return Err(
                            "language-server shutdown returned a non-null result".to_owned(),
                        );
                    }
                    self.notify("exit", JsonValue::Null)?;
                    self.state = ProtocolState::ExitSent;
                }
                Ok(())
            },
        }
    }

    /// Takes a message of the server.
    pub fn handle(&mut self, message: &JsonValue, now: u64) -> (r: Result<(), String>)
        requires
            old(self).view().well_formed(),
        ensures
            final(self).view() == handled(old(self).view(), message.view(), now).next,
            answers(r, handled(old(self).view(), message.view(), now).fault),
            final(self).view().well_formed(),
    {
        let object = match json::as_object(Some(message)) {
            Some(object) => object,
            None => {
                return Err("language-server message is not an object".to_owned());
            },
        };
        let current = match json::as_text(json::get_member(object.as_slice(), "jsonrpc")) {
            Some(version) => text::str_eq(version.as_str(), "2.0"),
            None => false,
        };
        if !current {
            return Err("language-server message has an invalid JSON-RPC version".to_owned());
        }
        let id = json::get_member(object.as_slice(), "id");
        match json::as_text(json::get_member(object.as_slice(), "method")) {
            Some(method) => {
                let params = json::get_member(object.as_slice(), "params");
                match id {
                    Some(id) => self.handle_server_request(id, method.as_str(), params),
                    None => {
                        if text::str_eq(method.as_str(), "textDocument/publishDiagnostics") {
                            self.handle_publish_diagnostics(params);
                        }
                        Ok(())
                    },
                }
            },
            None => {
                let id = match json::as_i64(id) {
                    Some(id) => id,
                    None => {
                        return Ok(());
                    },
                };
                let k = match self.find_pending(id) {
                    Some(k) => k,
                    None => {
                        return Ok(());
                    },
                };
                proof {
                    lemma_taken_numbered(self.view(), k as int);
                }
                let pending = self.take_pending(k);
                self.answer(pending, object, now)
            },
        }
    }
}

} // verus!
