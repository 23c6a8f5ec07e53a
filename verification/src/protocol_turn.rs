//! Turns of the conversation: questions of the editor, deadlines, and one
//! round of messages.

use crate::json::{items_view, Json, JsonValue};
use crate::lsp_json;
use crate::lsp_json::{answers, document_address, json_fault};
use crate::lsp_parse::{completions_view, CompletionItem, Item, Utf16Position};
use crate::protocol::{
    docs_view, failed, fine, pending_view, requested, Asked, CompletionRequest, Doc, DocumentState, Kind,
    PendingKind, Proto, Protocol, ProtocolState, Stepped, Waiting,
    COMPLETION_DEADLINE, LAST_MOMENT, MAX_MESSAGES_PER_POLL, RELOAD_DEADLINE, SHUTDOWN_DEADLINE,
};
use crate::protocol_documents::{close_told, doc_of, find_doc, reconciled};
use crate::protocol_replies::{completed, handled, lemma_taken_numbered, taken};
use crate::text;
use vstd::prelude::*;

verus! {

/// Whether a reload is under way.
pub open spec fn reloading(pending: Seq<Waiting>) -> bool {
    exists|i: int| 0 <= i < pending.len() && (#[trigger] pending[i]).kind is Reload
}

/// A reload is asked for once, of a server that is ready.
pub open spec fn reload_asked(p: Proto, now: u64) -> Stepped {
    if p.state != ProtocolState::Ready || reloading(p.pending) {
        fine(p)
    } else {
        requested(
            p,
            Kind::Reload,
            "rust-analyzer/reloadWorkspace"@,
            Json::Null,
            (now + RELOAD_DEADLINE) as u64,
        )
    }
}

/// Whether the server has a document exactly as it is.
pub open spec fn in_step(p: Proto, doc: Doc) -> bool {
    &&& p.state == ProtocolState::Ready
    &&& doc_of(p.documents, doc.id) matches Some(known)
    &&& known.path == doc.path
    &&& known.version == doc.version
    &&& known.text == doc.text
}

pub open spec fn where_asked(p: Proto, doc: Doc, position: Utf16Position) -> Json {
    Json::Object(
        seq![
            (
                "textDocument"@,
                Json::Object(
                    seq![("uri"@, Json::Text(document_address(p.root_uri, doc.path)))],
                ),
            ),
            (
                "position"@,
                Json::Object(
                    seq![
                        ("line"@, Json::Unsigned(position.line as u64)),
                        ("character"@, Json::Unsigned(position.character as u64)),
                    ],
                ),
            ),
            ("context"@, Json::Object(seq![("triggerKind"@, Json::Unsigned(1))])),
        ],
    )
}

pub open spec fn completion_asked(
    p: Proto,
    doc: Doc,
    position_byte: u64,
    position: Utf16Position,
    sequence: u64,
    now: u64,
) -> Stepped {
    if !in_step(p, doc) {
        fine(p)
    } else {
        requested(
            p,
            Kind::Completion(
                Asked {
                    generation: p.generation,
                    request_sequence: sequence,
                    id: doc.id,
                    path: doc.path,
                    version: doc.version,
                    position_byte,
                    position,
                },
            ),
            "textDocument/completion"@,
            where_asked(p, doc, position),
            (now + COMPLETION_DEADLINE) as u64,
        )
    }
}

/// Closes documents one after the other.
pub open spec fn closes_told(p: Proto, docs: Seq<Doc>, from: nat) -> Stepped
    decreases docs.len() - from,
{
    if from >= docs.len() {
        fine(p)
    } else {
        let s = close_told(p, docs[from as int]);
        match s.fault {
            Some(why) => s,
            None => closes_told(s.next, docs, from + 1),
        }
    }
}

/// A server that is ready is told of every close and asked to stop.
pub open spec fn shutdown_asked(p: Proto, now: u64) -> Stepped {
    if p.state != ProtocolState::Ready {
        fine(p)
    } else {
        let s = closes_told(Proto { documents: Seq::empty(), ..p }, p.documents, 0);
        match s.fault {
            Some(why) => s,
            None => {
                let t = requested(
                    s.next,
                    Kind::Shutdown,
                    "shutdown"@,
                    Json::Null,
                    (now + SHUTDOWN_DEADLINE) as u64,
                );
                match t.fault {
                    Some(why) => t,
                    None => fine(Proto { state: ProtocolState::Stopping, ..t.next }),
                }
            },
        }
    }
}

/// The first request, from a place on, whose time has come.
pub open spec fn overdue(pending: Seq<Waiting>, now: u64, from: nat) -> Option<int>
    decreases pending.len() - from,
{
    if from >= pending.len() {
        None
    } else if now >= pending[from as int].deadline {
        Some(from as int)
    } else {
        overdue(pending, now, from + 1)
    }
}

pub proof fn lemma_overdue(pending: Seq<Waiting>, now: u64, from: nat)
    ensures
        match overdue(pending, now, from) {
            Some(k) => from <= k < pending.len() && now >= pending[k].deadline,
            None => forall|i: int|
                from <= i < pending.len() ==> now < (#[trigger] pending[i]).deadline,
        },
    decreases pending.len() - from,
{
    if from < pending.len() && now < pending[from as int].deadline {
        lemma_overdue(pending, now, from + 1);
    }
}

/// A completion that is not answered in time is empty; any other request ends
/// the conversation.
pub open spec fn expired(p: Proto, now: u64) -> Stepped
    decreases p.pending.len(),
{
    proof {
        lemma_overdue(p.pending, now, 0);
    }
    match overdue(p.pending, now, 0) {
        None => fine(p),
        Some(k) => match p.pending[k].kind {
            Kind::Completion(request) => expired(completed(taken(p, k), request, Seq::empty()), now),
            _ => failed(taken(p, k), "language-server request deadline elapsed"@),
        },
    }
}

/// Messages one after the other.
pub open spec fn all_handled(p: Proto, messages: Seq<Json>, from: nat, now: u64) -> Stepped
    decreases messages.len() - from,
{
    if from >= messages.len() {
        fine(p)
    } else {
        match json_fault(messages[from as int], p.limits.string_bytes) {
            Some(why) => failed(p, why),
            None => {
                let s = handled(p, messages[from as int], now);
                match s.fault {
                    Some(why) => s,
                    None => all_handled(s.next, messages, from + 1, now),
                }
            },
        }
    }
}

/// One round: messages, documents, deadlines.
pub open spec fn polled(p: Proto, messages: Seq<Json>, documents: Seq<Doc>, writes: bool, now: u64) -> Stepped {
    let s = all_handled(p, messages, 0, now);
    match s.fault {
        Some(why) => s,
        None => {
            let t = if writes && s.next.state == ProtocolState::Ready {
                reconciled(s.next, documents)
            } else {
                s
            };
            match t.fault {
                Some(why) => t,
                None => expired(t.next, now),
            }
        },
    }
}

impl Protocol {
    /// Asks for a reload. Says whether it was asked for now.
    pub fn request_reload(&mut self, now: u64) -> (r: Result<bool, String>)
        requires
            old(self).view().well_formed(),
            now <= LAST_MOMENT,
        ensures
            final(self).view() == reload_asked(old(self).view(), now).next,
            final(self).view().well_formed(),
            match reload_asked(old(self).view(), now).fault {
                Some(why) => r is Err && r->Err_0@ == why,
                None => r == Ok::<bool, String>(
                    old(self).state == ProtocolState::Ready && !reloading(old(self).view().pending),
                ),
            },
    {
        if self.state != ProtocolState::Ready {
            return Ok(false);
        }
        let mut i: usize = 0;
        while i < self.pending.len()
            invariant
                i <= self.pending@.len(),
                self == old(self),
                old(self).view().well_formed(),
                forall|j: int| 0 <= j < i ==> !((#[trigger] self.view().pending[j]).kind is Reload),
            decreases self.pending@.len() - i,
        {
            assert(self.view().pending[i as int] == self.pending@[i as int].view());
            let reload = match &self.pending[i].kind {
                PendingKind::Reload => true,
                _ => false,
            };
            if reload {
                return Ok(false);
            }
            i += 1;
        }
        match self.request(
            PendingKind::Reload,
            "rust-analyzer/reloadWorkspace",
            JsonValue::Null,
            now + RELOAD_DEADLINE,
        ) {
            Ok(_) => Ok(true),
            Err(why) => Err(why),
        }
    }

    /// Whether the server has the document exactly as it is.
    pub fn follows(&self, document: &DocumentState) -> (r: bool)
        ensures
            r == in_step(self.view(), document.view()),
    {
        if self.state != ProtocolState::Ready {
            return false;
        }
        match find_doc(&self.documents, document.document_id.as_str()) {
            None => false,
            Some(k) => {
                assert(self.view().documents[k as int] == self.documents@[k as int].view());
                let known = &self.documents[k];
                text::str_eq(known.path.as_str(), document.path.as_str()) && known.version
                    == document.version && text::str_eq(known.text.as_str(), document.text.as_str())
            },
        }
    }

    /// Asks for completions. Says under which number, if at all.
    pub fn request_completion(
        &mut self,
        document: &DocumentState,
        position_byte: u64,
        position: Utf16Position,
        request_sequence: u64,
        now: u64,
    ) -> (r: Result<Option<i64>, String>)
        requires
            old(self).view().well_formed(),
            now <= LAST_MOMENT,
        ensures
            final(self).view() == completion_asked(
                old(self).view(),
                document.view(),
                position_byte,
                position,
                request_sequence,
                now,
            ).next,
            final(self).view().well_formed(),
            match completion_asked(
                old(self).view(),
                document.view(),
                position_byte,
                position,
                request_sequence,
                now,
            ).fault {
                Some(why) => r is Err && r->Err_0@ == why,
                None => r == Ok::<Option<i64>, String>(
                    if in_step(old(self).view(), document.view()) {
                        Some(old(self).next_id)
                    } else {
                        None
                    },
                ),
            },
    {
        if !self.follows(document) {
            return Ok(None);
        }
        let request = CompletionRequest {
            generation: self.generation,
            request_sequence,
            document_id: document.document_id.clone(),
            path: document.path.clone(),
            version: document.version,
            position_byte,
            position,
        };
        let uri = lsp_json::document_uri(self.root_uri.as_str(), document.path.as_str());
        let params = lsp_json::object3(
            "textDocument",
            lsp_json::object1("uri", lsp_json::text_value(uri.as_str())),
            "position",
            lsp_json::object2(
                "line",
                lsp_json::number_value(position.line as u64),
                "character",
                lsp_json::number_value(position.character as u64),
            ),
            "context",
            lsp_json::object1("triggerKind", lsp_json::number_value(1)),
        );
        match self.request(
            PendingKind::Completion(request),
            "textDocument/completion",
            params,
            now + COMPLETION_DEADLINE,
        ) {
            Ok(id) => Ok(Some(id)),
            Err(why) => Err(why),
        }
    }

    /// Asks a server that is ready to stop. Says whether it was asked.
    pub fn begin_shutdown(&mut self, now: u64) -> (r: Result<bool, String>)
        requires
            old(self).view().well_formed(),
            now <= LAST_MOMENT,
        ensures
            final(self).view() == shutdown_asked(old(self).view(), now).next,
            final(self).view().well_formed(),
            match shutdown_asked(old(self).view(), now).fault {
                Some(why) => r is Err && r->Err_0@ == why,
                None => r == Ok::<bool, String>(old(self).state == ProtocolState::Ready),
            },
    {
        if self.state != ProtocolState::Ready {
            return Ok(false);
        }
        let ghost p = self.view();
        let mut documents: Vec<DocumentState> = Vec::new();
        std::mem::swap(&mut documents, &mut self.documents);
        let ghost all = docs_view(documents@);
        assert(self.view().documents =~= Seq::<Doc>::empty());
        assert(self.view() == Proto { documents: Seq::empty(), ..p });
        let ghost goal = closes_told(self.view(), all, 0);
        let mut k: usize = 0;
        while k < documents.len()
            invariant
                k <= documents@.len(),
                all == docs_view(documents@),
                self.view().well_formed(),
                goal == closes_told(self.view(), all, k as nat),
                p == old(self).view(),
                p.state == ProtocolState::Ready,
                goal == closes_told(Proto { documents: Seq::empty(), ..p }, p.documents, 0),
            decreases documents@.len() - k,
        {
            let ghost doc = documents@[k as int].view();
            assert(all[k as int] == doc);
            assert(close_told(self.view(), doc).next.well_formed());
            match self.tell_close(documents[k].path.as_str()) {
                Ok(()) => {},
                Err(why) => {
                    return Err(why);
                },
            }
            k += 1;
        }
        match self.request(
            PendingKind::Shutdown,
            "shutdown",
            JsonValue::Null,
            now + SHUTDOWN_DEADLINE,
        ) {
            Ok(_) => {
                self.state = ProtocolState::Stopping;
                Ok(true)
            },
            Err(why) => Err(why),
        }
    }

    fn find_overdue(&self, now: u64) -> (r: Option<usize>)
        ensures
            match overdue(self.view().pending, now, 0) {
                Some(k) => r is Some && r->0 == k && k < self.pending@.len(),
                None => r is None,
            },
    {
        let ghost all = self.view().pending;
        let mut i: usize = 0;
        while i < self.pending.len()
            invariant
                i <= self.pending@.len(),
                all == pending_view(self.pending@),
                overdue(all, now, 0) == overdue(all, now, i as nat),
            decreases self.pending@.len() - i,
        {
            assert(all[i as int] == self.pending@[i as int].view());
            if now >= self.pending[i].deadline {
                return Some(i);
            }
            i += 1;
        }
        None
    }

    /// Ends what was not answered in time.
    pub fn check_deadlines(&mut self, now: u64) -> (r: Result<(), String>)
        requires
            old(self).view().well_formed(),
        ensures
            final(self).view() == expired(old(self).view(), now).next,
            answers(r, expired(old(self).view(), now).fault),
            final(self).view().well_formed(),
    {
        let ghost goal = expired(self.view(), now);
        loop
            invariant
                self.view().well_formed(),
                goal == expired(self.view(), now),
                goal == expired(old(self).view(), now),
            decreases self.pending@.len(),
        {
            let k = match self.find_overdue(now) {
                Some(k) => k,
                None => {
                    return Ok(());
                },
            };
            proof {
                lemma_taken_numbered(self.view(), k as int);
                assert(self.view().pending[k as int] == self.pending@[k as int].view());
                assert(self.view().pending.len() == self.pending@.len());
            }
            let request = self.take_pending(k);
            assert(self.view().pending.len() == self.pending@.len());
            match request.kind {
                PendingKind::Completion(request) => {
                    let none: Vec<CompletionItem> = Vec::new();
                    assert(completions_view(none@) =~= Seq::<Item>::empty());
                    self.push_completion(request, none);
                    assert(self.view().pending.len() == self.pending@.len());
                },
                _ => {
                    return Err("language-server request deadline elapsed".to_owned());
                },
            }
        }
    }

    /// One round: takes the messages that came, brings documents in step where
    /// writing is allowed, and ends what was not answered in time.
    pub fn poll(
        &mut self,
        messages: &Vec<JsonValue>,
        documents: &Vec<DocumentState>,
        writes_allowed: bool,
        now: u64,
    ) -> (r: Result<bool, String>)
        requires
            old(self).view().well_formed(),
            messages@.len() <= MAX_MESSAGES_PER_POLL,
        ensures
            final(self).view() == polled(
                old(self).view(),
                items_view(messages@),
                docs_view(documents@),
                writes_allowed,
                now,
            ).next,
            final(self).view().well_formed(),
            match polled(
                old(self).view(),
                items_view(messages@),
                docs_view(documents@),
                writes_allowed,
                now,
            ).fault {
                Some(why) => r is Err && r->Err_0@ == why,
                None => r == Ok::<bool, String>(messages@.len() > 0),
            },
    {
        let ghost p = self.view();
        let ghost all = items_view(messages@);
        let ghost goal = all_handled(p, all, 0, now);
        let mut i: usize = 0;
        while i < messages.len()
            invariant
                i <= messages@.len(),
                p == old(self).view(),
                all == items_view(messages@),
                self.view().well_formed(),
                goal == all_handled(p, all, 0, now),
                goal == all_handled(self.view(), all, i as nat, now),
            decreases messages@.len() - i,
        {
            assert(all[i as int] == messages@[i as int].view());
            match lsp_json::validate_json(&messages[i], &self.limits) {
                Ok(()) => {},
                Err(why) => {
                    return Err(why);
                },
            }
            match self.handle(&messages[i], now) {
                Ok(()) => {},
                Err(why) => {
                    return Err(why);
                },
            }
            i += 1;
        }
        if writes_allowed && self.state == ProtocolState::Ready {
            match self.reconcile_documents(documents) {
                Ok(()) => {},
                Err(why) => {
                    return Err(why);
                },
            }
        }
        match self.check_deadlines(now) {
            Ok(()) => Ok(messages.len() > 0),
            Err(why) => Err(why),
        }
    }

    /// How many messages wait to be sent: none where writing is not allowed.
    pub fn to_send(&self, writes_allowed: bool) -> (r: usize)
        ensures
            r == if writes_allowed {
                self.view().outbox.len()
            } else {
                0
            },
    {
        if writes_allowed {
            self.outbox.len()
        } else {
            0
        }
    }

    /// Takes back the first message that the transport had no room for and all
    /// behind it: the first `accepted` are gone. Says whether any went.
    pub fn flush(&mut self, accepted: usize) -> (r: bool)
        requires
            accepted <= old(self).outbox@.len(),
            old(self).view().well_formed(),
        ensures
            final(self).view() == (Proto {
                outbox: old(self).view().outbox.skip(accepted as int),
                ..old(self).view()
            }),
            final(self).view().well_formed(),
            r == (accepted > 0),
    {
        let ghost before = items_view(self.outbox@);
        let mut i: usize = 0;
        assert(before.skip(0) =~= before);
        while i < accepted
            invariant
                i <= accepted,
                accepted <= old(self).outbox@.len(),
                before == items_view(old(self).outbox@),
                self.outbox@.len() == old(self).outbox@.len() - i,
                self.view() == (Proto { outbox: before.skip(i as int), ..old(self).view() }),
            decreases accepted - i,
        {
            let ghost now = self.outbox@;
            self.outbox.remove(0);
            assert(items_view(self.outbox@) =~= items_view(now).skip(1));
            assert(before.skip(i as int).skip(1) =~= before.skip(i + 1));
            i += 1;
        }
        accepted > 0
    }
}

} // verus!
