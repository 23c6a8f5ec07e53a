//! How a session with a language server begins, asks and ends.

use crate::json;
use crate::json::Json;
use crate::json_laws::{has, lacks, members_are_found_by_name};
use crate::lsp_json;
use crate::protocol;
use crate::protocol::{Doc, Kind, Proto, ProtocolState, Waiting};
use crate::protocol_documents;
use crate::protocol_laws;
use crate::protocol_replies;
use crate::protocol_turn;
use vstd::prelude::*;

verus! {

proof fn lemma_has(value: Json, key: Seq<char>, x: Json)
    requires
        has(value, key, x),
    ensures
        json::member(value->Object_0, key) == Some(x),
{
    members_are_found_by_name(value->Object_0, key);
}

proof fn lemma_lacks(value: Json, key: Seq<char>)
    requires
        lacks(value, key),
    ensures
        json::member(value->Object_0, key) is None,
{
    members_are_found_by_name(value->Object_0, key);
}

/// Whether a message tells the server something under a name.
pub open spec fn tells(message: Json, method: Seq<char>, params: Json) -> bool {
    &&& has(message, "jsonrpc"@, Json::Text("2.0"@))
    &&& has(message, "method"@, Json::Text(method))
    &&& has(message, "params"@, params)
    &&& lacks(message, "id"@)
}

/// Whether a message asks the server something under a name and a number.
pub open spec fn asks(message: Json, id: i64, method: Seq<char>, params: Json) -> bool {
    &&& has(message, "jsonrpc"@, Json::Text("2.0"@))
    &&& has(message, "method"@, Json::Text(method))
    &&& has(message, "params"@, params)
    &&& id >= 0 ==> has(message, "id"@, Json::Unsigned(id as u64))
}

proof fn lemma_names()
    ensures
        "jsonrpc"@ != "method"@,
        "jsonrpc"@ != "params"@,
        "jsonrpc"@ != "id"@,
        "method"@ != "params"@,
        "method"@ != "id"@,
        "params"@ != "id"@,
{
    reveal_strlit("jsonrpc");
    reveal_strlit("method");
    reveal_strlit("params");
    reveal_strlit("id");
    assert("jsonrpc"@.len() == 7 && "method"@.len() == 6 && "params"@.len() == 6 && "id"@.len() == 2);
    assert("method"@[0] == 'm');
    assert("params"@[0] == 'p');
}

proof fn lemma_notification(method: Seq<char>, params: Json)
    ensures
        tells(protocol::notification(method, params), method, params),
{
    lemma_names();
    let m = protocol::notification(method, params);
    let o = m->Object_0;
    assert(o[0] == ("jsonrpc"@, Json::Text("2.0"@)));
    assert(o[1] == ("method"@, Json::Text(method)));
    assert(o[2] == ("params"@, params));
}

proof fn lemma_question(id: i64, method: Seq<char>, params: Json)
    ensures
        asks(protocol::question(id, method, params), id, method, params),
{
    lemma_names();
    let m = protocol::question(id, method, params);
    let o = m->Object_0;
    assert(o[0] == ("jsonrpc"@, Json::Text("2.0"@)));
    assert(o[1] == ("id"@, lsp_json::integer(id)));
    assert(o[2] == ("method"@, Json::Text(method)));
    assert(o[3] == ("params"@, params));
}

/// What is asked is sent under the next number and waited for under it: for as long as
/// was said, and among what is already waited for.
pub proof fn a_question_is_sent_and_waited_for(
    p: Proto,
    kind: Kind,
    method: Seq<char>,
    params: Json,
    deadline: u64,
)
    ensures
        ({
            let s = protocol::requested(p, kind, method, params, deadline);
            &&& s.fault is None ==> {
                &&& s.next.outbox.len() == p.outbox.len() + 1
                &&& s.next.outbox.drop_last() == p.outbox
                &&& asks(s.next.outbox.last(), p.next_id, method, params)
                &&& s.next.pending == p.pending.push(
                    Waiting { id: p.next_id, generation: p.generation, kind, deadline },
                )
                &&& s.next.next_id == p.next_id + 1
                &&& s.next.state == p.state
                &&& s.next.documents == p.documents
            }
            &&& p.pending.len() >= 64 ==> s.fault is Some && s.next == p
        }),
{
    lemma_question(p.next_id, method, params);
    let s = protocol::requested(p, kind, method, params, deadline);
    if s.fault is None {
        assert(s.next.outbox.drop_last() =~= p.outbox);
    }
}

/// Whether an answer says that the server can work with this program: its positions
/// are counted as they are here, and whole documents can be opened, changed and
/// closed.
pub open spec fn can_work(answer: Json, result: Json, capabilities: Json, sync: Json) -> bool {
    &&& has(answer, "result"@, result)
    &&& has(result, "capabilities"@, capabilities)
    &&& has(capabilities, "textDocumentSync"@, sync)
    &&& has(sync, "openClose"@, Json::Bool(true))
    &&& has(sync, "change"@, Json::Unsigned(1)) || has(sync, "change"@, Json::Unsigned(2))
    &&& lacks(capabilities, "positionEncoding"@) || has(
        capabilities,
        "positionEncoding"@,
        Json::Text("utf-16"@),
    )
}

/// A server that can work with this program is told that it may begin, and is ready
/// from then on.
pub proof fn a_server_that_can_work_is_ready(
    p: Proto,
    w: Waiting,
    answer: Json,
    result: Json,
    capabilities: Json,
    sync: Json,
    now: u64,
)
    requires
        w.kind is Initialize,
        w.generation == p.generation,
        p.state == ProtocolState::Initializing,
        lacks(answer, "error"@),
        can_work(answer, result, capabilities, sync),
    ensures
        ({
            let s = protocol_replies::answered(p, w, answer->Object_0, now);
            let begin = protocol::notified(p, "initialized"@, Json::Object(Seq::empty()));
            &&& s.fault == begin.fault
            &&& s.fault is None ==> {
                &&& s.next.state == ProtocolState::Ready
                &&& s.next.ready_since == Some(now)
                &&& s.next.outbox.len() == p.outbox.len() + 1
                &&& tells(s.next.outbox.last(), "initialized"@, Json::Object(Seq::empty()))
                &&& s.next.pending == p.pending
            }
        }),
{
    lemma_lacks(answer, "error"@);
    lemma_has(answer, "result"@, result);
    lemma_has(result, "capabilities"@, capabilities);
    lemma_has(capabilities, "textDocumentSync"@, sync);
    lemma_has(sync, "openClose"@, Json::Bool(true));
    if has(sync, "change"@, Json::Unsigned(1)) {
        lemma_has(sync, "change"@, Json::Unsigned(1));
    } else {
        lemma_has(sync, "change"@, Json::Unsigned(2));
    }
    if lacks(capabilities, "positionEncoding"@) {
        lemma_lacks(capabilities, "positionEncoding"@);
    } else {
        lemma_has(capabilities, "positionEncoding"@, Json::Text("utf-16"@));
    }
    lemma_notification("initialized"@, Json::Object(Seq::empty()));
}

/// A server that counts positions otherwise, or that refuses, is not worked with.
pub proof fn a_server_that_cannot_work_is_refused(
    p: Proto,
    w: Waiting,
    answer: Json,
    result: Json,
    capabilities: Json,
    encoding: Seq<char>,
    why: Json,
    now: u64,
)
    requires
        w.kind is Initialize,
        w.generation == p.generation,
        p.state == ProtocolState::Initializing,
    ensures
        has(answer, "error"@, why) ==> protocol_replies::answered(
            p,
            w,
            answer->Object_0,
            now,
        ).fault is Some,
        lacks(answer, "error"@) && has(answer, "result"@, result) && has(
            result,
            "capabilities"@,
            capabilities,
        ) && has(capabilities, "positionEncoding"@, Json::Text(encoding)) && encoding != "utf-16"@
            ==> protocol_replies::answered(p, w, answer->Object_0, now).fault is Some,
        lacks(answer, "error"@) && has(answer, "result"@, result) && has(
            result,
            "capabilities"@,
            capabilities,
        ) && lacks(capabilities, "textDocumentSync"@) ==> protocol_replies::answered(
            p,
            w,
            answer->Object_0,
            now,
        ).fault is Some,
{
    if has(answer, "error"@, why) {
        lemma_has(answer, "error"@, why);
    }
    if lacks(answer, "error"@) && has(answer, "result"@, result) && has(
        result,
        "capabilities"@,
        capabilities,
    ) {
        lemma_lacks(answer, "error"@);
        lemma_has(answer, "result"@, result);
        lemma_has(result, "capabilities"@, capabilities);
        if has(capabilities, "positionEncoding"@, Json::Text(encoding)) {
            lemma_has(capabilities, "positionEncoding"@, Json::Text(encoding));
        }
        if lacks(capabilities, "textDocumentSync"@) {
            lemma_lacks(capabilities, "textDocumentSync"@);
        }
    }
}

/// A server that agrees to stop is told to leave.
pub proof fn a_server_that_agrees_to_stop_is_told_to_leave(
    p: Proto,
    w: Waiting,
    answer: Json,
    now: u64,
)
    requires
        w.kind is Shutdown,
        w.generation == p.generation,
        p.state == ProtocolState::Stopping,
        lacks(answer, "error"@),
        has(answer, "result"@, Json::Null),
    ensures
        ({
            let s = protocol_replies::answered(p, w, answer->Object_0, now);
            let leave = protocol::notified(p, "exit"@, Json::Null);
            &&& s.fault == leave.fault
            &&& s.fault is None ==> {
                &&& s.next.state == ProtocolState::ExitSent
                &&& s.next.outbox.len() == p.outbox.len() + 1
                &&& tells(s.next.outbox.last(), "exit"@, Json::Null)
            }
        }),
{
    lemma_lacks(answer, "error"@);
    lemma_has(answer, "result"@, Json::Null);
    lemma_notification("exit"@, Json::Null);
}

/// A server that is ready is asked to stop after each document was closed, and nothing
/// is shared with it any more.
pub proof fn a_server_is_asked_to_stop(p: Proto, now: u64)
    requires
        p.state == ProtocolState::Ready,
        now <= u64::MAX - 100_000,
        protocol_turn::shutdown_asked(p, now).fault is None,
    ensures
        ({
            let next = protocol_turn::shutdown_asked(p, now).next;
            &&& next.state == ProtocolState::Stopping
            &&& next.documents.len() == 0
            &&& next.outbox.len() == p.outbox.len() + p.documents.len() + 1
            &&& asks(next.outbox.last(), p.next_id, "shutdown"@, Json::Null)
            &&& next.pending == p.pending.push(
                Waiting {
                    id: p.next_id,
                    generation: p.generation,
                    kind: Kind::Shutdown,
                    deadline: (now + 2000) as u64,
                },
            )
        }),
{
    let bare = Proto { documents: Seq::empty(), ..p };
    lemma_closes(bare, p.documents, 0);
    let s = protocol_turn::closes_told(bare, p.documents, 0);
    a_question_is_sent_and_waited_for(
        s.next,
        Kind::Shutdown,
        "shutdown"@,
        Json::Null,
        (now + 2000) as u64,
    );
}

proof fn lemma_closes(p: Proto, docs: Seq<Doc>, from: nat)
    requires
        from <= docs.len(),
        protocol_turn::closes_told(p, docs, from).fault is None,
    ensures
        ({
            let next = protocol_turn::closes_told(p, docs, from).next;
            &&& next.outbox.len() == p.outbox.len() + docs.len() - from
            &&& next == (Proto { outbox: next.outbox, ..p })
        }),
    decreases docs.len() - from,
{
    if from < docs.len() {
        let s = protocol_documents::close_told(p, docs[from as int]);
        lemma_closes(s.next, docs, from + 1);
    }
}

/// A server that is ready is asked to read the workspace anew, unless it was asked
/// already.
pub proof fn a_server_is_asked_to_read_anew(p: Proto, now: u64)
    requires
        now <= u64::MAX - 100_000,
    ensures
        ({
            let s = protocol_turn::reload_asked(p, now);
            let waits = exists|i: int|
                0 <= i < p.pending.len() && (#[trigger] p.pending[i]).kind is Reload;
            &&& p.state != ProtocolState::Ready || waits ==> s.next == p && s.fault is None
            &&& p.state == ProtocolState::Ready && !waits && s.fault is None ==> {
                &&& s.next.pending == p.pending.push(
                    Waiting {
                        id: p.next_id,
                        generation: p.generation,
                        kind: Kind::Reload,
                        deadline: (now + 30_000) as u64,
                    },
                )
                &&& asks(
                    s.next.outbox.last(),
                    p.next_id,
                    "rust-analyzer/reloadWorkspace"@,
                    Json::Null,
                )
            }
        }),
{
    a_question_is_sent_and_waited_for(
        p,
        Kind::Reload,
        "rust-analyzer/reloadWorkspace"@,
        Json::Null,
        (now + 30_000) as u64,
    );
}

/// Whether something is waited for too long that a session cannot do without.
pub open spec fn is_overdue(w: Waiting, now: u64) -> bool {
    now >= w.deadline && !(w.kind is Completion)
}

proof fn lemma_expired(p: Proto, now: u64)
    ensures
        protocol_turn::expired(p, now).fault is Some <==> exists|i: int|
            0 <= i < p.pending.len() && is_overdue(#[trigger] p.pending[i], now),
    decreases p.pending.len(),
{
    protocol_turn::lemma_overdue(p.pending, now, 0);
    match protocol_turn::overdue(p.pending, now, 0) {
        None => {},
        Some(k) => {
            match p.pending[k].kind {
                Kind::Completion(request) => {
                    let q = protocol_replies::completed(
                        protocol_replies::taken(p, k),
                        request,
                        Seq::empty(),
                    );
                    lemma_expired(q, now);
                    assert(q.pending == p.pending.remove(k));
                    if exists|i: int|
                        0 <= i < p.pending.len() && is_overdue(#[trigger] p.pending[i], now) {
                        let i = choose|i: int|
                            0 <= i < p.pending.len() && is_overdue(#[trigger] p.pending[i], now);
                        if i < k {
                            assert(q.pending[i] == p.pending[i]);
                        } else {
                            assert(q.pending[i - 1] == p.pending[i]);
                        }
                    }
                    if exists|i: int|
                        0 <= i < q.pending.len() && is_overdue(#[trigger] q.pending[i], now) {
                        let i = choose|i: int|
                            0 <= i < q.pending.len() && is_overdue(#[trigger] q.pending[i], now);
                        if i < k {
                            assert(q.pending[i] == p.pending[i]);
                        } else {
                            assert(q.pending[i] == p.pending[i + 1]);
                        }
                    }
                },
                _ => {
                    assert(is_overdue(p.pending[k], now));
                },
            }
        },
    }
}

/// A session ends where an answer that it needs does not come in time. That offers do
/// not come in time never ends it.
pub proof fn a_session_ends_where_an_answer_is_overdue(p: Proto, now: u64)
    ensures
        protocol_turn::expired(p, now).fault is Some <==> exists|i: int|
            0 <= i < p.pending.len() && now >= (#[trigger] p.pending[i]).deadline
                && !(p.pending[i].kind is Completion),
{
    lemma_expired(p, now);
    if exists|i: int| 0 <= i < p.pending.len() && is_overdue(#[trigger] p.pending[i], now) {
        let i = choose|i: int| 0 <= i < p.pending.len() && is_overdue(#[trigger] p.pending[i], now);
        assert(now >= p.pending[i].deadline);
    }
    if exists|i: int|
        0 <= i < p.pending.len() && now >= (#[trigger] p.pending[i]).deadline && !(p.pending[i].kind
            is Completion) {
        let i = choose|i: int|
            0 <= i < p.pending.len() && now >= (#[trigger] p.pending[i]).deadline
                && !(p.pending[i].kind is Completion);
        assert(is_overdue(p.pending[i], now));
    }
}

/// Offers are asked for where the server knows the document as it is, and for the
/// place that was named.
pub proof fn offers_are_asked_for_where_the_server_keeps_up(
    p: Proto,
    doc: Doc,
    byte: u64,
    position: crate::lsp_parse::Utf16Position,
    sequence: u64,
    now: u64,
)
    requires
        now <= u64::MAX - 100_000,
    ensures
        ({
            let s = protocol_turn::completion_asked(p, doc, byte, position, sequence, now);
            let keeps_up = p.state == ProtocolState::Ready && (protocol_documents::doc_of(
                p.documents,
                doc.id,
            ) matches Some(known) && known.path == doc.path && known.version == doc.version
                && known.text == doc.text);
            &&& !keeps_up ==> s.next == p && s.fault is None
            &&& keeps_up && s.fault is None ==> {
                &&& s.next.pending.len() == p.pending.len() + 1
                &&& s.next.pending.last().deadline == now + 3000
                &&& s.next.pending.last().id == p.next_id
                &&& s.next.pending.last().kind matches Kind::Completion(asked) && {
                    &&& asked.request_sequence == sequence
                    &&& asked.id == doc.id
                    &&& asked.path == doc.path
                    &&& asked.version == doc.version
                    &&& asked.position_byte == byte
                    &&& asked.position == position
                    &&& asked.generation == p.generation
                }
                &&& s.next.outbox.len() == p.outbox.len() + 1
            }
        }),
{
}

/// Only Rust sources are shared, and of two with the same name the later one.
pub proof fn rust_sources_are_shared(docs: Seq<Doc>, doc: Doc, id: Seq<char>)
    ensures
        lsp_json::is_rust_path(doc.path) ==> protocol_documents::doc_of(
            protocol_documents::wanted(docs.push(doc)),
            id,
        ) == if id == doc.id {
            Some(doc)
        } else {
            protocol_documents::doc_of(protocol_documents::wanted(docs), id)
        },
        !lsp_json::is_rust_path(doc.path) ==> protocol_documents::wanted(docs.push(doc))
            == protocol_documents::wanted(docs),
        protocol_documents::wanted(Seq::empty()).len() == 0,
{
    assert(docs.push(doc).drop_last() =~= docs);
    protocol_documents::wanted_is_in_order(docs);
    protocol_laws::put_is_found(protocol_documents::wanted(docs), doc, id);
}

/// A path is that of a Rust source where its ending says so and something stands
/// before it.
pub proof fn a_rust_source_ends_in_rs(start: Seq<char>, c: char)
    ensures
        c != '/' ==> lsp_json::is_rust_path(start.push(c) + ".rs"@),
        !lsp_json::is_rust_path(start.push('/') + ".rs"@),
        !lsp_json::is_rust_path(".rs"@),
        !lsp_json::is_rust_path(start.push(c) + ".txt"@),
{
    reveal_strlit(".rs");
    reveal_strlit(".txt");
    let a = start.push(c) + ".txt"@;
    assert(a[a.len() - 1] == 't');
}

} // verus!
