//! What holds of every conversation with a language server.

use crate::json;
use crate::json::Json;
use crate::lsp_parse::publication_of;
use crate::order::{lemma_text_irreflexive, text_before};
use crate::protocol::{
    in_order, Doc, Kind, Proto, ProtocolState, Published, MAX_DIAGNOSTIC_DROP_LOGS, MAX_PENDING_REQUESTS, OUTBOX_ROOM,
};
use crate::protocol_documents::{
    close_told, closed, doc_of, doc_place, forgotten, free_place, put, put_keeps_order, reconciled, shared, shared_all, stays, wanted, wanted_is_in_order,
};
use crate::protocol_replies::{
    addressed, completed, handled, lemma_place, of_others, room_made, taken,
};
use crate::protocol_turn::{all_handled, expired, lemma_overdue, overdue, polled};
use vstd::prelude::*;

verus! {

// Progress.

pub open spec fn rank(s: ProtocolState) -> int {
    match s {
        ProtocolState::Initializing => 0,
        ProtocolState::Ready => 1,
        ProtocolState::Stopping => 2,
        ProtocolState::ExitSent => 3,
    }
}

/// No message takes the conversation back to an earlier stage.
pub proof fn stages_never_go_back(p: Proto, message: Json, now: u64)
    ensures
        rank(handled(p, message, now).next.state) >= rank(p.state),
{
}

/// An answer to what was not asked, or was asked already, changes nothing.
pub proof fn stray_answers_do_nothing(p: Proto, message: Json, now: u64)
    requires
        message is Object,
        json::json_str(json::member(message->Object_0, "jsonrpc"@)) == Some("2.0"@),
        json::json_str(json::member(message->Object_0, "method"@)) is None,
        forall|i: int|
            0 <= i < p.pending.len() ==> json::json_i64(json::member(message->Object_0, "id"@)) != Some(
                (#[trigger] p.pending[i]).id,
            ),
    ensures
        handled(p, message, now).next == p,
        handled(p, message, now).fault is None,
{
    let id = json::json_i64(json::member(message->Object_0, "id"@));
    if id is Some {
        lemma_place(p.pending, id->0, 0);
    }
}

/// Once deadlines have been looked at, and the conversation goes on, nothing
/// that waits is overdue.
pub proof fn nothing_overdue_remains(p: Proto, now: u64)
    requires
        expired(p, now).fault is None,
    ensures
        forall|i: int|
            0 <= i < expired(p, now).next.pending.len() ==> now < (
            #[trigger] expired(p, now).next.pending[i]).deadline,
    decreases p.pending.len(),
{
    lemma_overdue(p.pending, now, 0);
    match overdue(p.pending, now, 0) {
        None => {},
        Some(k) => match p.pending[k].kind {
            Kind::Completion(request) => {
                nothing_overdue_remains(completed(taken(p, k), request, Seq::empty()), now);
            },
            _ => {},
        },
    }
}

// Bounds.

impl Proto {
    pub open spec fn bounded(&self) -> bool {
        &&& self.pending.len() <= MAX_PENDING_REQUESTS
        &&& self.outbox.len() <= self.limits.files + OUTBOX_ROOM
        &&& self.completions.len() <= MAX_PENDING_REQUESTS
        &&& self.drops <= MAX_DIAGNOSTIC_DROP_LOGS
        &&& self.limits.files > 0 ==> self.diagnostics.len() <= self.limits.files
    }
}

proof fn lemma_others(published: Seq<Published>, id: Seq<char>)
    ensures
        of_others(published, id).len() <= published.len(),
        forall|i: int|
            0 <= i < of_others(published, id).len() ==> published.contains(
                #[trigger] of_others(published, id)[i],
            ) && of_others(published, id)[i].id != id,
{
    let keep = |d: Published| d.id != id;
    published.lemma_filter_len(keep);
    assert forall|i: int| 0 <= i < of_others(published, id).len() implies published.contains(
        #[trigger] of_others(published, id)[i],
    ) && of_others(published, id)[i].id != id by {
        published.lemma_filter_pred(keep, i);
        published.lemma_filter_contains_rev(keep, published.filter(keep)[i]);
    }
}

proof fn lemma_addressed(docs: Seq<Doc>, root: Seq<char>, uri: Seq<char>, version: u64, from: nat)
    ensures
        match addressed(docs, root, uri, version, from) {
            Some(k) => from <= k < docs.len() && docs[k].version == version,
            None => true,
        },
    decreases docs.len() - from,
{
    if from < docs.len() {
        lemma_addressed(docs, root, uri, version, from + 1);
    }
}

proof fn lemma_handled_bounded(p: Proto, message: Json, now: u64)
    requires
        p.bounded(),
    ensures
        handled(p, message, now).next.bounded(),
        handled(p, message, now).next.limits == p.limits,
{
    if message is Object {
        let object = message->Object_0;
        let publication = publication_of(json::member(object, "params"@));
        if publication is Some {
            let (uri, version, values) = publication->0;
            lemma_addressed(p.documents, p.root_uri, uri, version, 0);
            let place = addressed(p.documents, p.root_uri, uri, version, 0);
            if place is Some {
                lemma_others(p.diagnostics, p.documents[place->0].id);
            }
        }
        let id = json::json_i64(json::member(object, "id"@));
        if id is Some {
            lemma_place(p.pending, id->0, 0);
        }
    }
}

proof fn lemma_all_handled_bounded(p: Proto, messages: Seq<Json>, from: nat, now: u64)
    requires
        p.bounded(),
    ensures
        all_handled(p, messages, from, now).next.bounded(),
    decreases messages.len() - from,
{
    if from < messages.len() {
        lemma_handled_bounded(p, messages[from as int], now);
        lemma_all_handled_bounded(
            handled(p, messages[from as int], now).next,
            messages,
            from + 1,
            now,
        );
    }
}

proof fn lemma_closed_bounded(p: Proto, known: Seq<Doc>, from: nat, next: Seq<Doc>)
    requires
        p.bounded(),
    ensures
        closed(p, known, from, next).next.bounded(),
    decreases known.len() - from,
{
    if from < known.len() {
        if stays(next, known[from as int]) {
            lemma_closed_bounded(p, known, from + 1, next);
        } else {
            let s = close_told(p, known[from as int]);
            lemma_others(s.next.diagnostics, known[from as int].id);
            lemma_closed_bounded(forgotten(s.next, known[from as int].id), known, from + 1, next);
        }
    }
}

proof fn lemma_shared_bounded(p: Proto, next: Seq<Doc>, from: nat)
    requires
        p.bounded(),
    ensures
        shared_all(p, next, from).next.bounded(),
    decreases next.len() - from,
{
    if from < next.len() {
        let doc = next[from as int];
        lemma_others(p.diagnostics, doc.id);
        lemma_shared_bounded(shared(p, doc).next, next, from + 1);
    }
}

proof fn lemma_expired_bounded(p: Proto, now: u64)
    requires
        p.bounded(),
    ensures
        expired(p, now).next.bounded(),
    decreases p.pending.len(),
{
    lemma_overdue(p.pending, now, 0);
    match overdue(p.pending, now, 0) {
        None => {},
        Some(k) => match p.pending[k].kind {
            Kind::Completion(request) => {
                lemma_expired_bounded(completed(taken(p, k), request, Seq::empty()), now);
            },
            _ => {},
        },
    }
}

/// Nothing that is kept grows without limit.
pub proof fn a_round_stays_bounded(p: Proto, messages: Seq<Json>, documents: Seq<Doc>, writes: bool, now: u64)
    requires
        p.bounded(),
    ensures
        polled(p, messages, documents, writes, now).next.bounded(),
{
    lemma_all_handled_bounded(p, messages, 0, now);
    let s = all_handled(p, messages, 0, now);
    let next = wanted(documents);
    lemma_closed_bounded(s.next, s.next.documents, 0, next);
    lemma_shared_bounded(closed(s.next, s.next.documents, 0, next).next, next, 0);
    lemma_expired_bounded(s.next, now);
    lemma_expired_bounded(reconciled(s.next, documents).next, now);
}

// Documents by name.

proof fn lemma_doc_place(docs: Seq<Doc>, id: Seq<char>, from: nat)
    ensures
        match doc_place(docs, id, from) {
            Some(k) => from <= k < docs.len() && docs[k].id == id,
            None => forall|i: int| from <= i < docs.len() ==> (#[trigger] docs[i]).id != id,
        },
    decreases docs.len() - from,
{
    if from < docs.len() {
        lemma_doc_place(docs, id, from + 1);
    }
}

proof fn lemma_unique(docs: Seq<Doc>, i: int, j: int)
    requires
        in_order(docs),
        0 <= i < docs.len(),
        0 <= j < docs.len(),
        docs[i].id == docs[j].id,
    ensures
        i == j,
{
    lemma_text_irreflexive(docs[i].id);
}

proof fn lemma_doc_at(docs: Seq<Doc>, i: int)
    requires
        in_order(docs),
        0 <= i < docs.len(),
    ensures
        doc_of(docs, docs[i].id) == Some(docs[i]),
{
    lemma_doc_place(docs, docs[i].id, 0);
    lemma_unique(docs, doc_place(docs, docs[i].id, 0)->0, i);
}

proof fn lemma_place_bounds(docs: Seq<Doc>, id: Seq<char>, from: nat)
    requires
        from <= docs.len(),
    ensures
        from <= free_place(docs, id, from) <= docs.len(),
    decreases docs.len() - from,
{
    if from < docs.len() && text_before(docs[from as int].id, id) {
        lemma_place_bounds(docs, id, from + 1);
    }
}

/// A document that was put is found under its name, and every other document
/// under its own.
pub proof fn put_is_found(docs: Seq<Doc>, doc: Doc, id: Seq<char>)
    requires
        in_order(docs),
    ensures
        doc_of(put(docs, doc), id) == if id == doc.id {
            Some(doc)
        } else {
            doc_of(docs, id)
        },
{
    let after = put(docs, doc);
    let k = free_place(docs, doc.id, 0);
    lemma_place_bounds(docs, doc.id, 0);
    put_keeps_order(docs, doc);
    lemma_doc_place(docs, id, 0);
    lemma_doc_place(after, id, 0);
    let replaced = k < docs.len() && docs[k].id == doc.id;
    if id == doc.id {
        assert(after[k] == doc);
        lemma_doc_at(after, k);
    } else if doc_of(docs, id) is Some {
        let j = doc_place(docs, id, 0)->0;
        let i = if replaced || j < k {
            j
        } else {
            j + 1
        };
        assert(after[i] == docs[j]);
        lemma_doc_at(after, i);
    } else if doc_of(after, id) is Some {
        let i = doc_place(after, id, 0)->0;
        if replaced {
            assert(i != k);
            assert(docs[i].id == id);
        } else if i < k {
            assert(docs[i].id == id);
        } else {
            assert(i != k);
            assert(docs[i - 1].id == id);
        }
    }
}

proof fn lemma_removed(docs: Seq<Doc>, k: int, id: Seq<char>)
    requires
        in_order(docs),
        0 <= k < docs.len(),
    ensures
        in_order(docs.remove(k)),
        doc_of(docs.remove(k), id) == if id == docs[k].id {
            None::<Doc>
        } else {
            doc_of(docs, id)
        },
{
    let after = docs.remove(k);
    assert forall|i: int, j: int| 0 <= i < j < after.len() implies text_before(
        (#[trigger] after[i]).id,
        (#[trigger] after[j]).id,
    ) by {
        let a = if i < k {
            i
        } else {
            i + 1
        };
        let b = if j < k {
            j
        } else {
            j + 1
        };
        assert(after[i] == docs[a] && after[j] == docs[b]);
    }
    lemma_doc_place(docs, id, 0);
    lemma_doc_place(after, id, 0);
    if doc_of(after, id) is Some {
        let i = doc_place(after, id, 0)->0;
        let a = if i < k {
            i
        } else {
            i + 1
        };
        assert(after[i] == docs[a]);
        lemma_doc_at(docs, a);
        if id == docs[k].id {
            lemma_unique(docs, a, k);
        }
    } else if doc_of(docs, id) is Some && id != docs[k].id {
        let j = doc_place(docs, id, 0)->0;
        let i = if j < k {
            j
        } else {
            j - 1
        };
        assert(after[i] == docs[j]);
        lemma_doc_at(after, i);
    }
}

proof fn lemma_forgotten(p: Proto, gone: Seq<char>, id: Seq<char>)
    requires
        in_order(p.documents),
    ensures
        in_order(forgotten(p, gone).documents),
        doc_of(forgotten(p, gone).documents, id) == if id == gone {
            None::<Doc>
        } else {
            doc_of(p.documents, id)
        },
{
    lemma_doc_place(p.documents, gone, 0);
    match doc_place(p.documents, gone, 0) {
        Some(k) => {
            lemma_removed(p.documents, k, id);
        },
        None => {},
    }
}

/// Whether a document of this name is among those to close from a place on.
pub open spec fn goes(known: Seq<Doc>, from: nat, next: Seq<Doc>, id: Seq<char>) -> bool {
    match doc_place(known, id, from) {
        Some(j) => !stays(next, known[j]),
        None => false,
    }
}

proof fn lemma_closed(p: Proto, known: Seq<Doc>, from: nat, next: Seq<Doc>, id: Seq<char>)
    requires
        in_order(p.documents),
        in_order(known),
        closed(p, known, from, next).fault is None,
    ensures
        in_order(closed(p, known, from, next).next.documents),
        doc_of(closed(p, known, from, next).next.documents, id) == if goes(known, from, next, id) {
            None::<Doc>
        } else {
            doc_of(p.documents, id)
        },
    decreases known.len() - from,
{
    if from < known.len() {
        lemma_doc_place(known, id, from + 1);
        if doc_place(known, id, from + 1) is Some && known[from as int].id == id {
            lemma_unique(known, doc_place(known, id, from + 1)->0, from as int);
        }
        if stays(next, known[from as int]) {
            lemma_closed(p, known, from + 1, next, id);
        } else {
            let s = close_told(p, known[from as int]);
            let q = forgotten(s.next, known[from as int].id);
            lemma_forgotten(s.next, known[from as int].id, id);
            lemma_closed(q, known, from + 1, next, id);
        }
    }
}

proof fn lemma_shared(p: Proto, doc: Doc, id: Seq<char>)
    requires
        in_order(p.documents),
        shared(p, doc).fault is None,
        doc_of(p.documents, doc.id) matches Some(known) ==> known.path == doc.path,
    ensures
        in_order(shared(p, doc).next.documents),
        doc_of(shared(p, doc).next.documents, id) == if id == doc.id {
            Some(doc)
        } else {
            doc_of(p.documents, id)
        },
{
    put_keeps_order(p.documents, doc);
    put_is_found(p.documents, doc, id);
    lemma_doc_place(p.documents, doc.id, 0);
}

proof fn lemma_shared_all(p: Proto, next: Seq<Doc>, from: nat, id: Seq<char>)
    requires
        in_order(p.documents),
        in_order(next),
        shared_all(p, next, from).fault is None,
        forall|j: int|
            from <= j < next.len() ==> (doc_of(p.documents, (#[trigger] next[j]).id) matches Some(known)
                ==> known.path == next[j].path),
    ensures
        in_order(shared_all(p, next, from).next.documents),
        doc_of(shared_all(p, next, from).next.documents, id) == match doc_place(next, id, from) {
            Some(j) => Some(next[j]),
            None => doc_of(p.documents, id),
        },
    decreases next.len() - from,
{
    if from < next.len() {
        let doc = next[from as int];
        let s = shared(p, doc);
        lemma_shared(p, doc, id);
        assert forall|j: int| from + 1 <= j < next.len() implies (doc_of(
            s.next.documents,
            (#[trigger] next[j]).id,
        ) matches Some(known) ==> known.path == next[j].path) by {
            lemma_shared(p, doc, next[j].id);
            if next[j].id == doc.id {
                lemma_unique(next, from as int, j);
            }
        }
        lemma_shared_all(s.next, next, from + 1, id);
        lemma_doc_place(next, id, from + 1);
        if doc_place(next, id, from + 1) is Some && doc.id == id {
            lemma_unique(next, doc_place(next, id, from + 1)->0, from as int);
        }
    }
}

/// After documents were brought in step, the server has every wanted document
/// exactly as it is, and no other.
pub proof fn reconciled_documents_are_the_wanted(p: Proto, documents: Seq<Doc>, id: Seq<char>)
    requires
        in_order(p.documents),
        reconciled(p, documents).fault is None,
    ensures
        doc_of(reconciled(p, documents).next.documents, id) == doc_of(wanted(documents), id),
{
    let next = wanted(documents);
    wanted_is_in_order(documents);
    let c = closed(p, p.documents, 0, next).next;
    lemma_closed(p, p.documents, 0, next, id);
    assert forall|j: int| 0 <= j < next.len() implies (doc_of(c.documents, (#[trigger] next[j]).id) matches Some(
        known,
    ) ==> known.path == next[j].path) by {
        lemma_closed(p, p.documents, 0, next, next[j].id);
        lemma_doc_place(p.documents, next[j].id, 0);
        lemma_doc_at(next, j);
    }
    lemma_shared_all(c, next, 0, id);
    lemma_doc_place(next, id, 0);
    lemma_doc_place(p.documents, id, 0);
}

// Diagnostics belong to what the server was told.

impl Proto {
    /// Whether every publication is of a document that the server knows, in
    /// the version that it was told of.
    pub open spec fn current(&self) -> bool {
        forall|i: int| 0 <= i < self.diagnostics.len() ==> is_current(self.documents, #[trigger] self.diagnostics[i])
    }
}

pub open spec fn is_current(docs: Seq<Doc>, d: Published) -> bool {
    doc_of(docs, d.id) matches Some(doc) && doc.version == d.version && doc.path == d.path
}

/// No message makes diagnostics of another version count.
pub proof fn diagnostics_are_of_the_known_version(p: Proto, message: Json, now: u64)
    requires
        in_order(p.documents),
        p.current(),
    ensures
        handled(p, message, now).next.current(),
{
    let next = handled(p, message, now).next;
    if message is Object {
        let object = message->Object_0;
        let publication = publication_of(json::member(object, "params"@));
        if publication is Some {
            let (uri, version, values) = publication->0;
            lemma_addressed(p.documents, p.root_uri, uri, version, 0);
            let place = addressed(p.documents, p.root_uri, uri, version, 0);
            if place is Some {
                let doc = p.documents[place->0];
                lemma_others(p.diagnostics, doc.id);
                lemma_doc_at(p.documents, place->0);
                let others = of_others(p.diagnostics, doc.id);
                assert forall|i: int| 0 <= i < others.len() implies is_current(
                    p.documents,
                    #[trigger] others[i],
                ) by {
                    let j = p.diagnostics.index_of(others[i]);
                    assert(p.diagnostics[j] == others[i]);
                }
                assert(room_made(others, p.limits.files).len() <= others.len());
            }
        }
        let id = json::json_i64(json::member(object, "id"@));
        if id is Some {
            lemma_place(p.pending, id->0, 0);
        }
    }
}

proof fn lemma_others_current(docs: Seq<Doc>, after: Seq<Doc>, published: Seq<Published>, id: Seq<char>)
    requires
        forall|i: int| 0 <= i < published.len() ==> is_current(docs, #[trigger] published[i]),
        forall|other: Seq<char>| other != id ==> #[trigger] doc_of(after, other) == doc_of(docs, other),
    ensures
        forall|i: int|
            0 <= i < of_others(published, id).len() ==> is_current(
                after,
                #[trigger] of_others(published, id)[i],
            ),
{
    lemma_others(published, id);
    assert forall|i: int| 0 <= i < of_others(published, id).len() implies is_current(
        after,
        #[trigger] of_others(published, id)[i],
    ) by {
        let d = of_others(published, id)[i];
        let j = published.index_of(d);
        assert(published[j] == d);
        assert(doc_of(after, d.id) == doc_of(docs, d.id));
    }
}

proof fn lemma_closed_current(p: Proto, known: Seq<Doc>, from: nat, next: Seq<Doc>)
    requires
        in_order(p.documents),
        p.current(),
    ensures
        in_order(closed(p, known, from, next).next.documents),
        closed(p, known, from, next).next.current(),
    decreases known.len() - from,
{
    if from < known.len() {
        if stays(next, known[from as int]) {
            lemma_closed_current(p, known, from + 1, next);
        } else {
            let s = close_told(p, known[from as int]);
            let gone = known[from as int].id;
            let q = forgotten(s.next, gone);
            lemma_forgotten(s.next, gone, gone);
            assert forall|other: Seq<char>| other != gone implies #[trigger] doc_of(q.documents, other)
                == doc_of(p.documents, other) by {
                lemma_forgotten(s.next, gone, other);
            }
            lemma_others_current(p.documents, q.documents, p.diagnostics, gone);
            lemma_closed_current(q, known, from + 1, next);
        }
    }
}

proof fn lemma_shared_current(p: Proto, next: Seq<Doc>, from: nat)
    requires
        in_order(p.documents),
        p.current(),
    ensures
        shared_all(p, next, from).next.current(),
    decreases next.len() - from,
{
    if from < next.len() {
        let doc = next[from as int];
        let s = shared(p, doc);
        put_keeps_order(p.documents, doc);
        assert forall|other: Seq<char>| other != doc.id implies #[trigger] doc_of(
            put(p.documents, doc),
            other,
        ) == doc_of(p.documents, other) by {
            put_is_found(p.documents, doc, other);
        }
        lemma_others_current(p.documents, put(p.documents, doc), p.diagnostics, doc.id);
        assert(s.next.current());
        lemma_shared_current(s.next, next, from + 1);
    }
}

/// Bringing documents in step drops the diagnostics of what has changed.
pub proof fn changed_documents_lose_their_diagnostics(p: Proto, documents: Seq<Doc>)
    requires
        in_order(p.documents),
        p.current(),
    ensures
        reconciled(p, documents).next.current(),
{
    let next = wanted(documents);
    lemma_closed_current(p, p.documents, 0, next);
    lemma_shared_current(closed(p, p.documents, 0, next).next, next, 0);
}

} // verus!
