//! Keeping a language server's documents in step, and asking it things.

use crate::json::Json;
use crate::lsp_json;
use crate::lsp_json::{answers, document_address, is_rust_path, version_fault};
use crate::order::{lemma_text_total, lemma_text_transitive, text_before, text_comes_first};
use crate::protocol::{
    docs_view, failed, fine, in_order, notified, Doc, DocumentState, Proto, Protocol, Stepped,
};
use crate::protocol_replies::of_others;
use crate::text;
use vstd::prelude::*;

verus! {

// Documents by name.

/// The place of the document of a name.
pub open spec fn doc_place(docs: Seq<Doc>, id: Seq<char>, from: nat) -> Option<int>
    decreases docs.len() - from,
{
    if from >= docs.len() {
        None
    } else if docs[from as int].id == id {
        Some(from as int)
    } else {
        doc_place(docs, id, from + 1)
    }
}

pub open spec fn doc_of(docs: Seq<Doc>, id: Seq<char>) -> Option<Doc> {
    match doc_place(docs, id, 0) {
        Some(k) => Some(docs[k]),
        None => None,
    }
}

/// The first place whose document does not come before the name.
pub open spec fn free_place(docs: Seq<Doc>, id: Seq<char>, from: nat) -> int
    decreases docs.len() - from,
{
    if from >= docs.len() || !text_before(docs[from as int].id, id) {
        from as int
    } else {
        free_place(docs, id, from + 1)
    }
}

/// A document put in its place, or in place of the one of its name.
pub open spec fn put(docs: Seq<Doc>, doc: Doc) -> Seq<Doc> {
    let k = free_place(docs, doc.id, 0);
    if k < docs.len() && docs[k].id == doc.id {
        docs.update(k, doc)
    } else {
        docs.insert(k, doc)
    }
}

/// The documents that the server is to know: those in Rust, the last of each
/// name, in order.
pub open spec fn wanted(docs: Seq<Doc>) -> Seq<Doc>
    decreases docs.len(),
{
    if docs.len() == 0 {
        Seq::empty()
    } else if is_rust_path(docs.last().path) {
        put(wanted(docs.drop_last()), docs.last())
    } else {
        wanted(docs.drop_last())
    }
}

proof fn lemma_free_place(docs: Seq<Doc>, id: Seq<char>, from: nat)
    requires
        from <= docs.len(),
    ensures
        from <= free_place(docs, id, from) <= docs.len(),
        forall|i: int| from <= i < free_place(docs, id, from) ==> text_before((#[trigger] docs[i]).id, id),
        free_place(docs, id, from) < docs.len() ==> !text_before(
            docs[free_place(docs, id, from)].id,
            id,
        ),
    decreases docs.len() - from,
{
    if from < docs.len() && text_before(docs[from as int].id, id) {
        lemma_free_place(docs, id, from + 1);
    }
}

/// Putting a document keeps the order.
pub proof fn put_keeps_order(docs: Seq<Doc>, doc: Doc)
    requires
        in_order(docs),
    ensures
        in_order(put(docs, doc)),
{
    lemma_free_place(docs, doc.id, 0);
    let k = free_place(docs, doc.id, 0);
    let after = put(docs, doc);
    if k < docs.len() && docs[k].id == doc.id {
        assert forall|i: int, j: int| 0 <= i < j < after.len() implies text_before(
            (#[trigger] after[i]).id,
            (#[trigger] after[j]).id,
        ) by {
            assert(after[i].id == docs[i].id && after[j].id == docs[j].id);
        }
    } else {
        assert forall|i: int, j: int| 0 <= i < j < after.len() implies text_before(
            (#[trigger] after[i]).id,
            (#[trigger] after[j]).id,
        ) by {
            if j == k {
                assert(after[i] == docs[i]);
            } else if i == k {
                assert(after[j] == docs[j - 1]);
                lemma_text_total(doc.id, docs[k].id);
                if j - 1 > k {
                    assert(text_before(docs[k].id, docs[j - 1].id));
                    lemma_text_transitive(doc.id, docs[k].id, docs[j - 1].id);
                }
            } else {
                let a = if i < k {
                    i
                } else {
                    i - 1
                };
                let b = if j < k {
                    j
                } else {
                    j - 1
                };
                assert(after[i] == docs[a] && after[j] == docs[b]);
            }
        }
    }
}

/// The wanted documents stand in order, each name once.
pub proof fn wanted_is_in_order(docs: Seq<Doc>)
    ensures
        in_order(wanted(docs)),
    decreases docs.len(),
{
    if docs.len() > 0 {
        wanted_is_in_order(docs.drop_last());
        if is_rust_path(docs.last().path) {
            put_keeps_order(wanted(docs.drop_last()), docs.last());
        }
    }
}

proof fn lemma_remove_keeps_order(docs: Seq<Doc>, k: int)
    requires
        in_order(docs),
        0 <= k < docs.len(),
    ensures
        in_order(docs.remove(k)),
{
    let after = docs.remove(k);
    assert forall|i: int, j: int| 0 <= i < j < after.len() implies text_before(
        (#[trigger] after[i]).id,
        (#[trigger] after[j]).id,
    ) by {
        let a = if i < k {
            i
        } else {
            i + 1
        };
        let b = if j < k {
            j
        } else {
            j + 1
        };
        assert(after[i] == docs[a] && after[j] == docs[b]);
    }
}

proof fn lemma_doc_place(docs: Seq<Doc>, id: Seq<char>, from: nat)
    ensures
        match doc_place(docs, id, from) {
            Some(k) => from <= k < docs.len() && docs[k].id == id,
            None => true,
        },
    decreases docs.len() - from,
{
    if from < docs.len() {
        lemma_doc_place(docs, id, from + 1);
    }
}

pub(crate) fn find_doc(docs: &Vec<DocumentState>, id: &str) -> (r: Option<usize>)
    ensures
        match doc_place(docs_view(docs@), id@, 0) {
            Some(k) => r is Some && r->0 == k && k < docs@.len(),
            None => r is None,
        },
{
    let ghost all = docs_view(docs@);
    let mut i: usize = 0;
    while i < docs.len()
        invariant
            i <= docs@.len(),
            all == docs_view(docs@),
            doc_place(all, id@, 0) == doc_place(all, id@, i as nat),
        decreases docs@.len() - i,
    {
        assert(all[i as int] == docs@[i as int].view());
        if text::str_eq(docs[i].document_id.as_str(), id) {
            return Some(i);
        }
        i += 1;
    }
    None
}

fn put_doc(docs: &mut Vec<DocumentState>, doc: DocumentState)
    ensures
        docs_view(final(docs)@) == put(docs_view(old(docs)@), doc.view()),
{
    let ghost all = docs_view(docs@);
    let ghost before = docs@;
    let mut i: usize = 0;
    while i < docs.len() && text_comes_first(docs[i].document_id.as_str(), doc.document_id.as_str())
        invariant
            i <= docs@.len(),
            docs@ == before,
            all == docs_view(docs@),
            free_place(all, doc.view().id, 0) == free_place(all, doc.view().id, i as nat),
        decreases docs@.len() - i,
    {
        assert(all[i as int] == docs@[i as int].view());
        i += 1;
    }
    proof {
        if i < docs@.len() {
            assert(all[i as int] == docs@[i as int].view());
        }
    }
    if i < docs.len() && text::str_eq(docs[i].document_id.as_str(), doc.document_id.as_str()) {
        docs.set(i, doc);
        assert(docs_view(docs@) =~= all.update(i as int, doc.view()));
    } else {
        docs.insert(i, doc);
        assert(docs_view(docs@) =~= all.insert(i as int, doc.view()));
    }
}

fn collect_wanted(docs: &Vec<DocumentState>) -> (r: Vec<DocumentState>)
    ensures
        docs_view(r@) == wanted(docs_view(docs@)),
{
    let ghost all = docs_view(docs@);
    let mut r: Vec<DocumentState> = Vec::new();
    let mut i: usize = 0;
    assert(all.take(0) =~= Seq::<Doc>::empty());
    assert(docs_view(r@) =~= Seq::<Doc>::empty());
    while i < docs.len()
        invariant
            i <= docs@.len(),
            all == docs_view(docs@),
            docs_view(r@) == wanted(all.take(i as int)),
        decreases docs@.len() - i,
    {
        proof {
            assert(all.take(i + 1).drop_last() =~= all.take(i as int));
            assert(all.take(i + 1).last() == docs@[i as int].view());
        }
        if lsp_json::supports_document(docs[i].path.as_str()) {
            put_doc(&mut r, docs[i].copy());
        }
        i += 1;
    }
    assert(all.take(all.len() as int) =~= all);
    r
}

// What the server is told of documents.

pub open spec fn named(uri: Seq<char>) -> Json {
    Json::Object(seq![("textDocument"@, Json::Object(seq![("uri"@, Json::Text(uri))]))])
}

pub open spec fn close_told(p: Proto, doc: Doc) -> Stepped {
    notified(p, "textDocument/didClose"@, named(document_address(p.root_uri, doc.path)))
}

pub open spec fn open_told(p: Proto, doc: Doc) -> Stepped {
    notified(
        p,
        "textDocument/didOpen"@,
        Json::Object(
            seq![
                (
                    "textDocument"@,
                    Json::Object(
                        seq![
                            ("uri"@, Json::Text(document_address(p.root_uri, doc.path))),
                            ("languageId"@, Json::Text("rust"@)),
                            ("version"@, Json::Unsigned(doc.version)),
                            ("text"@, Json::Text(doc.text)),
                        ],
                    ),
                ),
            ],
        ),
    )
}

pub open spec fn change_told(p: Proto, doc: Doc) -> Stepped {
    notified(
        p,
        "textDocument/didChange"@,
        Json::Object(
            seq![
                (
                    "textDocument"@,
                    Json::Object(
                        seq![
                            ("uri"@, Json::Text(document_address(p.root_uri, doc.path))),
                            ("version"@, Json::Unsigned(doc.version)),
                        ],
                    ),
                ),
                (
                    "contentChanges"@,
                    Json::Array(seq![Json::Object(seq![("text"@, Json::Text(doc.text))])]),
                ),
            ],
        ),
    )
}

/// A document and what was published of it leave.
pub open spec fn forgotten(p: Proto, id: Seq<char>) -> Proto {
    Proto {
        documents: match doc_place(p.documents, id, 0) {
            Some(k) => p.documents.remove(k),
            None => p.documents,
        },
        diagnostics: of_others(p.diagnostics, id),
        ..p
    }
}

/// Whether a document that the server knows stays at its place.
pub open spec fn stays(next: Seq<Doc>, doc: Doc) -> bool {
    match doc_of(next, doc.id) {
        Some(d) => d.path == doc.path,
        None => false,
    }
}

/// Closes those of `known`, from a place on, that do not stay.
pub open spec fn closed(p: Proto, known: Seq<Doc>, from: nat, next: Seq<Doc>) -> Stepped
    decreases known.len() - from,
{
    if from >= known.len() {
        fine(p)
    } else if stays(next, known[from as int]) {
        closed(p, known, from + 1, next)
    } else {
        let s = close_told(p, known[from as int]);
        match s.fault {
            Some(why) => s,
            None => closed(forgotten(s.next, known[from as int].id), known, from + 1, next),
        }
    }
}

/// Opens a document, or tells of its change.
pub open spec fn shared(p: Proto, doc: Doc) -> Stepped {
    match version_fault(doc.version) {
        Some(why) => failed(p, why),
        None => match doc_of(p.documents, doc.id) {
            None => {
                let s = open_told(p, doc);
                match s.fault {
                    Some(why) => s,
                    None => fine(Proto { documents: put(s.next.documents, doc), ..s.next }),
                }
            },
            Some(known) => if known.version == doc.version && known.text == doc.text {
                fine(p)
            } else if doc.version <= known.version {
                failed(p, "language-server document version did not advance"@)
            } else {
                let s = change_told(p, doc);
                match s.fault {
                    Some(why) => s,
                    None => fine(
                        Proto {
                            documents: put(s.next.documents, doc),
                            diagnostics: of_others(s.next.diagnostics, doc.id),
                            ..s.next
                        },
                    ),
                }
            },
        },
    }
}

pub open spec fn shared_all(p: Proto, next: Seq<Doc>, from: nat) -> Stepped
    decreases next.len() - from,
{
    if from >= next.len() {
        fine(p)
    } else {
        let s = shared(p, next[from as int]);
        match s.fault {
            Some(why) => s,
            None => shared_all(s.next, next, from + 1),
        }
    }
}

/// Brings the server's documents in step with the editor's.
pub open spec fn reconciled(p: Proto, documents: Seq<Doc>) -> Stepped {
    let next = wanted(documents);
    let s = closed(p, p.documents, 0, next);
    match s.fault {
        Some(why) => s,
        None => shared_all(s.next, next, 0),
    }
}

impl Protocol {
    pub(crate) fn tell_close(&mut self, path: &str) -> (r: Result<(), String>)
        ensures
            forall|doc: Doc|
                #![trigger close_told(old(self).view(), doc)]
                doc.path == path@ ==> final(self).view() == close_told(old(self).view(), doc).next
                    && answers(r, close_told(old(self).view(), doc).fault),
    {
        let uri = lsp_json::document_uri(self.root_uri.as_str(), path);
        let params = lsp_json::object1(
            "textDocument",
            lsp_json::object1("uri", lsp_json::text_value(uri.as_str())),
        );
        self.notify("textDocument/didClose", params)
    }

    fn tell_open(&mut self, doc: &DocumentState) -> (r: Result<(), String>)
        ensures
            final(self).view() == open_told(old(self).view(), doc.view()).next,
            answers(r, open_told(old(self).view(), doc.view()).fault),
    {
        let uri = lsp_json::document_uri(self.root_uri.as_str(), doc.path.as_str());
        let params = lsp_json::object1(
            "textDocument",
            lsp_json::object4(
                "uri",
                lsp_json::text_value(uri.as_str()),
                "languageId",
                lsp_json::text_value("rust"),
                "version",
                lsp_json::number_value(doc.version),
                "text",
                lsp_json::text_value(doc.text.as_str()),
            ),
        );
        self.notify("textDocument/didOpen", params)
    }

    fn tell_change(&mut self, doc: &DocumentState) -> (r: Result<(), String>)
        ensures
            final(self).view() == change_told(old(self).view(), doc.view()).next,
            answers(r, change_told(old(self).view(), doc.view()).fault),
    {
        let uri = lsp_json::document_uri(self.root_uri.as_str(), doc.path.as_str());
        let params = lsp_json::object2(
            "textDocument",
            lsp_json::object2(
                "uri",
                lsp_json::text_value(uri.as_str()),
                "version",
                lsp_json::number_value(doc.version),
            ),
            "contentChanges",
            lsp_json::one(lsp_json::object1("text", lsp_json::text_value(doc.text.as_str()))),
        );
        self.notify("textDocument/didChange", params)
    }

    fn forget(&mut self, id: &str)
        requires
            in_order(old(self).view().documents),
        ensures
            final(self).view() == forgotten(old(self).view(), id@),
            in_order(final(self).view().documents),
    {
        match find_doc(&self.documents, id) {
            Some(k) => {
                proof {
                    lemma_remove_keeps_order(docs_view(self.documents@), k as int);
                }
                let ghost before = self.documents@;
                self.documents.remove(k);
                assert(docs_view(self.documents@) =~= docs_view(before).remove(k as int));
            },
            None => {},
        }
        self.drop_published(id);
    }

    fn close_gone(&mut self, next: &Vec<DocumentState>) -> (r: Result<(), String>)
        requires
            old(self).view().well_formed(),
        ensures
            final(self).view() == closed(
                old(self).view(),
                old(self).view().documents,
                0,
                docs_view(next@),
            ).next,
            answers(
                r,
                closed(old(self).view(), old(self).view().documents, 0, docs_view(next@)).fault,
            ),
            final(self).view().well_formed(),
    {
        let mut known: Vec<DocumentState> = Vec::new();
        let mut i: usize = 0;
        while i < self.documents.len()
            invariant
                i <= self.documents@.len(),
                known@.len() == i,
                forall|j: int| 0 <= j < i ==> (#[trigger] known@[j]).view() == self.documents@[j].view(),
            decreases self.documents@.len() - i,
        {
            known.push(self.documents[i].copy());
            i += 1;
        }
        let ghost all = docs_view(known@);
        let ghost start = self.view();
        assert(all =~= start.documents);
        let ghost goal = closed(start, all, 0, docs_view(next@));
        let mut k: usize = 0;
        while k < known.len()
            invariant
                k <= known@.len(),
                all == docs_view(known@),
                self.view().well_formed(),
                goal == closed(self.view(), all, k as nat, docs_view(next@)),
                goal == closed(
                    old(self).view(),
                    old(self).view().documents,
                    0,
                    docs_view(next@),
                ),
            decreases known@.len() - k,
        {
            assert(all[k as int] == known@[k as int].view());
            let doc = &known[k];
            let keep = match find_doc(next, doc.document_id.as_str()) {
                Some(j) => {
                    assert(docs_view(next@)[j as int] == next@[j as int].view());
                    text::str_eq(next[j].path.as_str(), doc.path.as_str())
                },
                None => false,
            };
            assert(keep == stays(docs_view(next@), doc.view()));
            if !keep {
                assert(close_told(self.view(), doc.view()).next.numbered());
                self.tell_close(doc.path.as_str())?;
                self.forget(doc.document_id.as_str());
            }
            k += 1;
        }
        Ok(())
    }

    fn share(&mut self, doc: &DocumentState) -> (r: Result<(), String>)
        requires
            old(self).view().well_formed(),
        ensures
            final(self).view() == shared(old(self).view(), doc.view()).next,
            answers(r, shared(old(self).view(), doc.view()).fault),
            final(self).view().well_formed(),
    {
        match lsp_json::checked_version(doc.version) {
            Ok(_) => {},
            Err(why) => {
                return Err(why);
            },
        }
        let place = find_doc(&self.documents, doc.document_id.as_str());
        match place {
            None => {
                self.tell_open(doc)?;
                proof {
                    put_keeps_order(self.view().documents, doc.view());
                }
                put_doc(&mut self.documents, doc.copy());
            },
            Some(k) => {
                assert(self.view().documents[k as int] == self.documents@[k as int].view());
                let same = self.documents[k].version == doc.version && text::str_eq(
                    self.documents[k].text.as_str(),
                    doc.text.as_str(),
                );
                if same {
                    return Ok(());
                }
                if doc.version <= self.documents[k].version {
                    return Err("language-server document version did not advance".to_owned());
                }
                self.tell_change(doc)?;
                self.drop_published(doc.document_id.as_str());
                proof {
                    put_keeps_order(self.view().documents, doc.view());
                }
                put_doc(&mut self.documents, doc.copy());
            },
        }
        Ok(())
    }

    /// Brings the server's documents in step with the editor's.
    pub fn reconcile_documents(&mut self, desired: &Vec<DocumentState>) -> (r: Result<(), String>)
        requires
            old(self).view().well_formed(),
        ensures
            final(self).view() == reconciled(old(self).view(), docs_view(desired@)).next,
            answers(r, reconciled(old(self).view(), docs_view(desired@)).fault),
            final(self).view().well_formed(),
    {
        let next = collect_wanted(desired);
        self.close_gone(&next)?;
        let ghost all = docs_view(next@);
        let ghost goal = shared_all(self.view(), all, 0);
        let mut k: usize = 0;
        while k < next.len()
            invariant
                k <= next@.len(),
                all == docs_view(next@),
                self.view().well_formed(),
                goal == shared_all(self.view(), all, k as nat),
                goal == reconciled(old(self).view(), docs_view(desired@)),
            decreases next@.len() - k,
        {
            assert(all[k as int] == next@[k as int].view());
            self.share(&next[k])?;
            k += 1;
        }
        Ok(())
    }
}

} // verus!
