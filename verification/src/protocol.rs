//! The conversation with a language server: what is asked, what is answered,
//! and which documents the server has been told of.

use crate::json;
use crate::json::{items_view, Json, JsonValue};
use crate::lsp_json;
use crate::lsp_json::{answers, integer, json_fault, options, LspLimits};
use crate::lsp_parse::{
    completions_view, lives_view, CompletionItem, Item, Live, LiveDiagnostic, Utf16Position,
};
use crate::order::text_before;
use crate::text;
use vstd::prelude::*;

verus! {

pub const MAX_MESSAGES_PER_POLL: usize = 16;

pub const MAX_PENDING_REQUESTS: usize = 64;

pub const MAX_CONFIGURATION_ITEMS: usize = 64;

pub const MAX_DIAGNOSTIC_DROP_LOGS: usize = 8;

/// Room in the outbox beside one message for each file.
pub const OUTBOX_ROOM: usize = 80;

pub const INITIALIZE_DEADLINE: u64 = 30_000;

pub const RELOAD_DEADLINE: u64 = 30_000;

pub const SHUTDOWN_DEADLINE: u64 = 2_000;

pub const COMPLETION_DEADLINE: u64 = 3_000;

/// The latest time, in milliseconds, at which something can still be asked.
pub const LAST_MOMENT: u64 = 0x7fff_ffff_ffff_ffff;

pub const LSP_POSITION_ENCODING: &'static str = "utf-16";

/// A document as the editor has it, or as the server was told of it.
#[derive(Clone, Debug, PartialEq, Eq)]
pub struct DocumentState {
    pub document_id: String,
    pub path: String,
    pub version: u64,
    pub text: String,
}

pub struct Doc {
    pub id: Seq<char>,
    pub path: Seq<char>,
    pub version: u64,
    pub text: Seq<char>,
}

impl DocumentState {
    pub open spec fn view(&self) -> Doc {
        Doc {
            id: self.document_id@,
            path: self.path@,
            version: self.version,
            text: self.text@,
        }
    }

    pub fn copy(&self) -> (r: DocumentState)
        ensures
            r.view() == self.view(),
    {
        DocumentState {
            document_id: self.document_id.clone(),
            path: self.path.clone(),
            version: self.version,
            text: self.text.clone(),
        }
    }
}

pub open spec fn docs_view(v: Seq<DocumentState>) -> Seq<Doc> {
    Seq::new(v.len(), |i: int| v[i].view())
}

/// What a completion was asked for.
#[derive(Clone, Debug, PartialEq, Eq)]
pub struct CompletionRequest {
    pub generation: u64,
    pub request_sequence: u64,
    pub document_id: String,
    pub path: String,
    pub version: u64,
    pub position_byte: u64,
    pub position: Utf16Position,
}

pub struct Asked {
    pub generation: u64,
    pub request_sequence: u64,
    pub id: Seq<char>,
    pub path: Seq<char>,
    pub version: u64,
    pub position_byte: u64,
    pub position: Utf16Position,
}

impl CompletionRequest {
    pub open spec fn view(&self) -> Asked {
        Asked {
            generation: self.generation,
            request_sequence: self.request_sequence,
            id: self.document_id@,
            path: self.path@,
            version: self.version,
            position_byte: self.position_byte,
            position: self.position,
        }
    }
}

#[derive(Clone, Debug, PartialEq, Eq)]
pub struct CompletionResponse {
    pub request: CompletionRequest,
    pub items: Vec<CompletionItem>,
}

pub struct Response {
    pub request: Asked,
    pub items: Seq<Item>,
}

impl CompletionResponse {
    pub open spec fn view(&self) -> Response {
        Response { request: self.request.view(), items: completions_view(self.items@) }
    }
}

pub open spec fn responses_view(v: Seq<CompletionResponse>) -> Seq<Response> {
    Seq::new(v.len(), |i: int| v[i].view())
}

/// The diagnostics of one version of one document.
#[derive(Clone, Debug, PartialEq, Eq)]
pub struct PublishedDiagnostics {
    pub generation: u64,
    pub document_id: String,
    pub path: String,
    pub version: u64,
    pub diagnostics: Vec<LiveDiagnostic>,
}

pub struct Published {
    pub generation: u64,
    pub id: Seq<char>,
    pub path: Seq<char>,
    pub version: u64,
    pub diagnostics: Seq<Live>,
}

impl PublishedDiagnostics {
    pub open spec fn view(&self) -> Published {
        Published {
            generation: self.generation,
            id: self.document_id@,
            path: self.path@,
            version: self.version,
            diagnostics: lives_view(self.diagnostics@),
        }
    }
}

pub open spec fn published_view(v: Seq<PublishedDiagnostics>) -> Seq<Published> {
    Seq::new(v.len(), |i: int| v[i].view())
}

#[derive(Clone, Debug, PartialEq, Eq)]
pub enum PendingKind {
    Initialize,
    Reload,
    Shutdown,
    Completion(CompletionRequest),
}

pub enum Kind {
    Initialize,
    Reload,
    Shutdown,
    Completion(Asked),
}

impl PendingKind {
    pub open spec fn view(&self) -> Kind {
        match self {
            PendingKind::Initialize => Kind::Initialize,
            PendingKind::Reload => Kind::Reload,
            PendingKind::Shutdown => Kind::Shutdown,
            PendingKind::Completion(r) => Kind::Completion(r.view()),
        }
    }
}

/// A request without an answer.
#[derive(Clone, Debug, PartialEq, Eq)]
pub struct PendingRequest {
    pub id: i64,
    pub generation: u64,
    pub kind: PendingKind,
    pub deadline: u64,
}

pub struct Waiting {
    pub id: i64,
    pub generation: u64,
    pub kind: Kind,
    pub deadline: u64,
}

impl PendingRequest {
    pub open spec fn view(&self) -> Waiting {
        Waiting {
            id: self.id,
            generation: self.generation,
            kind: self.kind.view(),
            deadline: self.deadline,
        }
    }
}

pub open spec fn pending_view(v: Seq<PendingRequest>) -> Seq<Waiting> {
    Seq::new(v.len(), |i: int| v[i].view())
}

#[derive(Clone, Copy, Debug, PartialEq, Eq, Structural)]
pub enum ProtocolState {
    Initializing,
    Ready,
    Stopping,
    ExitSent,
}

/// One side of the conversation. Requests stand in the order of their numbers,
/// documents in the order of their names.
pub struct Protocol {
    pub limits: LspLimits,
    pub generation: u64,
    pub root_uri: String,
    pub root_name: String,
    pub state: ProtocolState,
    pub next_id: i64,
    pub pending: Vec<PendingRequest>,
    pub outbox: Vec<JsonValue>,
    pub documents: Vec<DocumentState>,
    pub completions: Vec<CompletionResponse>,
    pub diagnostics: Vec<PublishedDiagnostics>,
    pub diagnostic_drop_logs: usize,
    pub ready_since: Option<u64>,
}

pub struct Proto {
    pub limits: LspLimits,
    pub generation: u64,
    pub root_uri: Seq<char>,
    pub root_name: Seq<char>,
    pub state: ProtocolState,
    pub next_id: i64,
    pub pending: Seq<Waiting>,
    pub outbox: Seq<Json>,
    pub documents: Seq<Doc>,
    pub completions: Seq<Response>,
    pub diagnostics: Seq<Published>,
    pub drops: usize,
    pub ready_since: Option<u64>,
}

impl Protocol {
    pub open spec fn view(&self) -> Proto {
        Proto {
            limits: self.limits,
            generation: self.generation,
            root_uri: self.root_uri@,
            root_name: self.root_name@,
            state: self.state,
            next_id: self.next_id,
            pending: pending_view(self.pending@),
            outbox: items_view(self.outbox@),
            documents: docs_view(self.documents@),
            completions: responses_view(self.completions@),
            diagnostics: published_view(self.diagnostics@),
            drops: self.diagnostic_drop_logs,
            ready_since: self.ready_since,
        }
    }
}

impl Proto {
    /// Every request has a number of its own, below the next one.
    pub open spec fn numbered(&self) -> bool {
        &&& forall|i: int| 0 <= i < self.pending.len() ==> (#[trigger] self.pending[i]).id < self.next_id
        &&& forall|i: int, j: int|
            0 <= i < j < self.pending.len() ==> (#[trigger] self.pending[i]).id < (
            #[trigger] self.pending[j]).id
    }

    pub open spec fn well_formed(&self) -> bool {
        self.numbered() && in_order(self.documents)
    }
}

/// Documents in the order of their names, each once.
pub open spec fn in_order(docs: Seq<Doc>) -> bool {
    forall|i: int, j: int|
        0 <= i < j < docs.len() ==> text_before((#[trigger] docs[i]).id, (#[trigger] docs[j]).id)
}

/// A state, and what went wrong on the way to it.
pub struct Stepped {
    pub next: Proto,
    pub fault: Option<Seq<char>>,
}

pub open spec fn fine(p: Proto) -> Stepped {
    Stepped { next: p, fault: None }
}

pub open spec fn failed(p: Proto, why: Seq<char>) -> Stepped {
    Stepped { next: p, fault: Some(why) }
}

// Sending.

pub open spec fn enqueued(p: Proto, message: Json) -> Stepped {
    match json_fault(message, p.limits.string_bytes) {
        Some(why) => failed(p, why),
        None => admitted(p, message, text::byte_len(json::json_text(message))),
    }
}

/// Puts a message whose text is of some length in the outbox, if it has room.
pub open spec fn admitted(p: Proto, message: Json, size: nat) -> Stepped {
    if size > p.limits.message_bytes {
        failed(p, "outgoing language-server message exceeds byte limit"@)
    } else if p.outbox.len() >= p.limits.files + OUTBOX_ROOM {
        failed(p, "language-server protocol outbox limit reached"@)
    } else {
        fine(Proto { outbox: p.outbox.push(message), ..p })
    }
}

pub open spec fn notification(method: Seq<char>, params: Json) -> Json {
    Json::Object(
        seq![
            ("jsonrpc"@, Json::Text("2.0"@)),
            ("method"@, Json::Text(method)),
            ("params"@, params),
        ],
    )
}

pub open spec fn question(id: i64, method: Seq<char>, params: Json) -> Json {
    Json::Object(
        seq![
            ("jsonrpc"@, Json::Text("2.0"@)),
            ("id"@, integer(id)),
            ("method"@, Json::Text(method)),
            ("params"@, params),
        ],
    )
}

pub open spec fn notified(p: Proto, method: Seq<char>, params: Json) -> Stepped {
    enqueued(p, notification(method, params))
}

pub open spec fn requested(p: Proto, kind: Kind, method: Seq<char>, params: Json, deadline: u64) -> Stepped {
    if p.pending.len() >= MAX_PENDING_REQUESTS {
        failed(p, "language-server pending-request limit reached"@)
    } else if p.next_id == i64::MAX {
        failed(p, "language-server request ID overflow"@)
    } else {
        let w = Waiting { id: p.next_id, generation: p.generation, kind, deadline };
        enqueued(
            Proto { next_id: (p.next_id + 1) as i64, pending: p.pending.push(w), ..p },
            question(p.next_id, method, params),
        )
    }
}

pub open spec fn folder(p: Proto) -> Json {
    Json::Object(seq![("uri"@, Json::Text(p.root_uri)), ("name"@, Json::Text(p.root_name))])
}

/// How the conversation opens.
pub open spec fn opening_params(p: Proto, process: u32, version: Seq<char>) -> Json {
    Json::Object(
        seq![
            ("processId"@, Json::Unsigned(process as u64)),
            (
                "clientInfo"@,
                Json::Object(
                    seq![("name"@, Json::Text("rustrace"@)), ("version"@, Json::Text(version))],
                ),
            ),
            ("rootUri"@, Json::Text(p.root_uri)),
            ("workspaceFolders"@, Json::Array(seq![folder(p)])),
            (
                "capabilities"@,
                Json::Object(
                    seq![
                        (
                            "general"@,
                            Json::Object(
                                seq![
                                    (
                                        "positionEncodings"@,
                                        Json::Array(seq![Json::Text(LSP_POSITION_ENCODING@)]),
                                    ),
                                ],
                            ),
                        ),
                        (
                            "textDocument"@,
                            Json::Object(
                                seq![
                                    (
                                        "publishDiagnostics"@,
                                        Json::Object(seq![("versionSupport"@, Json::Bool(true))]),
                                    ),
                                ],
                            ),
                        ),
                        (
                            "workspace"@,
                            Json::Object(
                                seq![
                                    ("workspaceFolders"@, Json::Bool(true)),
                                    ("configuration"@, Json::Bool(true)),
                                ],
                            ),
                        ),
                    ],
                ),
            ),
            ("initializationOptions"@, options()),
            ("trace"@, Json::Text("off"@)),
        ],
    )
}

pub open spec fn at_start(limits: LspLimits, generation: u64, uri: Seq<char>, name: Option<Seq<char>>) -> Proto {
    Proto {
        limits,
        generation,
        root_uri: uri,
        root_name: match name {
            Some(n) => n,
            None => "workspace"@,
        },
        state: ProtocolState::Initializing,
        next_id: 1,
        pending: Seq::empty(),
        outbox: Seq::empty(),
        documents: Seq::empty(),
        completions: Seq::empty(),
        diagnostics: Seq::empty(),
        drops: 0,
        ready_since: None,
    }
}

/// The conversation once it is open, or why it cannot be.
pub open spec fn opened(
    limits: LspLimits,
    generation: u64,
    root: Option<Seq<char>>,
    name: Option<Seq<char>>,
    process: u32,
    version: Seq<char>,
    now: u64,
) -> Result<Proto, Seq<char>> {
    match lsp_json::uri_of(root) {
        Err(why) => Err(why),
        Ok(uri) => {
            let p = at_start(limits, generation, uri, name);
            let s = requested(
                p,
                Kind::Initialize,
                "initialize"@,
                opening_params(p, process, version),
                (now + INITIALIZE_DEADLINE) as u64,
            );
            match s.fault {
                Some(why) => Err(why),
                None => Ok(s.next),
            }
        },
    }
}

pub open spec fn opt_text(s: Option<&str>) -> Option<Seq<char>> {
    match s {
        Some(t) => Some(t@),
        None => None,
    }
}

impl Protocol {
    pub(crate) fn enqueue(&mut self, message: JsonValue) -> (r: Result<(), String>)
        ensures
            final(self).view() == enqueued(old(self).view(), message.view()).next,
            answers(r, enqueued(old(self).view(), message.view()).fault),
    {
        match lsp_json::validate_json(&message, &self.limits) {
            Ok(()) => {},
            Err(why) => {
                return Err(why);
            },
        }
        let size = text::str_bytes(json::write_json(&message).as_str());
        self.take_in(message, size)
    }

    /// Puts a message whose text is of some length in the outbox, if it has room.
    pub fn take_in(&mut self, message: JsonValue, size: usize) -> (r: Result<(), String>)
        ensures
            final(self).view() == admitted(old(self).view(), message.view(), size as nat).next,
            answers(r, admitted(old(self).view(), message.view(), size as nat).fault),
    {
        if size > self.limits.message_bytes {
            return Err("outgoing language-server message exceeds byte limit".to_owned());
        }
        let held: usize = self.outbox.len();
        assert(self.view().outbox.len() == held);
        if held >= OUTBOX_ROOM && held - OUTBOX_ROOM >= self.limits.files {
            return Err("language-server protocol outbox limit reached".to_owned());
        }
        let ghost before = self.outbox@;
        self.outbox.push(message);
        assert(items_view(self.outbox@) =~= items_view(before).push(message.view()));
        Ok(())
    }

    pub(crate) fn notify(&mut self, method: &str, params: JsonValue) -> (r: Result<(), String>)
        ensures
            final(self).view() == notified(old(self).view(), method@, params.view()).next,
            answers(r, notified(old(self).view(), method@, params.view()).fault),
    {
        self.enqueue(
            lsp_json::object3(
                "jsonrpc",
                lsp_json::text_value("2.0"),
                "method",
                lsp_json::text_value(method),
                "params",
                params,
            ),
        )
    }

    pub(crate) fn request(
        &mut self,
        kind: PendingKind,
        method: &str,
        params: JsonValue,
        deadline: u64,
    ) -> (r: Result<i64, String>)
        requires
            old(self).view().numbered(),
        ensures
            final(self).view() == requested(
                old(self).view(),
                kind.view(),
                method@,
                params.view(),
                deadline,
            ).next,
            final(self).view().numbered(),
            match requested(old(self).view(), kind.view(), method@, params.view(), deadline).fault {
                None => r == Ok::<i64, String>(old(self).next_id),
                Some(why) => r is Err && r->Err_0@ == why,
            },
    {
        assert(self.view().pending.len() == self.pending@.len());
        if self.pending.len() >= MAX_PENDING_REQUESTS {
            return Err("language-server pending-request limit reached".to_owned());
        }
        if self.next_id == i64::MAX {
            return Err("language-server request ID overflow".to_owned());
        }
        let id: i64 = self.next_id;
        let ghost before = self.pending@;
        let waiting = PendingRequest { id, generation: self.generation, kind, deadline };
        self.next_id = id + 1;
        self.pending.push(waiting);
        assert(pending_view(self.pending@) =~= pending_view(before).push(waiting.view()));
        let message = lsp_json::object4(
            "jsonrpc",
            lsp_json::text_value("2.0"),
            "id",
            lsp_json::integer_value(id),
            "method",
            lsp_json::text_value(method),
            "params",
            params,
        );
        match self.enqueue(message) {
            Ok(()) => Ok(id),
            Err(why) => Err(why),
        }
    }

    pub(crate) fn folder_value(&self) -> (r: JsonValue)
        ensures
            r.view() == folder(self.view()),
    {
        lsp_json::object2(
            "uri",
            lsp_json::text_value(self.root_uri.as_str()),
            "name",
            lsp_json::text_value(self.root_name.as_str()),
        )
    }

    fn opening_value(&self, process: u32, version: &str) -> (r: JsonValue)
        ensures
            r.view() == opening_params(self.view(), process, version@),
    {
        let client = lsp_json::object2(
            "name",
            lsp_json::text_value("rustrace"),
            "version",
            lsp_json::text_value(version),
        );
        let general = lsp_json::object1(
            "positionEncodings",
            lsp_json::one(lsp_json::text_value(LSP_POSITION_ENCODING)),
        );
        let document = lsp_json::object1(
            "publishDiagnostics",
            lsp_json::object1("versionSupport", JsonValue::Bool(true)),
        );
        let workspace = lsp_json::object2(
            "workspaceFolders",
            JsonValue::Bool(true),
            "configuration",
            JsonValue::Bool(true),
        );
        let capabilities = lsp_json::object3(
            "general",
            general,
            "textDocument",
            document,
            "workspace",
            workspace,
        );
        let members = vec![
            ("processId".to_owned(), lsp_json::number_value(process as u64)),
            ("clientInfo".to_owned(), client),
            ("rootUri".to_owned(), lsp_json::text_value(self.root_uri.as_str())),
            ("workspaceFolders".to_owned(), lsp_json::one(self.folder_value())),
            ("capabilities".to_owned(), capabilities),
            ("initializationOptions".to_owned(), lsp_json::initialization_options()),
            ("trace".to_owned(), lsp_json::text_value("off")),
        ];
        let r = lsp_json::object_value(members);
        assert(json::members_view(members@) =~= opening_params(
            self.view(),
            process,
            version@,
        )->Object_0);
        r
    }

    /// Opens the conversation about a directory.
    pub fn new(
        limits: LspLimits,
        generation: u64,
        root: Option<&str>,
        root_name: Option<&str>,
        process: u32,
        version: &str,
        now: u64,
    ) -> (r: Result<Protocol, String>)
        requires
            now <= LAST_MOMENT,
        ensures
            match opened(limits, generation, opt_text(root), opt_text(root_name), process, version@, now) {
                Ok(p) => r is Ok && r->Ok_0.view() == p && p.well_formed(),
                Err(why) => r is Err && r->Err_0@ == why,
            },
    {
        let root_uri = match lsp_json::file_uri(root) {
            Ok(uri) => uri,
            Err(why) => {
                return Err(why);
            },
        };
        let root_name = match root_name {
            Some(name) => name.to_owned(),
            None => "workspace".to_owned(),
        };
        let mut protocol = Protocol {
            limits,
            generation,
            root_uri,
            root_name,
            state: ProtocolState::Initializing,
            next_id: 1,
            pending: Vec::new(),
            outbox: Vec::new(),
            documents: Vec::new(),
            completions: Vec::new(),
            diagnostics: Vec::new(),
            diagnostic_drop_logs: 0,
            ready_since: None,
        };
        proof {
            let v = protocol.view();
            assert(v.pending =~= Seq::<Waiting>::empty());
            assert(v.outbox =~= Seq::<Json>::empty());
            assert(v.documents =~= Seq::<Doc>::empty());
            assert(v.completions =~= Seq::<Response>::empty());
            assert(v.diagnostics =~= Seq::<Published>::empty());
        }
        let params = protocol.opening_value(process, version);
        match protocol.request(PendingKind::Initialize, "initialize", params, now + INITIALIZE_DEADLINE) {
            Ok(_) => Ok(protocol),
            Err(why) => Err(why),
        }
    }
}

} // verus!
