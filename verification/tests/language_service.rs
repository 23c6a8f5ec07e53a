use rustrace::json::{JsonNumber, JsonValue};
use rustrace::language_service::{
    backoff, LanguageService, LaunchOutcome, ReloadStep, Search, ServiceAction, ServiceState,
    TransportStatus, MAX_AUTOMATIC_RETRIES,
};
use rustrace::lsp_json::{
    document_uri, file_uri, percent_encode, read_body, supports_document, validate_json,
    validate_text_sync, write_frame, LspLimits, MAX_JSON_DEPTH,
};
use rustrace::lsp_parse::{
    CompletionEdit, LiveDiagnosticSeverity, Utf16Position, MAX_COMPLETION_ITEMS,
    MAX_LIVE_DIAGNOSTICS_PER_DOCUMENT, MAX_LIVE_DIAGNOSTIC_MESSAGE_BYTES,
};
use rustrace::protocol::{
    CompletionResponse, DocumentState, PendingKind, Protocol, ProtocolState, COMPLETION_DEADLINE,
    INITIALIZE_DEADLINE, MAX_DIAGNOSTIC_DROP_LOGS, MAX_MESSAGES_PER_POLL,
};
use rustrace::resolution::{
    launch_spec, resolve, LaunchSpec, ProbeStatus, Resolution, Resolving, ToolProbe, ToolchainReport,
};
use rustrace::stopping::{ChildLook, Ending, ShuttingDown, StopStep};

const LIMITS: LspLimits = LspLimits {
    message_bytes: 8 * 1024 * 1024,
    string_bytes: 1024 * 1024,
    label_bytes: 4096,
    inserted_bytes: 65536,
    files: 4096,
};

fn from_serde(value: serde_json::Value) -> JsonValue {
    match value {
        serde_json::Value::Null => JsonValue::Null,
        serde_json::Value::Bool(b) => JsonValue::Bool(b),
        serde_json::Value::Number(n) => JsonValue::Number(match (n.as_u64(), n.as_i64()) {
            (Some(n), _) => JsonNumber::Unsigned(n),
            (None, Some(n)) => JsonNumber::Negative(n),
            _ => JsonNumber::Float(n.to_string()),
        }),
        serde_json::Value::String(s) => JsonValue::Text(s),
        serde_json::Value::Array(items) => {
            JsonValue::Array(items.into_iter().map(from_serde).collect())
        }
        serde_json::Value::Object(members) => JsonValue::Object(
            members
                .into_iter()
                .map(|(key, value)| (key, from_serde(value)))
                .collect(),
        ),
    }
}

fn to_serde(value: &JsonValue) -> serde_json::Value {
    match value {
        JsonValue::Null => serde_json::Value::Null,
        JsonValue::Bool(b) => serde_json::Value::Bool(*b),
        JsonValue::Number(JsonNumber::Unsigned(n)) => serde_json::Value::from(*n),
        JsonValue::Number(JsonNumber::Negative(n)) => serde_json::Value::from(*n),
        JsonValue::Number(JsonNumber::Float(n)) => serde_json::from_str(n).unwrap(),
        JsonValue::Text(s) => serde_json::Value::from(s.as_str()),
        JsonValue::Array(items) => serde_json::Value::Array(items.iter().map(to_serde).collect()),
        JsonValue::Object(members) => serde_json::Value::Object(
            members
                .iter()
                .map(|(key, value)| (key.clone(), to_serde(value)))
                .collect(),
        ),
    }
}

fn json(text: &str) -> JsonValue {
    from_serde(serde_json::from_str(text).unwrap())
}

fn reply_text(id: i64, result: &str) -> JsonValue {
    json(&format!(
        "{{\"jsonrpc\":\"2.0\",\"id\":{id},\"result\":{result}}}"
    ))
}

fn protocol_of(generation: u64, now: u64) -> Protocol {
    Protocol::new(
        LIMITS,
        generation,
        Some("/owned/work space"),
        Some("work space"),
        1,
        "0.1.0",
        now,
    )
    .unwrap()
}

fn protocol(now: u64) -> Protocol {
    protocol_of(7, now)
}

const READY: &str = "{\"capabilities\":{\"positionEncoding\":\"utf-16\",\"textDocumentSync\":{\"openClose\":true,\"change\":2}}}";

fn initialize(protocol: &mut Protocol, now: u64) {
    let initialize = to_serde(&protocol.outbox.remove(0));
    assert_eq!(initialize["method"], "initialize");
    let id = initialize["id"].as_i64().unwrap();
    protocol.handle(&reply_text(id, READY), now).unwrap();
    assert_eq!(protocol.state, ProtocolState::Ready);
    assert_eq!(
        to_serde(&protocol.outbox.remove(0))["method"],
        "initialized"
    );
}

fn document(index: u64, version: u64, text: &str) -> DocumentState {
    DocumentState {
        document_id: format!("document-{index}"),
        path: format!("src/file-{index}.rs"),
        version,
        text: text.to_owned(),
    }
}

fn failed_launch_resolution() -> Resolution {
    Resolution {
        generation: 1,
        report: found_report(),
        launch: Ok(LaunchSpec {
            selection: "stable".to_owned(),
            analyzer: "/definitely/missing/rust-analyzer".to_owned(),
            cargo: "/definitely/missing/cargo".to_owned(),
            rustc: "/definitely/missing/rustc".to_owned(),
            rustdoc: "/definitely/missing/rustdoc".to_owned(),
        }),
        cleanup_confirmed: true,
    }
}

fn service(state: ServiceState, retries: u8, cleanup_uncertain: bool) -> LanguageService {
    LanguageService {
        generation: 1,
        retries,
        cleanup_uncertain,
        state,
    }
}

#[test]
fn a_full_batch_is_taken_in_one_poll() {
    let mut protocol = protocol(0);
    initialize(&mut protocol, 0);
    let batch: Vec<JsonValue> = (0..MAX_MESSAGES_PER_POLL)
        .map(|id| reply_text(id as i64, "null"))
        .collect();
    protocol.poll(&batch, &Vec::new(), true, 0).unwrap();
    assert_eq!(protocol.state, ProtocolState::Ready);
}

#[test]
fn initialize_rejects_malformed_result_and_sync_capability() {
    let mut missing_result_object = protocol(0);
    assert!(
        missing_result_object
            .handle(&reply_text(1, "null"), 0)
            .is_err(),
        "R3: initialize result must be an object"
    );

    let mut malformed_sync = protocol(0);
    assert!(
        malformed_sync
            .handle(
                &reply_text(1, "{\"capabilities\":{\"textDocumentSync\":\"incremental\"}}"),
                0
            )
            .is_err(),
        "R3: malformed synchronization capability must not grant authority"
    );
}

#[test]
fn text_sync_requires_explicit_open_close_and_supported_change_kind() {
    assert!(validate_text_sync(None).is_err());
    for rejected in [
        "null",
        "2",
        "\"incremental\"",
        "{\"change\": 2}",
        "{\"openClose\": null, \"change\": 2}",
        "{\"openClose\": \"yes\", \"change\": 2}",
        "{\"openClose\": false, \"change\": 2}",
        "{\"openClose\": true}",
        "{\"openClose\": true, \"change\": null}",
        "{\"openClose\": true, \"change\": \"full\"}",
        "{\"openClose\": true, \"change\": 0}",
        "{\"openClose\": true, \"change\": 3}",
    ] {
        assert!(validate_text_sync(Some(&json(rejected))).is_err());
    }
    assert!(validate_text_sync(Some(&json("{\"openClose\": true, \"change\": 1}"))).is_ok());
    assert!(validate_text_sync(Some(&json("{\"openClose\": true, \"change\": 2}"))).is_ok());
}

#[test]
fn complete_resync_is_bounded_by_workspace_policy_instead_of_transport_window() {
    let mut protocol = protocol(0);
    initialize(&mut protocol, 0);
    let documents = (0..32)
        .map(|index| document(index, 1, &format!("pub const V{index}: u64 = {index};\n")))
        .collect::<Vec<_>>();
    protocol
        .reconcile_documents(&documents)
        .expect("R4: every current document must fit the bounded resync queue");
    assert_eq!(protocol.documents.len(), documents.len());
    assert_eq!(protocol.outbox.len(), documents.len());
}

#[test]
fn maximum_policy_source_survives_worst_case_json_expansion_and_resync() {
    let mut protocol = protocol(0);
    initialize(&mut protocol, 0);
    let maximum = LIMITS.string_bytes;
    let first = "\u{1}".repeat(maximum);
    protocol
        .reconcile_documents(&vec![document(1, 1, &first)])
        .expect("maximum valid source must fit didOpen");
    let opened = to_serde(&protocol.outbox.remove(0));
    assert_eq!(opened["method"], "textDocument/didOpen");
    assert_eq!(opened["params"]["textDocument"]["text"], first);
    assert!(serde_json::to_vec(&opened).unwrap().len() <= LIMITS.message_bytes);

    let second = "\u{2}".repeat(maximum);
    protocol
        .reconcile_documents(&vec![document(1, 2, &second)])
        .expect("maximum valid source must fit full resynchronization");
    let changed = to_serde(&protocol.outbox.remove(0));
    assert_eq!(changed["method"], "textDocument/didChange");
    assert_eq!(changed["params"]["contentChanges"][0]["text"], second);
    assert!(serde_json::to_vec(&changed).unwrap().len() <= LIMITS.message_bytes);
}

#[test]
fn cleanup_confirmed_launch_failures_have_one_initial_attempt_and_five_retries() {
    let now = 0;
    let mut service = service(ServiceState::Unavailable, 0, false);
    for attempt in 1..=usize::from(MAX_AUTOMATIC_RETRIES) + 1 {
        service.state = ServiceState::Pending(failed_launch_resolution());
        assert!(service.authorize_resolution(true).is_some());
        service.finish_launch(
            LaunchOutcome::Failed {
                cleanup_confirmed: true,
            },
            now,
        );
        if attempt <= usize::from(MAX_AUTOMATIC_RETRIES) {
            assert!(matches!(service.state, ServiceState::Backoff { .. }));
        } else {
            assert!(
                matches!(service.state, ServiceState::Unavailable),
                "launch retry sequence exceeded six total attempts"
            );
        }
    }
    assert_eq!(
        service.reload(now),
        ReloadStep::Restart,
        "explicit F8 starts a fresh sequence"
    );
    assert!(service.restart(true));
    service.begin_resolution(true);
    assert_eq!(service.retries, 0);
    assert!(!matches!(service.state, ServiceState::Unavailable));
    assert!(service.stop_for_authority(true));
}

#[test]
fn stale_replies_and_mutation_requests_have_no_authority() {
    let mut protocol = protocol(0);
    let pending = protocol.pending.len();
    protocol
        .handle(&reply_text(999, "{\"ignored\": true}"), 0)
        .unwrap();
    assert_eq!(protocol.pending.len(), pending);
    assert_eq!(protocol.state, ProtocolState::Initializing);

    protocol
        .handle(
            &json("{\"jsonrpc\":\"2.0\",\"id\":\"server-edit\",\"method\":\"workspace/applyEdit\",\"params\":{\"edit\":{\"changes\":{}}}}"),
            0,
        )
        .unwrap();
    let rejection = to_serde(&protocol.outbox.pop().unwrap());
    assert_eq!(rejection["id"], "server-edit");
    assert_eq!(rejection["error"]["code"], -32601);
}

#[test]
fn reload_is_null_correlated_and_coalesced() {
    let mut protocol = protocol(0);
    initialize(&mut protocol, 0);
    assert!(protocol.request_reload(0).unwrap());
    assert!(!protocol.request_reload(0).unwrap());
    let request = to_serde(&protocol.outbox.remove(0));
    assert_eq!(request["method"], "rust-analyzer/reloadWorkspace");
    assert_eq!(request["params"], serde_json::Value::Null);
    protocol
        .handle(&reply_text(request["id"].as_i64().unwrap(), "null"), 0)
        .unwrap();
    assert!(protocol.pending.is_empty());
}

#[test]
fn repeated_service_reload_keeps_one_request_and_generation() {
    let mut protocol = protocol(0);
    initialize(&mut protocol, 0);
    let mut service = LanguageService {
        generation: 7,
        retries: 0,
        cleanup_uncertain: false,
        state: ServiceState::Running(protocol),
    };
    assert_eq!(service.reload(0), ReloadStep::Asked);
    assert_eq!(service.reload(0), ReloadStep::Asked);
    assert_eq!(service.generation, 7);
    let ServiceState::Running(protocol) = &service.state else {
        panic!("coalesced reload replaced the running generation");
    };
    assert_eq!(
        protocol
            .pending
            .iter()
            .filter(|request| request.kind == PendingKind::Reload)
            .count(),
        1
    );
}

#[test]
fn command_stop_leaves_nonexecuting_states_inert() {
    let states = [
        ServiceState::Pending(Resolution {
            generation: 1,
            report: found_report(),
            launch: Err("optional analyzer unavailable".to_owned()),
            cleanup_confirmed: true,
        }),
        ServiceState::Backoff { until: 30_000 },
        ServiceState::Unavailable,
        ServiceState::Stopped,
    ];
    for state in states {
        let mut service = service(state, 3, false);
        assert!(service.stop_for_command(true));
        assert_eq!(service.status(), "LSP stopped");
        assert_eq!(
            service.retries, 3,
            "command stop does not reset retry bounds"
        );
    }
}

#[test]
fn cleanup_uncertainty_latches_and_blocks_restart() {
    let mut service = service(ServiceState::Unavailable, 0, true);
    assert_eq!(service.reload(0), ReloadStep::Refused);
    assert_eq!(service.generation, 1);
    assert!(matches!(service.state, ServiceState::Unavailable));
    assert!(!service.stop_for_authority(true));
}

#[test]
fn unresolved_probe_cleanup_blocks_authority_boundary() {
    let mut service = service(
        ServiceState::Pending(Resolution {
            generation: 1,
            report: found_report(),
            launch: Err("unconfirmed probe cleanup".to_owned()),
            cleanup_confirmed: false,
        }),
        0,
        false,
    );
    assert!(!service.stop_for_authority(true));
    assert!(service.cleanup_uncertain);
    assert!(!service.shutdown(true));
}

#[test]
fn document_recreation_closes_old_identity_before_opening_new_identity() {
    let mut protocol = protocol(0);
    initialize(&mut protocol, 0);
    protocol
        .reconcile_documents(&vec![document(1, 1, "old")])
        .unwrap();
    protocol.outbox.clear();
    let mut replacement = document(2, 0, "new");
    replacement.path = "src/file-1.rs".to_owned();
    protocol.reconcile_documents(&vec![replacement]).unwrap();
    assert_eq!(protocol.outbox.len(), 2);
    assert_eq!(
        to_serde(&protocol.outbox[0])["method"],
        "textDocument/didClose"
    );
    assert_eq!(
        to_serde(&protocol.outbox[1])["method"],
        "textDocument/didOpen"
    );
}

#[test]
fn json_shape_and_request_deadlines_are_finite() {
    let mut nested = JsonValue::Null;
    for _ in 0..=MAX_JSON_DEPTH {
        nested = JsonValue::Array(vec![nested]);
    }
    assert!(validate_json(&nested, &LIMITS).is_err());

    let mut protocol = protocol(0);
    assert!(protocol.check_deadlines(0).is_ok());
    assert!(protocol.check_deadlines(INITIALIZE_DEADLINE).is_err());
}

// Completions.

fn ready_protocol(now: u64) -> Protocol {
    let mut protocol = protocol(now);
    initialize(&mut protocol, now);
    protocol.outbox.clear();
    protocol
}

fn synced_protocol(now: u64) -> (Protocol, DocumentState) {
    let mut protocol = ready_protocol(now);
    let document = DocumentState {
        document_id: "document-main".to_owned(),
        path: "src/main.rs".to_owned(),
        version: 4,
        text: "a🦀b".to_owned(),
    };
    protocol
        .reconcile_documents(&vec![document.clone()])
        .unwrap();
    protocol.outbox.clear();
    (protocol, document)
}

fn request(protocol: &mut Protocol, document: &DocumentState, sequence: u64, now: u64) -> i64 {
    protocol
        .request_completion(
            document,
            5,
            Utf16Position {
                line: 0,
                character: 3,
            },
            sequence,
            now,
        )
        .unwrap()
        .unwrap()
}

fn reply(protocol: &mut Protocol, id: i64, result: JsonValue, now: u64) -> CompletionResponse {
    let message = JsonValue::Object(vec![
        ("id".to_owned(), JsonValue::Number(JsonNumber::Unsigned(id as u64))),
        ("jsonrpc".to_owned(), JsonValue::Text("2.0".to_owned())),
        ("result".to_owned(), result),
    ]);
    protocol.handle(&message, now).unwrap();
    protocol.completions.remove(0)
}

#[test]
fn completion_is_explicit_and_sends_the_exact_invoked_utf16_request() {
    let (mut protocol, document) = synced_protocol(0);
    assert!(
        protocol.outbox.is_empty(),
        "sync alone must not request completion"
    );

    let id = request(&mut protocol, &document, 23, 0);
    let message = to_serde(&protocol.outbox.remove(0));
    assert_eq!(message["id"], id);
    assert_eq!(message["method"], "textDocument/completion");
    assert_eq!(
        from_serde(message["params"].clone()),
        json("{\"textDocument\":{\"uri\":\"file:///owned/work%20space/src/main.rs\"},\"position\":{\"line\":0,\"character\":3},\"context\":{\"triggerKind\":1}}")
    );
}

#[test]
fn completion_parses_bounded_plain_unicode_insertion_and_utf16_replacement() {
    let (mut protocol, document) = synced_protocol(0);
    let id = request(&mut protocol, &document, 23, 0);
    protocol.outbox.clear();
    let response = reply(
        &mut protocol,
        id,
        json("{\"isIncomplete\":false,\"items\":[{\"label\":\"東京\",\"kind\":6,\"insertText\":\"東京\",\"insertTextFormat\":1},{\"label\":\"replace crab\",\"kind\":3,\"textEdit\":{\"range\":{\"start\":{\"line\":0,\"character\":1},\"end\":{\"line\":0,\"character\":3}},\"newText\":\"λ\"}}]}"),
        0,
    );
    assert_eq!(response.request.document_id, document.document_id);
    assert_eq!(response.request.request_sequence, 23);
    assert_eq!(response.request.version, 4);
    assert_eq!(response.request.position_byte, 5);
    assert_eq!(response.items.len(), 2);
    assert_eq!(response.items[0].label, "東京");
    assert_eq!(response.items[0].kind, Some(6));
    assert_eq!(
        response.items[0].edit,
        CompletionEdit::Insert("東京".to_owned())
    );
    assert_eq!(
        response.items[1].edit,
        CompletionEdit::Replace {
            start: Utf16Position {
                line: 0,
                character: 1
            },
            end: Utf16Position {
                line: 0,
                character: 3
            },
            new_text: "λ".to_owned(),
        }
    );
}

#[test]
fn every_unsupported_completion_class_rejects_the_whole_item() {
    let rejected = [
        "{\"label\":\"snippet\",\"insertText\":\"f(${1:x})\",\"insertTextFormat\":2}",
        "{\"label\":\"additional\",\"additionalTextEdits\":[]}",
        "{\"label\":\"command\",\"command\":{\"title\":\"run\",\"command\":\"x\"}}",
        "{\"label\":\"insert-replace\",\"textEdit\":{\"insert\":{\"start\":{\"line\":0,\"character\":0},\"end\":{\"line\":0,\"character\":0}},\"replace\":{\"start\":{\"line\":0,\"character\":0},\"end\":{\"line\":0,\"character\":1}},\"newText\":\"x\"}}",
        "{\"label\":\"cross-file\",\"textDocument\":{\"uri\":\"file:///other.rs\"}}",
        "{\"label\":\"nested-cross-file\",\"textEdit\":{\"range\":{\"start\":{\"line\":0,\"character\":0},\"end\":{\"line\":0,\"character\":0}},\"newText\":\"x\",\"uri\":\"file:///other.rs\"}}",
        "{\"label\":\"workspace\",\"workspaceEdit\":{\"changes\":{}}}",
        "{\"label\":\"ambiguous\",\"insertText\":\"x\",\"textEdit\":{\"range\":{\"start\":{\"line\":0,\"character\":0},\"end\":{\"line\":0,\"character\":0}},\"newText\":\"y\"}}",
    ];
    for item in rejected {
        let (mut protocol, document) = synced_protocol(0);
        let id = request(&mut protocol, &document, 23, 0);
        protocol.outbox.clear();
        assert!(
            reply(&mut protocol, id, JsonValue::Array(vec![json(item)]), 0)
                .items
                .is_empty(),
            "{item}"
        );
    }
}

#[test]
fn malformed_oversized_and_defaulted_results_are_inert_and_fixed_cap() {
    let oversized = format!("[{{\"label\":\"{}\"}}]", "x".repeat(LIMITS.label_bytes + 1));
    for result in [
        "{\"isIncomplete\":false}",
        "{\"items\":[{\"label\":\"x\"}],\"itemDefaults\":{\"insertTextFormat\":1}}",
        "[{\"kind\":3}]",
        "[{\"label\":\"x\",\"kind\":26}]",
        "[{\"label\":\"x\",\"textEdit\":{\"range\":{\"start\":{\"line\":-1,\"character\":0},\"end\":{\"line\":0,\"character\":0}},\"newText\":\"x\"}}]",
        &oversized,
    ] {
        let (mut protocol, document) = synced_protocol(0);
        let id = request(&mut protocol, &document, 23, 0);
        protocol.outbox.clear();
        assert!(reply(&mut protocol, id, json(result), 0).items.is_empty());
    }

    let (mut protocol, document) = synced_protocol(0);
    let id = request(&mut protocol, &document, 23, 0);
    protocol.outbox.clear();
    let items = (0..MAX_COMPLETION_ITEMS + 5)
        .map(|index| json(&format!("{{\"label\":\"item-{index}\"}}")))
        .collect::<Vec<_>>();
    assert_eq!(
        reply(&mut protocol, id, JsonValue::Array(items), 0)
            .items
            .len(),
        MAX_COMPLETION_ITEMS
    );
}

#[test]
fn completion_error_null_timeout_and_generation_change_only_retire_that_request() {
    let (mut protocol, document) = synced_protocol(0);
    let id = request(&mut protocol, &document, 23, 0);
    protocol.outbox.clear();
    protocol
        .handle(
            &json(&format!(
                "{{\"jsonrpc\":\"2.0\",\"id\":{id},\"error\":{{\"code\":-1,\"message\":\"no\"}}}}"
            )),
            0,
        )
        .unwrap();
    assert!(protocol.completions.remove(0).items.is_empty());
    assert_eq!(protocol.state, ProtocolState::Ready);

    let id = request(&mut protocol, &document, 23, 0);
    protocol.outbox.clear();
    assert!(reply(&mut protocol, id, JsonValue::Null, 0).items.is_empty());

    let id = request(&mut protocol, &document, 23, 0);
    protocol.outbox.clear();
    protocol.check_deadlines(COMPLETION_DEADLINE).unwrap();
    assert!(!protocol.pending.iter().any(|request| request.id == id));
    assert!(protocol.completions.remove(0).items.is_empty());
    assert_eq!(protocol.state, ProtocolState::Ready);

    let id = request(&mut protocol, &document, 23, 0);
    protocol.outbox.clear();
    protocol.generation += 1;
    protocol
        .handle(&reply_text(id, "[{\"label\":\"stale\"}]"), 0)
        .unwrap();
    assert!(protocol.completions.is_empty());
}

#[test]
fn completion_response_at_deadline_is_empty_inert_and_cannot_revive() {
    let (mut protocol, document) = synced_protocol(0);
    let id = request(&mut protocol, &document, 23, 0);
    protocol.outbox.clear();
    let deadline = COMPLETION_DEADLINE;

    protocol
        .handle(&reply_text(id, "[{\"label\":\"too late\"}]"), deadline)
        .unwrap();

    let response = protocol.completions.remove(0);
    assert!(response.items.is_empty(), "deadline response stayed live");
    assert_eq!(response.request.request_sequence, 23);
    assert!(!protocol.pending.iter().any(|request| request.id == id));
    assert_eq!(protocol.state, ProtocolState::Ready);

    protocol
        .handle(&reply_text(id, "[{\"label\":\"revived\"}]"), deadline + 1)
        .unwrap();
    assert!(protocol.completions.is_empty());
    assert_eq!(protocol.state, ProtocolState::Ready);
}

#[test]
fn out_of_order_responses_preserve_each_bounded_request_identity() {
    let (mut protocol, document) = synced_protocol(0);
    let older = request(&mut protocol, &document, 23, 0);
    let newer = request(&mut protocol, &document, 24, 0);
    protocol.outbox.clear();
    protocol
        .handle(&reply_text(newer, "[{\"label\":\"new\"}]"), 0)
        .unwrap();
    protocol
        .handle(&reply_text(older, "[{\"label\":\"old\"}]"), 0)
        .unwrap();
    assert_eq!(protocol.completions.len(), 2);
    assert_eq!(protocol.completions.remove(0).request.request_sequence, 24);
    assert_eq!(protocol.completions.remove(0).request.request_sequence, 23);
}

// Diagnostics.

fn notification(uri: &str, version: Option<u64>, diagnostics: JsonValue) -> JsonValue {
    let mut params = vec![("diagnostics".to_owned(), diagnostics)];
    params.push(("uri".to_owned(), JsonValue::Text(uri.to_owned())));
    if let Some(version) = version {
        params.push((
            "version".to_owned(),
            JsonValue::Number(JsonNumber::Unsigned(version)),
        ));
    }
    JsonValue::Object(vec![
        ("jsonrpc".to_owned(), JsonValue::Text("2.0".to_owned())),
        (
            "method".to_owned(),
            JsonValue::Text("textDocument/publishDiagnostics".to_owned()),
        ),
        ("params".to_owned(), JsonValue::Object(params)),
    ])
}

fn diagnostic(message: &str, severity: u8) -> JsonValue {
    let mut value = json("{\"range\":{\"start\":{\"line\":0,\"character\":1},\"end\":{\"line\":0,\"character\":3}}}");
    if let JsonValue::Object(members) = &mut value {
        members.insert(0, ("message".to_owned(), JsonValue::Text(message.to_owned())));
        members.push((
            "severity".to_owned(),
            JsonValue::Number(JsonNumber::Unsigned(severity.into())),
        ));
    }
    value
}

fn published_protocol(document: &DocumentState) -> (Protocol, String) {
    let mut protocol = protocol_of(9, 0);
    initialize(&mut protocol, 0);
    protocol
        .reconcile_documents(&vec![document.clone()])
        .unwrap();
    protocol.outbox.clear();
    let uri = document_uri(&protocol.root_uri, &document.path);
    (protocol, uri)
}

#[test]
fn publish_diagnostics_accepts_only_the_exact_synced_document_version() {
    let current = document(1, 7, "a😀\n");
    let (mut protocol, uri) = published_protocol(&current);

    for version in [None, Some(6), Some(8)] {
        protocol
            .handle(
                &notification(&uri, version, JsonValue::Array(vec![diagnostic("stale", 1)])),
                0,
            )
            .unwrap();
    }
    protocol
        .handle(
            &notification(&uri, Some(7), JsonValue::Array(vec![diagnostic("fresh", 1)])),
            0,
        )
        .unwrap();

    assert_eq!(protocol.diagnostics.len(), 1);
    let published = protocol.diagnostics.remove(0);
    assert_eq!(published.generation, 9);
    assert_eq!(published.document_id, current.document_id);
    assert_eq!(published.path, current.path);
    assert_eq!(published.version, 7);
    assert_eq!(published.diagnostics[0].message, "fresh");
    assert_eq!(published.diagnostics[0].severity, LiveDiagnosticSeverity::Error);
}

#[test]
fn publish_diagnostics_bounds_count_and_safe_display_message() {
    let current = document(1, 1, "abc\n");
    let (mut protocol, uri) = published_protocol(&current);
    let hostile = format!("bad\u{1b}[2J\n{}", "x".repeat(8_000));
    let diagnostics = (0..MAX_LIVE_DIAGNOSTICS_PER_DOCUMENT + 5)
        .map(|_| diagnostic(&hostile, 2))
        .collect::<Vec<_>>();

    protocol
        .handle(&notification(&uri, Some(1), JsonValue::Array(diagnostics)), 0)
        .unwrap();

    let published = protocol.diagnostics.remove(0);
    assert_eq!(
        published.diagnostics.len(),
        MAX_LIVE_DIAGNOSTICS_PER_DOCUMENT
    );
    assert!(published.diagnostics[0].message.len() <= MAX_LIVE_DIAGNOSTIC_MESSAGE_BYTES);
    assert!(published.diagnostics[0].message.contains("\\u{1b}"));
    assert!(published.diagnostics[0].message.contains("\\n"));
    assert!(
        !published.diagnostics[0]
            .message
            .chars()
            .any(char::is_control)
    );
}

#[test]
fn malformed_or_unowned_publish_diagnostics_are_inert_and_logging_is_bounded() {
    let current = document(1, 1, "abc\n");
    let (mut protocol, uri) = published_protocol(&current);

    let malformed = [
        json("{\"jsonrpc\":\"2.0\",\"method\":\"textDocument/publishDiagnostics\"}"),
        notification(&uri, Some(1), json("{}")),
        notification(&uri, Some(1), json("[{\"message\":\"missing range\"}]")),
        notification(
            &uri,
            Some(1),
            JsonValue::Array(vec![diagnostic("bad severity", 9)]),
        ),
        notification(
            "file:///outside.rs",
            Some(1),
            JsonValue::Array(vec![diagnostic("outside", 1)]),
        ),
    ];
    for _ in 0..4 {
        for message in &malformed {
            protocol.handle(message, 0).unwrap();
        }
    }

    assert!(protocol.diagnostics.is_empty());
    assert_eq!(protocol.diagnostic_drop_logs, MAX_DIAGNOSTIC_DROP_LOGS);
}

#[test]
fn document_replacement_retires_queued_live_diagnostics() {
    let old = document(1, 1, "old");
    let (mut protocol, uri) = published_protocol(&old);
    protocol
        .handle(
            &notification(&uri, Some(1), JsonValue::Array(vec![diagnostic("old", 1)])),
            0,
        )
        .unwrap();
    assert_eq!(protocol.diagnostics.len(), 1);

    let mut replacement = document(2, 0, "new");
    replacement.path = old.path;
    protocol.reconcile_documents(&vec![replacement]).unwrap();

    assert!(protocol.diagnostics.is_empty());
}

// The service.

fn found(component: &str) -> ToolProbe {
    ToolProbe {
        component: component.to_owned(),
        purpose: "resolve".to_owned(),
        status: ProbeStatus::Available,
        stdout: format!("/tools/{component}\n"),
        stderr: String::new(),
    }
}

fn found_report() -> ToolchainReport {
    ToolchainReport {
        blocked: false,
        selected_toolchain: Some("stable".to_owned()),
        probes: ["rust-analyzer", "cargo", "rustc", "rustdoc"]
            .iter()
            .map(|name| found(name))
            .collect(),
        versions: vec![],
    }
}

#[test]
fn a_server_is_started_with_the_tools_that_were_found() {
    let spec = launch_spec(&found_report()).unwrap();
    assert_eq!(spec.analyzer, "/tools/rust-analyzer");
    assert_eq!(spec.selection, "stable");
    let mut missing = found_report();
    missing.probes.remove(1);
    assert_eq!(launch_spec(&missing).unwrap_err(), "selected cargo is unavailable");
    let mut blocked = found_report();
    blocked.blocked = true;
    assert_eq!(
        launch_spec(&blocked).unwrap_err(),
        "required selected-tool resolution failed"
    );
    let mut unselected = found_report();
    unselected.selected_toolchain = None;
    assert_eq!(
        launch_spec(&unselected).unwrap_err(),
        "selected toolchain is unavailable"
    );
}

fn looked() -> Resolving {
    Resolving {
        cleanup_uncertain: false,
        captures: 4,
    }
}

#[test]
fn a_search_without_looks_or_with_doubt_starts_nothing() {
    let none = resolve(3, found_report(), Resolving::new());
    assert_eq!(none.generation, 3);
    assert_eq!(
        none.launch.unwrap_err(),
        "language-server resolution executed no bounded probes"
    );
    let doubt = resolve(
        3,
        found_report(),
        Resolving {
            cleanup_uncertain: true,
            captures: 4,
        },
    );
    assert!(!doubt.cleanup_confirmed);
    assert_eq!(
        doubt.launch.unwrap_err(),
        "cleanup was not confirmed during language-server resolution"
    );
}

#[test]
fn a_service_starts_only_after_its_search_was_reported() {
    let mut service = LanguageService::start(true);
    assert_eq!(service.status(), "LSP resolving");
    let over = resolve(1, found_report(), looked());
    let poll = service.poll(
        Search::Over(Some(over)),
        TransportStatus::Alive,
        &Vec::new(),
        &Vec::new(),
        true,
        0,
    );
    assert!(poll.changed);
    let record = poll.resolution.unwrap();
    assert!(record.launch_available);
    assert_eq!(record.report, found_report());
    assert!(matches!(poll.action, ServiceAction::Nothing));
    assert!(service.authorize_resolution(true).is_some());
    service.finish_launch(LaunchOutcome::Running(protocol_of(1, 0)), 0);
    assert_eq!(service.status(), "LSP initializing");
    assert!(service.stop_for_command(true));
    assert!(service.resume_after_command());

    let mut unpublished = LanguageService::start(true);
    let over = resolve(1, found_report(), looked());
    unpublished.poll(
        Search::Over(Some(over)),
        TransportStatus::Alive,
        &Vec::new(),
        &Vec::new(),
        true,
        0,
    );
    assert!(unpublished.authorize_resolution(false).is_none());
    assert_eq!(unpublished.status(), "LSP unavailable");
}

#[test]
fn a_doubtful_launch_is_never_tried_again() {
    let mut service = service(ServiceState::Pending(failed_launch_resolution()), 0, false);
    assert!(service.authorize_resolution(true).is_some());
    service.finish_launch(
        LaunchOutcome::Failed {
            cleanup_confirmed: false,
        },
        0,
    );
    assert_eq!(service.status(), "LSP unavailable");
    assert_eq!(service.reload(0), ReloadStep::Refused);
    assert!(!service.restart(true));
}

#[test]
fn waits_between_retries_grow() {
    let waits: Vec<u64> = (1..=MAX_AUTOMATIC_RETRIES).map(backoff).collect();
    assert!(waits.windows(2).all(|pair| pair[0] <= pair[1]));
    assert!(waits[0] < waits[4]);
}

#[test]
fn addresses_are_written_byte_by_byte() {
    assert_eq!(percent_encode("a é/~".as_bytes(), true), "a%20%C3%A9/~");
    assert_eq!(percent_encode(b"a/b", false), "a%2Fb");
    assert_eq!(file_uri(Some("/work")).unwrap(), "file:///work");
    assert!(file_uri(None).is_err());
    assert!(supports_document("src/a.rs"));
    assert!(!supports_document("README.md"));
}

#[test]
fn a_stop_is_asked_once_and_then_sent() {
    let mut protocol = ready_protocol(0);
    assert!(protocol.begin_shutdown(0).unwrap());
    assert_eq!(protocol.state, ProtocolState::Stopping);
    let asked = to_serde(&protocol.outbox[0]);
    assert_eq!(asked["method"], "shutdown");
    protocol
        .handle(&reply_text(asked["id"].as_i64().unwrap(), "null"), 0)
        .unwrap();
    assert_eq!(protocol.state, ProtocolState::ExitSent);
    assert_eq!(to_serde(protocol.outbox.last().unwrap())["method"], "exit");
    let ready = protocol.to_send(true);
    assert!(ready > 0);
    assert!(protocol.flush(ready));
}

#[test]
fn a_message_that_is_too_long_is_not_sent() {
    let mut protocol = protocol(0);
    let sent = protocol.outbox.len();
    assert!(protocol.take_in(JsonValue::Null, LIMITS.message_bytes).is_ok());
    assert_eq!(protocol.outbox.len(), sent + 1);
    assert_eq!(
        protocol.take_in(JsonValue::Null, LIMITS.message_bytes + 1),
        Err("outgoing language-server message exceeds byte limit".to_owned())
    );
    assert_eq!(protocol.outbox.len(), sent + 1);
}

#[test]
fn a_server_that_was_asked_is_waited_for() {
    let waiting = ShuttingDown::new(true, 100);
    assert!(waiting.wants_turn(100));
    assert!(waiting.wants_turn(2_099));
    assert!(!waiting.wants_turn(2_100));
    assert!(waiting.goes_on(true, TransportStatus::Alive));
    assert!(!waiting.goes_on(false, TransportStatus::Alive));
    assert!(!waiting.goes_on(true, TransportStatus::Exited));
    assert!(!ShuttingDown::new(false, 100).wants_turn(100));
}

#[test]
fn a_server_is_over_once_child_group_and_pipes_are_gone() {
    let mut ending = Ending::new(0);
    assert!(ending.wants_look(1_999));
    assert!(!ending.wants_look(2_000));
    assert_eq!(ending.take(ChildLook::There, false, true), StopStep::LookAgain);
    assert_eq!(ending.take(ChildLook::Gone, true, false), StopStep::LookAgain);
    assert!(!ending.is_over(false));
    assert!(ending.is_over(true), "pipes that close last still count");
    assert_eq!(ending.take(ChildLook::Gone, true, true), StopStep::Done);
    assert_eq!(ending.take(ChildLook::Failed, true, true), StopStep::GiveUp);
}

#[test]
fn a_frame_tells_the_bytes_of_its_message() {
    let message = JsonValue::Text("é".to_owned());
    let frame = write_frame(&message);
    assert_eq!(frame, "Content-Length: 4\r\n\r\n\"é\"");
    assert_eq!(read_body("\"é\"".as_bytes()), Some(message));
    assert_eq!(read_body(b"{"), None);
}
