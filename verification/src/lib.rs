//! Rules, parsers and state machines of a recording Rust workspace.

pub mod attempt;
pub mod attempt_command_laws;
pub mod attempt_laws;
pub mod attempt_trace_laws;
pub mod cargo_command;
pub mod cargo_command_laws;
pub mod cargo_message;
pub mod cargo_policy;
pub mod cargo_policy_laws;
pub mod cli;
pub mod cli_laws;
pub mod command_process;
pub mod command_process_laws;
pub mod config;
pub mod config_laws;
pub mod console;
pub mod console_laws;
pub mod console_line;
pub mod diagnostics;
pub mod diagnostics_laws;
pub mod diagnostics_meaning;
pub mod display;
pub mod display_laws;
pub mod doctor;
pub mod doctor_laws;
pub mod editor;
pub mod environment;
pub mod environment_laws;
pub mod event_list;
pub mod ghostty;
pub mod ghostty_laws;
pub mod glyph;
pub mod json;
pub mod json_laws;
pub mod language_service;
pub mod language_service_laws;
pub mod lsp_json;
pub mod lsp_json_laws;
pub mod lsp_parse;
pub mod milestone_a;
pub mod milestone_change;
pub mod milestone_change_laws;
pub mod milestone_finish;
pub mod milestone_replay;
pub mod milestone_session;
pub mod milestone_start;
pub mod milestone_stream_laws;
pub mod milestone_verify;
pub mod milestone_verify_laws;
pub mod model;
pub mod order;
pub mod process_display;
pub mod process_display_laws;
pub mod process_indicators;
pub mod process_indicators_laws;
pub mod process_run;
pub mod process_rule;
pub mod protocol;
pub mod protocol_documents;
pub mod protocol_laws;
pub mod protocol_meaning;
pub mod protocol_replies;
pub mod protocol_session_laws;
pub mod protocol_turn;
pub mod resolution;
pub mod resolution_laws;
pub mod stopping;
pub mod style;
pub mod style_laws;
pub mod text;
pub mod text_laws;

pub use cli::run_cli;
pub use environment::{
    probe_environment, CommandExecution, CommandRunner, ComponentDiagnostic, DiagnosticLevel,
    EnvironmentReport, ExecutionEvidence, ProbeCommand, Requirement, SystemCommandRunner,
    ToolStatus, DEFAULT_CAPTURE_LIMIT_BYTES, DEFAULT_PROBE_TIMEOUT,
};
