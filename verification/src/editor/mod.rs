//! The editor's view of a source: syntax, scrolling and drawing.

pub mod clock;
pub mod edit_laws;
pub mod edits;
pub mod grammar;
pub mod highlight;
pub mod highlight_laws;
pub mod syntax;
pub mod syntax_laws;
pub mod viewport;
pub mod widget;
pub mod widget_laws;

pub use highlight::{highlight_path, HighlightError, HighlightKind, HighlightSpan, RustHighlighter};
pub use viewport::Viewport;
pub use widget::{DiagnosticLineMarker, DiagnosticMarkerKind, EditorWidget, LiveDiagnosticSpan};
