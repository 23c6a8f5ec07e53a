use rustrace::editor::clock::{budget_progress, progress_at, Deadline};
use rustrace::editor::grammar::{Capture, RootChild};
use rustrace::editor::highlight::{collect_spans, query_answer, LanguageHighlighter, LanguageKind};
use rustrace::editor::syntax::{Read, SyntaxState};
use rustrace::editor::viewport::CursorPosition;
use rustrace::editor::widget::{
    diagnostic_line_background, highlight_style, live_diagnostic_kind, Area, Draw, Palette,
    PenState, SourceLine, SourceView, SweepState,
};
use rustrace::editor::{
    highlight_path, DiagnosticLineMarker, DiagnosticMarkerKind, EditorWidget, HighlightKind,
    HighlightSpan, LiveDiagnosticSpan, RustHighlighter, Viewport,
};
use rustrace::model::{EditOrigin, EditorTransaction, TextEdit};
use rustrace::style::{Color, Style};

// Syntax.

struct Editor {
    id: String,
    text: String,
    version: u64,
}

impl Editor {
    fn new(id: &str, text: &str) -> Self {
        Editor {
            id: id.to_owned(),
            text: text.to_owned(),
            version: 0,
        }
    }

    fn edit(&mut self, edits: Vec<TextEdit>) -> EditorTransaction {
        for edit in edits.iter().rev() {
            self.text.replace_range(
                edit.start_byte as usize..edit.end_byte as usize,
                &edit.inserted_text,
            );
        }
        self.version += 1;
        EditorTransaction {
            document_id: self.id.clone(),
            version_before: self.version - 1,
            version_after: self.version,
            origin: EditOrigin::Keyboard,
            edits,
        }
    }
}

fn replace(start: usize, end: usize, text: &str) -> TextEdit {
    TextEdit {
        start_byte: start as u64,
        end_byte: end as u64,
        inserted_text: text.to_owned(),
    }
}

fn insert(state: &mut SyntaxState, editor: &mut Editor, byte: usize, text: &str) {
    let transaction = editor.edit(vec![replace(byte, byte, text)]);
    state.apply(&transaction).unwrap();
}

fn assert_span_at(state: &SyntaxState, source: &str, needle: &str, kind: HighlightKind) {
    let byte = source.find(needle).unwrap();
    assert!(
        state.spans().iter().any(|span| {
            span.kind == kind
                && span.byte_range.start <= byte
                && span.byte_range.end >= byte + needle.len()
        }),
        "missing {kind:?} highlight for {needle:?} in {:?}",
        state.spans()
    );
}

fn broken(state: &SyntaxState) -> bool {
    state.tree.as_ref().unwrap().root_node().has_error()
}

fn assert_whole_query(state: &mut SyntaxState) {
    let highlighter = state.highlighter.as_mut().unwrap();
    let fresh = highlighter.parse(&state.source, None, None).unwrap();
    let whole = highlighter.spans(&state.source, &fresh, None, None).unwrap();
    assert_eq!(state.spans(), &whole);
    assert_eq!(
        state.tree.as_ref().unwrap().root_node().to_sexp(),
        fresh.root_node().to_sexp()
    );
}

#[test]
fn real_parser_cancellation_resets_before_another_document() {
    let mut highlighter = LanguageHighlighter::new(LanguageKind::Rust).unwrap();
    let source = "fn item() { let text = \"世界\"; }\n".repeat(5000);
    assert!(highlighter
        .parse(&source, None, Some(Deadline::at(std::time::Instant::now())))
        .is_err());
    let tree = highlighter.parse("fn recovered() {}", None, None).unwrap();
    assert!(!tree.root_node().has_error());
    assert_eq!(tree.root_node().end_byte(), "fn recovered() {}".len());
    assert!(highlighter
        .spans(
            "fn recovered() {}",
            &tree,
            None,
            Some(Deadline::at(std::time::Instant::now()))
        )
        .is_err());
}

#[test]
fn rust_and_toml_keep_untouched_tokens_when_new_input_is_invalid() {
    for (path, source, needle, kind) in [
        (
            "main.rs",
            "fn main() {\n    let message = \"kept\";\n}",
            "kept",
            HighlightKind::String,
        ),
        (
            "Cargo.toml",
            "[package]\nname = \"kept\"\nversion = 1",
            "kept",
            HighlightKind::String,
        ),
    ] {
        let mut state = SyntaxState::new(path, path, source);
        let mut editor = Editor::new(path, source);
        assert_span_at(&state, source, needle, kind);

        insert(&mut state, &mut editor, source.len(), "\nif");

        assert!(broken(&state));
        assert_span_at(&state, &editor.text, needle, kind);
    }
}

#[test]
fn invalid_initial_documents_and_crlf_edits_keep_valid_tokens() {
    for (path, source, needle) in [
        (
            "main.rs",
            "if\r\nfn intact() {\r\n    let message = \"kept\";\r\n}\r\n",
            "kept",
        ),
        (
            "Cargo.toml",
            "if\r\n[package]\r\nname = \"kept\"\r\nversion = 1\r\n",
            "kept",
        ),
    ] {
        let mut state = SyntaxState::new(path, path, source);
        let mut editor = Editor::new(path, source);
        assert!(broken(&state));
        assert_span_at(&state, source, needle, HighlightKind::String);

        let end = editor.text.len();
        insert(&mut state, &mut editor, end, "if\r\n");

        assert_span_at(&state, &editor.text, needle, HighlightKind::String);
    }
}

#[test]
fn error_repair_recovers_complete_highlights_after_an_uncached_parse() {
    let source = "fn intact() { let message = \"kept\"; }";
    let mut state = SyntaxState::new("repair", "main.rs", source);
    let mut editor = Editor::new("repair", source);
    state.read.slices.clear();
    insert(&mut state, &mut editor, source.len(), "\nif");
    assert_span_at(&state, &editor.text, "kept", HighlightKind::String);

    let end = editor.text.len();
    let transaction = editor.edit(vec![replace(source.len(), end, "\nfn repaired() {}")]);
    state.apply(&transaction).unwrap();

    assert!(!broken(&state));
    assert_span_at(&state, &editor.text, "repaired", HighlightKind::Function);
    assert_whole_query(&mut state);
}

#[test]
fn edited_old_tree_reuses_unchanged_subtrees_and_matches_fresh() {
    let source = (0..100)
        .map(|i| format!("fn f{i}() {{ let s = \"世界\"; }}\n"))
        .collect::<String>();
    let mut state = SyntaxState::new("rust", "a.rs", &source);
    let unchanged_id = state
        .tree
        .as_ref()
        .unwrap()
        .root_node()
        .named_child(90)
        .unwrap()
        .id();
    let mut editor = Editor::new("rust", &source);
    let transaction = editor.edit(vec![replace(0, 0, "// 🦀\n"), replace(3, 5, "renamed")]);
    state.apply(&transaction).unwrap();
    assert_eq!(state.source, editor.text);
    let fresh = SyntaxState::new("fresh", "a.rs", &editor.text);
    assert_eq!(state.spans(), fresh.spans());
    assert_eq!(
        state.tree.as_ref().unwrap().root_node().to_sexp(),
        fresh.tree.as_ref().unwrap().root_node().to_sexp()
    );
    assert_eq!(
        state
            .tree
            .as_ref()
            .unwrap()
            .root_node()
            .named_child(91)
            .unwrap()
            .id(),
        unchanged_id,
        "a real unchanged subtree must survive incremental parsing"
    );
}

#[test]
fn reused_capture_slices_match_fresh_whole_tree_queries() {
    for (path, source) in [
        (
            "a.rs",
            "//! doc\r\n#[derive(Debug)]\r\nstruct Café { n: u32 }\r\nmod m { pub fn f() { let s = r#\"世界\"#; foo::<u32>(); } }\r\nfn later() {}\r\n",
        ),
        (
            "Cargo.toml",
            "# header\r\n[package]\r\nname = \"世界\"\r\n[dependencies]\r\nthing = { version = \"1\", optional = true }\r\n",
        ),
    ] {
        let mut state = SyntaxState::new("cached", path, source);
        let mut editor = Editor::new("cached", source);
        for inserted in ["e\u{301}", "🦀", "\n", "\"", "/*", "\r\n", "界"] {
            let offset = editor.text.find("世界").unwrap();
            insert(&mut state, &mut editor, offset, inserted);
            assert_whole_query(&mut state);
            let undo = editor.edit(vec![replace(offset, offset + inserted.len(), "")]);
            state.apply(&undo).unwrap();
            assert_whole_query(&mut state);
        }
    }
}

#[test]
fn expired_syntax_budget_falls_back_without_partial_captures_and_recovers() {
    let mut state = SyntaxState::new("budget", "a.rs", "fn a() {}\nfn b() {}");
    assert!(!state.spans().is_empty());
    assert!(state.refresh_with_budget(0).is_err());
    assert!(state.spans().is_empty());
    assert!(state.read.slices.is_empty());
    state.refresh_with_budget(1_000).unwrap();
    assert!(!state.spans().is_empty());
    assert_whole_query(&mut state);
}

#[test]
fn parser_failure_clears_stale_spans_and_next_edit_can_recover() {
    let mut state = SyntaxState::new("rust", "a.rs", "fn a() {}");
    let mut editor = Editor::new("rust", "fn a() {}");
    state.highlighter.as_mut().unwrap().parser = tree_sitter::Parser::new();
    let transaction = editor.edit(vec![replace(0, 0, "// hi\n")]);
    assert!(state.apply(&transaction).is_err());
    assert!(state.spans().is_empty());
    assert!(state.tree.is_none());
    assert_eq!(state.version, editor.version);
    assert_eq!(state.source, editor.text);
    state.highlighter = Some(LanguageHighlighter::new(LanguageKind::Rust).unwrap());
    let transaction = editor.edit(vec![replace(0, 0, "// recovered\n")]);
    state.apply(&transaction).unwrap();
    assert!(!state.spans().is_empty());
}

#[test]
fn edits_of_another_file_or_version_are_refused() {
    let mut state = SyntaxState::new("mine", "a.rs", "fn a() {}");
    let mut other = Editor::new("other", "fn a() {}");
    let error = state.apply(&other.edit(vec![replace(0, 0, "x")])).unwrap_err();
    assert_eq!(error.to_text(), "syntax document/version mismatch");
    assert!(state.spans().is_empty() && state.tree.is_none());
    assert_eq!(state.source, "fn a() {}");
    assert_eq!(state.version, 0);
}

#[test]
fn a_path_decides_the_language() {
    for (path, kind) in [
        ("a.rs", LanguageKind::Rust),
        ("dir.toml/a.rs/", LanguageKind::Rust),
        ("Cargo.toml", LanguageKind::Toml),
        (".rs", LanguageKind::Plain),
        ("a.rs.txt", LanguageKind::Plain),
        ("dir.rs/README", LanguageKind::Plain),
        ("..", LanguageKind::Plain),
    ] {
        assert_eq!(LanguageKind::for_path(path), kind, "{path}");
    }
    let mut state = SyntaxState::from_recovered("x", "a.txt", "fn a() {}", 5);
    assert_eq!(state.version, 5);
    assert!(state.spans().is_empty());
    state.rename("a.rs");
    assert_span_at(&state, "fn a() {}", "fn", HighlightKind::Keyword);
    assert!(highlight_path("notes.md", "fn a() {}").unwrap().is_empty());
    assert!(LanguageHighlighter::new(LanguageKind::Plain).is_err());
}

#[test]
fn one_shot_highlights_agree() {
    let source = "pub fn shout() -> u32 { 7 }";
    let whole = RustHighlighter::new().unwrap().highlight(source).unwrap();
    assert_eq!(highlight_path("a.rs", source).unwrap(), whole);
    assert!(whole.iter().any(|span| {
        span.kind == HighlightKind::Function && &source[span.byte_range.clone()] == "shout"
    }));
}

fn capture(start: usize, end: usize, name: &str) -> Capture {
    Capture {
        range: start..end,
        name: name.to_owned(),
    }
}

fn span(start: usize, end: usize, kind: HighlightKind) -> HighlightSpan {
    HighlightSpan {
        byte_range: start..end,
        kind,
    }
}

#[test]
fn spans_are_ordered_once_each_and_hold_something() {
    let spans = collect_spans(&vec![
        capture(5, 6, "number"),
        capture(0, 4, "keyword.control"),
        capture(0, 2, "method"),
        capture(3, 3, "string"),
        capture(0, 2, "method"),
        capture(0, 2, "variable"),
    ]);
    assert_eq!(
        spans,
        [
            span(0, 2, HighlightKind::Function),
            span(0, 2, HighlightKind::Other),
            span(0, 4, HighlightKind::Keyword),
            span(5, 6, HighlightKind::Constant),
        ]
    );
    assert!(Read::empty().spans.is_empty());
}

// The view.

#[test]
fn a_view_follows_the_cursor_as_little_as_may_be() {
    let mut view = Viewport::default();
    let at = |line, display_column| CursorPosition {
        line,
        display_column,
        char_index: 0,
    };
    view.follow_cursor(at(30, 100), 80, 24);
    assert_eq!((view.top_line(), view.left_column()), (7, 21));
    view.follow_cursor(at(8, 30), 80, 24);
    assert_eq!((view.top_line(), view.left_column()), (7, 21));
    view.follow_cursor(at(2, 3), 80, 24);
    assert_eq!((view.top_line(), view.left_column()), (2, 3));
    view.follow_cursor(at(50, 50), 0, 0);
    assert_eq!((view.top_line(), view.left_column()), (2, 3));
}

#[test]
fn scrolling_stays_in_the_source() {
    let mut view = Viewport::default();
    view.scroll_vertical(100, 50, 20);
    assert_eq!(view.top_line(), 30);
    view.scroll_vertical(isize::MIN, 50, 20);
    assert_eq!(view.top_line(), 0);
    view.set_top_line(9, 5, 20);
    assert_eq!(view.top_line(), 0);
    view.scroll_horizontal(5);
    view.scroll_horizontal(-9);
    assert_eq!(view.left_column(), 0);
}

// Drawing.

fn source(lines: &[&str], cursor: usize) -> SourceView {
    let mut char_start = 0;
    let mut byte_start = 0;
    let mut out = Vec::new();
    for line in lines {
        out.push(SourceLine {
            text: (*line).to_owned(),
            char_start,
            byte_start,
        });
        char_start += line.chars().count() + 1;
        byte_start += line.len() + 1;
    }
    SourceView {
        len_bytes: byte_start,
        lines: out,
        selection: None,
        cursor,
        matching_bracket: None,
    }
}

const AREA: Area = Area {
    x: 2,
    y: 1,
    width: 10,
    height: 3,
};

fn texts(draws: &[Draw]) -> Vec<(u16, u16, String)> {
    draws
        .iter()
        .filter_map(|draw| match draw {
            Draw::Text { x, y, text, .. } => Some((*x, *y, text.clone())),
            _ => None,
        })
        .collect()
}

fn style_at(draws: &[Draw], wanted: &str) -> Style {
    draws
        .iter()
        .find_map(|draw| match draw {
            Draw::Text { text, style, .. } if text == wanted => Some(*style),
            _ => None,
        })
        .unwrap()
}

#[test]
fn clusters_are_drawn_where_they_stand() {
    let source = source(&["a\té", "b"], 99);
    let draws = EditorWidget::new(&source, Viewport::default(), &[]).render(AREA, 1_000);
    assert_eq!(
        texts(&draws),
        [
            (2, 1, "a".to_owned()),
            (3, 1, "   ".to_owned()),
            (6, 1, "é".to_owned()),
            (2, 2, "b".to_owned()),
        ]
    );
    assert!(matches!(&draws[0], Draw::Fill { area, style } if *area == AREA && style.fg == Some(Color::White)));
}

#[test]
fn a_long_source_is_not_drawn() {
    let source = source(&["abc"], 0);
    let draws = EditorWidget::new(&source, Viewport::default(), &[]).render(AREA, 3);
    assert_eq!(texts(&draws), [(2, 1, "[source display limit]".to_owned())]);
}

#[test]
fn what_is_scrolled_out_is_not_drawn() {
    let source = source(&["first", "0123456789abc"], 99);
    let view = Viewport {
        top_line: 1,
        left_column: 2,
    };
    let draws = EditorWidget::new(&source, view, &[]).render(AREA, 1_000);
    let shown: String = texts(&draws).into_iter().map(|(_, _, text)| text).collect();
    assert_eq!(shown, "23456789ab");
}

#[test]
fn the_last_of_the_spans_over_a_byte_is_shown() {
    let source = source(&["abcd"], 99);
    let spans = [
        span(0, 4, HighlightKind::Keyword),
        span(1, 2, HighlightKind::String),
    ];
    let draws = EditorWidget::new(&source, Viewport::default(), &spans).render(AREA, 1_000);
    assert_eq!(style_at(&draws, "a").fg, Some(Color::Magenta));
    assert_eq!(style_at(&draws, "b").fg, Some(Color::Green));
    assert_eq!(style_at(&draws, "c").fg, Some(Color::Magenta));
}

#[test]
fn too_many_overlapping_spans_are_not_followed() {
    let source = source(&["ab"], 99);
    let spans = vec![span(0, 2, HighlightKind::Keyword); 129];
    let draws = EditorWidget::new(&source, Viewport::default(), &spans).render(AREA, 1_000);
    assert_eq!(style_at(&draws, "a").fg, Some(Color::White));
    let fits = vec![span(0, 2, HighlightKind::Keyword); 128];
    let draws = EditorWidget::new(&source, Viewport::default(), &fits).render(AREA, 1_000);
    assert_eq!(style_at(&draws, "a").fg, Some(Color::Magenta));
}

#[test]
fn selection_bracket_and_cursor_lie_over_the_syntax() {
    let mut source = source(&["abc"], 2);
    source.selection = Some((0, 1));
    source.matching_bracket = Some(1);
    let draws = EditorWidget::new(&source, Viewport::default(), &[]).render(AREA, 1_000);
    assert_eq!(style_at(&draws, "a").bg, Some(Color::Blue));
    let bracket = style_at(&draws, "b");
    assert!(bracket.fg == Some(Color::Blue) && bracket.added.bold);
    assert!(style_at(&draws, "c").added.reversed);
    let hidden = EditorWidget::new(&source, Viewport::default(), &[])
        .with_cursor_visible(false)
        .render(AREA, 1_000);
    assert!(!style_at(&hidden, "c").added.reversed);
}

#[test]
fn the_cursor_is_drawn_behind_the_end_of_a_line() {
    let source = source(&["ab", ""], 2);
    let draws = EditorWidget::new(&source, Viewport::default(), &[]).render(AREA, 1_000);
    assert!(texts(&draws).contains(&(4, 1, " ".to_owned())));
}

fn message(start: u64, end: u64, line: usize, kind: DiagnosticMarkerKind, text: &str) -> LiveDiagnosticSpan {
    LiveDiagnosticSpan {
        start_byte: start,
        end_byte: end,
        start_line: line,
        end_line: line,
        kind,
        message: text.to_owned(),
    }
}

#[test]
fn the_most_important_message_is_shown_over_and_beside_a_line() {
    let source = source(&["a"], 99);
    let messages = [
        message(0, 1, 0, DiagnosticMarkerKind::Other, "other"),
        message(0, 1, 0, DiagnosticMarkerKind::Error, "bad\u{7}"),
        message(0, 1, 0, DiagnosticMarkerKind::Error, "later"),
    ];
    let draws = EditorWidget::new(&source, Viewport::default(), &[])
        .with_live_diagnostics(&messages)
        .render(AREA, 1_000);
    let a = style_at(&draws, "a");
    assert!(a.fg == Some(Color::LightRed) && a.added.underlined);
    assert!(draws.iter().any(|draw| matches!(
        draw,
        Draw::Message { x: 5, y: 1, message, cells: 7, style }
            if message == "bad\\u{7}" && style.added.dim
    )));
    assert_eq!(
        live_diagnostic_kind(&messages, 1, 2),
        None,
        "a range ends before its end"
    );
    let narrow = Area { width: 8, ..AREA };
    let draws = EditorWidget::new(&source, Viewport::default(), &[])
        .with_live_diagnostics(&messages)
        .render(narrow, 1_000);
    assert!(!draws.iter().any(|draw| matches!(draw, Draw::Message { .. })));
}

fn palette() -> Palette {
    let color = |n| Color::Indexed(n);
    Palette {
        text: color(1),
        accent: color(2),
        selection_bg: Color::Reset,
        active_row_bg: color(4),
        red: color(5),
        yellow: color(6),
        mauve: color(7),
        teal: color(8),
        green: color(9),
        overlay0: color(10),
        blue: color(11),
        peach: color(12),
        diagnostic_error_bg: color(13),
        diagnostic_warning_bg: color(14),
    }
}

#[test]
fn a_palette_gives_the_colors() {
    let mut source = source(&["abc"], 99);
    source.selection = Some((0, 1));
    let markers = [
        DiagnosticLineMarker::live(0, DiagnosticMarkerKind::Error, false),
        DiagnosticLineMarker::new(0, DiagnosticMarkerKind::Warning, true),
    ];
    let draws = EditorWidget::new(&source, Viewport::default(), &[])
        .with_palette(palette())
        .with_diagnostic_markers(&markers)
        .render(AREA, 1_000);
    assert_eq!(style_at(&draws, "a").bg, Some(Color::Indexed(4)));
    assert_eq!(style_at(&draws, "b").fg, Some(Color::Indexed(1)));
    assert!(draws.iter().any(|draw| matches!(
        draw,
        Draw::Fill { area, style } if area.height == 1 && style.bg == Some(Color::Indexed(14))
    )));
    assert_eq!(
        highlight_style(Some(HighlightKind::Type), Some(palette())).fg,
        Some(Color::Indexed(11))
    );
    assert_eq!(diagnostic_line_background(&markers, 1, None), None);
    let compiler = DiagnosticLineMarker::compiler(3, DiagnosticMarkerKind::Error, false, 8);
    assert_eq!(compiler.diagnostic_index(), Some(8));
    assert_eq!(
        diagnostic_line_background(&[compiler], 3, None),
        Some(Color::Red)
    );
}

#[test]
fn a_symbol_is_drawn_once_it_is_in_view() {
    let source = SourceView {
        len_bytes: 3,
        lines: vec![SourceLine {
            text: "ab".to_owned(),
            char_start: 0,
            byte_start: 0,
        }],
        selection: None,
        cursor: 9,
        matching_bracket: None,
    };
    let viewport = Viewport {
        top_line: 0,
        left_column: 2,
    };
    let widget = EditorWidget::new(&source, viewport, &[]);
    let area = Area {
        x: 5,
        y: 1,
        width: 3,
        height: 1,
    };
    let mut pen = PenState {
        column: 0,
        chars: 0,
        bytes: 0,
        sweep: SweepState {
            next: 0,
            open: Vec::new(),
            on: true,
        },
        draws: Vec::new(),
        full: false,
    };
    let line = &source.lines[0];
    widget.draw_symbol(area, 0, line, &mut pen, "a", "a".to_owned(), 2);
    assert_eq!((pen.column, pen.chars, pen.draws.len()), (2, 1, 0));
    widget.draw_symbol(area, 0, line, &mut pen, "b", "b".to_owned(), 4);
    assert!(matches!(
        &pen.draws[0],
        Draw::Text { x: 5, y: 1, text, cells: 3, .. } if text == "b"
    ));
    widget.draw_symbol(area, 0, line, &mut pen, "c", "c".to_owned(), 1);
    assert!(pen.full);
    assert_eq!(pen.draws.len(), 1);
}

#[test]
fn a_part_that_was_read_before_is_moved() {
    let mut before = Read::empty();
    let child = RootChild {
        start: 10,
        end: 12,
        kind: 1,
    };
    let span = |start: usize, end: usize| HighlightSpan {
        byte_range: start..end,
        kind: HighlightKind::Keyword,
    };
    before.add_part(b"fn".to_vec(), &child, vec![span(10, 12)]);
    let moved = RootChild {
        start: 4,
        end: 6,
        kind: 1,
    };
    assert_eq!(before.spans_of(b"fn", &moved), Some(vec![span(4, 6)]));
    assert_eq!(before.spans_of(b"if", &moved), None);
    let other = RootChild { kind: 2, ..moved };
    assert_eq!(before.spans_of(b"fn", &other), None);
}

#[test]
fn spans_end_within_the_source() {
    for (path, source) in [("main.rs", "fn main() { let s = \"世界"), ("a.toml", "[a]\nb = \"é\"")] {
        let spans = highlight_path(path, source).unwrap();
        assert!(!spans.is_empty());
        for span in spans {
            assert!(span.byte_range.start <= span.byte_range.end);
            assert!(span.byte_range.end <= source.len());
        }
    }
}

#[test]
fn a_deadline_that_has_come_stops_an_outside_loop() {
    assert!(budget_progress(None).is_continue());
    assert!(budget_progress(Some(Deadline::after(0))).is_break());
    assert!(budget_progress(Some(Deadline::after(u32::MAX))).is_continue());
    let end = std::time::Instant::now();
    let later = end + std::time::Duration::from_millis(1);
    let deadline = Deadline::at(later);
    assert!(progress_at(end, Some(deadline)).is_continue());
    assert!(progress_at(later, Some(deadline)).is_break());
    assert!(query_answer(&Vec::new(), false, end, Some(deadline)).unwrap().is_empty());
    assert!(query_answer(&Vec::new(), false, later, Some(deadline)).is_err());
    assert!(query_answer(&Vec::new(), true, end, None).is_err());
}
