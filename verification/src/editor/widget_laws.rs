//! What is seen of a source, of its marks and of its cursor.

use super::highlight::HighlightKind;
use super::widget;
use super::widget::{
    Area, DiagnosticLineMarker, DiagnosticMarkerKind, Drawn, EditorWidget, LiveDiagnosticSpan,
    Palette, Pen, SourceLine,
};
use crate::style;
use crate::style::{Color, Style};
use crate::text;
use vstd::prelude::*;

verus! {

/// Whether one of the first messages of a kind lies on some bytes.
pub open spec fn some_lies_on(
    ds: Seq<LiveDiagnosticSpan>,
    kind: DiagnosticMarkerKind,
    start: int,
    end: int,
    n: nat,
) -> bool {
    exists|i: int|
        0 <= i < n && (#[trigger] ds[i]).kind == kind && ds[i].start_byte < end && ds[i].end_byte
            > start
}

proof fn lemma_lies_on(
    ds: Seq<LiveDiagnosticSpan>,
    kind: DiagnosticMarkerKind,
    start: int,
    end: int,
    n: nat,
)
    requires
        0 < n <= ds.len(),
    ensures
        some_lies_on(ds, kind, start, end, n) <==> some_lies_on(
            ds,
            kind,
            start,
            end,
            (n - 1) as nat,
        ) || (ds[n - 1].kind == kind && ds[n - 1].start_byte < end && ds[n - 1].end_byte > start),
{
    if ds[n - 1].kind == kind && ds[n - 1].start_byte < end && ds[n - 1].end_byte > start {
        assert(some_lies_on(ds, kind, start, end, n));
    }
}

proof fn lemma_kinds(ds: Seq<LiveDiagnosticSpan>, start: int, end: int, n: nat)
    requires
        n <= ds.len(),
    ensures
        ({
            let error = some_lies_on(ds, DiagnosticMarkerKind::Error, start, end, n);
            let warning = some_lies_on(ds, DiagnosticMarkerKind::Warning, start, end, n);
            let other = some_lies_on(ds, DiagnosticMarkerKind::Other, start, end, n);
            widget::kind_upto(ds, start, end, n) == if error {
                Some(DiagnosticMarkerKind::Error)
            } else if warning {
                Some(DiagnosticMarkerKind::Warning)
            } else if other {
                Some(DiagnosticMarkerKind::Other)
            } else {
                None
            }
        }),
    decreases n,
{
    if n > 0 {
        lemma_kinds(ds, start, end, (n - 1) as nat);
        lemma_lies_on(ds, DiagnosticMarkerKind::Error, start, end, n);
        lemma_lies_on(ds, DiagnosticMarkerKind::Warning, start, end, n);
        lemma_lies_on(ds, DiagnosticMarkerKind::Other, start, end, n);
    }
}

/// Where messages lie on the same bytes an error is seen before a warning and a
/// warning before anything else.
pub proof fn an_error_is_seen_first(ds: Seq<LiveDiagnosticSpan>, start: int, end: int)
    ensures
        ({
            let n = ds.len();
            let error = some_lies_on(ds, DiagnosticMarkerKind::Error, start, end, n);
            let warning = some_lies_on(ds, DiagnosticMarkerKind::Warning, start, end, n);
            let other = some_lies_on(ds, DiagnosticMarkerKind::Other, start, end, n);
            let seen = widget::kind_upto(ds, start, end, n);
            &&& seen == Some(DiagnosticMarkerKind::Error) <==> error
            &&& seen == Some(DiagnosticMarkerKind::Warning) <==> warning && !error
            &&& seen == Some(DiagnosticMarkerKind::Other) <==> other && !error && !warning
            &&& seen is None <==> !error && !warning && !other
        }),
{
    lemma_kinds(ds, start, end, ds.len());
}

/// Whether one of the first marks of a kind stands on a line.
pub open spec fn some_stands_on(
    ms: Seq<DiagnosticLineMarker>,
    kind: DiagnosticMarkerKind,
    line: int,
    n: nat,
) -> bool {
    exists|i: int|
        0 <= i < n && (#[trigger] ms[i]).kind == kind && ms[i].line == line && !ms[i].live
}

proof fn lemma_marks(ms: Seq<DiagnosticLineMarker>, line: int, n: nat)
    requires
        n <= ms.len(),
    ensures
        widget::marker_upto(ms, line, n) == if some_stands_on(
            ms,
            DiagnosticMarkerKind::Error,
            line,
            n,
        ) {
            Some(DiagnosticMarkerKind::Error)
        } else if some_stands_on(ms, DiagnosticMarkerKind::Warning, line, n) {
            Some(DiagnosticMarkerKind::Warning)
        } else if some_stands_on(ms, DiagnosticMarkerKind::Other, line, n) {
            Some(DiagnosticMarkerKind::Other)
        } else {
            None
        },
    decreases n,
{
    if n > 0 {
        lemma_marks(ms, line, (n - 1) as nat);
        lemma_stands_on(ms, DiagnosticMarkerKind::Error, line, n);
        lemma_stands_on(ms, DiagnosticMarkerKind::Warning, line, n);
        lemma_stands_on(ms, DiagnosticMarkerKind::Other, line, n);
    }
}

proof fn lemma_stands_on(
    ms: Seq<DiagnosticLineMarker>,
    kind: DiagnosticMarkerKind,
    line: int,
    n: nat,
)
    requires
        0 < n <= ms.len(),
    ensures
        some_stands_on(ms, kind, line, n) <==> some_stands_on(ms, kind, line, (n - 1) as nat) || (
        ms[n - 1].kind == kind && ms[n - 1].line == line && !ms[n - 1].live),
{
    if ms[n - 1].kind == kind && ms[n - 1].line == line && !ms[n - 1].live {
        assert(some_stands_on(ms, kind, line, n));
    }
}

/// A line with an error of a build has the color of errors, and one with a warning and
/// no error that of warnings. No other line has one.
pub proof fn a_line_has_the_color_of_its_marks(ms: Seq<DiagnosticLineMarker>, line: int, p: Palette)
    ensures
        ({
            let error = some_stands_on(ms, DiagnosticMarkerKind::Error, line, ms.len());
            let warning = some_stands_on(ms, DiagnosticMarkerKind::Warning, line, ms.len());
            &&& error ==> widget::line_color(ms, line, Some(p)) == Some(p.diagnostic_error_bg)
            &&& error ==> widget::line_color(ms, line, None) == Some(Color::Red)
            &&& !error && warning ==> widget::line_color(ms, line, Some(p)) == Some(
                p.diagnostic_warning_bg,
            )
            &&& !error && warning ==> widget::line_color(ms, line, None) == Some(Color::Yellow)
            &&& !error && !warning ==> widget::line_color(ms, line, Some(p)) is None
                && widget::line_color(ms, line, None) is None
        }),
{
    lemma_marks(ms, line, ms.len());
}

/// The parts of a source have colors of their own, with a palette and without.
pub proof fn the_parts_of_a_source_have_their_colors(p: Palette)
    ensures
        widget::syntax_color(Some(HighlightKind::Keyword), Some(p)) == p.mauve,
        widget::syntax_color(Some(HighlightKind::Function), Some(p)) == p.teal,
        widget::syntax_color(Some(HighlightKind::String), Some(p)) == p.green,
        widget::syntax_color(Some(HighlightKind::Comment), Some(p)) == p.overlay0,
        widget::syntax_color(Some(HighlightKind::Type), Some(p)) == p.blue,
        widget::syntax_color(Some(HighlightKind::Constant), Some(p)) == p.peach,
        widget::syntax_color(Some(HighlightKind::Other), Some(p)) == p.text,
        widget::syntax_color(None, Some(p)) == p.text,
        widget::syntax_color(Some(HighlightKind::Keyword), None) == Color::Magenta,
        widget::syntax_color(Some(HighlightKind::Function), None) == Color::Cyan,
        widget::syntax_color(Some(HighlightKind::String), None) == Color::Green,
        widget::syntax_color(Some(HighlightKind::Comment), None) == Color::DarkGray,
        widget::syntax_color(Some(HighlightKind::Type), None) == Color::Yellow,
        widget::syntax_color(Some(HighlightKind::Constant), None) == Color::LightBlue,
        widget::syntax_color(None, None) == Color::White,
        widget::message_color(DiagnosticMarkerKind::Error, Some(p)) == p.red,
        widget::message_color(DiagnosticMarkerKind::Warning, Some(p)) == p.yellow,
        widget::message_color(DiagnosticMarkerKind::Other, Some(p)) == p.yellow,
        widget::message_color(DiagnosticMarkerKind::Error, None) == Color::LightRed,
        widget::message_color(DiagnosticMarkerKind::Warning, None) == Color::Yellow,
{
}

/// A cell tells what stands on it: the cursor turns it round, the selection is behind
/// it, the matching bracket is bold, and a message underlines it.
pub proof fn a_cell_tells_what_stands_on_it(
    w: EditorWidget<'_>,
    kind: Option<HighlightKind>,
    byte: int,
    end: int,
    c: int,
)
    requires
        0 <= byte <= usize::MAX,
    ensures
        ({
            let s = widget::cell_style(w, kind, byte, end, c);
            let message = exists|i: int|
                0 <= i < w.messages@.len() && (#[trigger] w.messages@[i]).start_byte < end
                    && w.messages@[i].end_byte > byte;
            let bracket = w.source.matching_bracket == Some(byte as usize);
            let selected = w.source.selection matches Some((from, to)) && from <= c < to;
            &&& s.added.reversed <==> w.cursor_visible && c == w.source.cursor
            &&& selected <==> s.bg is Some
            &&& s.added.bold <==> bracket || kind == Some(HighlightKind::Keyword)
            &&& s.added.underlined <==> message
            &&& bracket ==> s.fg == Some(
                match w.palette {
                    Some(p) => p.accent,
                    None => Color::Blue,
                },
            )
            &&& !bracket && !message ==> s.fg == Some(widget::syntax_color(kind, w.palette))
        }),
{
    let ds = w.messages@;
    lemma_kinds(ds, byte, end, ds.len());
    if exists|i: int|
        0 <= i < ds.len() && (#[trigger] ds[i]).start_byte < end && ds[i].end_byte > byte {
        let i = choose|i: int|
            0 <= i < ds.len() && (#[trigger] ds[i]).start_byte < end && ds[i].end_byte > byte;
        assert(some_lies_on(ds, ds[i].kind, byte, end, ds.len()));
        match ds[i].kind {
            DiagnosticMarkerKind::Error => {},
            DiagnosticMarkerKind::Warning => {},
            DiagnosticMarkerKind::Other => {},
        }
    }
}

/// A symbol is drawn where it stands: as many cells to the right as its column is past
/// the left edge, on the row of its line. What is left of the edge is passed over, and
/// nothing is drawn past the right edge.
pub proof fn a_symbol_is_drawn_where_it_stands(
    w: EditorWidget<'_>,
    area: Area,
    row: int,
    line: SourceLine,
    pen: Pen,
    cluster: Seq<char>,
    symbol: Seq<char>,
    width: nat,
)
    requires
        !pen.full,
        pen.column + width <= usize::MAX,
        width > 0,
    ensures
        ({
            let after = widget::symbol_drawn(w, area, row, line, pen, cluster, symbol, width);
            let left = w.viewport.left_column as int;
            let seen = left <= pen.column < left + area.width;
            &&& seen ==> after.draws.len() == pen.draws.len() + 1 && after.draws.drop_last()
                == pen.draws && (after.draws.last() matches Drawn::Text { x, y, text: t, .. } && x
                == area.x + pen.column - left && y == area.y + row && t == symbol)
            &&& !seen ==> after.draws == pen.draws
            &&& pen.column < left + area.width ==> after.column == pen.column + width
                && after.chars == pen.chars + cluster.len() && after.bytes == pen.bytes
                + text::byte_len(cluster) && !after.full
            &&& pen.column >= left + area.width ==> after.full
        }),
{
    let after = widget::symbol_drawn(w, area, row, line, pen, cluster, symbol, width);
    let left = w.viewport.left_column as int;
    if left <= pen.column < left + area.width {
        assert(after.draws.drop_last() =~= pen.draws);
    }
}

/// The cursor behind the end of its line is drawn as a cell of its own.
pub proof fn the_cursor_behind_a_line_is_drawn(
    w: EditorWidget<'_>,
    area: Area,
    row: int,
    line: SourceLine,
    column: nat,
)
    requires
        column >= w.viewport.left_column,
        column - w.viewport.left_column < area.width,
    ensures
        widget::cursor_draw(w, area, row, line, column) is Some <==> w.cursor_visible
            && w.source.cursor == line.char_start + line.text@.len(),
        widget::cursor_draw(w, area, row, line, column) matches Some(Drawn::Text {
            x,
            y,
            text: t,
            ..
        }) ==> x == area.x + column - w.viewport.left_column && y == area.y + row && t == " "@,
{
}

/// A source that is too long is not drawn, and that is said.
pub proof fn a_source_too_long_is_not_drawn(w: EditorWidget<'_>, area: Area, limit: usize)
    requires
        w.source.len_bytes > limit,
        area.width > 0,
        area.height > 0,
    ensures
        widget::drawing(w, area, limit).len() == 2,
        widget::drawing(w, area, limit)[1] matches Drawn::Text { x, y, text: t, .. } && x == area.x
            && y == area.y && t == "[source display limit]"@,
{
}

/// The background is filled first, over the whole area and in the color of text.
pub proof fn the_area_is_filled_first(w: EditorWidget<'_>, area: Area, limit: usize)
    ensures
        widget::drawing(w, area, limit).len() >= 1,
        widget::drawing(w, area, limit)[0] == (Drawn::Fill {
            area,
            style: Style {
                fg: Some(
                    match w.palette {
                        Some(p) => p.text,
                        None => Color::White,
                    },
                ),
                ..style::plain_style()
            },
        }),
{
    if w.source.len_bytes <= limit {
        let fill = Drawn::Fill { area, style: widget::colored(widget::text_color(w.palette)) };
        let start = widget::Screen { sweep: widget::first_sweep(), draws: seq![fill] };
        lemma_rows_keep(w, area, start, area.height as nat);
    }
}

proof fn lemma_pen_keeps(
    w: EditorWidget<'_>,
    area: Area,
    row: int,
    line: SourceLine,
    start: Pen,
    clusters: Seq<Seq<char>>,
    n: nat,
)
    requires
        start.draws.len() >= 1,
    ensures
        widget::pen_upto(w, area, row, line, start, clusters, n).draws.len() >= 1,
        widget::pen_upto(w, area, row, line, start, clusters, n).draws[0] == start.draws[0],
    decreases n,
{
    if n > 0 {
        lemma_pen_keeps(w, area, row, line, start, clusters, (n - 1) as nat);
    }
}

proof fn lemma_rows_keep(w: EditorWidget<'_>, area: Area, start: widget::Screen, n: nat)
    requires
        start.draws.len() >= 1,
    ensures
        widget::rows_drawn(w, area, start, n).draws.len() >= 1,
        widget::rows_drawn(w, area, start, n).draws[0] == start.draws[0],
    decreases n,
{
    if n > 0 {
        lemma_rows_keep(w, area, start, (n - 1) as nat);
        let before = widget::rows_drawn(w, area, start, (n - 1) as nat);
        let index = w.viewport.top_line + (n - 1);
        if index < w.source.lines@.len() {
            let line = w.source.lines@[index];
            let clusters = crate::glyph::grapheme_clusters(line.text@);
            let pen = Pen {
                column: 0,
                chars: 0,
                bytes: 0,
                sweep: before.sweep,
                draws: widget::with_draw(
                    before.draws,
                    widget::background_draw(w, area, n - 1, index),
                ),
                full: false,
            };
            lemma_pen_keeps(w, area, n - 1, line, pen, clusters, clusters.len());
        }
    }
}

} // verus!
