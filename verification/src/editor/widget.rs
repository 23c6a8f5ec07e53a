//! Drawing a source: what is written where, and in which style.

use super::highlight::{HighlightKind, HighlightSpan, Span};
use super::viewport::Viewport;
use crate::display;
use crate::glyph;
use crate::lsp_parse::MAX_LIVE_DIAGNOSTIC_MESSAGE_BYTES;
use crate::style;
use crate::style::{Color, Modifiers, Style};
use crate::text;
use vstd::prelude::*;

verus! {

pub const MAX_HIGHLIGHT_SPANS: usize = 262_144;

pub const MAX_OVERLAPPING_SPANS: usize = 128;

/// Cells that a message beside a line needs at least.
pub const MESSAGE_CELLS: usize = 8;

// Markers.

#[derive(Clone, Copy, Debug, PartialEq, Eq, Structural)]
pub enum DiagnosticMarkerKind {
    Error,
    Warning,
    Other,
}

/// A mark on a line.
#[derive(Clone, Copy, Debug, PartialEq, Eq, Structural)]
pub struct DiagnosticLineMarker {
    pub line: usize,
    pub kind: DiagnosticMarkerKind,
    pub selected: bool,
    pub live: bool,
    pub index: Option<usize>,
}

impl DiagnosticLineMarker {
    pub fn new(line: usize, kind: DiagnosticMarkerKind, selected: bool) -> (r: Self)
        ensures
            r == (DiagnosticLineMarker { line, kind, selected, live: false, index: None }),
    {
        DiagnosticLineMarker { line, kind, selected, live: false, index: None }
    }

    pub fn live(line: usize, kind: DiagnosticMarkerKind, selected: bool) -> (r: Self)
        ensures
            r == (DiagnosticLineMarker { line, kind, selected, live: true, index: None }),
    {
        DiagnosticLineMarker { line, kind, selected, live: true, index: None }
    }

    pub fn compiler(
        line: usize,
        kind: DiagnosticMarkerKind,
        selected: bool,
        diagnostic_index: usize,
    ) -> (r: Self)
        ensures
            r == (DiagnosticLineMarker {
                line,
                kind,
                selected,
                live: false,
                index: Some(diagnostic_index),
            }),
    {
        DiagnosticLineMarker { line, kind, selected, live: false, index: Some(diagnostic_index) }
    }

    pub fn diagnostic_index(&self) -> (r: Option<usize>)
        ensures
            r == self.index,
    {
        self.index
    }
}

/// A range of bytes with a message.
#[derive(Clone, Debug, PartialEq, Eq)]
pub struct LiveDiagnosticSpan {
    pub start_byte: u64,
    pub end_byte: u64,
    pub start_line: usize,
    pub end_line: usize,
    pub kind: DiagnosticMarkerKind,
    pub message: String,
}

/// Errors come first, then warnings.
pub open spec fn priority(kind: DiagnosticMarkerKind) -> int {
    match kind {
        DiagnosticMarkerKind::Error => 0,
        DiagnosticMarkerKind::Warning => 1,
        DiagnosticMarkerKind::Other => 2,
    }
}

fn diagnostic_priority(kind: DiagnosticMarkerKind) -> (r: u8)
    ensures
        r == priority(kind),
{
    match kind {
        DiagnosticMarkerKind::Error => 0,
        DiagnosticMarkerKind::Warning => 1,
        DiagnosticMarkerKind::Other => 2,
    }
}

/// The more important of a kind and one that came before it.
pub open spec fn more_important(best: Option<DiagnosticMarkerKind>, kind: DiagnosticMarkerKind) -> Option<
    DiagnosticMarkerKind,
> {
    match best {
        Some(b) => if priority(kind) < priority(b) {
            Some(kind)
        } else {
            best
        },
        None => Some(kind),
    }
}

fn keep_important(best: Option<DiagnosticMarkerKind>, kind: DiagnosticMarkerKind) -> (r: Option<
    DiagnosticMarkerKind,
>)
    ensures
        r == more_important(best, kind),
{
    match best {
        Some(b) => {
            if diagnostic_priority(kind) < diagnostic_priority(b) {
                Some(kind)
            } else {
                best
            }
        },
        None => Some(kind),
    }
}

/// Whether a message is about a range of bytes.
pub open spec fn touches(d: LiveDiagnosticSpan, start: int, end: int) -> bool {
    d.start_byte < end && d.end_byte > start
}

/// The most important kind among the first messages that are about a range.
pub open spec fn kind_upto(ds: Seq<LiveDiagnosticSpan>, start: int, end: int, n: nat) -> Option<
    DiagnosticMarkerKind,
>
    decreases n,
{
    if n == 0 {
        None
    } else {
        let before = kind_upto(ds, start, end, (n - 1) as nat);
        if touches(ds[n - 1], start, end) {
            more_important(before, ds[n - 1].kind)
        } else {
            before
        }
    }
}

pub fn live_diagnostic_kind(ds: &[LiveDiagnosticSpan], start_byte: usize, end_byte: usize) -> (r:
    Option<DiagnosticMarkerKind>)
    ensures
        r == kind_upto(ds@, start_byte as int, end_byte as int, ds@.len()),
{
    let mut best: Option<DiagnosticMarkerKind> = None;
    let mut i: usize = 0;
    while i < ds.len()
        invariant
            i <= ds@.len(),
            best == kind_upto(ds@, start_byte as int, end_byte as int, i as nat),
        decreases ds@.len() - i,
    {
        if ds[i].start_byte < end_byte as u64 && ds[i].end_byte > start_byte as u64 {
            best = keep_important(best, ds[i].kind);
        }
        i += 1;
    }
    best
}

/// What is shown over a range is the most important of the messages about it.
pub proof fn the_most_important_is_shown(ds: Seq<LiveDiagnosticSpan>, start: int, end: int, i: int)
    requires
        0 <= i < ds.len(),
        touches(ds[i], start, end),
    ensures
        kind_upto(ds, start, end, ds.len()) matches Some(k) && priority(k) <= priority(ds[i].kind),
{
    lemma_kind_upto(ds, start, end, i, ds.len());
}

proof fn lemma_kind_upto(ds: Seq<LiveDiagnosticSpan>, start: int, end: int, i: int, n: nat)
    requires
        0 <= i < n <= ds.len(),
        touches(ds[i], start, end),
    ensures
        kind_upto(ds, start, end, n) matches Some(k) && priority(k) <= priority(ds[i].kind),
    decreases n,
{
    if i < n - 1 {
        lemma_kind_upto(ds, start, end, i, (n - 1) as nat);
    }
}

// Colors.

/// The colors that a source is drawn in.
#[derive(Clone, Copy, Debug, PartialEq, Eq, Structural)]
pub struct Palette {
    pub text: Color,
    pub accent: Color,
    pub selection_bg: Color,
    pub active_row_bg: Color,
    pub red: Color,
    pub yellow: Color,
    pub mauve: Color,
    pub teal: Color,
    pub green: Color,
    pub overlay0: Color,
    pub blue: Color,
    pub peach: Color,
    pub diagnostic_error_bg: Color,
    pub diagnostic_warning_bg: Color,
}

pub open spec fn text_color(palette: Option<Palette>) -> Color {
    match palette {
        Some(p) => p.text,
        None => Color::White,
    }
}

pub open spec fn message_color(kind: DiagnosticMarkerKind, palette: Option<Palette>) -> Color {
    match (kind, palette) {
        (DiagnosticMarkerKind::Error, Some(p)) => p.red,
        (DiagnosticMarkerKind::Error, None) => Color::LightRed,
        (_, Some(p)) => p.yellow,
        (_, None) => Color::Yellow,
    }
}

pub fn diagnostic_color(kind: DiagnosticMarkerKind, palette: Option<Palette>) -> (r: Color)
    ensures
        r == message_color(kind, palette),
{
    match kind {
        DiagnosticMarkerKind::Error => match palette {
            Some(p) => p.red,
            None => Color::LightRed,
        },
        DiagnosticMarkerKind::Warning | DiagnosticMarkerKind::Other => match palette {
            Some(p) => p.yellow,
            None => Color::Yellow,
        },
    }
}

/// The most important kind among the first marks of a line that are not live.
pub open spec fn marker_upto(ms: Seq<DiagnosticLineMarker>, line: int, n: nat) -> Option<
    DiagnosticMarkerKind,
>
    decreases n,
{
    if n == 0 {
        None
    } else {
        let before = marker_upto(ms, line, (n - 1) as nat);
        if !ms[n - 1].live && ms[n - 1].line == line {
            more_important(before, ms[n - 1].kind)
        } else {
            before
        }
    }
}

/// The color behind a line that is marked.
pub open spec fn line_color(ms: Seq<DiagnosticLineMarker>, line: int, palette: Option<Palette>) -> Option<
    Color,
> {
    match (marker_upto(ms, line, ms.len()), palette) {
        (Some(DiagnosticMarkerKind::Error), Some(p)) => Some(p.diagnostic_error_bg),
        (Some(DiagnosticMarkerKind::Error), None) => Some(Color::Red),
        (Some(DiagnosticMarkerKind::Warning), Some(p)) => Some(p.diagnostic_warning_bg),
        (Some(DiagnosticMarkerKind::Warning), None) => Some(Color::Yellow),
        _ => None,
    }
}

pub fn diagnostic_line_background(
    ms: &[DiagnosticLineMarker],
    line: usize,
    palette: Option<Palette>,
) -> (r: Option<Color>)
    ensures
        r == line_color(ms@, line as int, palette),
{
    let mut best: Option<DiagnosticMarkerKind> = None;
    let mut i: usize = 0;
    while i < ms.len()
        invariant
            i <= ms@.len(),
            best == marker_upto(ms@, line as int, i as nat),
        decreases ms@.len() - i,
    {
        if !ms[i].live && ms[i].line == line {
            best = keep_important(best, ms[i].kind);
        }
        i += 1;
    }
    match best {
        Some(DiagnosticMarkerKind::Error) => match palette {
            Some(p) => Some(p.diagnostic_error_bg),
            None => Some(Color::Red),
        },
        Some(DiagnosticMarkerKind::Warning) => match palette {
            Some(p) => Some(p.diagnostic_warning_bg),
            None => Some(Color::Yellow),
        },
        _ => None,
    }
}

pub open spec fn syntax_color(kind: Option<HighlightKind>, palette: Option<Palette>) -> Color {
    match palette {
        Some(p) => match kind {
            Some(HighlightKind::Keyword) => p.mauve,
            Some(HighlightKind::Function) => p.teal,
            Some(HighlightKind::String) => p.green,
            Some(HighlightKind::Comment) => p.overlay0,
            Some(HighlightKind::Type) => p.blue,
            Some(HighlightKind::Constant) => p.peach,
            _ => p.text,
        },
        None => match kind {
            Some(HighlightKind::Keyword) => Color::Magenta,
            Some(HighlightKind::Function) => Color::Cyan,
            Some(HighlightKind::String) => Color::Green,
            Some(HighlightKind::Comment) => Color::DarkGray,
            Some(HighlightKind::Type) => Color::Yellow,
            Some(HighlightKind::Constant) => Color::LightBlue,
            _ => Color::White,
        },
    }
}

pub open spec fn colored(color: Color) -> Style {
    Style { fg: Some(color), ..style::plain_style() }
}

pub open spec fn reversed() -> Modifiers {
    Modifiers { reversed: true, ..style::no_modifiers() }
}

pub open spec fn syntax_style(kind: Option<HighlightKind>, palette: Option<Palette>) -> Style {
    let plain = colored(syntax_color(kind, palette));
    if kind == Some(HighlightKind::Keyword) {
        style::with_added(plain, style::bold())
    } else {
        plain
    }
}

fn add_bold(s: Style) -> (r: Style)
    ensures
        r == style::with_added(s, style::bold()),
{
    s.add_modifier(
        Modifiers { bold: true, dim: false, italic: false, underlined: false, reversed: false },
    )
}

fn add_dim(s: Style) -> (r: Style)
    ensures
        r == style::with_added(s, style::dim()),
{
    s.add_modifier(
        Modifiers { bold: false, dim: true, italic: false, underlined: false, reversed: false },
    )
}

fn add_underlined(s: Style) -> (r: Style)
    ensures
        r == style::with_added(s, style::underlined()),
{
    s.add_modifier(
        Modifiers { bold: false, dim: false, italic: false, underlined: true, reversed: false },
    )
}

fn add_reversed(s: Style) -> (r: Style)
    ensures
        r == style::with_added(s, reversed()),
{
    s.add_modifier(
        Modifiers { bold: false, dim: false, italic: false, underlined: false, reversed: true },
    )
}

pub fn highlight_style(kind: Option<HighlightKind>, palette: Option<Palette>) -> (r: Style)
    ensures
        r == syntax_style(kind, palette),
{
    let color = match palette {
        Some(p) => match kind {
            Some(HighlightKind::Keyword) => p.mauve,
            Some(HighlightKind::Function) => p.teal,
            Some(HighlightKind::String) => p.green,
            Some(HighlightKind::Comment) => p.overlay0,
            Some(HighlightKind::Type) => p.blue,
            Some(HighlightKind::Constant) => p.peach,
            _ => p.text,
        },
        None => match kind {
            Some(HighlightKind::Keyword) => Color::Magenta,
            Some(HighlightKind::Function) => Color::Cyan,
            Some(HighlightKind::String) => Color::Green,
            Some(HighlightKind::Comment) => Color::DarkGray,
            Some(HighlightKind::Type) => Color::Yellow,
            Some(HighlightKind::Constant) => Color::LightBlue,
            _ => Color::White,
        },
    };
    let plain = Style::plain().with_fg(color);
    match kind {
        Some(HighlightKind::Keyword) => add_bold(plain),
        _ => plain,
    }
}

// What is drawn.

/// A rectangle of cells.
#[derive(Clone, Copy, Debug, PartialEq, Eq, Structural)]
pub struct Area {
    pub x: u16,
    pub y: u16,
    pub width: u16,
    pub height: u16,
}

/// One step of drawing.
#[derive(Clone, Debug, PartialEq, Eq)]
pub enum Draw {
    /// Sets the style of an area.
    Fill { area: Area, style: Style },
    /// Writes a text at a place in at most so many cells. Where nothing of it
    /// fits, a blank is written if `or_blank` says so.
    Text { x: u16, y: u16, text: String, cells: usize, style: Style, or_blank: bool },
    /// Writes a message, cut to so many cells, if anything of it is left.
    Message { x: u16, y: u16, message: String, cells: usize, style: Style },
}

pub enum Drawn {
    Fill { area: Area, style: Style },
    Text { x: int, y: int, text: Seq<char>, cells: int, style: Style, or_blank: bool },
    Message { x: int, y: int, message: Seq<char>, cells: int, style: Style },
}

impl Draw {
    pub open spec fn view(&self) -> Drawn {
        match *self {
            Draw::Fill { area, style } => Drawn::Fill { area, style },
            Draw::Text { x, y, text, cells, style, or_blank } => Drawn::Text {
                x: x as int,
                y: y as int,
                text: text@,
                cells: cells as int,
                style,
                or_blank,
            },
            Draw::Message { x, y, message, cells, style } => Drawn::Message {
                x: x as int,
                y: y as int,
                message: message@,
                cells: cells as int,
                style,
            },
        }
    }
}

pub open spec fn draws_view(v: Seq<Draw>) -> Seq<Drawn> {
    Seq::new(v.len(), |i: int| v[i].view())
}

fn add_draw(out: &mut Vec<Draw>, draw: Draw)
    ensures
        draws_view(final(out)@) == draws_view(old(out)@).push(draw.view()),
{
    let ghost before = out@;
    out.push(draw);
    assert(draws_view(out@) =~= draws_view(before).push(draw.view()));
}

/// A line of a source, and where it starts.
#[derive(Clone, Debug, PartialEq, Eq)]
pub struct SourceLine {
    pub text: String,
    pub char_start: usize,
    pub byte_start: usize,
}

/// What is drawn of a source: its lines, the selected characters, the cursor and
/// the bracket that goes with the one at the cursor.
#[derive(Clone, Debug, PartialEq, Eq)]
pub struct SourceView {
    pub len_bytes: usize,
    pub lines: Vec<SourceLine>,
    pub selection: Option<(usize, usize)>,
    pub cursor: usize,
    pub matching_bracket: Option<usize>,
}

impl SourceView {
    /// Whether every place of the lines can be counted.
    pub open spec fn wf(&self) -> bool {
        forall|i: int|
            0 <= i < self.lines@.len() ==> (#[trigger] self.lines@[i]).char_start
                + self.lines@[i].text@.len() <= usize::MAX && self.lines@[i].byte_start
                + text::byte_len(self.lines@[i].text@) <= usize::MAX
    }
}

/// A drawing of a source.
pub struct EditorWidget<'a> {
    pub source: &'a SourceView,
    pub viewport: Viewport,
    pub highlights: &'a [HighlightSpan],
    pub markers: &'a [DiagnosticLineMarker],
    pub messages: &'a [LiveDiagnosticSpan],
    pub palette: Option<Palette>,
    pub cursor_visible: bool,
}

// Sweeping over the spans.

/// Where a sweep over the spans is: the next span, those that are open with
/// their ends, and whether spans are still followed.
pub struct Sweep {
    pub next: nat,
    pub open: Seq<(HighlightKind, int)>,
    pub on: bool,
}

pub open spec fn first_sweep() -> Sweep {
    Sweep { next: 0, open: Seq::empty(), on: true }
}

/// The open spans that have not ended at a byte.
pub open spec fn still_open(open: Seq<(HighlightKind, int)>, byte: int) -> Seq<(HighlightKind, int)>
    decreases open.len(),
{
    if open.len() == 0 {
        open
    } else {
        let before = still_open(open.drop_last(), byte);
        if open.last().1 > byte {
            before.push(open.last())
        } else {
            before
        }
    }
}

/// A sweep with the spans opened that start at a byte or before it. Where too
/// many are open at once, none is followed any more.
pub open spec fn opened(w: Sweep, spans: Seq<Span>, byte: int) -> Sweep
    decreases spans.len() - w.next,
{
    if !w.on || w.next >= spans.len() || spans[w.next as int].start > byte {
        w
    } else {
        let s = spans[w.next as int];
        if s.end <= byte {
            opened(Sweep { next: w.next + 1, ..w }, spans, byte)
        } else if w.open.len() == MAX_OVERLAPPING_SPANS {
            Sweep { next: w.next + 1, open: Seq::empty(), on: false }
        } else {
            opened(
                Sweep { next: w.next + 1, open: w.open.push((s.kind, s.end)), on: true },
                spans,
                byte,
            )
        }
    }
}

pub open spec fn swept(w: Sweep, spans: Seq<Span>, byte: int) -> Sweep {
    if w.on {
        opened(Sweep { open: still_open(w.open, byte), ..w }, spans, byte)
    } else {
        w
    }
}

/// The kind that a sweep shows: that of the span that was opened last.
pub open spec fn shown_kind(w: Sweep) -> Option<HighlightKind> {
    if w.open.len() > 0 {
        Some(w.open.last().0)
    } else {
        None
    }
}

/// A span that is open, until a byte.
pub struct OpenSpan {
    pub kind: HighlightKind,
    pub end: usize,
}

pub open spec fn open_view(v: Seq<OpenSpan>) -> Seq<(HighlightKind, int)> {
    Seq::new(v.len(), |i: int| (v[i].kind, v[i].end as int))
}

pub struct SweepState {
    pub next: usize,
    pub open: Vec<OpenSpan>,
    pub on: bool,
}

impl SweepState {
    pub open spec fn view(&self) -> Sweep {
        Sweep { next: self.next as nat, open: open_view(self.open@), on: self.on }
    }

    fn close(&mut self, byte: usize)
        ensures
            final(self).view() == (Sweep {
                open: still_open(old(self).view().open, byte as int),
                ..old(self).view()
            }),
    {
        let ghost all = open_view(self.open@);
        let ghost first = *self;
        let mut kept: Vec<OpenSpan> = Vec::new();
        let mut i: usize = 0;
        assert(all.take(0) =~= Seq::<(HighlightKind, int)>::empty());
        assert(open_view(kept@) =~= still_open(all.take(0), byte as int));
        while i < self.open.len()
            invariant
                i <= self.open@.len(),
                *self == first,
                all == open_view(self.open@),
                open_view(kept@) == still_open(all.take(i as int), byte as int),
            decreases self.open@.len() - i,
        {
            let s = &self.open[i];
            proof {
                assert(all.take(i + 1).drop_last() =~= all.take(i as int));
                assert(all.take(i + 1).last() == (s.kind, s.end as int));
            }
            if s.end > byte {
                let ghost before = kept@;
                let copy = OpenSpan { kind: s.kind, end: s.end };
                kept.push(copy);
                assert(open_view(kept@) =~= open_view(before).push((copy.kind, copy.end as int)));
            }
            i += 1;
        }
        assert(all.take(all.len() as int) =~= all);
        self.open = kept;
    }

    /// Moves the sweep on to a byte.
    pub fn advance(&mut self, spans: &[HighlightSpan], byte: usize)
        requires
            old(self).next <= spans@.len(),
        ensures
            final(self).next <= spans@.len(),
            final(self).view() == swept(
                old(self).view(),
                super::highlight::spans_view(spans@),
                byte as int,
            ),
    {
        if !self.on {
            return ;
        }
        let ghost all = super::highlight::spans_view(spans@);
        let ghost goal = swept(self.view(), all, byte as int);
        self.close(byte);
        while self.on && self.next < spans.len() && spans[self.next].byte_range.start <= byte
            invariant
                self.next <= spans@.len(),
                all == super::highlight::spans_view(spans@),
                opened(self.view(), all, byte as int) == goal,
            decreases spans@.len() - self.next,
        {
            let s = &spans[self.next];
            assert(all[self.next as int] == s.view());
            let ghost before = self.view();
            self.next = self.next + 1;
            if s.byte_range.end > byte {
                if self.open.len() == MAX_OVERLAPPING_SPANS {
                    self.open = Vec::new();
                    self.on = false;
                    assert(open_view(self.open@) =~= Seq::<(HighlightKind, int)>::empty());
                    assert(self.view() == opened(before, all, byte as int));
                } else {
                    let ghost open = self.open@;
                    let one = OpenSpan { kind: s.kind, end: s.byte_range.end };
                    self.open.push(one);
                    assert(open_view(self.open@) =~= open_view(open).push(
                        (one.kind, one.end as int),
                    ));
                    assert(opened(before, all, byte as int) == opened(
                        self.view(),
                        all,
                        byte as int,
                    ));
                }
            }
        }
        proof {
            if self.on && self.next < spans.len() {
                assert(all[self.next as int] == spans@[self.next as int].view());
            }
        }
    }

    pub fn kind(&self) -> (r: Option<HighlightKind>)
        ensures
            r == shown_kind(self.view()),
    {
        if self.open.len() > 0 {
            Some(self.open[self.open.len() - 1].kind)
        } else {
            None
        }
    }
}

// Drawing a line.

/// The spans that are followed: none where there are too many.
pub open spec fn followed_spans(w: EditorWidget<'_>) -> Seq<Span> {
    if w.highlights@.len() <= MAX_HIGHLIGHT_SPANS {
        super::highlight::spans_view(w.highlights@)
    } else {
        Seq::empty()
    }
}

pub open spec fn selection_color(palette: Option<Palette>) -> Color {
    match palette {
        Some(p) => if p.selection_bg == Color::Reset {
            p.active_row_bg
        } else {
            p.selection_bg
        },
        None => Color::Blue,
    }
}

pub open spec fn is_selected(w: EditorWidget<'_>, c: int) -> bool {
    w.source.selection matches Some((from, to)) && from <= c < to
}

/// The style of a character: that of its syntax, over it a message about it, the
/// bracket, the selection and the cursor.
pub open spec fn cell_style(
    w: EditorWidget<'_>,
    kind: Option<HighlightKind>,
    byte: int,
    end: int,
    c: int,
) -> Style {
    let syntax = syntax_style(kind, w.palette);
    let with_message = match kind_upto(w.messages@, byte, end, w.messages@.len()) {
        Some(k) => style::with_added(
            Style { fg: Some(message_color(k, w.palette)), ..syntax },
            style::underlined(),
        ),
        None => syntax,
    };
    let with_bracket = if w.source.matching_bracket == Some(byte as usize) {
        style::with_added(
            Style {
                fg: Some(
                    match w.palette {
                        Some(p) => p.accent,
                        None => Color::Blue,
                    },
                ),
                ..with_message
            },
            style::bold(),
        )
    } else {
        with_message
    };
    let with_selection = if is_selected(w, c) {
        Style { bg: Some(selection_color(w.palette)), ..with_bracket }
    } else {
        with_bracket
    };
    if w.cursor_visible && c == w.source.cursor {
        style::with_added(with_selection, reversed())
    } else {
        with_selection
    }
}

/// Where the drawing of a line is: the column, the characters and bytes that are
/// behind it, the sweep, what was drawn, and whether the line is full.
pub struct Pen {
    pub column: nat,
    pub chars: nat,
    pub bytes: nat,
    pub sweep: Sweep,
    pub draws: Seq<Drawn>,
    pub full: bool,
}

/// Draws one cluster of a line by its symbol.
pub open spec fn pen_step(
    w: EditorWidget<'_>,
    area: Area,
    row: int,
    line: SourceLine,
    pen: Pen,
    cluster: Seq<char>,
) -> Pen {
    let symbol = glyph::symbol_of(cluster, pen.column);
    symbol_drawn(w, area, row, line, pen, cluster, symbol, glyph::cell_width(symbol))
}

/// Draws a cluster by a symbol of some cells. What starts left of the view is
/// left out.
pub open spec fn symbol_drawn(
    w: EditorWidget<'_>,
    area: Area,
    row: int,
    line: SourceLine,
    pen: Pen,
    cluster: Seq<char>,
    symbol: Seq<char>,
    width: nat,
) -> Pen {
    let next = display::capped(pen.column + width);
    let left = w.viewport.left_column as nat;
    let moved = Pen {
        column: next,
        chars: pen.chars + cluster.len(),
        bytes: pen.bytes + text::byte_len(cluster),
        ..pen
    };
    if pen.full {
        pen
    } else if next <= left || pen.column < left {
        moved
    } else if pen.column - left >= area.width {
        Pen { full: true, ..pen }
    } else {
        let byte = line.byte_start + pen.bytes;
        let c = line.char_start + pen.chars;
        let sweep = swept(pen.sweep, followed_spans(w), byte);
        let x = area.x + (pen.column - left);
        Pen {
            sweep,
            draws: pen.draws.push(
                Drawn::Text {
                    x,
                    y: area.y + row,
                    text: symbol,
                    cells: area.x + area.width - x,
                    style: cell_style(
                        w,
                        shown_kind(sweep),
                        byte,
                        byte + text::byte_len(cluster),
                        c,
                    ),
                    or_blank: w.cursor_visible && c == w.source.cursor,
                },
            ),
            ..moved
        }
    }
}

pub open spec fn pen_upto(
    w: EditorWidget<'_>,
    area: Area,
    row: int,
    line: SourceLine,
    start: Pen,
    clusters: Seq<Seq<char>>,
    n: nat,
) -> Pen
    decreases n,
{
    if n == 0 {
        start
    } else {
        pen_step(
            w,
            area,
            row,
            line,
            pen_upto(w, area, row, line, start, clusters, (n - 1) as nat),
            clusters[n - 1],
        )
    }
}

proof fn lemma_full_stays(
    w: EditorWidget<'_>,
    area: Area,
    row: int,
    line: SourceLine,
    start: Pen,
    clusters: Seq<Seq<char>>,
    m: nat,
    n: nat,
)
    requires
        m <= n,
        pen_upto(w, area, row, line, start, clusters, m).full,
    ensures
        pen_upto(w, area, row, line, start, clusters, n) == pen_upto(
            w,
            area,
            row,
            line,
            start,
            clusters,
            m,
        ),
    decreases n - m,
{
    if m < n {
        lemma_full_stays(w, area, row, line, start, clusters, m, (n - 1) as nat);
    }
}

/// The message of a line: the first of the most important ones.
pub open spec fn message_upto(ds: Seq<LiveDiagnosticSpan>, line: int, n: nat) -> Option<int>
    decreases n,
{
    if n == 0 {
        None
    } else {
        let before = message_upto(ds, line, (n - 1) as nat);
        let d = ds[n - 1];
        if d.start_line <= line <= d.end_line {
            match before {
                Some(b) => if priority(d.kind) < priority(ds[b].kind) {
                    Some(n - 1)
                } else {
                    before
                },
                None => Some(n - 1),
            }
        } else {
            before
        }
    }
}

pub open spec fn behind_left(column: nat, left: nat) -> int {
    if column >= left {
        column - left
    } else {
        0
    }
}

/// The message that is written beside a line, where there is room for it.
pub open spec fn message_draw(w: EditorWidget<'_>, area: Area, row: int, line: int, column: nat) -> Option<
    Drawn,
> {
    let end = behind_left(column, w.viewport.left_column as nat);
    match message_upto(w.messages@, line, w.messages@.len()) {
        Some(k) => if area.width - end < MESSAGE_CELLS {
            None
        } else {
            let d = w.messages@[k];
            Some(
                Drawn::Message {
                    x: area.x + end + 2,
                    y: area.y + row,
                    message: display::label_of(d.message@, MAX_LIVE_DIAGNOSTIC_MESSAGE_BYTES),
                    cells: area.width - end - 2,
                    style: style::with_added(
                        colored(message_color(d.kind, w.palette)),
                        style::dim(),
                    ),
                },
            )
        },
        None => None,
    }
}

/// The cursor behind the end of a line.
pub open spec fn cursor_draw(w: EditorWidget<'_>, area: Area, row: int, line: SourceLine, column: nat) -> Option<
    Drawn,
> {
    let at = behind_left(column, w.viewport.left_column as nat);
    if w.cursor_visible && w.source.cursor == line.char_start + line.text@.len() && at < area.width {
        Some(
            Drawn::Text {
                x: area.x + at,
                y: area.y + row,
                text: " "@,
                cells: 1,
                style: style::with_added(style::plain_style(), reversed()),
                or_blank: false,
            },
        )
    } else {
        None
    }
}

pub open spec fn with_draw(draws: Seq<Drawn>, one: Option<Drawn>) -> Seq<Drawn> {
    match one {
        Some(d) => draws.push(d),
        None => draws,
    }
}

pub open spec fn background_draw(w: EditorWidget<'_>, area: Area, row: int, line: int) -> Option<Drawn> {
    match line_color(w.markers@, line, w.palette) {
        Some(color) => Some(
            Drawn::Fill {
                area: Area { x: area.x, y: (area.y + row) as u16, width: area.width, height: 1 },
                style: Style { bg: Some(color), ..style::plain_style() },
            },
        ),
        None => None,
    }
}

/// What was drawn, and where the sweep is.
pub struct Screen {
    pub sweep: Sweep,
    pub draws: Seq<Drawn>,
}

/// Draws one line.
pub open spec fn row_drawn(w: EditorWidget<'_>, area: Area, row: int, screen: Screen) -> Screen {
    let index = w.viewport.top_line + row;
    let line = w.source.lines@[index];
    let clusters = glyph::grapheme_clusters(line.text@);
    let start = Pen {
        column: 0,
        chars: 0,
        bytes: 0,
        sweep: screen.sweep,
        draws: with_draw(screen.draws, background_draw(w, area, row, index)),
        full: false,
    };
    let pen = pen_upto(w, area, row, line, start, clusters, clusters.len());
    Screen {
        sweep: pen.sweep,
        draws: with_draw(
            with_draw(pen.draws, cursor_draw(w, area, row, line, pen.column)),
            message_draw(w, area, row, index, pen.column),
        ),
    }
}

/// Draws the first rows of the screen.
pub open spec fn rows_drawn(w: EditorWidget<'_>, area: Area, start: Screen, n: nat) -> Screen
    decreases n,
{
    if n == 0 {
        start
    } else {
        let before = rows_drawn(w, area, start, (n - 1) as nat);
        if w.viewport.top_line + (n - 1) >= w.source.lines@.len() {
            before
        } else {
            row_drawn(w, area, n - 1, before)
        }
    }
}

/// The drawing of a source. One that is too long is not drawn.
pub open spec fn drawing(w: EditorWidget<'_>, area: Area, limit: usize) -> Seq<Drawn> {
    let fill = Drawn::Fill { area, style: colored(text_color(w.palette)) };
    if w.source.len_bytes > limit {
        if area.width > 0 && area.height > 0 {
            seq![
                fill,
                Drawn::Text {
                    x: area.x as int,
                    y: area.y as int,
                    text: "[source display limit]"@,
                    cells: area.width as int,
                    style: style::plain_style(),
                    or_blank: false,
                },
            ]
        } else {
            seq![fill]
        }
    } else {
        rows_drawn(
            w,
            area,
            Screen { sweep: first_sweep(), draws: seq![fill] },
            area.height as nat,
        ).draws
    }
}

/// Whether the far edges of an area can be counted.
pub open spec fn area_fits(area: Area) -> bool {
    area.x + area.width <= u16::MAX && area.y + area.height <= u16::MAX
}

/// Where drawing a line has come to.
pub struct PenState {
    pub column: usize,
    pub chars: usize,
    pub bytes: usize,
    pub sweep: SweepState,
    pub draws: Vec<Draw>,
    pub full: bool,
}

impl PenState {
    pub open spec fn view(&self) -> Pen {
        Pen {
            column: self.column as nat,
            chars: self.chars as nat,
            bytes: self.bytes as nat,
            sweep: self.sweep.view(),
            draws: draws_view(self.draws@),
            full: self.full,
        }
    }
}

fn behind(column: usize, left: usize) -> (r: usize)
    ensures
        r == behind_left(column as nat, left as nat),
{
    if column >= left {
        column - left
    } else {
        0
    }
}

impl<'a> EditorWidget<'a> {
    pub fn new(source: &'a SourceView, viewport: Viewport, highlights: &'a [HighlightSpan]) -> (r:
        EditorWidget<'a>)
        ensures
            r.source == source,
            r.viewport == viewport,
            r.highlights == highlights,
            r.markers@.len() == 0,
            r.messages@.len() == 0,
            r.palette is None,
            r.cursor_visible,
    {
        EditorWidget {
            source,
            viewport,
            highlights,
            markers: &[],
            messages: &[],
            palette: None,
            cursor_visible: true,
        }
    }

    pub fn with_diagnostic_markers(self, markers: &'a [DiagnosticLineMarker]) -> (r: EditorWidget<'a>)
        ensures
            r == (EditorWidget { markers, ..self }),
    {
        EditorWidget { markers, ..self }
    }

    pub fn with_live_diagnostics(self, messages: &'a [LiveDiagnosticSpan]) -> (r: EditorWidget<'a>)
        ensures
            r == (EditorWidget { messages, ..self }),
    {
        EditorWidget { messages, ..self }
    }

    pub fn with_palette(self, palette: Palette) -> (r: EditorWidget<'a>)
        ensures
            r == (EditorWidget { palette: Some(palette), ..self }),
    {
        EditorWidget { palette: Some(palette), ..self }
    }

    pub fn with_cursor_visible(self, visible: bool) -> (r: EditorWidget<'a>)
        ensures
            r == (EditorWidget { cursor_visible: visible, ..self }),
    {
        EditorWidget { cursor_visible: visible, ..self }
    }

    fn style_of(&self, kind: Option<HighlightKind>, byte: usize, end: usize, c: usize) -> (r: Style)
        ensures
            r == cell_style(*self, kind, byte as int, end as int, c as int),
    {
        let mut s = highlight_style(kind, self.palette);
        match live_diagnostic_kind(self.messages, byte, end) {
            Some(k) => {
                s = add_underlined(s.with_fg(diagnostic_color(k, self.palette)));
            },
            None => {},
        }
        let here = match self.source.matching_bracket {
            Some(b) => b == byte,
            None => false,
        };
        if here {
            let color = match self.palette {
                Some(p) => p.accent,
                None => Color::Blue,
            };
            s = add_bold(s.with_fg(color));
        }
        let selected = match self.source.selection {
            Some((from, to)) => from <= c && c < to,
            None => false,
        };
        if selected {
            let color = match self.palette {
                Some(p) => {
                    if p.selection_bg == Color::Reset {
                        p.active_row_bg
                    } else {
                        p.selection_bg
                    }
                },
                None => Color::Blue,
            };
            s = s.with_bg(color);
        }
        if self.cursor_visible && c == self.source.cursor {
            s = add_reversed(s);
        }
        s
    }

    fn draw_cluster(
        &self,
        area: Area,
        row: u16,
        line: &SourceLine,
        pen: &mut PenState,
        cluster: &str,
    )
        requires
            area_fits(area),
            row < area.height,
            line.char_start + old(pen).chars + cluster@.len() <= usize::MAX,
            line.byte_start + old(pen).bytes + text::byte_len(cluster@) <= usize::MAX,
            old(pen).sweep.next <= followed_spans(*self).len(),
        ensures
            final(pen).view() == pen_step(
                *self,
                area,
                row as int,
                *line,
                old(pen).view(),
                cluster@,
            ),
            final(pen).sweep.next <= followed_spans(*self).len(),
    {
        let symbol = glyph::symbol(cluster, pen.column);
        let width = glyph::cells(symbol.as_str());
        self.draw_symbol(area, row, line, pen, cluster, symbol, width);
    }

    /// Draws a cluster by a symbol of some cells.
    pub fn draw_symbol(
        &self,
        area: Area,
        row: u16,
        line: &SourceLine,
        pen: &mut PenState,
        cluster: &str,
        symbol: String,
        width: usize,
    )
        requires
            area_fits(area),
            row < area.height,
            line.char_start + old(pen).chars + cluster@.len() <= usize::MAX,
            line.byte_start + old(pen).bytes + text::byte_len(cluster@) <= usize::MAX,
            old(pen).sweep.next <= followed_spans(*self).len(),
        ensures
            final(pen).view() == symbol_drawn(
                *self,
                area,
                row as int,
                *line,
                old(pen).view(),
                cluster@,
                symbol@,
                width as nat,
            ),
            final(pen).sweep.next <= followed_spans(*self).len(),
    {
        if pen.full {
            return ;
        }
        let next: usize = if width > usize::MAX - pen.column {
            usize::MAX
        } else {
            pen.column + width
        };
        let left = self.viewport.left_column;
        let chars = text::chars_of(cluster);
        let size = text::str_bytes(cluster);
        if next <= left || pen.column < left {
            pen.column = next;
            pen.chars = pen.chars + chars.len();
            pen.bytes = pen.bytes + size;
            return ;
        }
        let at: usize = pen.column - left;
        if at >= area.width as usize {
            pen.full = true;
            return ;
        }
        let byte: usize = line.byte_start + pen.bytes;
        let c: usize = line.char_start + pen.chars;
        if self.highlights.len() <= MAX_HIGHLIGHT_SPANS {
            pen.sweep.advance(self.highlights, byte);
        } else {
            let none: [HighlightSpan; 0] = [];
            assert(super::highlight::spans_view(none@) =~= Seq::<Span>::empty());
            pen.sweep.advance(&none, byte);
        }
        let s = self.style_of(pen.sweep.kind(), byte, byte + size, c);
        let x: u16 = area.x + at as u16;
        let draw = Draw::Text {
            x,
            y: area.y + row,
            text: symbol,
            cells: (area.x + area.width - x) as usize,
            style: s,
            or_blank: self.cursor_visible && c == self.source.cursor,
        };
        add_draw(&mut pen.draws, draw);
        pen.column = next;
        pen.chars = pen.chars + chars.len();
        pen.bytes = pen.bytes + size;
    }

    fn find_message(&self, line: usize) -> (r: Option<usize>)
        ensures
            match message_upto(self.messages@, line as int, self.messages@.len()) {
                Some(k) => r is Some && r->0 == k && 0 <= k < self.messages@.len(),
                None => r is None,
            },
    {
        let mut best: Option<usize> = None;
        let mut i: usize = 0;
        while i < self.messages.len()
            invariant
                i <= self.messages@.len(),
                match message_upto(self.messages@, line as int, i as nat) {
                    Some(k) => best is Some && best->0 == k && 0 <= k < i,
                    None => best is None,
                },
            decreases self.messages@.len() - i,
        {
            let d = &self.messages[i];
            if d.start_line <= line && line <= d.end_line {
                match best {
                    Some(b) => {
                        if diagnostic_priority(d.kind) < diagnostic_priority(self.messages[b].kind) {
                            best = Some(i);
                        }
                    },
                    None => {
                        best = Some(i);
                    },
                }
            }
            i += 1;
        }
        best
    }

    fn draw_message(&self, area: Area, row: u16, line: usize, column: usize, draws: &mut Vec<Draw>)
        requires
            area_fits(area),
            row < area.height,
        ensures
            draws_view(final(draws)@) == with_draw(
                draws_view(old(draws)@),
                message_draw(*self, area, row as int, line as int, column as nat),
            ),
    {
        let end = behind(column, self.viewport.left_column);
        match self.find_message(line) {
            Some(k) => {
                let width = area.width as usize;
                if end >= width || width - end < MESSAGE_CELLS {
                    return ;
                }
                let d = &self.messages[k];
                let message = display::label(d.message.as_str(), MAX_LIVE_DIAGNOSTIC_MESSAGE_BYTES);
                let s = add_dim(Style::plain().with_fg(diagnostic_color(d.kind, self.palette)));
                let draw = Draw::Message {
                    x: area.x + end as u16 + 2,
                    y: area.y + row,
                    message,
                    cells: width - end - 2,
                    style: s,
                };
                add_draw(draws, draw);
            },
            None => {},
        }
    }

    fn draw_cursor(
        &self,
        area: Area,
        row: u16,
        line: &SourceLine,
        column: usize,
        draws: &mut Vec<Draw>,
    )
        requires
            area_fits(area),
            row < area.height,
            line.char_start + line.text@.len() <= usize::MAX,
        ensures
            draws_view(final(draws)@) == with_draw(
                draws_view(old(draws)@),
                cursor_draw(*self, area, row as int, *line, column as nat),
            ),
    {
        let at = behind(column, self.viewport.left_column);
        let chars = text::chars_of(line.text.as_str());
        if self.cursor_visible && self.source.cursor == line.char_start + chars.len() && at
            < area.width as usize {
            let draw = Draw::Text {
                x: area.x + at as u16,
                y: area.y + row,
                text: " ".to_owned(),
                cells: 1,
                style: add_reversed(Style::plain()),
                or_blank: false,
            };
            add_draw(draws, draw);
        }
    }

    fn draw_background(&self, area: Area, row: u16, line: usize, draws: &mut Vec<Draw>)
        requires
            area_fits(area),
            row < area.height,
        ensures
            draws_view(final(draws)@) == with_draw(
                draws_view(old(draws)@),
                background_draw(*self, area, row as int, line as int),
            ),
    {
        match diagnostic_line_background(self.markers, line, self.palette) {
            Some(color) => {
                let draw = Draw::Fill {
                    area: Area { x: area.x, y: area.y + row, width: area.width, height: 1 },
                    style: Style::plain().with_bg(color),
                };
                add_draw(draws, draw);
            },
            None => {},
        }
    }

    /// Draws the clusters of a line until its row is full.
    pub fn draw_clusters(
        &self,
        area: Area,
        row: u16,
        line: &SourceLine,
        pen: &mut PenState,
        clusters: &Vec<String>,
    )
        requires
            area_fits(area),
            row < area.height,
            line.char_start + old(pen).chars + text::joined(text::texts(clusters@)).len()
                <= usize::MAX,
            line.byte_start + old(pen).bytes + text::byte_len(
                text::joined(text::texts(clusters@)),
            ) <= usize::MAX,
            old(pen).sweep.next <= followed_spans(*self).len(),
        ensures
            final(pen).view() == pen_upto(
                *self,
                area,
                row as int,
                *line,
                old(pen).view(),
                text::texts(clusters@),
                clusters@.len(),
            ),
            final(pen).sweep.next <= followed_spans(*self).len(),
    {
        let ghost start = pen.view();
        let ghost all = text::texts(clusters@);
        let mut i: usize = 0;
        assert(all.take(0) =~= Seq::<Seq<char>>::empty());
        while i < clusters.len() && !pen.full
            invariant
                i <= clusters@.len(),
                area_fits(area),
                row < area.height,
                text::texts(clusters@) == all,
                line.char_start + start.chars + text::joined(all).len() <= usize::MAX,
                line.byte_start + start.bytes + text::byte_len(text::joined(all)) <= usize::MAX,
                pen.sweep.next <= followed_spans(*self).len(),
                !pen.full ==> pen.chars == start.chars + text::joined(all.take(i as int)).len(),
                !pen.full ==> pen.bytes == start.bytes + text::byte_len(
                    text::joined(all.take(i as int)),
                ),
                pen.view() == pen_upto(*self, area, row as int, *line, start, all, i as nat),
            decreases clusters@.len() - i,
        {
            proof {
                assert(all[i as int] == clusters@[i as int]@);
                text::lemma_joined_split(all, i as int);
                text::lemma_joined_split(all, i + 1);
                text::lemma_byte_len_concat(text::joined(all.take(i as int)), all[i as int]);
            }
            self.draw_cluster(area, row, line, pen, clusters[i].as_str());
            i += 1;
        }
        proof {
            if pen.full {
                lemma_full_stays(*self, area, row as int, *line, start, all, i as nat, all.len());
            }
        }
    }

    fn draw_row(&self, area: Area, row: u16, index: usize, sweep: SweepState, draws: Vec<Draw>) -> (r: (
        SweepState,
        Vec<Draw>,
    ))
        requires
            area_fits(area),
            row < area.height,
            self.source.wf(),
            index == self.viewport.top_line + row,
            index < self.source.lines@.len(),
            sweep.next <= followed_spans(*self).len(),
        ensures
            r.0.next <= followed_spans(*self).len(),
            (Screen { sweep: r.0.view(), draws: draws_view(r.1@) }) == row_drawn(
                *self,
                area,
                row as int,
                Screen { sweep: sweep.view(), draws: draws_view(draws@) },
            ),
    {
        let line = &self.source.lines[index];
        let mut draws = draws;
        self.draw_background(area, row, index, &mut draws);
        let mut pen = PenState { column: 0, chars: 0, bytes: 0, sweep, draws, full: false };
        let clusters = glyph::graphemes(line.text.as_str());
        self.draw_clusters(area, row, line, &mut pen, &clusters);
        let column = pen.column;
        let mut draws = pen.draws;
        self.draw_cursor(area, row, line, column, &mut draws);
        self.draw_message(area, row, index, column, &mut draws);
        (pen.sweep, draws)
    }

    /// Draws the source in an area. A source of more than `limit` bytes is not
    /// drawn.
    pub fn render(&self, area: Area, limit: usize) -> (r: Vec<Draw>)
        requires
            area_fits(area),
            self.source.wf(),
        ensures
            draws_view(r@) == drawing(*self, area, limit),
    {
        let mut draws: Vec<Draw> = Vec::new();
        let color = match self.palette {
            Some(p) => p.text,
            None => Color::White,
        };
        add_draw(&mut draws, Draw::Fill { area, style: Style::plain().with_fg(color) });
        let ghost fill = Drawn::Fill { area, style: colored(text_color(self.palette)) };
        assert(draws_view(draws@) =~= seq![fill]);
        if self.source.len_bytes > limit {
            if area.width > 0 && area.height > 0 {
                add_draw(
                    &mut draws,
                    Draw::Text {
                        x: area.x,
                        y: area.y,
                        text: "[source display limit]".to_owned(),
                        cells: area.width as usize,
                        style: Style::plain(),
                        or_blank: false,
                    },
                );
            }
            assert(draws_view(draws@) =~= drawing(*self, area, limit));
            return draws;
        }
        let mut sweep = SweepState { next: 0, open: Vec::new(), on: true };
        assert(open_view(sweep.open@) =~= Seq::<(HighlightKind, int)>::empty());
        let ghost start = Screen { sweep: first_sweep(), draws: seq![fill] };
        let top = self.viewport.top_line;
        let count = self.source.lines.len();
        let mut row: u16 = 0;
        while row < area.height && top < count && (row as usize) < count - top
            invariant
                row <= area.height,
                area_fits(area),
                self.source.wf(),
                top == self.viewport.top_line,
                count == self.source.lines@.len(),
                sweep.next <= followed_spans(*self).len(),
                (Screen { sweep: sweep.view(), draws: draws_view(draws@) }) == rows_drawn(
                    *self,
                    area,
                    start,
                    row as nat,
                ),
            decreases area.height - row,
        {
            let (next_sweep, next_draws) = self.draw_row(area, row, top + row as usize, sweep, draws);
            sweep = next_sweep;
            draws = next_draws;
            row += 1;
        }
        proof {
            lemma_rows_end(*self, area, start, row as nat, area.height as nat);
        }
        draws
    }
}

proof fn lemma_rows_end(w: EditorWidget<'_>, area: Area, start: Screen, m: nat, n: nat)
    requires
        m <= n,
        m < n ==> w.viewport.top_line + m >= w.source.lines@.len(),
    ensures
        rows_drawn(w, area, start, n) == rows_drawn(w, area, start, m),
    decreases n - m,
{
    if m < n {
        lemma_rows_end(w, area, start, m, (n - 1) as nat);
    }
}

// What holds of all drawings.

/// Whether a step stays in an area.
pub open spec fn stays_in(d: Drawn, area: Area) -> bool {
    match d {
        Drawn::Fill { area: a, .. } => area.x <= a.x && a.x + a.width <= area.x + area.width
            && area.y <= a.y && a.y + a.height <= area.y + area.height,
        Drawn::Text { x, y, cells, .. } => area.x <= x && x + cells <= area.x + area.width
            && area.y <= y < area.y + area.height,
        Drawn::Message { x, y, cells, .. } => area.x <= x && x + cells <= area.x + area.width
            && area.y <= y < area.y + area.height,
    }
}

pub open spec fn all_stay_in(draws: Seq<Drawn>, area: Area) -> bool {
    forall|i: int| 0 <= i < draws.len() ==> stays_in(#[trigger] draws[i], area)
}

proof fn lemma_pen_stays(
    w: EditorWidget<'_>,
    area: Area,
    row: int,
    line: SourceLine,
    start: Pen,
    clusters: Seq<Seq<char>>,
    n: nat,
)
    requires
        0 <= row < area.height,
        all_stay_in(start.draws, area),
    ensures
        all_stay_in(pen_upto(w, area, row, line, start, clusters, n).draws, area),
    decreases n,
{
    if n > 0 {
        lemma_pen_stays(w, area, row, line, start, clusters, (n - 1) as nat);
    }
}

proof fn lemma_rows_stay(w: EditorWidget<'_>, area: Area, start: Screen, n: nat)
    requires
        n <= area.height,
        area_fits(area),
        all_stay_in(start.draws, area),
    ensures
        all_stay_in(rows_drawn(w, area, start, n).draws, area),
    decreases n,
{
    if n > 0 {
        lemma_rows_stay(w, area, start, (n - 1) as nat);
        let before = rows_drawn(w, area, start, (n - 1) as nat);
        let index = w.viewport.top_line + (n - 1);
        if index < w.source.lines@.len() {
            let line = w.source.lines@[index];
            let clusters = glyph::grapheme_clusters(line.text@);
            let first = Pen {
                column: 0,
                chars: 0,
                bytes: 0,
                sweep: before.sweep,
                draws: with_draw(before.draws, background_draw(w, area, n - 1, index)),
                full: false,
            };
            lemma_pen_stays(w, area, n - 1, line, first, clusters, clusters.len());
        }
    }
}

/// Nothing is drawn outside of the area.
pub proof fn drawings_stay_in_their_area(w: EditorWidget<'_>, area: Area, limit: usize)
    requires
        area_fits(area),
    ensures
        all_stay_in(drawing(w, area, limit), area),
{
    let fill = Drawn::Fill { area, style: colored(text_color(w.palette)) };
    let start = Screen { sweep: first_sweep(), draws: seq![fill] };
    lemma_rows_stay(w, area, start, area.height as nat);
}

/// The first spans that have not ended at a byte.
pub open spec fn unended(spans: Seq<Span>, byte: int, n: nat) -> Seq<(HighlightKind, int)>
    decreases n,
{
    if n == 0 {
        Seq::empty()
    } else {
        let before = unended(spans, byte, (n - 1) as nat);
        if spans[n - 1].end > byte {
            before.push((spans[n - 1].kind, spans[n - 1].end))
        } else {
            before
        }
    }
}

/// Whether a sweep has come to a byte: the spans behind it are those that start
/// there or before, and the open ones are those of them that have not ended.
pub open spec fn is_at(w: Sweep, spans: Seq<Span>, byte: int) -> bool {
    &&& w.on ==> w.open == unended(spans, byte, w.next)
    &&& w.next <= spans.len()
    &&& forall|i: int| 0 <= i < w.next ==> (#[trigger] spans[i]).start <= byte
}

/// The kind of the last of the first spans that cover a byte.
pub open spec fn last_cover(spans: Seq<Span>, byte: int, n: nat) -> Option<HighlightKind>
    decreases n,
{
    if n == 0 {
        None
    } else if spans[n - 1].start <= byte < spans[n - 1].end {
        Some(spans[n - 1].kind)
    } else {
        last_cover(spans, byte, (n - 1) as nat)
    }
}

proof fn lemma_still_open(spans: Seq<Span>, byte: int, later: int, n: nat)
    requires
        byte <= later,
    ensures
        still_open(unended(spans, byte, n), later) == unended(spans, later, n),
    decreases n,
{
    if n > 0 {
        lemma_still_open(spans, byte, later, (n - 1) as nat);
        let before = unended(spans, byte, (n - 1) as nat);
        if spans[n - 1].end > byte {
            let one = (spans[n - 1].kind, spans[n - 1].end);
            assert(before.push(one).drop_last() =~= before);
        }
    }
}

proof fn lemma_opened(w: Sweep, spans: Seq<Span>, byte: int)
    requires
        is_at(w, spans, byte),
    ensures
        is_at(opened(w, spans, byte), spans, byte),
        opened(w, spans, byte).on ==> opened(w, spans, byte).next >= spans.len()
            || spans[opened(w, spans, byte).next as int].start > byte,
    decreases spans.len() - w.next,
{
    if w.on && w.next < spans.len() && spans[w.next as int].start <= byte {
        let s = spans[w.next as int];
        if s.end <= byte {
            lemma_opened(Sweep { next: w.next + 1, ..w }, spans, byte);
        } else if w.open.len() != MAX_OVERLAPPING_SPANS {
            lemma_opened(
                Sweep { next: w.next + 1, open: w.open.push((s.kind, s.end)), on: true },
                spans,
                byte,
            );
        }
    }
}

proof fn lemma_last_cover(spans: Seq<Span>, byte: int, m: nat, n: nat)
    requires
        m <= n <= spans.len(),
        forall|i: int| 0 <= i < m ==> (#[trigger] spans[i]).start <= byte,
        forall|i: int| m <= i < n ==> (#[trigger] spans[i]).start > byte,
    ensures
        last_cover(spans, byte, n) == (if unended(spans, byte, m).len() > 0 {
            Some(unended(spans, byte, m).last().0)
        } else {
            None
        }),
    decreases n,
{
    if m < n {
        lemma_last_cover(spans, byte, m, (n - 1) as nat);
    } else if n > 0 {
        lemma_last_cover(spans, byte, (n - 1) as nat, (n - 1) as nat);
    }
}

/// A sweep that moves on over spans in the order of their starts shows at every
/// byte the last span that covers it, as long as spans are followed.
pub proof fn the_last_cover_is_shown(w: Sweep, spans: Seq<Span>, byte: int, later: int)
    requires
        is_at(w, spans, byte),
        byte <= later,
        forall|i: int, j: int|
            0 <= i < j < spans.len() ==> (#[trigger] spans[i]).start <= (#[trigger] spans[j]).start,
    ensures
        is_at(swept(w, spans, later), spans, later),
        swept(w, spans, later).on ==> shown_kind(swept(w, spans, later)) == last_cover(
            spans,
            later,
            spans.len(),
        ),
{
    if w.on {
        lemma_still_open(spans, byte, later, w.next);
        let closed = Sweep { open: still_open(w.open, later), ..w };
        lemma_opened(closed, spans, later);
        let r = opened(closed, spans, later);
        if r.on {
            lemma_last_cover(spans, later, r.next, spans.len());
        }
    }
}

} // verus!
