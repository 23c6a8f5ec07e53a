//! Bounded display of source, labels, errors and tool output.
//!
//! The input is never trusted as terminal framing. Escape sequences set styles
//! only where they are allowed; all other controls become visible text.

use crate::glyph;
use crate::json;
use crate::json::{Json, JsonValue};
use crate::style;
use crate::style::Style;
use crate::text;
use vstd::prelude::*;
use vstd::utf8::{decode_utf8, encode_utf8, valid_utf8};

verus! {

pub const MAX_INPUT_BYTES: usize = 65536;

pub const MAX_OUTPUT_BYTES: usize = 32768;

pub const MAX_SPANS: usize = 1024;

pub const MAX_LINES: usize = 128;

pub const TRUNCATED: &'static str = "[display truncated]";

/// Budgets of one call. Requests above the fixed ceilings are cut to them.
#[derive(Clone, Copy, Debug)]
pub struct Limits {
    pub input_bytes: usize,
    pub output_bytes: usize,
    pub spans: usize,
    pub lines: usize,
}

pub open spec fn default_limits() -> Limits {
    Limits {
        input_bytes: MAX_INPUT_BYTES,
        output_bytes: MAX_OUTPUT_BYTES,
        spans: MAX_SPANS,
        lines: MAX_LINES,
    }
}

impl Default for Limits {
    fn default() -> (r: Limits)
        ensures
            r == default_limits(),
    {
        Limits {
            input_bytes: MAX_INPUT_BYTES,
            output_bytes: MAX_OUTPUT_BYTES,
            spans: MAX_SPANS,
            lines: MAX_LINES,
        }
    }
}

pub open spec fn at_most(n: usize, ceiling: usize) -> nat {
    if n <= ceiling {
        n as nat
    } else {
        ceiling as nat
    }
}

fn clamp(n: usize, ceiling: usize) -> (r: usize)
    ensures
        r == at_most(n, ceiling),
        r <= ceiling,
{
    if n <= ceiling {
        n
    } else {
        ceiling
    }
}

/// A run of text in one style.
#[derive(Debug, PartialEq, Eq)]
pub struct DisplaySpan {
    pub content: String,
    pub style: Style,
}

pub struct SpanText {
    pub content: Seq<char>,
    pub style: Style,
}

/// A line of spans.
#[derive(Debug, PartialEq, Eq)]
pub struct DisplayLine {
    pub spans: Vec<DisplaySpan>,
}

/// Styled lines, how much input they stand for and how large they are.
#[derive(Debug)]
pub struct DisplayText {
    pub text: Vec<DisplayLine>,
    pub input_bytes: usize,
    pub output_bytes: usize,
    pub spans: usize,
    pub truncated: bool,
}

impl DisplaySpan {
    pub open spec fn view(&self) -> SpanText {
        SpanText { content: self.content@, style: self.style }
    }
}

impl DisplayLine {
    pub open spec fn view(&self) -> Seq<SpanText> {
        Seq::new(self.spans@.len(), |i: int| self.spans@[i].view())
    }
}

pub open spec fn lines_view(lines: Seq<DisplayLine>) -> Seq<Seq<SpanText>> {
    Seq::new(lines.len(), |i: int| lines[i].view())
}

/// Bytes of a line.
pub open spec fn line_bytes(line: Seq<SpanText>) -> nat
    decreases line.len(),
{
    if line.len() == 0 {
        0
    } else {
        line_bytes(line.drop_last()) + text::byte_len(line.last().content)
    }
}

/// Bytes of all lines with one separator between each two.
pub open spec fn lines_bytes(lines: Seq<Seq<SpanText>>) -> nat
    decreases lines.len(),
{
    if lines.len() == 0 {
        0
    } else if lines.len() == 1 {
        line_bytes(lines[0])
    } else {
        lines_bytes(lines.drop_last()) + 1 + line_bytes(lines.last())
    }
}

/// Spans of all lines.
pub open spec fn lines_spans(lines: Seq<Seq<SpanText>>) -> nat
    decreases lines.len(),
{
    if lines.len() == 0 {
        0
    } else {
        lines_spans(lines.drop_last()) + lines.last().len()
    }
}

proof fn lemma_line_push(line: Seq<SpanText>, span: SpanText)
    ensures
        line_bytes(line.push(span)) == line_bytes(line) + text::byte_len(span.content),
{
    assert(line.push(span).drop_last() =~= line);
}

proof fn lemma_line_last(line: Seq<SpanText>, span: SpanText)
    requires
        line.len() > 0,
    ensures
        line_bytes(line.drop_last().push(span)) == line_bytes(line) - text::byte_len(
            line.last().content,
        ) + text::byte_len(span.content),
{
    lemma_line_push(line.drop_last(), span);
}

/// Replacing the last line changes the totals by what the line changes.
proof fn lemma_last_line(lines: Seq<Seq<SpanText>>, line: Seq<SpanText>)
    requires
        lines.len() > 0,
    ensures
        lines_bytes(lines.drop_last().push(line)) == lines_bytes(lines) - line_bytes(lines.last())
            + line_bytes(line),
        lines_spans(lines.drop_last().push(line)) == lines_spans(lines) - lines.last().len()
            + line.len(),
{
    assert(lines.drop_last().push(line).drop_last() =~= lines.drop_last());
}

proof fn lemma_push_line(lines: Seq<Seq<SpanText>>, line: Seq<SpanText>)
    requires
        lines.len() > 0,
    ensures
        lines_bytes(lines.push(line)) == lines_bytes(lines) + 1 + line_bytes(line),
        lines_spans(lines.push(line)) == lines_spans(lines) + line.len(),
{
    assert(lines.push(line).drop_last() =~= lines);
}

/// The character that the bytes start with, or nothing where they start with no
/// well-formed character, and how many bytes it takes.
pub open spec fn decoded(bytes: Seq<u8>) -> (Option<char>, nat) {
    let length: nat = if bytes[0] <= 0x7f {
        1
    } else if 0xc2 <= bytes[0] <= 0xdf {
        2
    } else if 0xe0 <= bytes[0] <= 0xef {
        3
    } else if 0xf0 <= bytes[0] <= 0xf4 {
        4
    } else {
        0
    };
    if 0 < length <= bytes.len() && valid_utf8(bytes.take(length as int)) {
        (Some(decode_utf8(bytes.take(length as int))[0]), length)
    } else {
        (None, 1)
    }
}

fn decode(bytes: &[u8], from: usize) -> (r: (Option<char>, usize))
    requires
        from < bytes@.len(),
    ensures
        (r.0, r.1 as nat) == decoded(bytes@.skip(from as int)),
        0 < r.1 <= bytes@.len() - from,
{
    let ghost rest = bytes@.skip(from as int);
    let lead: u8 = bytes[from];
    assert(lead == rest[0]);
    let length: usize = if lead <= 0x7f {
        1
    } else if 0xc2 <= lead && lead <= 0xdf {
        2
    } else if 0xe0 <= lead && lead <= 0xef {
        3
    } else if 0xf0 <= lead && lead <= 0xf4 {
        4
    } else {
        return (None, 1);
    };
    if length > bytes.len() - from {
        return (None, 1);
    }
    let piece = text::copy_bytes(bytes, from, from + length);
    assert(piece@ =~= rest.take(length as int));
    match text::utf8_str(piece.as_slice()) {
        Some(s) => {
            proof {
                assert(decode_utf8(piece@).len() > 0);
            }
            (Some(text::chars_of(s)[0]), length)
        },
        None => (None, 1),
    }
}

/// What the input holds as characters: the one that is there, or the four
/// characters that name a byte which belongs to none.
pub open spec fn shown_input(bytes: Seq<u8>) -> Seq<char> {
    match decoded(bytes).0 {
        Some(c) => seq![c],
        None => seq![
            '\\',
            'x',
            text::hex_digit(bytes[0] as int / 16),
            text::hex_digit(bytes[0] as int % 16),
        ],
    }
}

/// What has been read: how far, as which characters, and in which styles. Each
/// style holds from a byte offset in the characters on.
pub struct Input {
    pub offset: nat,
    pub chars: Seq<char>,
    pub styles: Seq<(nat, Style)>,
    pub style: Style,
    pub stopped: bool,
}

pub open spec fn input_step(
    i: Input,
    bytes: Seq<u8>,
    sgr: bool,
    output_limit: nat,
    span_limit: nat,
) -> Input {
    let rest = bytes.skip(i.offset as int);
    let sequence = if sgr {
        style::sgr_of(rest, i.style)
    } else {
        None
    };
    match sequence {
        Some((length, next)) => {
            let passed = Input { offset: (i.offset + length) as nat, ..i };
            if next == i.style {
                passed
            } else if i.styles.last().0 == text::byte_len(i.chars) {
                Input {
                    styles: i.styles.drop_last().push((i.styles.last().0, next)),
                    style: next,
                    ..passed
                }
            } else if i.styles.len() < span_limit {
                Input {
                    styles: i.styles.push((text::byte_len(i.chars), next)),
                    style: next,
                    ..passed
                }
            } else {
                Input { stopped: true, ..i }
            }
        },
        None => {
            let value = shown_input(rest);
            if text::byte_len(i.chars) + text::byte_len(value) > output_limit {
                Input { stopped: true, ..i }
            } else {
                Input { chars: i.chars + value, offset: i.offset + decoded(rest).1, ..i }
            }
        },
    }
}

/// Reading on until the input ends or a budget is spent.
pub open spec fn input_read(
    i: Input,
    bytes: Seq<u8>,
    sgr: bool,
    output_limit: nat,
    span_limit: nat,
) -> Input
    decreases
            bytes.len() - i.offset,
            if i.stopped {
                0int
            } else {
                1int
            },
    when i.offset <= bytes.len()
    via input_read_decreases
{
    if i.stopped || i.offset >= bytes.len() {
        i
    } else {
        input_read(
            input_step(i, bytes, sgr, output_limit, span_limit),
            bytes,
            sgr,
            output_limit,
            span_limit,
        )
    }
}

proof fn lemma_input_step(
    i: Input,
    bytes: Seq<u8>,
    sgr: bool,
    output_limit: nat,
    span_limit: nat,
)
    requires
        i.offset < bytes.len(),
        !i.stopped,
    ensures
        ({
            let j = input_step(i, bytes, sgr, output_limit, span_limit);
            &&& j.offset <= bytes.len()
            &&& j.stopped ==> j.offset == i.offset
            &&& !j.stopped ==> j.offset > i.offset
        }),
{
    style::lemma_sgr_length(bytes.skip(i.offset as int), i.style);
}

#[via_fn]
proof fn input_read_decreases(
    i: Input,
    bytes: Seq<u8>,
    sgr: bool,
    output_limit: nat,
    span_limit: nat,
) {
    if !i.stopped && i.offset < bytes.len() {
        lemma_input_step(i, bytes, sgr, output_limit, span_limit);
    }
}

/// The characters of the input with their styles, before they are shown.
struct Reader {
    offset: usize,
    logical: String,
    styles: Vec<(usize, Style)>,
    style: Style,
    stopped: bool,
    length: usize,
}

pub open spec fn marks_view(marks: Seq<(usize, Style)>) -> Seq<(nat, Style)> {
    Seq::new(marks.len(), |i: int| (marks[i].0 as nat, marks[i].1))
}

impl Reader {
    spec fn view(&self) -> Input {
        Input {
            offset: self.offset as nat,
            chars: self.logical@,
            styles: marks_view(self.styles@),
            style: self.style,
            stopped: self.stopped,
        }
    }

    spec fn wf(&self) -> bool {
        &&& self.length == text::byte_len(self.logical@)
        &&& self.length <= MAX_OUTPUT_BYTES
        &&& self.styles@.len() >= 1
    }

    fn new() -> (r: Reader)
        ensures
            r.wf(),
            r.view() == first_input(),
    {
        let mut styles: Vec<(usize, Style)> = Vec::new();
        styles.push((0, Style::plain()));
        let r = Reader {
            offset: 0,
            logical: String::new(),
            styles,
            style: Style::plain(),
            stopped: false,
            length: 0,
        };
        assert(r.view().styles =~= first_input().styles);
        r
    }

    fn step(&mut self, bytes: &[u8], sgr: bool, output_limit: usize, span_limit: usize)
        requires
            old(self).wf(),
            !old(self).stopped,
            old(self).offset < bytes@.len(),
            output_limit <= MAX_OUTPUT_BYTES,
        ensures
            final(self).wf(),
            final(self).view() == input_step(
                old(self).view(),
                bytes@,
                sgr,
                output_limit as nat,
                span_limit as nat,
            ),
    {
        let ghost rest = bytes@.skip(self.offset as int);
        let ghost before = *self;
        assert(bytes.len() == bytes@.len());
        if sgr {
            if let Some((length, next)) = style::parse_sgr(bytes, self.offset, self.style) {
                if next != self.style {
                    let last: usize = self.styles.len() - 1;
                    assert(before.view().styles.last() == marks_view(before.styles@)[last as int]);
                    if self.styles[last].0 == self.length {
                        let mark: (usize, Style) = (self.styles[last].0, next);
                        self.styles.set(last, mark);
                        assert(marks_view(self.styles@) =~= marks_view(
                            before.styles@,
                        ).drop_last().push((mark.0 as nat, next)));
                    } else if self.styles.len() < span_limit {
                        self.styles.push((self.length, next));
                        assert(marks_view(self.styles@) =~= marks_view(before.styles@).push(
                            (before.length as nat, next),
                        ));
                    } else {
                        self.stopped = true;
                        return ;
                    }
                    self.style = next;
                }
                self.offset = self.offset + length;
                return ;
            }
        }
        let (character, length) = decode(bytes, self.offset);
        let mut value: String = String::new();
        let size: usize = match character {
            Some(c) => {
                value.push(c);
                text::width_of(c)
            },
            None => {
                let b: u8 = bytes[self.offset];
                value.push('\\');
                value.push('x');
                value.push(text::hex_char(b / 16));
                value.push(text::hex_char(b % 16));
                4
            },
        };
        proof {
            assert(value@ =~= shown_input(rest));
            match decoded(rest).0 {
                Some(c) => {
                    text::lemma_byte_len_push(Seq::empty(), c);
                    assert(value@ =~= Seq::<char>::empty().push(c));
                },
                None => {
                    assert(vstd::utf8::is_ascii_chars(value@));
                    text::lemma_byte_len_ascii(value@);
                },
            }
            text::lemma_byte_len_concat(self.logical@, value@);
        }
        if self.length + size > output_limit {
            self.stopped = true;
            return ;
        }
        self.logical.push_str(value.as_str());
        self.length = self.length + size;
        self.offset = self.offset + length;
    }
}

pub open spec fn first_input() -> Input {
    Input {
        offset: 0,
        chars: Seq::empty(),
        styles: seq![(0nat, style::plain_style())],
        style: style::plain_style(),
        stopped: false,
    }
}

fn read_input(bytes: &[u8], sgr: bool, output_limit: usize, span_limit: usize) -> (r: Reader)
    requires
        output_limit <= MAX_OUTPUT_BYTES,
    ensures
        r.wf(),
        r.view() == input_read(
            first_input(),
            bytes@,
            sgr,
            output_limit as nat,
            span_limit as nat,
        ),
        r.offset <= bytes@.len(),
{
    let mut reader = Reader::new();
    while !reader.stopped && reader.offset < bytes.len()
        invariant
            reader.wf(),
            reader.offset <= bytes@.len(),
            output_limit <= MAX_OUTPUT_BYTES,
            input_read(
                reader.view(),
                bytes@,
                sgr,
                output_limit as nat,
                span_limit as nat,
            ) == input_read(
                first_input(),
                bytes@,
                sgr,
                output_limit as nat,
                span_limit as nat,
            ),
        decreases
                bytes@.len() - reader.offset,
                if reader.stopped {
                    0int
                } else {
                    1int
                },
    {
        proof {
            lemma_input_step(
                reader.view(),
                bytes@,
                sgr,
                output_limit as nat,
                span_limit as nat,
            );
        }
        reader.step(bytes, sgr, output_limit, span_limit);
    }
    reader
}

/// The styled lines so far, the last of them open, and where the next cluster
/// goes.
pub struct Page {
    pub lines: Seq<Seq<SpanText>>,
    pub column: nat,
    pub mark: int,
    pub at: nat,
    pub stopped: bool,
}

/// The last style mark that lies at or before a place, from a given one on.
pub open spec fn mark_at(styles: Seq<(nat, Style)>, mark: int, at: nat) -> int
    decreases styles.len() - mark,
{
    if mark + 1 < styles.len() && styles[mark + 1].0 <= at {
        mark_at(styles, mark + 1, at)
    } else {
        mark
    }
}

pub open spec fn is_line_break(cluster: Seq<char>) -> bool {
    cluster == seq!['\n'] || cluster == seq!['\r', '\n']
}

/// What is shown for a cluster. In a single line a tab is named, not expanded.
pub open spec fn shown_cluster(cluster: Seq<char>, column: nat, multiline: bool) -> Seq<char> {
    if !multiline && cluster == seq!['\t'] {
        glyph::escaped(cluster)
    } else {
        glyph::symbol_of(cluster, column)
    }
}

pub open spec fn capped(n: nat) -> nat {
    if n <= usize::MAX {
        n
    } else {
        usize::MAX as nat
    }
}

/// A line with more text in a style: behind the last span where it has that style.
pub open spec fn line_with(line: Seq<SpanText>, shown: Seq<char>, s: Style) -> Seq<SpanText> {
    if line.len() == 0 || line.last().style != s {
        line.push(SpanText { content: shown, style: s })
    } else {
        line.drop_last().push(SpanText { content: line.last().content + shown, style: s })
    }
}

pub struct Budget {
    pub bytes: nat,
    pub spans: nat,
    pub lines: nat,
}

/// Puts a text of some cells behind the open line, if it has room.
pub open spec fn placed(p: Page, shown: Seq<char>, s: Style, width: nat, b: Budget) -> Page {
    let line = p.lines.last();
    let new_span = line.len() == 0 || line.last().style != s;
    if lines_bytes(p.lines) + text::byte_len(shown) > b.bytes || (new_span && lines_spans(p.lines)
        >= b.spans) {
        Page { stopped: true, ..p }
    } else {
        Page {
            lines: p.lines.drop_last().push(line_with(line, shown, s)),
            column: capped(p.column + width),
            ..p
        }
    }
}

pub open spec fn page_step(
    p: Page,
    cluster: Seq<char>,
    styles: Seq<(nat, Style)>,
    multiline: bool,
    b: Budget,
) -> Page {
    let mark = mark_at(styles, p.mark, p.at);
    let next = Page { mark, at: p.at + text::byte_len(cluster), ..p };
    if multiline && is_line_break(cluster) {
        if p.lines.len() >= b.lines || lines_bytes(p.lines) == b.bytes {
            Page { stopped: true, ..next }
        } else {
            Page { lines: p.lines.push(Seq::empty()), column: 0, ..next }
        }
    } else {
        let shown = shown_cluster(cluster, p.column, multiline);
        placed(next, shown, styles[mark].1, glyph::cell_width(shown), b)
    }
}

pub open spec fn page_upto(
    clusters: Seq<Seq<char>>,
    n: nat,
    styles: Seq<(nat, Style)>,
    multiline: bool,
    b: Budget,
) -> Page
    decreases n,
{
    if n == 0 {
        Page { lines: seq![Seq::empty()], column: 0, mark: 0, at: 0, stopped: false }
    } else {
        let p = page_upto(clusters, (n - 1) as nat, styles, multiline, b);
        if p.stopped {
            p
        } else {
            page_step(p, clusters[n - 1], styles, multiline, b)
        }
    }
}

/// Every span is safe to show.
pub open spec fn safe_line(line: Seq<SpanText>) -> bool {
    forall|i: int| 0 <= i < line.len() ==> glyph::shows_safely((#[trigger] line[i]).content)
}

/// Every line is safe to show.
pub open spec fn safe_lines(lines: Seq<Seq<SpanText>>) -> bool {
    forall|i: int| 0 <= i < lines.len() ==> safe_line(#[trigger] lines[i])
}

/// Lines within their budgets that are safe to show.
pub open spec fn fits(lines: Seq<Seq<SpanText>>, b: Budget) -> bool {
    &&& lines_bytes(lines) <= b.bytes
    &&& lines_spans(lines) <= b.spans
    &&& lines.len() <= b.lines
    &&& safe_lines(lines)
}

proof fn lemma_safe_concat(a: Seq<char>, b: Seq<char>)
    requires
        glyph::shows_safely(a),
        glyph::shows_safely(b),
    ensures
        glyph::shows_safely(a + b),
{
}

proof fn lemma_clusters_before_safe(clusters: Seq<Seq<char>>, desired: int, content: Seq<char>)
    requires
        text::joined(clusters) == content,
        glyph::shows_safely(content),
    ensures
        glyph::shows_safely(clusters_before(clusters, desired)),
    decreases clusters.len(),
{
    if !(clusters.len() <= 1 || text::byte_len(clusters[0]) > desired) {
        let rest = text::joined(clusters.skip(1));
        assert forall|i: int| 0 <= i < rest.len() implies !glyph::must_escape(
            #[trigger] rest[i],
        ) by {
            assert(content[clusters[0].len() + i] == rest[i]);
        }
        assert forall|i: int| 0 <= i < clusters[0].len() implies !glyph::must_escape(
            #[trigger] clusters[0][i],
        ) by {
            assert(content[i] == clusters[0][i]);
        }
        lemma_clusters_before_safe(
            clusters.skip(1),
            desired - text::byte_len(clusters[0]),
            rest,
        );
    }
}

pub struct Renderer {
    pub lines: Vec<DisplayLine>,
    pub bytes: usize,
    pub spans: usize,
    pub column: usize,
    pub mark: usize,
    pub at: usize,
    pub stopped: bool,
}

impl Renderer {
    pub open spec fn view(&self) -> Page {
        Page {
            lines: lines_view(self.lines@),
            column: self.column as nat,
            mark: self.mark as int,
            at: self.at as nat,
            stopped: self.stopped,
        }
    }

    pub open spec fn wf(&self, b: Budget) -> bool {
        &&& self.bytes == lines_bytes(lines_view(self.lines@))
        &&& self.spans == lines_spans(lines_view(self.lines@))
        &&& 1 <= self.lines@.len() <= b.lines
        &&& self.bytes <= b.bytes <= MAX_OUTPUT_BYTES
        &&& self.spans <= b.spans <= MAX_SPANS
        &&& safe_lines(lines_view(self.lines@))
    }

    /// An empty page.
    pub fn new(budget: &Room) -> (r: Renderer)
        requires
            budget.lines >= 1,
            budget.bytes <= MAX_OUTPUT_BYTES,
            budget.spans <= MAX_SPANS,
        ensures
            r.wf(budget.view()),
            r.view() == page_upto(Seq::empty(), 0, Seq::empty(), false, budget.view()),
    {
        let mut lines: Vec<DisplayLine> = Vec::new();
        let line = DisplayLine { spans: Vec::new() };
        lines.push(line);
        proof {
            assert(line.view() =~= Seq::<SpanText>::empty());
            assert(lines_view(lines@) =~= seq![Seq::<SpanText>::empty()]);
            let l = lines_view(lines@);
            assert(l.drop_last() =~= Seq::<Seq<SpanText>>::empty());
            assert(lines_spans(l) == 0) by {
                reveal_with_fuel(lines_spans, 2);
            }
        }
        Renderer { lines, bytes: 0, spans: 0, column: 0, mark: 0, at: 0, stopped: false }
    }

    /// Whether text in a style starts a new span.
    fn starts_span(&self, s: Style) -> (r: bool)
        requires
            self.lines@.len() >= 1,
        ensures
            ({
                let line = self.view().lines.last();
                r == (line.len() == 0 || line.last().style != s)
            }),
    {
        let line = &self.lines[self.lines.len() - 1];
        assert(self.view().lines.last() == line.view());
        if line.spans.len() == 0 {
            true
        } else {
            assert(line.view().last() == line.spans@.last().view());
            line.spans[line.spans.len() - 1].style != s
        }
    }

    /// Puts text behind the open line.
    fn put(&mut self, shown: &str, s: Style, size: usize, budget: &Room)
        requires
            old(self).wf(budget.view()),
            size == text::byte_len(shown@),
            glyph::shows_safely(shown@),
            old(self).bytes + size <= budget.bytes,
            old(self).spans < budget.spans || !({
                let line = old(self).view().lines.last();
                line.len() == 0 || line.last().style != s
            }),
        ensures
            final(self).wf(budget.view()),
            final(self).view() == (Page {
                lines: old(self).view().lines.drop_last().push(
                    line_with(old(self).view().lines.last(), shown@, s),
                ),
                ..old(self).view()
            }),
    {
        let ghost before = self.view().lines;
        let fresh = self.starts_span(s);
        let mut line = self.lines.pop().unwrap();
        let ghost old_line = line.view();
        let ghost old_spans = line.spans@;
        assert(before.last() == old_line);
        if fresh {
            line.spans.push(DisplaySpan { content: shown.to_owned(), style: s });
            self.spans = self.spans + 1;
            assert(line.view() =~= old_line.push(SpanText { content: shown@, style: s }));
            proof {
                lemma_line_push(old_line, SpanText { content: shown@, style: s });
            }
        } else {
            let mut span = line.spans.pop().unwrap();
            assert(old_line.last() == span.view());
            span.content.push_str(shown);
            let ghost span_text = SpanText {
                content: old_line.last().content + shown@,
                style: s,
            };
            line.spans.push(span);
            assert(line.view() =~= old_line.drop_last().push(span_text));
            proof {
                lemma_line_last(old_line, span_text);
                text::lemma_byte_len_concat(old_line.last().content, shown@);
            }
        }
        assert(line.view() == line_with(old_line, shown@, s));
        let ghost new_line = line.view();
        self.lines.push(line);
        self.bytes = self.bytes + size;
        proof {
            assert(lines_view(self.lines@) =~= before.drop_last().push(new_line));
            lemma_last_line(before, new_line);
        }
    }

    fn step(
        &mut self,
        cluster: &str,
        size: usize,
        styles: &Vec<(usize, Style)>,
        multiline: bool,
        budget: &Room,
    )
        requires
            old(self).wf(budget.view()),
            old(self).mark < styles@.len(),
            size == text::byte_len(cluster@),
            old(self).at + size <= usize::MAX,
        ensures
            final(self).wf(budget.view()),
            final(self).mark < styles@.len(),
            final(self).view() == page_step(
                old(self).view(),
                cluster@,
                marks_view(styles@),
                multiline,
                budget.view(),
            ),
    {
        let ghost marks = marks_view(styles@);
        let ghost first = *self;
        while self.mark < styles.len() - 1 && styles[self.mark + 1].0 <= self.at
            invariant
                self.mark < styles@.len(),
                marks == marks_view(styles@),
                mark_at(marks, self.mark as int, self.at as nat) == mark_at(
                    marks,
                    first.mark as int,
                    first.at as nat,
                ),
                *self == (Renderer { mark: self.mark, ..first }),
            decreases styles@.len() - self.mark,
        {
            assert(marks[self.mark as int + 1].0 == styles@[self.mark as int + 1].0);
            self.mark = self.mark + 1;
        }
        proof {
            if self.mark + 1 < styles@.len() {
                assert(marks[self.mark as int + 1].0 == styles@[self.mark as int + 1].0);
            }
            assert(mark_at(marks, self.mark as int, self.at as nat) == self.mark);
        }
        self.at = self.at + size;
        if multiline && breaks_line(cluster) {
            if self.lines.len() >= budget.lines || self.bytes == budget.bytes {
                self.stopped = true;
                return ;
            }
            let line = DisplayLine { spans: Vec::new() };
            assert(line.view() =~= Seq::<SpanText>::empty());
            let ghost before = self.view().lines;
            self.lines.push(line);
            self.bytes = self.bytes + 1;
            self.column = 0;
            proof {
                lemma_push_line(before, Seq::empty());
                assert(lines_view(self.lines@) =~= before.push(Seq::empty()));
            }
            return ;
        }
        let mut tab: String = String::new();
        tab.push('\t');
        assert(tab@ =~= seq!['\t']);
        let shown = if !multiline && text::str_eq(cluster, tab.as_str()) {
            glyph::escape(cluster)
        } else {
            glyph::symbol(cluster, self.column)
        };
        let s = styles[self.mark].1;
        assert(marks[self.mark as int].1 == s);
        proof {
            glyph::symbol_is_safe(cluster@, self.column as nat);
            glyph::escaped_is_safe(cluster@);
        }
        let width = glyph::cells(shown.as_str());
        self.place(shown.as_str(), s, width, budget);
    }

    /// Puts a text of some cells behind the open line, if it has room. Else the
    /// page ends.
    pub fn place(&mut self, shown: &str, s: Style, width: usize, budget: &Room)
        requires
            old(self).wf(budget.view()),
            glyph::shows_safely(shown@),
        ensures
            final(self).wf(budget.view()),
            final(self).mark == old(self).mark,
            final(self).view() == placed(old(self).view(), shown@, s, width as nat, budget.view()),
    {
        let size = text::str_bytes(shown);
        let fresh = self.starts_span(s);
        if size > budget.bytes - self.bytes || (fresh && self.spans >= budget.spans) {
            self.stopped = true;
            return ;
        }
        self.put(shown, s, size, budget);
        self.column = self.column.saturating_add(width);
    }
}

/// The budgets of one call, cut to their ceilings.
pub struct Room {
    pub bytes: usize,
    pub spans: usize,
    pub lines: usize,
}

impl Room {
    pub open spec fn view(&self) -> Budget {
        Budget { bytes: self.bytes as nat, spans: self.spans as nat, lines: self.lines as nat }
    }
}

fn breaks_line(cluster: &str) -> (r: bool)
    ensures
        r == is_line_break(cluster@),
{
    let mut lf: String = String::new();
    lf.push('\n');
    let mut crlf: String = String::new();
    crlf.push('\r');
    crlf.push('\n');
    assert(lf@ =~= seq!['\n']);
    assert(crlf@ =~= seq!['\r', '\n']);
    text::str_eq(cluster, lf.as_str()) || text::str_eq(cluster, crlf.as_str())
}

proof fn lemma_page_stopped(
    clusters: Seq<Seq<char>>,
    n: nat,
    m: nat,
    styles: Seq<(nat, Style)>,
    multiline: bool,
    b: Budget,
)
    requires
        n <= m,
        page_upto(clusters, n, styles, multiline, b).stopped,
    ensures
        page_upto(clusters, m, styles, multiline, b) == page_upto(clusters, n, styles, multiline, b),
    decreases m - n,
{
    if n < m {
        lemma_page_stopped(clusters, n, (m - 1) as nat, styles, multiline, b);
    }
}

fn render(logical: &str, styles: &Vec<(usize, Style)>, multiline: bool, budget: &Room) -> (r:
    Renderer)
    requires
        styles@.len() >= 1,
        budget.lines >= 1,
        budget.bytes <= MAX_OUTPUT_BYTES,
        budget.spans <= MAX_SPANS,
        text::byte_len(logical@) <= MAX_OUTPUT_BYTES,
    ensures
        r.wf(budget.view()),
        r.view() == page_upto(
            glyph::grapheme_clusters(logical@),
            glyph::grapheme_clusters(logical@).len(),
            marks_view(styles@),
            multiline,
            budget.view(),
        ),
{
    let clusters = glyph::graphemes(logical);
    lay_out(&clusters, styles, multiline, budget)
}

/// Lays clusters out on a page, until it is full.
pub fn lay_out(clusters: &Vec<String>, styles: &Vec<(usize, Style)>, multiline: bool, budget: &Room) -> (r:
    Renderer)
    requires
        styles@.len() >= 1,
        budget.lines >= 1,
        budget.bytes <= MAX_OUTPUT_BYTES,
        budget.spans <= MAX_SPANS,
        text::byte_len(text::joined(text::texts(clusters@))) <= usize::MAX,
    ensures
        r.wf(budget.view()),
        r.view() == page_upto(
            text::texts(clusters@),
            clusters@.len(),
            marks_view(styles@),
            multiline,
            budget.view(),
        ),
{
    let ghost all = text::texts(clusters@);
    let ghost marks = marks_view(styles@);
    let mut page = Renderer::new(budget);
    let mut i: usize = 0;
    assert(all.take(0) =~= Seq::<Seq<char>>::empty());
    while i < clusters.len() && !page.stopped
        invariant
            i <= clusters@.len(),
            all == text::texts(clusters@),
            marks == marks_view(styles@),
            text::byte_len(text::joined(all)) <= usize::MAX,
            page.wf(budget.view()),
            page.mark < styles@.len(),
            page.at == text::byte_len(text::joined(all.take(i as int))),
            page.view() == page_upto(all, i as nat, marks, multiline, budget.view()),
        decreases clusters@.len() - i,
    {
        proof {
            text::lemma_joined_split(all, i as int);
            text::lemma_joined_split(all, i as int + 1);
            text::lemma_byte_len_concat(text::joined(all.take(i as int)), all[i as int]);
            text::lemma_byte_len_concat(
                text::joined(all.take(i as int + 1)),
                text::joined(all.skip(i as int + 1)),
            );
        }
        let cluster = clusters[i].as_str();
        assert(cluster@ == all[i as int]);
        let size = text::str_bytes(cluster);
        page.step(cluster, size, styles, multiline, budget);
        i += 1;
    }
    proof {
        if page.stopped {
            lemma_page_stopped(all, i as nat, all.len(), marks, multiline, budget.view());
        }
    }
    page
}

/// The clusters in front of the last one that starts at or before `desired`.
pub open spec fn clusters_before(clusters: Seq<Seq<char>>, desired: int) -> Seq<char>
    decreases clusters.len(),
{
    if clusters.len() <= 1 || text::byte_len(clusters[0]) > desired {
        Seq::empty()
    } else {
        clusters[0] + clusters_before(
            clusters.skip(1),
            desired - text::byte_len(clusters[0]),
        )
    }
}

/// Where a span is cut when `desired` of its bytes should stay.
pub open spec fn cut_content(content: Seq<char>, desired: int) -> Seq<char> {
    if desired >= text::byte_len(content) {
        Seq::empty()
    } else {
        clusters_before(glyph::grapheme_clusters(content), desired)
    }
}

/// What stays of a line whose last span is cut.
pub open spec fn cut_line(line: Seq<SpanText>, desired: int) -> Seq<SpanText> {
    let content = cut_content(line.last().content, desired);
    if content.len() == 0 {
        line.drop_last()
    } else {
        line.drop_last().push(SpanText { content, style: line.last().style })
    }
}

pub open spec fn max_zero(n: int) -> int {
    if n < 0 {
        0
    } else {
        n
    }
}

/// Whether the marker goes into the last span of the last line.
pub open spec fn marker_extends(lines: Seq<Seq<SpanText>>, span_limit: nat) -> bool {
    let line = lines.last();
    line.len() > 0 && (line.last().style == style::plain_style() || lines_spans(lines)
        == span_limit)
}

/// Whether the marker fits without cutting more.
pub open spec fn marker_fits(lines: Seq<Seq<SpanText>>, keep: nat, span_limit: nat) -> bool {
    lines_bytes(lines) <= keep && (lines_spans(lines) < span_limit || marker_extends(
        lines,
        span_limit,
    ))
}

/// One cut: the last span is shortened, or an empty last line goes.
pub open spec fn cut_once(lines: Seq<Seq<SpanText>>, keep: nat) -> Seq<Seq<SpanText>> {
    let line = lines.last();
    if line.len() > 0 {
        let desired = max_zero(
            text::byte_len(line.last().content) - max_zero(lines_bytes(lines) - keep),
        );
        lines.drop_last().push(cut_line(line, desired))
    } else {
        lines.drop_last()
    }
}

pub open spec fn marked(lines: Seq<Seq<SpanText>>, span_limit: nat, marker: Seq<char>) -> Seq<
    Seq<SpanText>,
> {
    let line = lines.last();
    let ending = if marker_extends(lines, span_limit) {
        line.drop_last().push(
            SpanText { content: line.last().content + marker, style: line.last().style },
        )
    } else {
        line.push(SpanText { content: marker, style: style::plain_style() })
    };
    lines.drop_last().push(ending)
}

/// Lines that are within their span budget and end in the marker: cut from the
/// end until it fits.
pub open spec fn with_marker(
    lines: Seq<Seq<SpanText>>,
    keep: nat,
    span_limit: nat,
    marker: Seq<char>,
) -> Seq<Seq<SpanText>>
    decreases lines_bytes(lines) + lines_spans(lines) + lines.len(),
    when cuttable(lines, span_limit)
    via with_marker_decreases
{
    if marker_fits(lines, keep, span_limit) {
        marked(lines, span_limit, marker)
    } else {
        with_marker(cut_once(lines, keep), keep, span_limit, marker)
    }
}

/// There is a line, and no more spans than there may be.
pub open spec fn cuttable(lines: Seq<Seq<SpanText>>, span_limit: nat) -> bool {
    lines.len() >= 1 && lines_spans(lines) <= span_limit && span_limit >= 1
}

proof fn lemma_clusters_before(clusters: Seq<Seq<char>>, desired: int)
    requires
        desired >= 0,
    ensures
        text::byte_len(clusters_before(clusters, desired)) <= desired,
    decreases clusters.len(),
{
    if !(clusters.len() <= 1 || text::byte_len(clusters[0]) > desired) {
        let rest = desired - text::byte_len(clusters[0]);
        lemma_clusters_before(clusters.skip(1), rest);
        text::lemma_byte_len_concat(clusters[0], clusters_before(clusters.skip(1), rest));
    }
}

/// A cut leaves less than there was, of one kind or another.
pub proof fn lemma_cut_once(lines: Seq<Seq<SpanText>>, keep: nat, span_limit: nat)
    requires
        cuttable(lines, span_limit),
        !marker_fits(lines, keep, span_limit),
    ensures
        ({
            let after = cut_once(lines, keep);
            &&& cuttable(after, span_limit)
            &&& after.len() <= lines.len()
            &&& lines_bytes(after) <= lines_bytes(lines)
            &&& lines_bytes(after) + lines_spans(after) + after.len() < lines_bytes(lines)
                + lines_spans(lines) + lines.len()
            &&& lines.last().len() > 0 ==> lines_bytes(lines) > keep
            &&& lines.last().len() == 0 ==> lines.len() > 1 && lines_bytes(after) == lines_bytes(
                lines,
            ) - 1 && lines_spans(after) == lines_spans(lines)
        }),
{
    let line = lines.last();
    if line.len() > 0 {
        let size = text::byte_len(line.last().content);
        let desired = max_zero(size - max_zero(lines_bytes(lines) - keep));
        let content = cut_content(line.last().content, desired);
        text::lemma_byte_len_ge(content);
        text::lemma_byte_len_ge(line.last().content);
        if desired < size {
            lemma_clusters_before(glyph::grapheme_clusters(line.last().content), desired);
        }
        let span = SpanText { content, style: line.last().style };
        lemma_line_last(line, span);
        lemma_last_line(lines, cut_line(line, desired));
    } else {
        if lines.len() == 1 {
            assert(lines.drop_last() =~= Seq::<Seq<SpanText>>::empty());
            assert(lines_spans(lines) == 0) by {
                reveal_with_fuel(lines_spans, 2);
            }
            assert(lines_bytes(lines) == 0);
        }
    }
}

#[via_fn]
proof fn with_marker_decreases(
    lines: Seq<Seq<SpanText>>,
    keep: nat,
    span_limit: nat,
    marker: Seq<char>,
) {
    if !marker_fits(lines, keep, span_limit) {
        lemma_cut_once(lines, keep, span_limit);
    }
}

proof fn lemma_marked(lines: Seq<Seq<SpanText>>, keep: nat, span_limit: nat, marker: Seq<char>)
    requires
        cuttable(lines, span_limit),
        marker_fits(lines, keep, span_limit),
    ensures
        ({
            let after = marked(lines, span_limit, marker);
            &&& lines_bytes(after) == lines_bytes(lines) + text::byte_len(marker)
            &&& lines_spans(after) <= span_limit
            &&& after.len() == lines.len()
            &&& lines_spans(after) == lines_spans(lines) + if marker_extends(lines, span_limit) {
                0int
            } else {
                1
            }
        }),
{
    let line = lines.last();
    if marker_extends(lines, span_limit) {
        let span = SpanText { content: line.last().content + marker, style: line.last().style };
        lemma_line_last(line, span);
        text::lemma_byte_len_concat(line.last().content, marker);
        lemma_last_line(lines, line.drop_last().push(span));
    } else {
        let span = SpanText { content: marker, style: style::plain_style() };
        lemma_line_push(line, span);
        lemma_last_line(lines, line.push(span));
    }
}

/// The marker in full, or as much of it as the budget holds.
pub open spec fn marker_of(limit: nat) -> Seq<char> {
    if limit >= 19 {
        TRUNCATED@
    } else {
        TRUNCATED@.take(limit as int)
    }
}

proof fn lemma_marker(limit: nat)
    ensures
        text::byte_len(marker_of(limit)) == marker_of(limit).len(),
        marker_of(limit).len() == (if limit >= 19 {
            19
        } else {
            limit
        }),
        glyph::shows_safely(marker_of(limit)),
{
    reveal_strlit("[display truncated]");
    assert(vstd::utf8::is_ascii_chars(marker_of(limit)));
    text::lemma_byte_len_ascii(marker_of(limit));
}

fn marker_text(limit: usize) -> (r: String)
    ensures
        r@ == marker_of(limit as nat),
{
    proof {
        reveal_strlit("[display truncated]");
    }
    if limit >= 19 {
        TRUNCATED.to_owned()
    } else {
        let chars = text::chars_of(TRUNCATED);
        let r = text::string_of(chars.as_slice(), 0, limit);
        assert(r@ =~= TRUNCATED@.take(limit as int));
        r
    }
}

fn cut_span(content: &str, desired: usize) -> (r: String)
    requires
        desired < text::byte_len(content@),
    ensures
        r@ == cut_content(content@, desired as int),
        glyph::shows_safely(content@) ==> glyph::shows_safely(r@),
{
    let clusters = glyph::graphemes(content);
    proof {
        if glyph::shows_safely(content@) {
            lemma_clusters_before_safe(text::texts(clusters@), desired as int, content@);
        }
    }
    take_clusters(&clusters, desired)
}

/// The clusters in front of the last one that starts at or before `desired`.
pub fn take_clusters(clusters: &Vec<String>, desired: usize) -> (r: String)
    ensures
        r@ == clusters_before(text::texts(clusters@), desired as int),
{
    let ghost all = text::texts(clusters@);
    let mut out: String = String::new();
    let mut left: usize = desired;
    let mut i: usize = 0;
    assert(all.skip(0) =~= all);
    assert(out@ + clusters_before(all.skip(0), desired as int) =~= clusters_before(
        all,
        desired as int,
    ));
    while i < clusters.len()
        invariant
            i <= clusters@.len(),
            all == text::texts(clusters@),
            out@ + clusters_before(all.skip(i as int), left as int) == clusters_before(
                all,
                desired as int,
            ),
        decreases clusters@.len() - i,
    {
        assert(all.skip(i as int)[0] == clusters@[i as int]@);
        let size = text::str_bytes(clusters[i].as_str());
        if clusters.len() - i <= 1 || size > left {
            assert(out@ + Seq::<char>::empty() =~= out@);
            return out;
        }
        let ghost before = out@;
        out.push_str(clusters[i].as_str());
        left = left - size;
        proof {
            assert(all.skip(i as int).skip(1) =~= all.skip(i as int + 1));
            let c = all[i as int];
            assert(before + (c + clusters_before(all.skip(i as int + 1), left as int)) =~= (before
                + c) + clusters_before(all.skip(i as int + 1), left as int));
        }
        i += 1;
    }
    assert(out@ + Seq::<char>::empty() =~= out@);
    out
}

impl Renderer {
    spec fn sized(&self, span_limit: nat) -> bool {
        &&& self.bytes == lines_bytes(lines_view(self.lines@))
        &&& self.spans == lines_spans(lines_view(self.lines@))
        &&& cuttable(lines_view(self.lines@), span_limit)
        &&& safe_lines(lines_view(self.lines@))
    }

    fn extends(&self, span_limit: usize) -> (r: bool)
        requires
            self.sized(span_limit as nat),
        ensures
            r == marker_extends(lines_view(self.lines@), span_limit as nat),
    {
        let line = &self.lines[self.lines.len() - 1];
        assert(lines_view(self.lines@).last() == line.view());
        if line.spans.len() == 0 {
            false
        } else {
            assert(line.view().last() == line.spans@.last().view());
            line.spans[line.spans.len() - 1].style == Style::plain() || self.spans == span_limit
        }
    }

    /// One cut at the end.
    fn cut(&mut self, keep: usize, span_limit: usize)
        requires
            old(self).sized(span_limit as nat),
            !marker_fits(lines_view(old(self).lines@), keep as nat, span_limit as nat),
        ensures
            final(self).sized(span_limit as nat),
            lines_view(final(self).lines@) == cut_once(lines_view(old(self).lines@), keep as nat),
    {
        let ghost before = lines_view(self.lines@);
        proof {
            lemma_cut_once(before, keep as nat, span_limit as nat);
        }
        let mut line = self.lines.pop().unwrap();
        let ghost old_line = line.view();
        assert(before.last() == old_line);
        assert(lines_view(self.lines@) =~= before.drop_last());
        if line.spans.len() > 0 {
            let span = line.spans.pop().unwrap();
            assert(old_line.last() == span.view());
            let size = text::str_bytes(span.content.as_str());
            proof {
                text::lemma_byte_len_ge(span.content@);
            }
            let over: usize = self.bytes - keep;
            let desired: usize = if size >= over {
                size - over
            } else {
                0
            };
            if size == 0 {
                assert(cut_content(span.content@, desired as int) =~= Seq::<char>::empty());
                self.spans = self.spans - 1;
                assert(line.view() =~= cut_line(old_line, desired as int));
            } else {
                let content = cut_span(span.content.as_str(), desired);
                let kept = text::str_bytes(content.as_str());
                proof {
                    text::lemma_byte_len_ge(content@);
                    lemma_clusters_before(
                        glyph::grapheme_clusters(span.content@),
                        desired as int,
                    );
                }
                if kept == 0 {
                    self.spans = self.spans - 1;
                    assert(line.view() =~= cut_line(old_line, desired as int));
                } else {
                    line.spans.push(DisplaySpan { content, style: span.style });
                    assert(line.view() =~= cut_line(old_line, desired as int));
                }
                self.bytes = self.bytes - (size - kept);
            }
            proof {
                let c = cut_content(span.content@, desired as int);
                text::lemma_byte_len_ge(c);
                lemma_line_last(old_line, SpanText { content: c, style: span.style });
                lemma_last_line(before, line.view());
            }
            let ghost new_line = line.view();
            self.lines.push(line);
            assert(lines_view(self.lines@) =~= before.drop_last().push(new_line));
        } else {
            self.bytes = self.bytes - 1;
        }
    }

    /// Ends the lines in the marker.
    fn append_truncation(&mut self, byte_limit: usize, span_limit: usize)
        requires
            old(self).sized(span_limit as nat),
            byte_limit <= MAX_OUTPUT_BYTES,
            span_limit <= MAX_SPANS,
            old(self).bytes <= byte_limit,
        ensures
            final(self).bytes == lines_bytes(lines_view(final(self).lines@)),
            final(self).spans == lines_spans(lines_view(final(self).lines@)),
            final(self).bytes <= byte_limit,
            final(self).spans <= span_limit,
            final(self).lines@.len() <= old(self).lines@.len(),
            safe_lines(lines_view(final(self).lines@)),
            lines_view(final(self).lines@) == with_marker(
                lines_view(old(self).lines@),
                (byte_limit - marker_of(byte_limit as nat).len()) as nat,
                span_limit as nat,
                marker_of(byte_limit as nat),
            ),
    {
        let marker = marker_text(byte_limit);
        proof {
            lemma_marker(byte_limit as nat);
        }
        let size = text::str_bytes(marker.as_str());
        let keep: usize = byte_limit - size;
        let ghost first = lines_view(self.lines@);
        while !(self.bytes <= keep && (self.spans < span_limit || self.extends(span_limit)))
            invariant
                self.sized(span_limit as nat),
                self.bytes <= byte_limit,
                self.lines@.len() <= first.len(),
                with_marker(
                    lines_view(self.lines@),
                    keep as nat,
                    span_limit as nat,
                    marker@,
                ) == with_marker(first, keep as nat, span_limit as nat, marker@),
            decreases self.bytes + self.spans + self.lines@.len(),
        {
            proof {
                lemma_cut_once(lines_view(self.lines@), keep as nat, span_limit as nat);
            }
            self.cut(keep, span_limit);
        }
        let extends = self.extends(span_limit);
        let ghost before = lines_view(self.lines@);
        proof {
            lemma_marked(before, keep as nat, span_limit as nat, marker@);
        }
        let mut line = self.lines.pop().unwrap();
        let ghost old_line = line.view();
        assert(before.last() == old_line);
        if extends {
            let mut span = line.spans.pop().unwrap();
            assert(old_line.last() == span.view());
            span.content.push_str(marker.as_str());
            line.spans.push(span);
            assert(line.view() =~= old_line.drop_last().push(
                SpanText {
                    content: old_line.last().content + marker@,
                    style: old_line.last().style,
                },
            ));
        } else {
            line.spans.push(DisplaySpan { content: marker, style: Style::plain() });
            self.spans = self.spans + 1;
            assert(line.view() =~= old_line.push(
                SpanText { content: marker@, style: style::plain_style() },
            ));
        }
        let ghost new_line = line.view();
        self.lines.push(line);
        self.bytes = self.bytes + size;
        assert(lines_view(self.lines@) =~= before.drop_last().push(new_line));
    }
}

/// Styled lines, how many bytes of input they stand for, how many bytes and spans
/// they are, and whether something is missing.
pub struct Shown {
    pub lines: Seq<Seq<SpanText>>,
    pub input: nat,
    pub bytes: nat,
    pub spans: nat,
    pub truncated: bool,
}

/// What is shown of a byte sequence.
pub open spec fn shown(bytes: Seq<u8>, limits: Limits, sgr: bool, multiline: bool) -> Shown {
    let input_limit = at_most(limits.input_bytes, MAX_INPUT_BYTES);
    let b = budget_of(limits);
    let given = if bytes.len() <= input_limit {
        bytes
    } else {
        bytes.take(input_limit as int)
    };
    let input = if b.spans > 0 && b.lines > 0 {
        input_read(first_input(), given, sgr, b.bytes, b.spans)
    } else {
        first_input()
    };
    let unread = bytes.len() > input_limit || input.offset < given.len();
    if b.lines == 0 {
        Shown { lines: Seq::empty(), input: input.offset, bytes: 0, spans: 0, truncated: unread }
    } else {
        let clusters = glyph::grapheme_clusters(input.chars);
        let page = page_upto(clusters, clusters.len(), input.styles, multiline, b);
        let truncated = unread || page.stopped;
        let lines = if truncated && b.spans > 0 && b.bytes > 0 {
            with_marker(
                page.lines,
                (b.bytes - marker_of(b.bytes).len()) as nat,
                b.spans,
                marker_of(b.bytes),
            )
        } else {
            page.lines
        };
        Shown {
            lines,
            input: input.offset,
            bytes: lines_bytes(lines),
            spans: lines_spans(lines),
            truncated,
        }
    }
}

/// The budgets of a call, cut to their ceilings.
pub open spec fn budget_of(limits: Limits) -> Budget {
    Budget {
        bytes: at_most(limits.output_bytes, MAX_OUTPUT_BYTES),
        spans: at_most(limits.spans, MAX_SPANS),
        lines: at_most(limits.lines, MAX_LINES),
    }
}

impl DisplayText {
    pub open spec fn view(&self) -> Shown {
        Shown {
            lines: lines_view(self.text@),
            input: self.input_bytes as nat,
            bytes: self.output_bytes as nat,
            spans: self.spans as nat,
            truncated: self.truncated,
        }
    }
}

fn parse(bytes: &[u8], limits: Limits, sgr: bool, multiline: bool) -> (r: DisplayText)
    ensures
        r.view() == shown(bytes@, limits, sgr, multiline),
        fits(r.view().lines, budget_of(limits)),
{
    let input_limit = clamp(limits.input_bytes, MAX_INPUT_BYTES);
    let room = Room {
        bytes: clamp(limits.output_bytes, MAX_OUTPUT_BYTES),
        spans: clamp(limits.spans, MAX_SPANS),
        lines: clamp(limits.lines, MAX_LINES),
    };
    let given_len: usize = if bytes.len() <= input_limit {
        bytes.len()
    } else {
        input_limit
    };
    let given = text::copy_bytes(bytes, 0, given_len);
    proof {
        if bytes@.len() <= input_limit {
            assert(given@ =~= bytes@);
        } else {
            assert(given@ =~= bytes@.take(input_limit as int));
        }
    }
    let reader = if room.spans > 0 && room.lines > 0 {
        read_input(given.as_slice(), sgr, room.bytes, room.spans)
    } else {
        Reader::new()
    };
    let unread = bytes.len() > input_limit || reader.offset < given.len();
    if room.lines == 0 {
        let empty: Vec<DisplayLine> = Vec::new();
        assert(lines_view(empty@) =~= Seq::<Seq<SpanText>>::empty());
        return DisplayText {
            text: empty,
            input_bytes: reader.offset,
            output_bytes: 0,
            spans: 0,
            truncated: unread,
        };
    }
    let mut page = render(reader.logical.as_str(), &reader.styles, multiline, &room);
    let truncated = unread || page.stopped;
    if truncated && room.spans > 0 && room.bytes > 0 {
        page.append_truncation(room.bytes, room.spans);
    }
    DisplayText {
        text: page.lines,
        input_bytes: reader.offset,
        output_bytes: page.bytes,
        spans: page.spans,
        truncated,
    }
}

/// Shows one captured record of output. Line feeds break lines, tabs fill up to
/// stops that lie four cells apart, and allowed escape sequences set styles.
pub fn output(bytes: &[u8], limits: Limits) -> (r: DisplayText)
    ensures
        r.view() == shown(bytes@, limits, true, true),
        fits(r.view().lines, budget_of(limits)),
{
    parse(bytes, limits, true, true)
}

/// Shows bytes over several lines without any style.
pub fn plain(bytes: &[u8], limits: Limits) -> (r: DisplayText)
    ensures
        r.view() == shown(bytes@, limits, false, true),
        fits(r.view().lines, budget_of(limits)),
{
    parse(bytes, limits, false, true)
}

/// The text of a line without its styles.
pub open spec fn line_text(line: Seq<SpanText>) -> Seq<char>
    decreases line.len(),
{
    if line.len() == 0 {
        Seq::empty()
    } else {
        line_text(line.drop_last()) + line.last().content
    }
}

/// The text of all lines with a line feed between each two.
pub open spec fn lines_text(lines: Seq<Seq<SpanText>>) -> Seq<char>
    decreases lines.len(),
{
    if lines.len() == 0 {
        Seq::empty()
    } else if lines.len() == 1 {
        line_text(lines[0])
    } else {
        lines_text(lines.drop_last()) + seq!['\n'] + line_text(lines.last())
    }
}

/// The counted bytes are the bytes of the text.
pub proof fn counted_bytes_are_the_text(lines: Seq<Seq<SpanText>>)
    ensures
        text::byte_len(lines_text(lines)) == lines_bytes(lines),
    decreases lines.len(),
{
    if lines.len() == 1 {
        lemma_line_text(lines[0]);
    } else if lines.len() > 1 {
        counted_bytes_are_the_text(lines.drop_last());
        lemma_line_text(lines.last());
        let first = lines_text(lines.drop_last());
        let feed = seq!['\n'];
        text::lemma_byte_len_concat(first, feed);
        text::lemma_byte_len_concat(first + feed, line_text(lines.last()));
        assert(vstd::utf8::is_ascii_chars(feed));
        text::lemma_byte_len_ascii(feed);
    }
}

proof fn lemma_line_text(line: Seq<SpanText>)
    ensures
        text::byte_len(line_text(line)) == line_bytes(line),
        safe_line(line) ==> glyph::shows_safely(line_text(line)),
    decreases line.len(),
{
    if line.len() > 0 {
        let rest = line.drop_last();
        lemma_line_text(rest);
        text::lemma_byte_len_concat(line_text(rest), line.last().content);
        if safe_line(line) {
            assert forall|i: int| 0 <= i < rest.len() implies glyph::shows_safely(
                (#[trigger] rest[i]).content,
            ) by {
                assert(rest[i] == line[i]);
            }
            assert(line[line.len() - 1] == line.last());
            lemma_safe_concat(line_text(rest), line.last().content);
        }
    }
}

/// A single line that is safe to show is safe as text.
pub proof fn single_line_is_safe(lines: Seq<Seq<SpanText>>)
    requires
        lines.len() <= 1,
        safe_lines(lines),
    ensures
        glyph::shows_safely(lines_text(lines)),
{
    if lines.len() == 1 {
        lemma_line_text(lines[0]);
    }
}

impl DisplayLine {
    fn to_text(&self) -> (r: String)
        ensures
            r@ == line_text(self.view()),
    {
        let ghost line = self.view();
        let mut out: String = String::new();
        let mut i: usize = 0;
        while i < self.spans.len()
            invariant
                i <= self.spans@.len(),
                line == self.view(),
                out@ == line_text(line.take(i as int)),
            decreases self.spans@.len() - i,
        {
            out.push_str(self.spans[i].content.as_str());
            i += 1;
            assert(line.take(i as int).drop_last() =~= line.take(i - 1));
        }
        assert(line.take(line.len() as int) =~= line);
        out
    }
}

impl DisplayText {
    /// The text without its styles.
    pub fn to_text(&self) -> (r: String)
        ensures
            r@ == lines_text(self.view().lines),
            text::byte_len(r@) == lines_bytes(self.view().lines),
    {
        proof {
            counted_bytes_are_the_text(self.view().lines);
        }
        let ghost lines = lines_view(self.text@);
        let mut out: String = String::new();
        let mut i: usize = 0;
        while i < self.text.len()
            invariant
                i <= self.text@.len(),
                lines == lines_view(self.text@),
                out@ == lines_text(lines.take(i as int)),
            decreases self.text@.len() - i,
        {
            let line = self.text[i].to_text();
            let ghost before = out@;
            if i > 0 {
                out.push('\n');
            }
            out.push_str(line.as_str());
            i += 1;
            proof {
                let t = lines.take(i as int);
                assert(t.drop_last() =~= lines.take(i - 1));
                assert(t.last() == self.text@[i - 1].view());
                if i == 1 {
                    assert(lines.take(0) =~= Seq::<Seq<SpanText>>::empty());
                    assert(out@ =~= lines_text(t));
                } else {
                    assert(out@ =~= lines_text(t));
                }
            }
        }
        assert(lines.take(lines.len() as int) =~= lines);
        out
    }
}

pub open spec fn label_limits(max_bytes: usize) -> Limits {
    Limits { output_bytes: max_bytes, lines: 1, ..default_limits() }
}

/// What a label of at most `max_bytes` bytes shows of a string.
pub open spec fn label_of(value: Seq<char>, max_bytes: usize) -> Seq<char> {
    lines_text(shown(encode_utf8(value), label_limits(max_bytes), false, false).lines)
}

/// A plain label on a single line: no escape sequence is read, not even one that
/// would be allowed.
pub fn label(value: &str, max_bytes: usize) -> (r: String)
    ensures
        r@ == label_of(value@, max_bytes),
        text::byte_len(r@) <= at_most(max_bytes, MAX_OUTPUT_BYTES),
        glyph::shows_safely(r@),
{
    let limits = Limits {
        input_bytes: MAX_INPUT_BYTES,
        output_bytes: max_bytes,
        spans: MAX_SPANS,
        lines: 1,
    };
    let shown_text = parse(value.as_bytes(), limits, false, false);
    proof {
        single_line_is_safe(shown_text.view().lines);
    }
    shown_text.to_text()
}

/// Text that is being formatted, cut at a number of bytes.
pub struct BoundedFormat {
    pub text: String,
    pub limit: usize,
    pub truncated: bool,
}

/// What is kept of the pieces that a formatter writes, and whether something is
/// missing. The first piece that does not fit ends the writing.
pub open spec fn formatted(pieces: Seq<Seq<char>>, n: nat, limit: nat) -> (Seq<char>, bool)
    decreases n,
{
    if n == 0 {
        (Seq::empty(), false)
    } else {
        let (done, cut) = formatted(pieces, (n - 1) as nat, limit);
        if cut {
            (done, true)
        } else {
            let room = (limit - text::byte_len(done)) as nat;
            (
                done + text::fit_prefix(pieces[n - 1], room),
                text::byte_len(pieces[n - 1]) > room,
            )
        }
    }
}

impl BoundedFormat {
    /// A formatter that has written nothing.
    pub fn new(limit: usize) -> (r: BoundedFormat)
        ensures
            r.text@ == Seq::<char>::empty(),
            r.limit == limit,
            !r.truncated,
    {
        BoundedFormat { text: String::new(), limit, truncated: false }
    }

    /// Writes a piece as far as it fits and says whether all of it did.
    pub fn write_str(&mut self, value: &str) -> (r: bool)
        requires
            text::byte_len(old(self).text@) <= old(self).limit,
        ensures
            ({
                let room = (old(self).limit - text::byte_len(old(self).text@)) as nat;
                &&& final(self).text@ == old(self).text@ + text::fit_prefix(value@, room)
                &&& r == (text::byte_len(value@) <= room)
                &&& final(self).truncated == (old(self).truncated || !r)
            }),
            final(self).limit == old(self).limit,
            text::byte_len(final(self).text@) <= final(self).limit,
    {
        let room: usize = self.limit - text::str_bytes(self.text.as_str());
        let part = text::fit(value, room);
        proof {
            text::lemma_fit_prefix_bound(value@, room as nat);
            text::lemma_byte_len_concat(self.text@, part@);
        }
        self.text.push_str(part.as_str());
        if text::str_bytes(value) > room {
            self.truncated = true;
            false
        } else {
            true
        }
    }
}

/// A label cut so that the marker fits behind it.
pub open spec fn marker_appended(value: Seq<char>, limit: nat) -> Seq<char> {
    text::fit_prefix(value, (limit - marker_of(limit).len()) as nat) + marker_of(limit)
}

pub open spec fn ends_marked(value: Seq<char>) -> bool {
    value.len() >= 19 && value.skip(value.len() - 19) == TRUNCATED@
}

/// What a label shows of formatted pieces.
pub open spec fn label_fmt_of(pieces: Seq<Seq<char>>, max_bytes: usize) -> Seq<char> {
    let (kept, cut) = formatted(pieces, pieces.len(), MAX_INPUT_BYTES as nat);
    let result = label_of(kept, max_bytes);
    if cut && !ends_marked(result) {
        marker_appended(result, at_most(max_bytes, MAX_OUTPUT_BYTES))
    } else {
        result
    }
}

fn append_marker(value: &str, limit: usize) -> (r: String)
    ensures
        r@ == marker_appended(value@, limit as nat),
        text::byte_len(r@) <= limit,
        glyph::shows_safely(value@) ==> glyph::shows_safely(r@),
{
    let marker = marker_text(limit);
    proof {
        lemma_marker(limit as nat);
    }
    let size = text::str_bytes(marker.as_str());
    let mut out = text::fit(value, limit - size);
    proof {
        text::lemma_fit_prefix_bound(value@, (limit - size) as nat);
        text::lemma_byte_len_concat(out@, marker@);
    }
    out.push_str(marker.as_str());
    out
}

fn has_marker_at_end(value: &str) -> (r: bool)
    ensures
        r == ends_marked(value@),
{
    let chars = text::chars_of(value);
    if chars.len() < 19 {
        return false;
    }
    let tail = text::string_of(chars.as_slice(), chars.len() - 19, chars.len());
    assert(tail@ =~= value@.skip(value@.len() - 19));
    text::str_eq(tail.as_str(), TRUNCATED)
}

proof fn lemma_formatted_cut(pieces: Seq<Seq<char>>, n: nat, m: nat, limit: nat)
    requires
        n <= m,
        formatted(pieces, n, limit).1,
    ensures
        formatted(pieces, m, limit) == formatted(pieces, n, limit),
    decreases m - n,
{
    if n < m {
        lemma_formatted_cut(pieces, n, (m - 1) as nat, limit);
    }
}

/// A label of what a formatter writes piece by piece. It is cut while it is
/// written, before it can grow without bound.
pub fn label_fmt(pieces: &Vec<String>, max_bytes: usize) -> (r: String)
    ensures
        r@ == label_fmt_of(text::texts(pieces@), max_bytes),
        text::byte_len(r@) <= at_most(max_bytes, MAX_OUTPUT_BYTES),
        glyph::shows_safely(r@),
{
    let ghost all = text::texts(pieces@);
    let mut capture = BoundedFormat::new(MAX_INPUT_BYTES);
    let mut i: usize = 0;
    while i < pieces.len() && !capture.truncated
        invariant
            i <= pieces@.len(),
            all == text::texts(pieces@),
            capture.limit == MAX_INPUT_BYTES,
            text::byte_len(capture.text@) <= MAX_INPUT_BYTES,
            (capture.text@, capture.truncated) == formatted(all, i as nat, MAX_INPUT_BYTES as nat),
        decreases pieces@.len() - i,
    {
        assert(all[i as int] == pieces@[i as int]@);
        let _ = capture.write_str(pieces[i].as_str());
        i += 1;
    }
    proof {
        if capture.truncated {
            lemma_formatted_cut(all, i as nat, all.len(), MAX_INPUT_BYTES as nat);
        }
    }
    let result = label(capture.text.as_str(), max_bytes);
    if capture.truncated && !has_marker_at_end(result.as_str()) {
        append_marker(result.as_str(), clamp(max_bytes, MAX_OUTPUT_BYTES))
    } else {
        result
    }
}

pub const MAX_PREVIEW_BYTES: usize = 16384;

/// The indented text of a value, cut with a marker on a line of its own.
pub open spec fn preview_bytes(written: Seq<u8>) -> Seq<u8> {
    if written.len() <= MAX_PREVIEW_BYTES {
        written
    } else {
        written.take(MAX_PREVIEW_BYTES as int) + seq![10u8] + encode_utf8(TRUNCATED@)
    }
}

/// What a preview shows of a value.
pub open spec fn preview_of(value: Json) -> Seq<char> {
    lines_text(
        shown(preview_bytes(json::json_pretty(value)), default_limits(), false, true).lines,
    )
}

/// Shows written JSON for a human reader.
pub fn preview(written: &[u8]) -> (r: String)
    ensures
        r@ == lines_text(shown(preview_bytes(written@), default_limits(), false, true).lines),
        text::byte_len(r@) <= MAX_OUTPUT_BYTES,
{
    if written.len() <= MAX_PREVIEW_BYTES {
        plain(written, Limits::default()).to_text()
    } else {
        let mut kept = text::copy_bytes(written, 0, MAX_PREVIEW_BYTES);
        kept.push(10);
        kept.extend_from_slice(TRUNCATED.as_bytes());
        assert(kept@ =~= preview_bytes(written@));
        plain(kept.as_slice(), Limits::default()).to_text()
    }
}

/// A bounded look at a value for a human reader; it is no export.
pub fn json_preview(value: &JsonValue) -> (r: String)
    ensures
        r@ == preview_of(value.view()),
        text::byte_len(r@) <= MAX_OUTPUT_BYTES,
{
    let written = json::write_json_pretty(value);
    preview(written.as_slice())
}

} // verus!
