//! What is shown of a text that is not this program's own.

use crate::display;
use crate::display::{Budget, Input, Page, SpanText};
use crate::glyph;
use crate::style;
use crate::style::Style;
use crate::text;
use vstd::prelude::*;
use vstd::utf8::{
    codepoint_width_2, codepoint_width_4, decode_utf8, decode_utf8_encode_utf8,
    is_continuation_byte, is_leading_byte_width_2, is_leading_byte_width_4,
    length_of_first_scalar, pop_first_scalar, valid_first_scalar, valid_utf8,
};

verus! {

// What is read of it.

proof fn lemma_two_bytes(a: u8, b: u8)
    requires
        is_leading_byte_width_2(a),
        is_continuation_byte(b),
        codepoint_width_2(a, b) >= 0x80,
    ensures
        a >= 0xc2,
{
    assert(a >= 0xc2) by (bit_vector)
        requires
            0xc0 <= a <= 0xdf,
            0x80 <= b <= 0xbf,
            ((((a & 0x1Fu8) as u32) << 6u32) | ((b & 0x3Fu8) as u32)) >= 0x80,
    ;
}

proof fn lemma_four_bytes(a: u8, b: u8, c: u8, d: u8)
    requires
        is_leading_byte_width_4(a),
        is_continuation_byte(b),
        is_continuation_byte(c),
        is_continuation_byte(d),
        codepoint_width_4(a, b, c, d) <= 0x10ffff,
    ensures
        a <= 0xf4,
{
    assert(a <= 0xf4) by (bit_vector)
        requires
            0xf0 <= a <= 0xf7,
            ((((a & 0x07u8) as u32) << 18u32) | (((b & 0x3Fu8) as u32) << 12u32) | (((c & 0x3Fu8) as u32) << 6u32)
                | ((d & 0x3Fu8) as u32)) <= 0x10ffff,
    ;
}

proof fn lemma_first(bytes: Seq<u8>)
    requires
        valid_utf8(bytes),
        bytes.len() > 0,
    ensures
        ({
            let n = length_of_first_scalar(bytes);
            &&& 0 < n <= bytes.len()
            &&& decode_utf8(bytes).len() > 0
            &&& display::decoded(bytes) == (Some(decode_utf8(bytes)[0]), n as nat)
            &&& valid_utf8(bytes.skip(n))
            &&& decode_utf8(bytes) == seq![decode_utf8(bytes)[0]] + decode_utf8(bytes.skip(n))
            &&& text::byte_len(seq![decode_utf8(bytes)[0]]) == n
        }),
{
    let n = length_of_first_scalar(bytes);
    let first = bytes.take(n);
    assert(valid_first_scalar(bytes));
    assert(pop_first_scalar(bytes) =~= bytes.skip(n));
    if n == 2 {
        lemma_two_bytes(bytes[0], bytes[1]);
    }
    if n == 4 {
        lemma_four_bytes(bytes[0], bytes[1], bytes[2], bytes[3]);
    }
    assert(forall|i: int| 0 <= i < n ==> #[trigger] first[i] == bytes[i]);
    assert(first[0] == bytes[0]);
    if n >= 2 {
        assert(first[1] == bytes[1]);
    }
    if n >= 3 {
        assert(first[2] == bytes[2]);
    }
    if n >= 4 {
        assert(first[3] == bytes[3]);
    }
    assert(valid_first_scalar(first));
    assert(pop_first_scalar(first) =~= Seq::empty());
    assert(valid_utf8(Seq::<u8>::empty()));
    assert(valid_utf8(first));
    assert(decode_utf8(Seq::<u8>::empty()) =~= Seq::empty());
    assert(decode_utf8(first) =~= seq![decode_utf8(bytes)[0]]);
    decode_utf8_encode_utf8(first);
    text::lemma_byte_len_encode(decode_utf8(first));
}

proof fn lemma_read(i: Input, bytes: Seq<u8>, output_limit: nat, span_limit: nat)
    requires
        i.offset <= bytes.len() <= output_limit,
        !i.stopped,
        valid_utf8(bytes.skip(i.offset as int)),
        text::byte_len(i.chars) == i.offset,
    ensures
        ({
            let r = display::input_read(i, bytes, false, output_limit, span_limit);
            &&& r.chars == i.chars + decode_utf8(bytes.skip(i.offset as int))
            &&& r.offset == bytes.len()
            &&& !r.stopped
            &&& r.styles == i.styles
            &&& r.style == i.style
        }),
    decreases bytes.len() - i.offset,
{
    let rest = bytes.skip(i.offset as int);
    if i.offset < bytes.len() {
        lemma_first(rest);
        let n = length_of_first_scalar(rest);
        let c = decode_utf8(rest)[0];
        let next = display::input_step(i, bytes, false, output_limit, span_limit);
        assert(next == (Input { chars: i.chars + seq![c], offset: (i.offset + n) as nat, ..i }));
        assert(bytes.skip(i.offset + n) =~= rest.skip(n));
        text::lemma_byte_len_concat(i.chars, seq![c]);
        lemma_read(next, bytes, output_limit, span_limit);
        assert(i.chars + seq![c] + decode_utf8(rest.skip(n)) =~= i.chars + decode_utf8(rest));
    } else {
        assert(rest =~= Seq::empty());
        assert(decode_utf8(rest) =~= Seq::empty());
        assert(i.chars + decode_utf8(rest) =~= i.chars);
    }
}

/// Bytes that are text are read as that text, where it fits.
pub proof fn text_is_read_as_it_is(bytes: Seq<u8>, output_limit: nat, span_limit: nat)
    requires
        valid_utf8(bytes),
        bytes.len() <= output_limit,
    ensures
        ({
            let r = display::input_read(
                display::first_input(),
                bytes,
                false,
                output_limit,
                span_limit,
            );
            &&& r.chars == decode_utf8(bytes)
            &&& r.offset == bytes.len()
            &&& !r.stopped
            &&& r.styles == seq![(0nat, style::plain_style())]
        }),
{
    assert(bytes.skip(0) =~= bytes);
    lemma_read(display::first_input(), bytes, output_limit, span_limit);
    assert(Seq::<char>::empty() + decode_utf8(bytes) =~= decode_utf8(bytes));
}

/// A byte that cannot begin a character is shown by its two hexadecimal digits.
pub proof fn a_stray_byte_is_shown_by_its_digits(bytes: Seq<u8>)
    requires
        bytes.len() > 0,
        0x80 <= bytes[0] < 0xc2 || bytes[0] > 0xf4,
    ensures
        display::decoded(bytes) == (None::<char>, 1nat),
        display::shown_input(bytes) == seq![
            '\\',
            'x',
            text::hex_digit(bytes[0] as int / 16),
            text::hex_digit(bytes[0] as int % 16),
        ],
{
}

// What is shown of it.

/// Whether a character can be shown: it is no control character, and none that has no
/// width or turns the direction of what follows.
pub open spec fn can_be_shown(c: char) -> bool {
    let v = c as u32;
    &&& v >= 0x20
    &&& !(0x7f <= v <= 0x9f)
    &&& v != 0x200b
    &&& v != 0x200e
    &&& v != 0x200f
    &&& !(0x2028 <= v <= 0x202e)
    &&& !(0x2066 <= v <= 0x2069)
    &&& v != 0xfeff
}

pub open spec fn all_can_be_shown(s: Seq<char>) -> bool {
    forall|i: int| 0 <= i < s.len() ==> can_be_shown(#[trigger] s[i])
}

/// What can be shown is shown as it is. What cannot is written out: the line feed, the
/// return and the tab by their letters, and everything else by its number.
pub proof fn what_can_be_shown_is_not_escaped(s: Seq<char>, c: char)
    ensures
        all_can_be_shown(s) ==> glyph::escaped(s) == s,
        !can_be_shown(c) && c != '\n' && c != '\r' && c != '\t' ==> glyph::escaped(s.push(c))
            == glyph::escaped(s) + (seq!['\\', 'u', '{'] + text::hex_numeral(c as nat) + seq!['}']),
        glyph::escaped(s.push('\n')) == glyph::escaped(s) + seq!['\\', 'n'],
        glyph::escaped(s.push('\r')) == glyph::escaped(s) + seq!['\\', 'r'],
        glyph::escaped(s.push('\t')) == glyph::escaped(s) + seq!['\\', 't'],
        can_be_shown(c) ==> glyph::escaped(s.push(c)) == glyph::escaped(s) + seq![c],
    decreases s.len(),
{
    assert(s.push(c).drop_last() =~= s);
    assert(s.push('\n').drop_last() =~= s);
    assert(s.push('\r').drop_last() =~= s);
    assert(s.push('\t').drop_last() =~= s);
    assert(can_be_shown(c) == !glyph::must_escape(c));
    if s.len() > 0 {
        what_can_be_shown_is_not_escaped(s.drop_last(), c);
        if all_can_be_shown(s) {
            assert forall|i: int| 0 <= i < s.len() - 1 implies can_be_shown(
                #[trigger] s.drop_last()[i],
            ) by {
                assert(can_be_shown(s[i]));
            }
            assert(can_be_shown(s[s.len() - 1]));
            assert(s.drop_last() + seq![s.last()] =~= s);
        }
    } else {
        assert(glyph::escaped(s) =~= s);
    }
}

/// A tab reaches to the next column that is a multiple of four.
pub proof fn a_tab_reaches_the_next_stop(column: nat)
    ensures
        ({
            let blanks = glyph::symbol_of(seq!['\t'], column);
            &&& blanks.len() >= 1
            &&& (column + blanks.len()) % 4 == 0
            &&& forall|i: int| 0 <= i < blanks.len() ==> #[trigger] blanks[i] == ' '
            &&& blanks.len() <= 4
        }),
{
}

proof fn lemma_shown_cluster(cluster: Seq<char>, column: nat, multiline: bool)
    requires
        all_can_be_shown(cluster),
    ensures
        display::shown_cluster(cluster, column, multiline) == cluster,
        !display::is_line_break(cluster),
{
    what_can_be_shown_is_not_escaped(cluster, 'a');
    if cluster == seq!['\t'] {
        assert(can_be_shown(cluster[0]));
    }
    if cluster == seq!['\n'] {
        assert(can_be_shown(cluster[0]));
    }
    if cluster == seq!['\r', '\n'] {
        assert(can_be_shown(cluster[0]));
    }
}

proof fn lemma_page(clusters: Seq<Seq<char>>, n: nat, s: Style, multiline: bool, b: Budget)
    requires
        n <= clusters.len(),
        forall|i: int| 0 <= i < n ==> all_can_be_shown(#[trigger] clusters[i]),
        text::byte_len(text::joined(clusters.take(n as int))) <= b.bytes,
        b.spans >= 1,
    ensures
        ({
            let p = display::page_upto(clusters, n, seq![(0nat, s)], multiline, b);
            &&& !p.stopped
            &&& p.mark == 0
            &&& p.lines == if n == 0 {
                seq![Seq::<SpanText>::empty()]
            } else {
                seq![seq![SpanText { content: text::joined(clusters.take(n as int)), style: s }]]
            }
        }),
    decreases n,
{
    let styles = seq![(0nat, s)];
    if n > 0 {
        text::lemma_joined_split(clusters, n - 1);
        let before = text::joined(clusters.take(n - 1));
        let all = text::joined(clusters.take(n as int));
        let c = clusters[n - 1];
        text::lemma_byte_len_concat(before, c);
        lemma_page(clusters, (n - 1) as nat, s, multiline, b);
        let p: Page = display::page_upto(clusters, (n - 1) as nat, styles, multiline, b);
        assert(all_can_be_shown(clusters[n - 1]));
        lemma_shown_cluster(c, p.column, multiline);
        assert(display::mark_at(styles, p.mark, p.at) == 0);
        reveal_with_fuel(display::lines_bytes, 2);
        reveal_with_fuel(display::line_bytes, 2);
        reveal_with_fuel(display::lines_spans, 2);
        let line = p.lines.last();
        if n == 1 {
            assert(clusters.take(0) =~= Seq::empty());
            assert(before =~= Seq::empty());
            assert(line =~= Seq::empty());
            assert(all =~= c);
            assert(p.lines.drop_last() =~= Seq::empty());
            assert(display::lines_bytes(p.lines) == 0);
            assert(display::lines_spans(p.lines) == 0);
            assert(display::line_with(line, c, s) =~= seq![SpanText { content: all, style: s }]);
        } else {
            let span = SpanText { content: before, style: s };
            assert(line == seq![span]);
            assert(line.last() == span);
            assert(line.drop_last() =~= Seq::empty());
            assert(p.lines[0] == line);
            assert(display::line_bytes(line) == text::byte_len(before));
            assert(display::lines_bytes(p.lines) == text::byte_len(before));
            assert(display::line_with(line, c, s) =~= seq![SpanText { content: all, style: s }]);
        }
        let q = display::page_step(p, c, styles, multiline, b);
        assert(q.lines =~= seq![display::line_with(line, c, s)]);
    }
}

/// Text that can be shown is shown whole and as it is, on one line and in one piece,
/// where there is room for it.
pub proof fn what_fits_is_shown_as_it_is(
    clusters: Seq<Seq<char>>,
    s: Style,
    multiline: bool,
    b: Budget,
)
    requires
        forall|i: int| 0 <= i < clusters.len() ==> all_can_be_shown(#[trigger] clusters[i]),
        text::byte_len(text::joined(clusters)) <= b.bytes,
        b.spans >= 1,
    ensures
        ({
            let p = display::page_upto(
                clusters,
                clusters.len(),
                seq![(0nat, s)],
                multiline,
                b,
            );
            &&& !p.stopped
            &&& p.lines.len() == 1
            &&& display::lines_text(p.lines) == text::joined(clusters)
        }),
{
    assert(clusters.take(clusters.len() as int) =~= clusters);
    lemma_page(clusters, clusters.len(), s, multiline, b);
    reveal_with_fuel(display::lines_text, 2);
    reveal_with_fuel(display::line_text, 2);
    let p = display::page_upto(clusters, clusters.len(), seq![(0nat, s)], multiline, b);
    if clusters.len() > 0 {
        let line = p.lines[0];
        assert(line.drop_last() =~= Seq::empty());
        assert(display::line_text(line) =~= text::joined(clusters));
    } else {
        assert(display::lines_text(p.lines) =~= text::joined(clusters));
    }
}

/// Whether a text ends in another.
pub open spec fn ends_in(s: Seq<char>, end: Seq<char>) -> bool {
    s.len() >= end.len() && s.skip(s.len() - end.len()) == end
}

/// What was cut says so at its end.
pub proof fn what_was_cut_says_so(
    lines: Seq<Seq<SpanText>>,
    keep: nat,
    span_limit: nat,
    marker: Seq<char>,
)
    requires
        display::cuttable(lines, span_limit),
    ensures
        ({
            let shown = display::with_marker(lines, keep, span_limit, marker);
            &&& shown.len() >= 1
            &&& shown.last().len() >= 1
            &&& ends_in(shown.last().last().content, marker)
        }),
    decreases display::lines_bytes(lines) + display::lines_spans(lines) + lines.len(),
{
    if display::marker_fits(lines, keep, span_limit) {
        let line = lines.last();
        if display::marker_extends(lines, span_limit) {
            let whole = line.last().content + marker;
            assert(whole.skip(whole.len() - marker.len()) =~= marker);
        } else {
            assert(marker.skip(0) =~= marker);
        }
    } else {
        display::lemma_cut_once(lines, keep, span_limit);
        what_was_cut_says_so(display::cut_once(lines, keep), keep, span_limit, marker);
    }
}

/// The mark of a cut is known to the reader, as much of it as there is room for.
pub proof fn the_mark_of_a_cut_is_known(limit: nat)
    ensures
        limit >= 19 ==> display::marker_of(limit) == "[display truncated]"@,
        limit < 19 ==> display::marker_of(limit) == "[display truncated]"@.take(limit as int),
{
}

} // verus!
