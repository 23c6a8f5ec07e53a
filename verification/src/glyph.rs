//! Grapheme clusters and what is shown for each of them.
//!
//! Which characters are escaped, and how an escaped one is written, is a choice of
//! this library and follows no table from elsewhere. A cluster is shown whole,
//! however many bytes it has.

use crate::text;
use unicode_segmentation::UnicodeSegmentation;
use vstd::prelude::*;

verus! {

/// The extended grapheme clusters of a character sequence, in order, as
/// `UnicodeSegmentation::graphemes` finds them.
pub uninterp spec fn grapheme_clusters(s: Seq<char>) -> Seq<Seq<char>>;

/// The number of terminal cells that `ratatui::text::Span::width` gives a string.
pub uninterp spec fn cell_width(s: Seq<char>) -> nat;

/// The characters of the first clusters.
pub open spec fn cluster_start(clusters: Seq<Seq<char>>, n: nat) -> nat {
    text::joined(clusters.take(n as int)).len()
}

/// Whether a place is where a cluster of a text starts, or its end.
pub open spec fn on_boundary(s: Seq<char>, place: nat) -> bool {
    exists|k: nat|
        k <= grapheme_clusters(s).len() && place == #[trigger] cluster_start(
            grapheme_clusters(s),
            k,
        )
}

/// Calls `UnicodeSegmentation::graphemes` for extended clusters. The clusters are
/// consecutive pieces of the string, none of them empty; where the boundaries lie
/// is a function of the characters and left to that crate. Nothing before the start
/// of a cluster has a part in where the next ones end: behind a boundary the crate
/// looks back over no more than the cluster it is in, and counts regional
/// indicators in pairs. So where more text follows and the string still ends at a
/// boundary, its last clusters with that text have the clusters of both.
#[verifier::external_body]
pub(crate) fn graphemes(s: &str) -> (r: Vec<String>)
    ensures
        text::texts(r@) == grapheme_clusters(s@),
        text::joined(text::texts(r@)) == s@,
        forall|i: int| 0 <= i < r@.len() ==> (#[trigger] r@[i])@.len() > 0,
        forall|t: Seq<char>, k: int|
            0 <= k <= r@.len() && on_boundary(s@ + t, s@.len()) ==> #[trigger] grapheme_clusters(
                text::joined(text::texts(r@).skip(k)) + t,
            ) == text::texts(r@).skip(k) + grapheme_clusters(t),
{
    s.graphemes(true).map(str::to_owned).collect()
}

/// Calls `ratatui::text::Span::width` on a span that holds the string. The width
/// is a function of the characters and left to that crate.
#[verifier::external_body]
pub(crate) fn cells(s: &str) -> (r: usize)
    ensures
        r == cell_width(s@),
{
    ratatui::text::Span::raw(s).width()
}

/// Characters that are never shown as they are, by this library's own choice:
/// controls, line and paragraph separators, invisible marks, and marks that change
/// the direction of what follows.
pub open spec fn must_escape(c: char) -> bool {
    let v = c as u32;
    ||| v < 0x20
    ||| 0x7f <= v <= 0x9f
    ||| v == 0x200b
    ||| v == 0x200e
    ||| v == 0x200f
    ||| 0x2028 <= v <= 0x202e
    ||| 0x2066 <= v <= 0x2069
    ||| v == 0xfeff
}

/// The visible name of a character that is not shown as it is.
pub open spec fn escape_of(c: char) -> Seq<char> {
    if c == '\n' {
        seq!['\\', 'n']
    } else if c == '\r' {
        seq!['\\', 'r']
    } else if c == '\t' {
        seq!['\\', 't']
    } else {
        seq!['\\', 'u', '{'] + text::hex_numeral(c as nat) + seq!['}']
    }
}

/// A string with every such character replaced by its visible name.
pub open spec fn escaped(s: Seq<char>) -> Seq<char>
    decreases s.len(),
{
    if s.len() == 0 {
        Seq::empty()
    } else {
        escaped(s.drop_last()) + if must_escape(s.last()) {
            escape_of(s.last())
        } else {
            seq![s.last()]
        }
    }
}

pub open spec fn spaces(n: nat) -> Seq<char> {
    Seq::new(n, |i: int| ' ')
}

/// What is shown for a cluster that starts in a column: a tab fills up to the
/// next of the stops that lie four cells apart.
pub open spec fn symbol_of(cluster: Seq<char>, column: nat) -> Seq<char> {
    if cluster == seq!['\t'] {
        spaces((4 - column % 4) as nat)
    } else {
        escaped(cluster)
    }
}

/// Nothing in the string has to be escaped.
pub open spec fn shows_safely(s: Seq<char>) -> bool {
    forall|i: int| 0 <= i < s.len() ==> !must_escape(#[trigger] s[i])
}

proof fn lemma_hex_numeral_safe(n: nat)
    ensures
        shows_safely(text::hex_numeral(n)),
    decreases n,
{
    if n >= 16 {
        lemma_hex_numeral_safe(n / 16);
    }
}

proof fn lemma_escaped_safe(s: Seq<char>)
    ensures
        shows_safely(escaped(s)),
        s.len() <= escaped(s).len(),
    decreases s.len(),
{
    if s.len() > 0 {
        lemma_escaped_safe(s.drop_last());
        lemma_hex_numeral_safe(s.last() as nat);
    }
}

/// What is shown for a cluster holds nothing that has to be escaped.
pub proof fn symbol_is_safe(cluster: Seq<char>, column: nat)
    ensures
        shows_safely(symbol_of(cluster, column)),
{
    lemma_escaped_safe(cluster);
}

/// A string whose controls are replaced holds nothing that has to be escaped.
pub proof fn escaped_is_safe(s: Seq<char>)
    ensures
        shows_safely(escaped(s)),
{
    lemma_escaped_safe(s);
}

/// Whether a character is never shown as it is.
pub fn needs_escape(c: char) -> (r: bool)
    ensures
        r == must_escape(c),
{
    let v: u32 = c as u32;
    v < 0x20 || (0x7f <= v && v <= 0x9f) || v == 0x200b || v == 0x200e || v == 0x200f || (0x2028
        <= v && v <= 0x202e) || (0x2066 <= v && v <= 0x2069) || v == 0xfeff
}

fn push_escape(out: &mut String, c: char)
    ensures
        final(out)@ == old(out)@ + escape_of(c),
{
    let ghost before = out@;
    out.push('\\');
    if c == '\n' {
        out.push('n');
    } else if c == '\r' {
        out.push('r');
    } else if c == '\t' {
        out.push('t');
    } else {
        out.push('u');
        out.push('{');
        let digits = text::write_hex(c as u32);
        out.push_str(digits.as_str());
        out.push('}');
    }
    assert(out@ =~= before + escape_of(c));
}

/// Replaces what must not be shown by its visible name.
pub fn escape(s: &str) -> (r: String)
    ensures
        r@ == escaped(s@),
{
    let chars = text::chars_of(s);
    let mut out: String = String::new();
    let mut i: usize = 0;
    while i < chars.len()
        invariant
            i <= chars@.len(),
            chars@ == s@,
            out@ == escaped(s@.take(i as int)),
        decreases chars@.len() - i,
    {
        let c = chars[i];
        let ghost before = out@;
        if needs_escape(c) {
            push_escape(&mut out, c);
        } else {
            out.push(c);
            assert(out@ =~= before + seq![c]);
        }
        i += 1;
        proof {
            let t = s@.take(i as int);
            assert(t.drop_last() =~= s@.take(i - 1));
            assert(t.last() == c);
        }
    }
    assert(s@.take(s@.len() as int) =~= s@);
    out
}

/// What is shown for a cluster that starts in a column.
pub fn symbol(cluster: &str, column: usize) -> (r: String)
    ensures
        r@ == symbol_of(cluster@, column as nat),
{
    let mut tab: String = String::new();
    tab.push('\t');
    assert(tab@ =~= seq!['\t']);
    if text::str_eq(cluster, tab.as_str()) {
        let n: usize = 4 - column % 4;
        let mut out: String = String::new();
        let mut i: usize = 0;
        while i < n
            invariant
                i <= n <= 4,
                out@ == spaces(i as nat),
            decreases n - i,
        {
            out.push(' ');
            i += 1;
            assert(out@ =~= spaces(i as nat));
        }
        out
    } else {
        escape(cluster)
    }
}

} // verus!
