//! What the captures of a grammar come to.

use super::grammar::Captured;
use super::highlight;
use super::highlight::{HighlightKind, LanguageKind, Span};
use crate::text;
use vstd::prelude::*;

verus! {

/// Whether a capture is of a root: it is named by it, or by it and something behind a
/// dot.
pub open spec fn is_of(name: Seq<char>, root: Seq<char>) -> bool {
    name == root || (name.len() > root.len() && name.take(root.len() as int) == root
        && name[root.len() as int] == '.')
}

proof fn lemma_root(name: Seq<char>, root: Seq<char>)
    requires
        is_of(name, root),
        forall|i: int| 0 <= i < root.len() ==> #[trigger] root[i] != '.',
    ensures
        highlight::capture_root(name) == root,
{
    assert forall|i: int| 0 <= i < root.len() implies #[trigger] name[i] != '.' by {
        assert(name.take(root.len() as int)[i] == name[i]);
        assert(root[i] != '.');
    }
    text::lemma_place_is(name, '.', 0, root.len());
    assert(name.take(root.len() as int) =~= root);
}

proof fn lemma_roots()
    ensures
        "keyword"@.len() == 7 && forall|i: int| 0 <= i < 7 ==> #[trigger] "keyword"@[i] != '.',
        "function"@.len() == 8 && forall|i: int| 0 <= i < 8 ==> #[trigger] "function"@[i] != '.',
        "method"@.len() == 6 && forall|i: int| 0 <= i < 6 ==> #[trigger] "method"@[i] != '.',
        "string"@.len() == 6 && forall|i: int| 0 <= i < 6 ==> #[trigger] "string"@[i] != '.',
        "character"@.len() == 9 && forall|i: int| 0 <= i < 9 ==> #[trigger] "character"@[i] != '.',
        "comment"@.len() == 7 && forall|i: int| 0 <= i < 7 ==> #[trigger] "comment"@[i] != '.',
        "type"@.len() == 4 && forall|i: int| 0 <= i < 4 ==> #[trigger] "type"@[i] != '.',
        "constructor"@.len() == 11 && forall|i: int|
            0 <= i < 11 ==> #[trigger] "constructor"@[i] != '.',
        "constant"@.len() == 8 && forall|i: int| 0 <= i < 8 ==> #[trigger] "constant"@[i] != '.',
        "number"@.len() == 6 && forall|i: int| 0 <= i < 6 ==> #[trigger] "number"@[i] != '.',
        "boolean"@.len() == 7 && forall|i: int| 0 <= i < 7 ==> #[trigger] "boolean"@[i] != '.',
        "keyword"@[0] == 'k' && "function"@[0] == 'f' && "method"@[0] == 'm' && "string"@[0] == 's',
        "comment"@[0] == 'c' && "constant"@[0] == 'c' && "number"@[0] == 'n' && "boolean"@[0] == 'b',
{
    reveal_strlit("keyword");
    reveal_strlit("function");
    reveal_strlit("method");
    reveal_strlit("string");
    reveal_strlit("character");
    reveal_strlit("comment");
    reveal_strlit("type");
    reveal_strlit("constructor");
    reveal_strlit("constant");
    reveal_strlit("number");
    reveal_strlit("boolean");
}

/// A capture is shown as what its root says.
pub proof fn a_capture_is_shown_as_its_root_says(name: Seq<char>)
    ensures
        is_of(name, "keyword"@) ==> highlight::kind_of(name) == HighlightKind::Keyword,
        is_of(name, "function"@) || is_of(name, "method"@) ==> highlight::kind_of(name)
            == HighlightKind::Function,
        is_of(name, "string"@) || is_of(name, "character"@) ==> highlight::kind_of(name)
            == HighlightKind::String,
        is_of(name, "comment"@) ==> highlight::kind_of(name) == HighlightKind::Comment,
        is_of(name, "type"@) || is_of(name, "constructor"@) ==> highlight::kind_of(name)
            == HighlightKind::Type,
        is_of(name, "constant"@) || is_of(name, "number"@) || is_of(name, "boolean"@)
            ==> highlight::kind_of(name) == HighlightKind::Constant,
{
    lemma_roots();
    if is_of(name, "keyword"@) {
        lemma_root(name, "keyword"@);
    } else if is_of(name, "function"@) {
        lemma_root(name, "function"@);
    } else if is_of(name, "method"@) {
        lemma_root(name, "method"@);
    } else if is_of(name, "string"@) {
        lemma_root(name, "string"@);
    } else if is_of(name, "character"@) {
        lemma_root(name, "character"@);
    } else if is_of(name, "comment"@) {
        lemma_root(name, "comment"@);
    } else if is_of(name, "type"@) {
        lemma_root(name, "type"@);
    } else if is_of(name, "constructor"@) {
        lemma_root(name, "constructor"@);
    } else if is_of(name, "constant"@) {
        lemma_root(name, "constant"@);
    } else if is_of(name, "number"@) {
        lemma_root(name, "number"@);
    } else if is_of(name, "boolean"@) {
        lemma_root(name, "boolean"@);
    }
    lemma_one_root(name);
}

/// A name has one root.
proof fn lemma_one_root(name: Seq<char>)
    ensures
        is_of(name, "keyword"@) ==> highlight::capture_root(name) == "keyword"@,
        is_of(name, "function"@) ==> highlight::capture_root(name) == "function"@,
        is_of(name, "method"@) ==> highlight::capture_root(name) == "method"@,
        is_of(name, "string"@) ==> highlight::capture_root(name) == "string"@,
        is_of(name, "character"@) ==> highlight::capture_root(name) == "character"@,
        is_of(name, "comment"@) ==> highlight::capture_root(name) == "comment"@,
        is_of(name, "type"@) ==> highlight::capture_root(name) == "type"@,
        is_of(name, "constructor"@) ==> highlight::capture_root(name) == "constructor"@,
        is_of(name, "constant"@) ==> highlight::capture_root(name) == "constant"@,
        is_of(name, "number"@) ==> highlight::capture_root(name) == "number"@,
        is_of(name, "boolean"@) ==> highlight::capture_root(name) == "boolean"@,
{
    lemma_roots();
    if is_of(name, "keyword"@) {
        lemma_root(name, "keyword"@);
    }
    if is_of(name, "function"@) {
        lemma_root(name, "function"@);
    }
    if is_of(name, "method"@) {
        lemma_root(name, "method"@);
    }
    if is_of(name, "string"@) {
        lemma_root(name, "string"@);
    }
    if is_of(name, "character"@) {
        lemma_root(name, "character"@);
    }
    if is_of(name, "comment"@) {
        lemma_root(name, "comment"@);
    }
    if is_of(name, "type"@) {
        lemma_root(name, "type"@);
    }
    if is_of(name, "constructor"@) {
        lemma_root(name, "constructor"@);
    }
    if is_of(name, "constant"@) {
        lemma_root(name, "constant"@);
    }
    if is_of(name, "number"@) {
        lemma_root(name, "number"@);
    }
    if is_of(name, "boolean"@) {
        lemma_root(name, "boolean"@);
    }
}

// The language of a file.

proof fn lemma_behind(s: Seq<char>, c: char, to: nat, at: nat)
    requires
        at <= to <= s.len(),
        at == 0 || s[at - 1] == c,
        forall|i: int| at <= i < to ==> #[trigger] s[i] != c,
    ensures
        highlight::place_behind(s, c, to) == at,
    decreases to,
{
    if to > at {
        assert(s[to - 1] != c);
        lemma_behind(s, c, (to - 1) as nat, at);
    }
}

proof fn lemma_language(directory: Seq<char>, stem: Seq<char>, ending: Seq<char>)
    requires
        directory.len() == 0 || directory.last() == '/',
        stem.len() > 0,
        forall|i: int| 0 <= i < stem.len() ==> #[trigger] stem[i] != '/',
        ending.len() > 0,
        forall|i: int| 0 <= i < ending.len() ==> #[trigger] ending[i] != '/' && ending[i] != '.',
    ensures
        highlight::extension(directory + stem + "."@ + ending) == Some(ending),
{
    reveal_strlit(".");
    let path = directory + stem + "."@ + ending;
    let name = stem + "."@ + ending;
    assert(path.last() == ending[ending.len() - 1]);
    assert(path.last() != '/' && path.last() != '.');
    assert(highlight::path_core(path) == path);
    assert forall|i: int| directory.len() <= i < path.len() implies #[trigger] path[i] != '/' by {
        if i < directory.len() + stem.len() {
            assert(path[i] == stem[i - directory.len()]);
        } else if i > directory.len() + stem.len() {
            assert(path[i] == ending[i - directory.len() - stem.len() - 1]);
        }
    }
    if directory.len() > 0 {
        assert(path[directory.len() - 1] == directory.last());
    }
    lemma_behind(path, '/', path.len(), directory.len());
    assert(path.skip(directory.len() as int) =~= name);
    let k = stem.len() + 1;
    assert(name[k - 1] == '.');
    assert forall|i: int| k <= i < name.len() implies #[trigger] name[i] != '.' by {
        assert(name[i] == ending[i - k]);
    }
    lemma_behind(name, '.', name.len(), k);
    assert(name.skip(k as int) =~= ending);
}

/// The language of a file is told by its ending: `.rs` is Rust and `.toml` is TOML,
/// wherever the file lies and whatever it is named.
pub proof fn the_ending_tells_the_language(directory: Seq<char>, stem: Seq<char>)
    requires
        directory.len() == 0 || directory.last() == '/',
        stem.len() > 0,
        forall|i: int| 0 <= i < stem.len() ==> #[trigger] stem[i] != '/',
    ensures
        highlight::language_of(directory + stem + "."@ + "rs"@) == LanguageKind::Rust,
        highlight::language_of(directory + stem + "."@ + "toml"@) == LanguageKind::Toml,
{
    reveal_strlit("rs");
    reveal_strlit("toml");
    lemma_language(directory, stem, "rs"@);
    lemma_language(directory, stem, "toml"@);
    assert("rs"@.len() != "toml"@.len());
}

// The spans of the captures.

/// Whether a span is that of a capture: its bytes, of which there are some, and its
/// kind.
pub open spec fn is_span_of(x: Span, c: Captured) -> bool {
    c.start < c.end && x == (Span { start: c.start, end: c.end, kind: highlight::kind_of(c.name) })
}

proof fn lemma_with_span(s: Seq<Span>, x: Span, y: Span)
    ensures
        highlight::with_span(s, x).contains(y) <==> s.contains(y) || x == y,
    decreases s.len(),
{
    if s.len() > 0 && highlight::comes_before(x, s.last()) {
        lemma_with_span(s.drop_last(), x, y);
        lemma_push(highlight::with_span(s.drop_last(), x), s.last(), y);
        lemma_push(s.drop_last(), s.last(), y);
        assert(s.drop_last().push(s.last()) =~= s);
    } else {
        lemma_push(s, x, y);
    }
}

proof fn lemma_push(s: Seq<Span>, x: Span, y: Span)
    ensures
        s.push(x).contains(y) <==> s.contains(y) || x == y,
{
    if s.contains(y) {
        let i = choose|i: int| 0 <= i < s.len() && s[i] == y;
        assert(s.push(x)[i] == y);
    }
    assert(s.push(x)[s.len() as int] == x);
    if s.push(x).contains(y) {
        let i = choose|i: int| 0 <= i < s.push(x).len() && s.push(x)[i] == y;
        if i < s.len() {
            assert(s[i] == y);
        }
    }
}

proof fn lemma_in_order(s: Seq<Span>, y: Span)
    ensures
        highlight::in_order(s).contains(y) <==> s.contains(y),
    decreases s.len(),
{
    if s.len() > 0 {
        lemma_in_order(s.drop_last(), y);
        lemma_with_span(highlight::in_order(s.drop_last()), s.last(), y);
        lemma_push(s.drop_last(), s.last(), y);
        assert(s.drop_last().push(s.last()) =~= s);
    }
}

proof fn lemma_without_repeats(s: Seq<Span>, y: Span)
    ensures
        highlight::without_repeats(s).contains(y) <==> s.contains(y),
    decreases s.len(),
{
    if s.len() > 0 {
        let before = highlight::without_repeats(s.drop_last());
        lemma_without_repeats(s.drop_last(), y);
        lemma_push(s.drop_last(), s.last(), y);
        lemma_push(before, s.last(), y);
        assert(s.drop_last().push(s.last()) =~= s);
        if before.len() > 0 && before.last() == s.last() {
            assert(before[before.len() - 1] == s.last());
            assert(before.contains(s.last()));
        }
    }
}

proof fn lemma_kept(c: Seq<Captured>, y: Span)
    ensures
        highlight::kept_captures(c).contains(y) <==> exists|i: int|
            0 <= i < c.len() && is_span_of(y, #[trigger] c[i]),
    decreases c.len(),
{
    if c.len() > 0 {
        lemma_kept(c.drop_last(), y);
        let before = highlight::kept_captures(c.drop_last());
        let x = Span {
            start: c.last().start,
            end: c.last().end,
            kind: highlight::kind_of(c.last().name),
        };
        lemma_push(before, x, y);
        if before.contains(y) {
            let i = choose|i: int|
                0 <= i < c.drop_last().len() && is_span_of(y, #[trigger] c.drop_last()[i]);
            assert(is_span_of(y, c[i]));
        }
        if c.last().start < c.last().end && x == y {
            assert(is_span_of(y, c[c.len() - 1]));
        }
        if exists|i: int| 0 <= i < c.len() && is_span_of(y, #[trigger] c[i]) {
            let i = choose|i: int| 0 <= i < c.len() && is_span_of(y, #[trigger] c[i]);
            if i < c.len() - 1 {
                assert(is_span_of(y, c.drop_last()[i]));
            }
        }
    }
}

/// Every capture that covers something is shown, and nothing else is.
pub proof fn every_capture_is_shown(c: Seq<Captured>, x: Span)
    ensures
        highlight::spans_of(c).contains(x) <==> exists|i: int|
            0 <= i < c.len() && is_span_of(x, #[trigger] c[i]),
{
    let kept = highlight::kept_captures(c);
    lemma_kept(c, x);
    lemma_in_order(kept, x);
    lemma_without_repeats(highlight::in_order(kept), x);
}

} // verus!
