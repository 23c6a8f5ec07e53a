//! Syntax highlighting.

use super::clock;
use super::clock::Deadline;
use super::edits;
use super::grammar;
use super::grammar::{Capture, Captured, RootChild};
use crate::text;
use std::time::Instant;
use tree_sitter::{Parser, Query, Tree};
use vstd::prelude::*;

verus! {

/// Milliseconds that an edit may take, and that opening a file may take.
pub const EDIT_SYNTAX_BUDGET: u32 = 20;

pub const OPEN_SYNTAX_BUDGET: u32 = 250;

#[derive(Clone, Copy, Debug, PartialEq, Eq, Structural)]
pub enum HighlightKind {
    Keyword,
    Function,
    String,
    Comment,
    Type,
    Constant,
    Other,
}

/// A range of bytes that is shown in one way.
#[derive(Debug, PartialEq, Eq)]
pub struct HighlightSpan {
    pub byte_range: std::ops::Range<usize>,
    pub kind: HighlightKind,
}

impl Clone for HighlightSpan {
    fn clone(&self) -> (r: HighlightSpan)
        ensures
            r.view() == self.view(),
    {
        HighlightSpan { byte_range: self.byte_range.start..self.byte_range.end, kind: self.kind }
    }
}

pub struct Span {
    pub start: int,
    pub end: int,
    pub kind: HighlightKind,
}

impl HighlightSpan {
    pub open spec fn view(&self) -> Span {
        Span {
            start: self.byte_range.start as int,
            end: self.byte_range.end as int,
            kind: self.kind,
        }
    }
}

pub open spec fn spans_view(v: Seq<HighlightSpan>) -> Seq<Span> {
    Seq::new(v.len(), |i: int| v[i].view())
}

#[derive(Clone, Debug, PartialEq, Eq)]
pub struct HighlightError {
    pub message: String,
}

impl HighlightError {
    fn new(message: &str) -> (r: HighlightError)
        ensures
            r.message@ == message@,
    {
        HighlightError { message: message.to_owned() }
    }

    pub fn to_text(&self) -> (r: String)
        ensures
            r@ == self.message@,
    {
        self.message.clone()
    }
}

// The kind of a capture.

/// The part of a capture's name before its first dot.
pub open spec fn capture_root(name: Seq<char>) -> Seq<char> {
    name.take(text::place_of(name, '.', 0) as int)
}

pub open spec fn kind_of(name: Seq<char>) -> HighlightKind {
    let root = capture_root(name);
    if root == "keyword"@ {
        HighlightKind::Keyword
    } else if root == "function"@ || root == "method"@ {
        HighlightKind::Function
    } else if root == "string"@ || root == "character"@ {
        HighlightKind::String
    } else if root == "comment"@ {
        HighlightKind::Comment
    } else if root == "type"@ || root == "constructor"@ {
        HighlightKind::Type
    } else if root == "constant"@ || root == "number"@ || root == "boolean"@ {
        HighlightKind::Constant
    } else {
        HighlightKind::Other
    }
}

pub fn classify(capture: &str) -> (r: HighlightKind)
    ensures
        r == kind_of(capture@),
{
    let chars = text::chars_of(capture);
    let k = text::find_char(&chars, '.', 0);
    let root = text::string_of(chars.as_slice(), 0, k);
    assert(root@ =~= capture_root(capture@));
    let root = root.as_str();
    if text::str_eq(root, "keyword") {
        HighlightKind::Keyword
    } else if text::str_eq(root, "function") || text::str_eq(root, "method") {
        HighlightKind::Function
    } else if text::str_eq(root, "string") || text::str_eq(root, "character") {
        HighlightKind::String
    } else if text::str_eq(root, "comment") {
        HighlightKind::Comment
    } else if text::str_eq(root, "type") || text::str_eq(root, "constructor") {
        HighlightKind::Type
    } else if text::str_eq(root, "constant") || text::str_eq(root, "number") || text::str_eq(
        root,
        "boolean",
    ) {
        HighlightKind::Constant
    } else {
        HighlightKind::Other
    }
}

// The language of a path.

#[derive(Clone, Copy, Debug, PartialEq, Eq, Structural)]
pub enum LanguageKind {
    Rust,
    Toml,
    Plain,
}

/// A path without what names no file at its end: slashes, and a dot behind one.
pub open spec fn path_core(s: Seq<char>) -> Seq<char>
    decreases s.len(),
{
    if s.len() > 0 && s.last() == '/' {
        path_core(s.drop_last())
    } else if s.len() > 1 && s.last() == '.' && s[s.len() - 2] == '/' {
        path_core(s.drop_last())
    } else {
        s
    }
}

/// The place behind the last character of a kind, or the start.
pub open spec fn place_behind(s: Seq<char>, c: char, to: nat) -> nat
    decreases to,
{
    if to == 0 || to > s.len() || s[to - 1] == c {
        to
    } else {
        place_behind(s, c, (to - 1) as nat)
    }
}

pub open spec fn file_name(path: Seq<char>) -> Seq<char> {
    let core = path_core(path);
    core.skip(place_behind(core, '/', core.len()) as int)
}

/// What stands behind the last dot of a file's name. A dot at its start is none.
pub open spec fn extension(path: Seq<char>) -> Option<Seq<char>> {
    let name = file_name(path);
    let k = place_behind(name, '.', name.len());
    if k < 2 {
        None
    } else {
        Some(name.skip(k as int))
    }
}

pub open spec fn language_of(path: Seq<char>) -> LanguageKind {
    match extension(path) {
        Some(e) => if e == "rs"@ {
            LanguageKind::Rust
        } else if e == "toml"@ {
            LanguageKind::Toml
        } else {
            LanguageKind::Plain
        },
        None => LanguageKind::Plain,
    }
}

fn find_behind(chars: &Vec<char>, c: char, to: usize) -> (r: usize)
    requires
        to <= chars@.len(),
    ensures
        r == place_behind(chars@, c, to as nat),
        r <= to,
{
    let mut k: usize = to;
    while k > 0 && chars[k - 1] != c
        invariant
            k <= to <= chars@.len(),
            place_behind(chars@, c, to as nat) == place_behind(chars@, c, k as nat),
        decreases k,
    {
        k -= 1;
    }
    k
}

fn name_of(path: &str) -> (r: Vec<char>)
    ensures
        r@ == file_name(path@),
{
    let mut chars = text::chars_of(path);
    while chars.len() > 0 && (chars[chars.len() - 1] == '/' || (chars.len() > 1 && chars[chars.len()
        - 1] == '.' && chars[chars.len() - 2] == '/'))
        invariant
            path_core(path@) == path_core(chars@),
        decreases chars@.len(),
    {
        let ghost before = chars@;
        let _ = chars.pop();
        assert(chars@ =~= before.drop_last());
    }
    let k = find_behind(&chars, '/', chars.len());
    let name = text::string_of(chars.as_slice(), k, chars.len());
    assert(name@ =~= file_name(path@));
    text::chars_of(name.as_str())
}

impl LanguageKind {
    pub fn for_path(path: &str) -> (r: LanguageKind)
        ensures
            r == language_of(path@),
    {
        let name = name_of(path);
        let k = find_behind(&name, '.', name.len());
        if k < 2 {
            return LanguageKind::Plain;
        }
        let ending = text::string_of(name.as_slice(), k, name.len());
        assert(ending@ =~= name@.skip(k as int));
        if text::str_eq(ending.as_str(), "rs") {
            LanguageKind::Rust
        } else if text::str_eq(ending.as_str(), "toml") {
            LanguageKind::Toml
        } else {
            LanguageKind::Plain
        }
    }
}

// Spans.

/// Whether a span comes strictly before another: by its start, then by its end.
pub open spec fn comes_before(a: Span, b: Span) -> bool {
    a.start < b.start || (a.start == b.start && a.end < b.end)
}

/// A list in order with one more span, behind those that it does not come before.
pub open spec fn with_span(s: Seq<Span>, x: Span) -> Seq<Span>
    decreases s.len(),
{
    if s.len() > 0 && comes_before(x, s.last()) {
        with_span(s.drop_last(), x).push(s.last())
    } else {
        s.push(x)
    }
}

/// The spans in order; those at one place keep their order.
pub open spec fn in_order(s: Seq<Span>) -> Seq<Span>
    decreases s.len(),
{
    if s.len() == 0 {
        s
    } else {
        with_span(in_order(s.drop_last()), s.last())
    }
}

/// A list without a span that is the same as the one before it.
pub open spec fn without_repeats(s: Seq<Span>) -> Seq<Span>
    decreases s.len(),
{
    if s.len() == 0 {
        s
    } else {
        let before = without_repeats(s.drop_last());
        if before.len() > 0 && before.last() == s.last() {
            before
        } else {
            before.push(s.last())
        }
    }
}

/// The captures that hold something, each with its kind.
pub open spec fn kept_captures(c: Seq<Captured>) -> Seq<Span>
    decreases c.len(),
{
    if c.len() == 0 {
        Seq::empty()
    } else {
        let before = kept_captures(c.drop_last());
        if c.last().start < c.last().end {
            before.push(
                Span { start: c.last().start, end: c.last().end, kind: kind_of(c.last().name) },
            )
        } else {
            before
        }
    }
}

/// The spans of what a query found.
pub open spec fn spans_of(c: Seq<Captured>) -> Seq<Span> {
    without_repeats(in_order(kept_captures(c)))
}

/// Whether spans lie in a source.
pub open spec fn spans_within(spans: Seq<Span>, source: Seq<char>) -> bool {
    forall|i: int|
        0 <= i < spans.len() ==> (#[trigger] spans[i]).start <= spans[i].end <= text::byte_len(
            source,
        )
}

proof fn lemma_kept_within(c: Seq<Captured>, source: Seq<char>)
    requires
        grammar::captures_within(c, source),
    ensures
        spans_within(kept_captures(c), source),
    decreases c.len(),
{
    if c.len() > 0 {
        assert(c.last() == c[c.len() - 1]);
        assert forall|i: int| 0 <= i < c.drop_last().len() implies (#[trigger] c.drop_last()[i]).start
            <= c.drop_last()[i].end <= text::byte_len(source) by {
            assert(c.drop_last()[i] == c[i]);
        }
        lemma_kept_within(c.drop_last(), source);
    }
}

proof fn lemma_with_span_within(s: Seq<Span>, x: Span, source: Seq<char>)
    requires
        spans_within(s.push(x), source),
    ensures
        spans_within(with_span(s, x), source),
    decreases s.len(),
{
    if s.len() > 0 && comes_before(x, s.last()) {
        let before = s.drop_last();
        assert forall|i: int| 0 <= i < before.push(x).len() implies (#[trigger] before.push(x)[i]).start
            <= before.push(x)[i].end <= text::byte_len(source) by {
            if i < before.len() {
                assert(before.push(x)[i] == s.push(x)[i]);
            } else {
                assert(s.push(x)[s.len() as int] == x);
            }
        }
        lemma_with_span_within(before, x, source);
        assert(s.push(x)[s.len() - 1] == s.last());
    }
}

proof fn lemma_in_order_within(s: Seq<Span>, source: Seq<char>)
    requires
        spans_within(s, source),
    ensures
        spans_within(in_order(s), source),
    decreases s.len(),
{
    if s.len() > 0 {
        lemma_in_order_within(s.drop_last(), source);
        assert(s.last() == s[s.len() - 1]);
        lemma_with_span_within(in_order(s.drop_last()), s.last(), source);
    }
}

proof fn lemma_without_repeats_within(s: Seq<Span>, source: Seq<char>)
    requires
        spans_within(s, source),
    ensures
        spans_within(without_repeats(s), source),
    decreases s.len(),
{
    if s.len() > 0 {
        lemma_without_repeats_within(s.drop_last(), source);
        assert(s.last() == s[s.len() - 1]);
    }
}

proof fn lemma_spans_within(c: Seq<Captured>, source: Seq<char>)
    requires
        grammar::captures_within(c, source),
    ensures
        spans_within(spans_of(c), source),
{
    lemma_kept_within(c, source);
    lemma_in_order_within(kept_captures(c), source);
    lemma_without_repeats_within(in_order(kept_captures(c)), source);
}

proof fn lemma_with_span(s: Seq<Span>, x: Span, p: int)
    requires
        0 <= p <= s.len(),
        p > 0 ==> !comes_before(x, s[p - 1]),
        forall|j: int| p <= j < s.len() ==> comes_before(x, #[trigger] s[j]),
    ensures
        with_span(s, x) == s.insert(p, x),
    decreases s.len(),
{
    if p < s.len() {
        assert(comes_before(x, s[s.len() - 1]));
        lemma_with_span(s.drop_last(), x, p);
        assert(s.insert(p, x) =~= s.drop_last().insert(p, x).push(s.last()));
    } else {
        assert(s.insert(p, x) =~= s.push(x));
    }
}

fn insert_span(spans: &mut Vec<HighlightSpan>, x: HighlightSpan)
    ensures
        spans_view(final(spans)@) == with_span(spans_view(old(spans)@), x.view()),
{
    let ghost before = spans@;
    let ghost all = spans_view(before);
    let mut p: usize = spans.len();
    while p > 0 && (x.byte_range.start < spans[p - 1].byte_range.start || (x.byte_range.start
        == spans[p - 1].byte_range.start && x.byte_range.end < spans[p - 1].byte_range.end))
        invariant
            p <= spans@.len(),
            spans@ == before,
            all == spans_view(before),
            forall|j: int| p <= j < all.len() ==> comes_before(x.view(), #[trigger] all[j]),
        decreases p,
    {
        assert(all[p - 1] == spans@[p - 1].view());
        p -= 1;
    }
    proof {
        if p > 0 {
            assert(all[p - 1] == spans@[p - 1].view());
        }
        lemma_with_span(all, x.view(), p as int);
    }
    spans.insert(p, x);
    assert(spans_view(spans@) =~= all.insert(p as int, x.view()));
}

fn order_spans(captures: &Vec<Capture>) -> (r: Vec<HighlightSpan>)
    ensures
        spans_view(r@) == in_order(kept_captures(grammar::captures_view(captures@))),
{
    let ghost all = grammar::captures_view(captures@);
    let mut r: Vec<HighlightSpan> = Vec::new();
    let mut i: usize = 0;
    assert(all.take(0) =~= Seq::<Captured>::empty());
    assert(spans_view(r@) =~= in_order(kept_captures(all.take(0))));
    while i < captures.len()
        invariant
            i <= captures@.len(),
            all == grammar::captures_view(captures@),
            spans_view(r@) == in_order(kept_captures(all.take(i as int))),
        decreases captures@.len() - i,
    {
        let c = &captures[i];
        proof {
            assert(all.take(i + 1).drop_last() =~= all.take(i as int));
            assert(all.take(i + 1).last() == c.view());
            let kept = kept_captures(all.take(i as int));
            if c.range.start < c.range.end {
                let x = Span {
                    start: c.range.start as int,
                    end: c.range.end as int,
                    kind: kind_of(c.name@),
                };
                assert(kept.push(x).drop_last() =~= kept);
            }
        }
        if c.range.start < c.range.end {
            let kind = classify(c.name.as_str());
            insert_span(&mut r, HighlightSpan { byte_range: c.range.start..c.range.end, kind });
        }
        i += 1;
    }
    assert(all.take(all.len() as int) =~= all);
    r
}

fn same_span(a: &HighlightSpan, b: &HighlightSpan) -> (r: bool)
    ensures
        r == (a.view() == b.view()),
{
    a.byte_range.start == b.byte_range.start && a.byte_range.end == b.byte_range.end && a.kind
        == b.kind
}

fn add_span(spans: &mut Vec<HighlightSpan>, x: HighlightSpan)
    ensures
        spans_view(final(spans)@) == spans_view(old(spans)@).push(x.view()),
{
    let ghost before = spans@;
    spans.push(x);
    assert(spans_view(spans@) =~= spans_view(before).push(x.view()));
}

/// The spans of what a query found: those that hold something, in order, each
/// once.
pub fn collect_spans(captures: &Vec<Capture>) -> (r: Vec<HighlightSpan>)
    ensures
        spans_view(r@) == spans_of(grammar::captures_view(captures@)),
{
    let ordered = order_spans(captures);
    let ghost all = spans_view(ordered@);
    let mut r: Vec<HighlightSpan> = Vec::new();
    let mut i: usize = 0;
    assert(all.take(0) =~= Seq::<Span>::empty());
    assert(spans_view(r@) =~= without_repeats(all.take(0)));
    while i < ordered.len()
        invariant
            i <= ordered@.len(),
            all == spans_view(ordered@),
            spans_view(r@) == without_repeats(all.take(i as int)),
        decreases ordered@.len() - i,
    {
        proof {
            assert(all.take(i + 1).drop_last() =~= all.take(i as int));
            assert(all.take(i + 1).last() == ordered@[i as int].view());
            if r@.len() > 0 {
                assert(spans_view(r@).last() == r@[r@.len() - 1].view());
            }
        }
        if r.len() == 0 || !same_span(&r[r.len() - 1], &ordered[i]) {
            add_span(&mut r, ordered[i].clone());
        }
        i += 1;
    }
    assert(all.take(all.len() as int) =~= all);
    r
}

// What holds of all spans.

/// Whether the spans of a list hold something and stand in order.
pub open spec fn ordered(s: Seq<Span>) -> bool {
    &&& forall|i: int, j: int| 0 <= i < j < s.len() ==> !comes_before(#[trigger] s[j], #[trigger] s[i])
    &&& forall|i: int| 0 <= i < s.len() ==> (#[trigger] s[i]).start < s[i].end
}

proof fn lemma_with_span_ordered(s: Seq<Span>, x: Span)
    requires
        ordered(s),
        x.start < x.end,
    ensures
        ordered(with_span(s, x)),
        forall|y: Span| #[trigger] with_span(s, x).contains(y) ==> y == x || s.contains(y),
    decreases s.len(),
{
    if s.len() > 0 && comes_before(x, s.last()) {
        let before = s.drop_last();
        lemma_with_span_ordered(before, x);
        let w = with_span(before, x);
        assert forall|i: int, j: int| 0 <= i < j < w.push(s.last()).len() implies !comes_before(
            #[trigger] w.push(s.last())[j],
            #[trigger] w.push(s.last())[i],
        ) by {
            if j == w.len() {
                assert(w.contains(w[i]));
                if w[i] != x {
                    let k = choose|k: int| 0 <= k < before.len() && before[k] == w[i];
                    assert(!comes_before(s[s.len() - 1], s[k]));
                }
            }
        }
        assert forall|y: Span| #[trigger] w.push(s.last()).contains(y) implies y == x || s.contains(y) by {
            let k = choose|k: int| 0 <= k < w.push(s.last()).len() && w.push(s.last())[k] == y;
            if k < w.len() {
                assert(w.contains(w[k]));
                if y != x {
                    let m = choose|m: int| 0 <= m < before.len() && before[m] == y;
                    assert(s[m] == y);
                }
            } else {
                assert(s[s.len() - 1] == y);
            }
        }
    } else {
        assert forall|i: int, j: int| 0 <= i < j < s.push(x).len() implies !comes_before(
            #[trigger] s.push(x)[j],
            #[trigger] s.push(x)[i],
        ) by {
            if j == s.len() && i < s.len() - 1 {
                assert(!comes_before(s[s.len() - 1], s[i]));
            }
        }
        assert forall|y: Span| #[trigger] s.push(x).contains(y) implies y == x || s.contains(y) by {
            let k = choose|k: int| 0 <= k < s.push(x).len() && s.push(x)[k] == y;
            if k < s.len() {
                assert(s[k] == y);
            }
        }
    }
}

proof fn lemma_in_order(c: Seq<Captured>)
    ensures
        ordered(in_order(kept_captures(c))),
    decreases c.len(),
{
    if c.len() > 0 {
        lemma_in_order(c.drop_last());
        let kept = kept_captures(c.drop_last());
        if c.last().start < c.last().end {
            let x = Span { start: c.last().start, end: c.last().end, kind: kind_of(c.last().name) };
            assert(kept.push(x).drop_last() =~= kept);
            lemma_with_span_ordered(in_order(kept), x);
        }
    }
}

proof fn lemma_without_repeats(s: Seq<Span>)
    requires
        ordered(s),
    ensures
        ordered(without_repeats(s)),
        without_repeats(s).len() == 0 <==> s.len() == 0,
        s.len() > 0 ==> without_repeats(s).last() == s.last(),
        forall|i: int|
            0 < i < without_repeats(s).len() ==> without_repeats(s)[i - 1] != #[trigger] without_repeats(
                s,
            )[i],
        forall|y: Span| #[trigger] without_repeats(s).contains(y) ==> s.contains(y),
    decreases s.len(),
{
    if s.len() > 0 {
        let before = s.drop_last();
        lemma_without_repeats(before);
        let w = without_repeats(before);
        assert forall|y: Span| #[trigger] without_repeats(s).contains(y) implies s.contains(y) by {
            let k = choose|k: int| 0 <= k < without_repeats(s).len() && without_repeats(s)[k] == y;
            if k < w.len() {
                assert(w.contains(w[k]));
                let m = choose|m: int| 0 <= m < before.len() && before[m] == y;
                assert(s[m] == y);
            } else {
                assert(s[s.len() - 1] == y);
            }
        }
        assert forall|i: int, j: int| 0 <= i < j < without_repeats(s).len() implies !comes_before(
            #[trigger] without_repeats(s)[j],
            #[trigger] without_repeats(s)[i],
        ) by {
            if j == w.len() {
                assert(w.contains(w[i]));
                let m = choose|m: int| 0 <= m < before.len() && before[m] == w[i];
                assert(!comes_before(s[s.len() - 1], s[m]));
            }
        }
    }
}

/// The spans of what a query found hold something, stand in order, and no two
/// neighbours are the same.
pub proof fn spans_are_in_order(c: Seq<Captured>)
    ensures
        ordered(spans_of(c)),
        forall|i: int|
            0 < i < spans_of(c).len() ==> spans_of(c)[i - 1] != #[trigger] spans_of(c)[i],
{
    lemma_in_order(c);
    lemma_without_repeats(in_order(kept_captures(c)));
}

// Reading a source.

/// The spans of what a query found, unless there were too many matches or the
/// deadline had come when the query was over.
pub fn query_answer(
    found: &Vec<Capture>,
    exceeded: bool,
    end: Instant,
    deadline: Option<Deadline>,
) -> (r: Result<Vec<HighlightSpan>, HighlightError>)
    ensures
        match r {
            Ok(v) => !exceeded && !clock::passed(end, deadline) && spans_view(v@) == spans_of(
                grammar::captures_view(found@),
            ),
            Err(e) => (exceeded || clock::passed(end, deadline)) && e.message@
                == "syntax query budget exhausted"@,
        },
{
    let late = match deadline {
        Some(d) => d.is_passed(end),
        None => false,
    };
    if late || exceeded {
        return Err(HighlightError::new("syntax query budget exhausted"));
    }
    Ok(collect_spans(found))
}

/// A parser and a query of one grammar.
pub struct LanguageHighlighter {
    pub parser: Parser,
    pub query: Query,
}

/// The spans of a tree, or of a child of its root.
pub open spec fn tree_spans(rust: bool, tree: Tree, child: Option<int>, source: Seq<char>) -> Seq<Span> {
    spans_of(
        grammar::tree_captures(
            (grammar::grammar_of(rust), grammar::grammar_query(rust)),
            tree,
            child,
            source,
        ),
    )
}

/// Whether the query has too many matches at once.
pub open spec fn too_much(rust: bool, tree: Tree, child: Option<int>, source: Seq<char>) -> bool {
    grammar::beyond_limit(
        (grammar::grammar_of(rust), grammar::grammar_query(rust)),
        tree,
        child,
        source,
    )
}

/// Why sources of a kind cannot be highlighted, if so.
pub open spec fn highlighter_fault(kind: LanguageKind) -> Option<Seq<char>> {
    let language = grammar::grammar_of(kind == LanguageKind::Rust);
    if kind == LanguageKind::Plain {
        Some("unsupported language"@)
    } else if grammar::language_fault(language) is Some {
        grammar::language_fault(language)
    } else {
        grammar::query_fault(language, grammar::grammar_query(kind == LanguageKind::Rust))
    }
}

impl LanguageHighlighter {
    /// Whether what the parser reads can be queried: its language, if it has one,
    /// is that of the query.
    pub open spec fn sound(&self) -> bool {
        &&& grammar::parser_plain(self.parser)
        &&& self.is_ready() ==> grammar::parser_language(self.parser) == Some(
            grammar::query_source(self.query).0,
        )
    }

    /// Whether the parser has a language. Without one it reads nothing.
    pub open spec fn is_ready(&self) -> bool {
        grammar::parser_language(self.parser) is Some
    }

    /// Whether this is for sources of one of the two grammars.
    pub open spec fn reads(&self, rust: bool) -> bool {
        &&& self.sound()
        &&& grammar::query_source(self.query) == (
            grammar::grammar_of(rust),
            grammar::grammar_query(rust),
        )
    }

    pub fn new(kind: LanguageKind) -> (r: Result<LanguageHighlighter, HighlightError>)
        ensures
            match r {
                Ok(h) => highlighter_fault(kind) is None && h.reads(kind == LanguageKind::Rust)
                    && h.is_ready(),
                Err(e) => highlighter_fault(kind) == Some(e.message@),
            },
    {
        if kind == LanguageKind::Plain {
            return Err(HighlightError::new("unsupported language"));
        }
        let rust = kind == LanguageKind::Rust;
        let language = if rust {
            grammar::rust_grammar()
        } else {
            grammar::toml_grammar()
        };
        let parser = match grammar::new_parser(&language) {
            Ok(parser) => parser,
            Err(message) => {
                return Err(HighlightError { message });
            },
        };
        let source = if rust {
            grammar::rust_query()
        } else {
            grammar::toml_query()
        };
        let query = match grammar::new_query(&language, source) {
            Ok(query) => query,
            Err(message) => {
                return Err(HighlightError { message });
            },
        };
        Ok(LanguageHighlighter { parser, query })
    }

    /// The tree of a source, read with the help of an earlier one that is up to date
    /// with it. It fails where the parser has no language, and else only where its
    /// time is up.
    pub fn parse(&mut self, source: &str, earlier: Option<&Tree>, deadline: Option<Deadline>) -> (r:
        Result<Tree, HighlightError>)
        requires
            old(self).sound(),
            text::byte_len(source@) <= u32::MAX,
            earlier matches Some(tree) ==> edits::keeps_up(
                *tree,
                grammar::query_source(old(self).query).0,
                source@,
            ),
        ensures
            final(self).sound(),
            final(self).is_ready() == old(self).is_ready(),
            final(self).query == old(self).query,
            r matches Ok(tree) ==> tree == grammar::tree_of(
                grammar::query_source(old(self).query).0,
                grammar::opt_tree(earlier),
                source@,
            ),
            !old(self).is_ready() ==> r is Err,
            old(self).is_ready() && r is Err ==> clock::time_up(deadline),
            r matches Err(e) ==> e.message@ == "Tree-sitter parsing failed or was cancelled"@,
    {
        match grammar::parse(&mut self.parser, source, earlier, deadline) {
            Some(tree) => Ok(tree),
            None => Err(HighlightError::new("Tree-sitter parsing failed or was cancelled")),
        }
    }

    /// The spans of a tree or of a child of its root.
    pub fn spans(&self, source: &str, tree: &Tree, child: Option<u32>, deadline: Option<Deadline>) -> (r:
        Result<Vec<HighlightSpan>, HighlightError>)
        requires
            child matches Some(i) ==> i < grammar::tree_children(*tree).len(),
            grammar::read_from(*tree, grammar::query_source(self.query).0, source@),
        ensures
            r matches Ok(v) ==> forall|rust: bool| #[trigger]
                self.reads(rust) ==> spans_view(v@) == tree_spans(
                    rust,
                    *tree,
                    grammar::opt_int(child),
                    source@,
                ),
            forall|rust: bool| #[trigger]
                self.reads(rust) && too_much(rust, *tree, grammar::opt_int(child), source@)
                    ==> r is Err,
            r is Err ==> clock::time_up(deadline) || forall|rust: bool| #[trigger]
                self.reads(rust) ==> too_much(rust, *tree, grammar::opt_int(child), source@),
            r is Ok ==> clock::in_time(deadline),
            r matches Ok(v) ==> spans_within(spans_view(v@), source@),
            r matches Err(e) ==> e.message@ == "syntax query budget exhausted"@,
    {
        let (found, exceeded, end) = grammar::captures(
            &self.query,
            tree,
            child,
            source,
            deadline,
        );
        proof {
            lemma_spans_within(grammar::captures_view(found@), source@);
        }
        query_answer(&found, exceeded, end, deadline)
    }
}

/// Whether the parts of a tree lie in a source.
pub open spec fn children_within(children: Seq<RootChild>, source: Seq<char>) -> bool {
    forall|i: int|
        0 <= i < children.len() ==> (#[trigger] children[i]).start <= children[i].end
            <= text::byte_len(source)
}

pub(crate) fn are_within(children: &Vec<RootChild>, source: &str) -> (r: bool)
    ensures
        r == children_within(children@, source@),
{
    let end: usize = text::str_bytes(source);
    let mut i: usize = 0;
    while i < children.len()
        invariant
            i <= children@.len(),
            end == text::byte_len(source@),
            children_within(children@.take(i as int), source@),
        decreases children@.len() - i,
    {
        let child = children[i];
        assert(children@.take(i + 1) =~= children@.take(i as int).push(child));
        if child.start > child.end || child.end > end {
            assert(!(children@[i as int].start <= children@[i as int].end <= text::byte_len(source@)));
            return false;
        }
        i += 1;
    }
    assert(children@.take(i as int) =~= children@);
    true
}

/// The tree of a source that is read for the first time.
pub open spec fn fresh_tree(rust: bool, source: Seq<char>) -> Tree {
    grammar::tree_of(grammar::grammar_of(rust), None, source)
}

/// Highlights Rust sources, one at a time and without a limit of time.
pub struct RustHighlighter {
    pub inner: LanguageHighlighter,
}

impl RustHighlighter {
    pub open spec fn ready(&self) -> bool {
        self.inner.reads(true) && self.inner.is_ready()
    }

    pub fn new() -> (r: Result<RustHighlighter, HighlightError>)
        ensures
            match r {
                Ok(h) => highlighter_fault(LanguageKind::Rust) is None && h.ready(),
                Err(e) => highlighter_fault(LanguageKind::Rust) == Some(e.message@),
            },
    {
        match LanguageHighlighter::new(LanguageKind::Rust) {
            Ok(inner) => Ok(RustHighlighter { inner }),
            Err(e) => Err(e),
        }
    }

    pub fn highlight(&mut self, source: &str) -> (r: Result<Vec<HighlightSpan>, HighlightError>)
        requires
            old(self).ready(),
            text::byte_len(source@) <= u32::MAX,
        ensures
            final(self).ready(),
            r is Err <==> too_much(true, fresh_tree(true, source@), None, source@),
            r matches Ok(v) ==> spans_view(v@) == tree_spans(
                true,
                fresh_tree(true, source@),
                None,
                source@,
            ),
            r matches Ok(v) ==> spans_within(spans_view(v@), source@),
            r matches Err(e) ==> e.message@ == "syntax query budget exhausted"@,
    {
        assert(self.inner.reads(true));
        let tree = self.inner.parse(source, None, None)?;
        assert(self.inner.reads(true));
        self.inner.spans(source, &tree, None, None)
    }
}

/// Highlights a file once. A file of another kind has no spans. It fails where
/// the grammar cannot be used, where the query has too many matches, and where
/// its time is up.
pub fn highlight_path(path: &str, source: &str) -> (r: Result<Vec<HighlightSpan>, HighlightError>)
    requires
        language_of(path@) != LanguageKind::Plain ==> text::byte_len(source@) <= u32::MAX,
    ensures
        language_of(path@) == LanguageKind::Plain ==> r is Ok && r->Ok_0@.len() == 0,
        language_of(path@) != LanguageKind::Plain ==> (r matches Ok(v) ==> spans_view(v@)
            == tree_spans(
            language_of(path@) == LanguageKind::Rust,
            fresh_tree(language_of(path@) == LanguageKind::Rust, source@),
            None,
            source@,
        )),
        r is Ok && language_of(path@) != LanguageKind::Plain ==> highlighter_fault(language_of(path@)) is None
            && clock::kept_to(OPEN_SYNTAX_BUDGET),
        language_of(path@) != LanguageKind::Plain && highlighter_fault(language_of(path@)) is Some
            ==> r is Err && r->Err_0.message@ == highlighter_fault(language_of(path@))->0,
        language_of(path@) != LanguageKind::Plain && too_much(
            language_of(path@) == LanguageKind::Rust,
            fresh_tree(language_of(path@) == LanguageKind::Rust, source@),
            None,
            source@,
        ) ==> r is Err,
        language_of(path@) != LanguageKind::Plain && highlighter_fault(language_of(path@)) is None
            ==> (r matches Err(e) ==> (clock::ran_out(OPEN_SYNTAX_BUDGET) || too_much(
            language_of(path@) == LanguageKind::Rust,
            fresh_tree(language_of(path@) == LanguageKind::Rust, source@),
            None,
            source@,
        )) && (e.message@ == "syntax query budget exhausted"@ || e.message@
            == "Tree-sitter parsing failed or was cancelled"@)),
        r matches Ok(v) ==> spans_within(spans_view(v@), source@),
{
    let kind = LanguageKind::for_path(path);
    if kind == LanguageKind::Plain {
        return Ok(Vec::new());
    }
    let mut highlighter = LanguageHighlighter::new(kind)?;
    let ghost rust = kind == LanguageKind::Rust;
    assert(highlighter.reads(rust));
    let deadline = Some(Deadline::after(OPEN_SYNTAX_BUDGET));
    let tree = highlighter.parse(source, None, deadline)?;
    assert(highlighter.reads(rust));
    highlighter.spans(source, &tree, None, deadline)
}

} // verus!
