//! What keeping the spans of unchanged parts comes to.

use super::grammar;
use super::grammar::RootChild;
use super::highlight;
use super::highlight::Span;
use super::syntax::{
    kept_spans, moved, nothing_read, parts_read, slice_of, tree_read, with_part, with_spans,
    Reading, Slice,
};
use tree_sitter::Tree;
use vstd::prelude::*;
use vstd::utf8::encode_utf8;

verus! {

/// The text of a part of a source.
pub open spec fn part_of(source: Seq<char>, child: RootChild) -> Seq<u8> {
    encode_utf8(source).subrange(child.start as int, child.end as int)
}

/// Whether a tree is read part by part.
pub open spec fn has_parts(rust: bool, tree: Tree, source: Seq<char>) -> bool {
    &&& grammar::read_from(tree, grammar::grammar_of(rust), source)
    &&& !grammar::tree_broken(tree)
    &&& highlight::children_within(grammar::tree_children(tree), source)
}

/// Spans, all moved by as much.
pub open spec fn all_moved(spans: Seq<Span>, by: int) -> Seq<Span> {
    Seq::new(spans.len(), |k: int| moved(spans[k], by))
}

/// Whether two parts have the same kind and the same text.
pub open spec fn same_part(t1: Tree, s1: Seq<char>, i: int, t2: Tree, s2: Seq<char>, j: int) -> bool {
    let a = grammar::tree_children(t1);
    let b = grammar::tree_children(t2);
    &&& 0 <= i < a.len()
    &&& 0 <= j < b.len()
    &&& a[i].kind == b[j].kind
    &&& part_of(s1, a[i]) == part_of(s2, b[j])
}

/// Whether the query of a grammar looks at nothing outside of a part: equal parts
/// have equal spans, wherever they stand.
pub open spec fn is_local(rust: bool) -> bool {
    forall|t1: Tree, s1: Seq<char>, i: int, t2: Tree, s2: Seq<char>, j: int|
        has_parts(rust, t1, s1) && has_parts(rust, t2, s2) && #[trigger] same_part(
            t1,
            s1,
            i,
            t2,
            s2,
            j,
        ) ==> highlight::tree_spans(rust, t2, Some(j), s2) == all_moved(
            highlight::tree_spans(rust, t1, Some(i), s1),
            grammar::tree_children(t2)[j].start - grammar::tree_children(t1)[i].start,
        )
}

/// Whether a slice holds the spans of a part.
pub open spec fn slice_holds(r: Reading, slice: Slice, rust: bool, tree: Tree, source: Seq<char>, i: int) -> bool {
    let child = grammar::tree_children(tree)[i];
    &&& 0 <= i < grammar::tree_children(tree).len()
    &&& slice.text == part_of(source, child)
    &&& slice.kind == child.kind
    &&& slice.start == child.start
    &&& 0 <= slice.from <= slice.to <= r.spans.len()
    &&& r.spans.subrange(slice.from, slice.to) == highlight::tree_spans(rust, tree, Some(i), source)
}

pub open spec fn of_some_part(r: Reading, slice: Slice, rust: bool, tree: Tree, source: Seq<char>) -> bool {
    exists|i: int| slice_holds(r, slice, rust, tree, source, i)
}

/// Whether each slice of a reading holds the spans of a part of a source.
pub open spec fn reading_holds(r: Reading, rust: bool, tree: Tree, source: Seq<char>) -> bool {
    &&& r.slices.len() > 0 ==> has_parts(rust, tree, source)
    &&& forall|k: int|
        0 <= k < r.slices.len() ==> of_some_part(r, #[trigger] r.slices[k], rust, tree, source)
}

proof fn lemma_slice_of(slices: Seq<Slice>, part: Seq<u8>, from: nat)
    ensures
        slice_of(slices, part, from) matches Some(s) ==> s.text == part && exists|k: int|
            0 <= k < slices.len() && #[trigger] slices[k] == s,
    decreases slices.len() - from,
{
    if from < slices.len() && slices[from as int].text != part {
        lemma_slice_of(slices, part, from + 1);
    }
}

/// Spans that are kept are those that the query finds anew.
proof fn lemma_kept_is_new(
    rust: bool,
    before: Reading,
    t1: Tree,
    s1: Seq<char>,
    t2: Tree,
    s2: Seq<char>,
    j: int,
)
    requires
        is_local(rust),
        reading_holds(before, rust, t1, s1),
        has_parts(rust, t2, s2),
        0 <= j < grammar::tree_children(t2).len(),
    ensures
        ({
            let child = grammar::tree_children(t2)[j];
            kept_spans(before, part_of(s2, child), child) matches Some(kept) ==> kept
                == highlight::tree_spans(rust, t2, Some(j), s2)
        }),
{
    let child = grammar::tree_children(t2)[j];
    let part = part_of(s2, child);
    lemma_slice_of(before.slices, part, 0);
    match kept_spans(before, part, child) {
        Some(kept) => {
            let s = slice_of(before.slices, part, 0)->0;
            let k = choose|k: int| 0 <= k < before.slices.len() && #[trigger] before.slices[k] == s;
            let i = choose|i: int| slice_holds(before, before.slices[k], rust, t1, s1, i);
            assert(slice_holds(before, s, rust, t1, s1, i));
            assert(same_part(t1, s1, i, t2, s2, j));
            let had = highlight::tree_spans(rust, t1, Some(i), s1);
            assert(had == before.spans.subrange(s.from, s.to));
            assert(kept =~= all_moved(had, child.start - s.start));
        },
        None => {},
    }
}

proof fn lemma_parts(
    rust: bool,
    before: Reading,
    t1: Tree,
    s1: Seq<char>,
    t2: Tree,
    s2: Seq<char>,
    new: spec_fn(int) -> Seq<Span>,
    n: nat,
)
    requires
        forall|i: int| #[trigger] new(i) == highlight::tree_spans(rust, t2, Some(i), s2),
        is_local(rust),
        reading_holds(before, rust, t1, s1),
        has_parts(rust, t2, s2),
        n <= grammar::tree_children(t2).len(),
    ensures
        ({
            let children = grammar::tree_children(t2);
            let r = parts_read(before, encode_utf8(s2), children, new, n);
            &&& r == parts_read(nothing_read(), encode_utf8(s2), children, new, n)
            &&& reading_holds(r, rust, t2, s2)
        }),
    decreases n,
{
    let children = grammar::tree_children(t2);
    let bytes = encode_utf8(s2);
    if n > 0 {
        let j = n - 1;
        let child = children[j];
        let part = part_of(s2, child);
        let was = parts_read(before, bytes, children, new, j as nat);
        lemma_parts(rust, before, t1, s1, t2, s2, new, j as nat);
        lemma_kept_is_new(rust, before, t1, s1, t2, s2, j);
        assert(kept_spans(nothing_read(), part, child) is None);
        let spans = new(j);
        let r = with_spans(was, part, child, spans);
        assert(with_part(was, before, part, child, spans) == r);
        assert(with_part(was, nothing_read(), part, child, spans) == r);
        assert(parts_read(before, bytes, children, new, n) == r);
        assert(parts_read(nothing_read(), bytes, children, new, n) == r);
        assert forall|k: int| 0 <= k < r.slices.len() implies of_some_part(
            r,
            #[trigger] r.slices[k],
            rust,
            t2,
            s2,
        ) by {
            let slice = r.slices[k];
            if k < was.slices.len() {
                assert(was.slices[k] == slice);
                let i = choose|i: int| slice_holds(was, was.slices[k], rust, t2, s2, i);
                assert(r.spans.subrange(slice.from, slice.to) =~= was.spans.subrange(
                    slice.from,
                    slice.to,
                ));
                assert(slice_holds(r, slice, rust, t2, s2, i));
            } else {
                assert(r.spans.subrange(slice.from, slice.to) =~= spans);
                assert(slice_holds(r, slice, rust, t2, s2, j));
            }
        }
        assert(reading_holds(r, rust, t2, s2));
    } else {
        assert(reading_holds(nothing_read(), rust, t2, s2));
    }
}

/// Where the query of a grammar looks at nothing outside of a part, keeping the
/// spans of unchanged parts changes nothing: a source that is read with the help of
/// an earlier reading shows what it shows when it is read for the first time. And
/// what is kept of it then is again what the next reading can go by.
pub proof fn kept_parts_change_nothing(
    rust: bool,
    before: Reading,
    t1: Tree,
    s1: Seq<char>,
    t2: Tree,
    s2: Seq<char>,
)
    requires
        is_local(rust),
        reading_holds(before, rust, t1, s1),
        grammar::read_from(t2, grammar::grammar_of(rust), s2),
    ensures
        tree_read(rust, t2, before, s2) == tree_read(rust, t2, nothing_read(), s2),
        reading_holds(tree_read(rust, t2, before, s2), rust, t2, s2),
        reading_holds(nothing_read(), rust, t2, s2),
{
    if has_parts(rust, t2, s2) {
        let new = |i: int| highlight::tree_spans(rust, t2, Some(i), s2);
        lemma_parts(rust, before, t1, s1, t2, s2, new, grammar::tree_children(t2).len());
    }
}

/// What the first parts show, one behind the other.
pub open spec fn all_shown(new: spec_fn(int) -> Seq<Span>, n: nat) -> Seq<Span>
    decreases n,
{
    if n == 0 {
        Seq::empty()
    } else {
        all_shown(new, (n - 1) as nat) + new(n - 1)
    }
}

/// A file that is read for the first time shows what each of its parts shows, one
/// behind the other.
pub proof fn a_first_reading_shows_every_part(
    bytes: Seq<u8>,
    children: Seq<RootChild>,
    new: spec_fn(int) -> Seq<Span>,
    n: nat,
)
    ensures
        parts_read(nothing_read(), bytes, children, new, n).spans == all_shown(new, n),
    decreases n,
{
    if n > 0 {
        a_first_reading_shows_every_part(bytes, children, new, (n - 1) as nat);
    } else {
        assert(nothing_read().spans =~= all_shown(new, 0));
    }
}

} // verus!
