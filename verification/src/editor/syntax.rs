//! The syntax of an open file, kept up to date with its edits.

use super::clock;
use super::clock::Deadline;
use super::edits;
use super::grammar;
use super::grammar::RootChild;
use super::highlight;
use super::highlight::{
    HighlightError, HighlightSpan, LanguageHighlighter, LanguageKind, Span, EDIT_SYNTAX_BUDGET,
    OPEN_SYNTAX_BUDGET,
};
use crate::model::EditorTransaction;
use crate::text;
use tree_sitter::Tree;
use vstd::prelude::*;
use vstd::utf8::encode_utf8;

verus! {

// What is kept of a reading.

/// The spans of a part of a file: those from one place of the list to another.
#[derive(Clone, Debug, PartialEq, Eq)]
pub struct CaptureSlice {
    pub text: Vec<u8>,
    pub kind: u16,
    pub start_byte: usize,
    pub from: usize,
    pub to: usize,
}

pub struct Slice {
    pub text: Seq<u8>,
    pub kind: u16,
    pub start: int,
    pub from: int,
    pub to: int,
}

impl CaptureSlice {
    pub open spec fn view(&self) -> Slice {
        Slice {
            text: self.text@,
            kind: self.kind,
            start: self.start_byte as int,
            from: self.from as int,
            to: self.to as int,
        }
    }
}

pub open spec fn slices_view(v: Seq<CaptureSlice>) -> Seq<Slice> {
    Seq::new(v.len(), |i: int| v[i].view())
}

/// The spans of a file, and which of them belong to which of its parts.
pub struct Reading {
    pub spans: Seq<Span>,
    pub slices: Seq<Slice>,
}

pub open spec fn nothing_read() -> Reading {
    Reading { spans: Seq::empty(), slices: Seq::empty() }
}

/// The first slice of a text.
pub open spec fn slice_of(slices: Seq<Slice>, part: Seq<u8>, from: nat) -> Option<Slice>
    decreases slices.len() - from,
{
    if from >= slices.len() {
        None
    } else if slices[from as int].text == part {
        Some(slices[from as int])
    } else {
        slice_of(slices, part, from + 1)
    }
}

pub open spec fn moved(s: Span, by: int) -> Span {
    Span { start: s.start + by, end: s.end + by, kind: s.kind }
}

/// Whether a span of a part can be moved to another place of the part.
pub open spec fn can_move(s: Span, start: int, to: int) -> bool {
    &&& start <= s.start
    &&& start <= s.end
    &&& s.start - start + to <= usize::MAX
    &&& s.end - start + to <= usize::MAX
}

pub open spec fn movable(spans: Seq<Span>, slice: Slice, to: int) -> bool {
    &&& 0 <= slice.from <= slice.to <= spans.len()
    &&& forall|k: int| slice.from <= k < slice.to ==> can_move(#[trigger] spans[k], slice.start, to)
}

/// The spans that an equal part had before, moved to where the part is now.
pub open spec fn kept_spans(before: Reading, part: Seq<u8>, child: RootChild) -> Option<Seq<Span>> {
    match slice_of(before.slices, part, 0) {
        Some(s) => if s.kind == child.kind && movable(before.spans, s, child.start as int) {
            Some(
                Seq::new(
                    (s.to - s.from) as nat,
                    |k: int| moved(before.spans[s.from + k], child.start - s.start),
                ),
            )
        } else {
            None
        },
        None => None,
    }
}

/// A reading with the spans of one more part.
pub open spec fn with_spans(so_far: Reading, part: Seq<u8>, child: RootChild, spans: Seq<Span>) -> Reading {
    Reading {
        spans: so_far.spans + spans,
        slices: if slice_of(so_far.slices, part, 0) is Some {
            so_far.slices
        } else {
            so_far.slices.push(
                Slice {
                    text: part,
                    kind: child.kind,
                    start: child.start as int,
                    from: so_far.spans.len() as int,
                    to: (so_far.spans.len() + spans.len()) as int,
                },
            )
        },
    }
}

/// A reading with one more part: the spans that an equal part had before, or else
/// new ones.
pub open spec fn with_part(
    so_far: Reading,
    before: Reading,
    part: Seq<u8>,
    child: RootChild,
    new: Seq<Span>,
) -> Reading {
    match kept_spans(before, part, child) {
        Some(kept) => with_spans(so_far, part, child, kept),
        None => with_spans(so_far, part, child, new),
    }
}

/// The reading of the first parts of a file, where `new` gives the spans of each
/// part that is read anew.
pub open spec fn parts_read(
    before: Reading,
    bytes: Seq<u8>,
    children: Seq<RootChild>,
    new: spec_fn(int) -> Seq<Span>,
    n: nat,
) -> Reading
    decreases n,
{
    if n == 0 {
        nothing_read()
    } else {
        let child = children[n - 1];
        with_part(
            parts_read(before, bytes, children, new, (n - 1) as nat),
            before,
            bytes.subrange(child.start as int, child.end as int),
            child,
            new(n - 1),
        )
    }
}

/// The reading of a file whose tree is this. A tree with an error is read as a
/// whole, and so is one with a part that is not a part of the source.
pub open spec fn tree_read(rust: bool, tree: Tree, before: Reading, source: Seq<char>) -> Reading {
    if grammar::tree_broken(tree) || !highlight::children_within(
        grammar::tree_children(tree),
        source,
    ) {
        Reading {
            spans: highlight::tree_spans(rust, tree, None, source),
            slices: Seq::empty(),
        }
    } else {
        parts_read(
            before,
            encode_utf8(source),
            grammar::tree_children(tree),
            |i: int| highlight::tree_spans(rust, tree, Some(i), source),
            grammar::tree_children(tree).len(),
        )
    }
}

/// Whether a part has to be read anew and its query has too many matches.
pub open spec fn part_fails(rust: bool, tree: Tree, before: Reading, source: Seq<char>, i: int) -> bool {
    let child = grammar::tree_children(tree)[i];
    let part = encode_utf8(source).subrange(child.start as int, child.end as int);
    kept_spans(before, part, child) is None && highlight::too_much(rust, tree, Some(i), source)
}

/// Whether reading a file whose tree is this fails however much time there is:
/// the query of the whole tree, or that of a part, has too many matches.
pub open spec fn read_fails(rust: bool, tree: Tree, before: Reading, source: Seq<char>) -> bool {
    if grammar::tree_broken(tree) || !highlight::children_within(
        grammar::tree_children(tree),
        source,
    ) {
        highlight::too_much(rust, tree, None, source)
    } else {
        exists|i: int|
            0 <= i < grammar::tree_children(tree).len() && #[trigger] part_fails(
                rust,
                tree,
                before,
                source,
                i,
            )
    }
}

fn find_slice(slices: &Vec<CaptureSlice>, part: &[u8]) -> (r: Option<usize>)
    ensures
        match slice_of(slices_view(slices@), part@, 0) {
            Some(s) => r is Some && r->0 < slices@.len() && slices@[r->0 as int].view() == s,
            None => r is None,
        },
{
    let ghost all = slices_view(slices@);
    let mut i: usize = 0;
    while i < slices.len()
        invariant
            i <= slices@.len(),
            all == slices_view(slices@),
            slice_of(all, part@, 0) == slice_of(all, part@, i as nat),
        decreases slices@.len() - i,
    {
        assert(all[i as int] == slices@[i as int].view());
        if text::bytes_eq(slices[i].text.as_slice(), part) {
            return Some(i);
        }
        i += 1;
    }
    None
}

fn may_move(spans: &Vec<HighlightSpan>, slice: &CaptureSlice, to: usize) -> (r: bool)
    ensures
        r == movable(highlight::spans_view(spans@), slice.view(), to as int),
{
    if slice.from > slice.to || slice.to > spans.len() {
        return false;
    }
    let ghost all = highlight::spans_view(spans@);
    let mut k: usize = slice.from;
    while k < slice.to
        invariant
            slice.from <= k <= slice.to <= spans@.len(),
            all == highlight::spans_view(spans@),
            forall|j: int|
                slice.from <= j < k ==> can_move(#[trigger] all[j], slice.start_byte as int, to as int),
        decreases slice.to - k,
    {
        let s = &spans[k];
        assert(all[k as int] == s.view());
        if s.byte_range.start < slice.start_byte || s.byte_range.end < slice.start_byte
            || s.byte_range.start - slice.start_byte > usize::MAX - to || s.byte_range.end
            - slice.start_byte > usize::MAX - to {
            assert(!can_move(all[k as int], slice.start_byte as int, to as int));
            return false;
        }
        k += 1;
    }
    true
}

fn move_spans(
    out: &mut Vec<HighlightSpan>,
    spans: &Vec<HighlightSpan>,
    slice: &CaptureSlice,
    to: usize,
)
    requires
        movable(highlight::spans_view(spans@), slice.view(), to as int),
    ensures
        highlight::spans_view(final(out)@) == highlight::spans_view(old(out)@) + Seq::new(
            (slice.to - slice.from) as nat,
            |k: int| moved(
                highlight::spans_view(spans@)[slice.from + k],
                to - slice.start_byte,
            ),
        ),
{
    let ghost all = highlight::spans_view(spans@);
    let ghost start = highlight::spans_view(out@);
    let ghost whole = Seq::new(
        (slice.to - slice.from) as nat,
        |k: int| moved(all[slice.from + k], to - slice.start_byte),
    );
    let mut k: usize = slice.from;
    assert(start + whole.take(0) =~= start);
    while k < slice.to
        invariant
            slice.from <= k <= slice.to <= spans@.len(),
            all == highlight::spans_view(spans@),
            movable(all, slice.view(), to as int),
            whole == Seq::new(
                (slice.to - slice.from) as nat,
                |k: int| moved(all[slice.from + k], to - slice.start_byte),
            ),
            highlight::spans_view(out@) == start + whole.take(k - slice.from),
        decreases slice.to - k,
    {
        let s = &spans[k];
        assert(all[k as int] == s.view());
        let span = HighlightSpan {
            byte_range: (s.byte_range.start - slice.start_byte + to)..(s.byte_range.end
                - slice.start_byte + to),
            kind: s.kind,
        };
        let ghost before = out@;
        out.push(span);
        proof {
            assert(highlight::spans_view(out@) =~= highlight::spans_view(before).push(span.view()));
            assert(whole[k - slice.from] == span.view());
            assert(whole.take(k + 1 - slice.from) =~= whole.take(k - slice.from).push(span.view()));
            assert(highlight::spans_view(out@) =~= start + whole.take(k + 1 - slice.from));
        }
        k += 1;
    }
    assert(whole.take(whole.len() as int) =~= whole);
}

fn append_spans(out: &mut Vec<HighlightSpan>, more: Vec<HighlightSpan>)
    ensures
        highlight::spans_view(final(out)@) == highlight::spans_view(old(out)@)
            + highlight::spans_view(more@),
{
    let ghost before = out@;
    let mut more = more;
    let ghost given = more@;
    out.append(&mut more);
    assert(out@ =~= before + given);
    assert(highlight::spans_view(out@) =~= highlight::spans_view(before) + highlight::spans_view(
        given,
    ));
}

/// What is kept of a reading: its spans and its slices.
pub struct Read {
    pub spans: Vec<HighlightSpan>,
    pub slices: Vec<CaptureSlice>,
}

impl Read {
    pub open spec fn view(&self) -> Reading {
        Reading {
            spans: highlight::spans_view(self.spans@),
            slices: slices_view(self.slices@),
        }
    }

    pub fn empty() -> (r: Read)
        ensures
            r.view() == nothing_read(),
    {
        let r = Read { spans: Vec::new(), slices: Vec::new() };
        assert(r.view().spans =~= nothing_read().spans);
        assert(r.view().slices =~= nothing_read().slices);
        r
    }

    /// The spans that an equal part had, moved to where the part is now.
    pub fn spans_of(&self, part: &[u8], child: &RootChild) -> (r: Option<Vec<HighlightSpan>>)
        ensures
            match kept_spans(self.view(), part@, *child) {
                Some(kept) => r is Some && highlight::spans_view(r->0@) == kept,
                None => r is None,
            },
    {
        match find_slice(&self.slices, part) {
            Some(k) => {
                let slice = &self.slices[k];
                if slice.kind == child.kind && may_move(&self.spans, slice, child.start) {
                    let mut spans: Vec<HighlightSpan> = Vec::new();
                    assert(highlight::spans_view(spans@) =~= Seq::<Span>::empty());
                    move_spans(&mut spans, &self.spans, slice, child.start);
                    assert(highlight::spans_view(spans@) =~= kept_spans(self.view(), part@, *child)->0);
                    Some(spans)
                } else {
                    None
                }
            },
            None => None,
        }
    }

    /// Takes in the spans of one more part.
    pub fn add_part(&mut self, part: Vec<u8>, child: &RootChild, spans: Vec<HighlightSpan>)
        ensures
            final(self).view() == with_spans(
                old(self).view(),
                part@,
                *child,
                highlight::spans_view(spans@),
            ),
    {
        let from: usize = self.spans.len();
        let ghost added = highlight::spans_view(spans@);
        append_spans(&mut self.spans, spans);
        let to: usize = self.spans.len();
        assert(highlight::spans_view(self.spans@).len() == to);
        assert(to == from + added.len());
        if find_slice(&self.slices, part.as_slice()).is_none() {
            let ghost before = self.slices@;
            let slice = CaptureSlice {
                text: part,
                kind: child.kind,
                start_byte: child.start,
                from,
                to,
            };
            self.slices.push(slice);
            assert(slices_view(self.slices@) =~= slices_view(before).push(slice.view()));
        }
    }
}

fn read_part(
    h: &LanguageHighlighter,
    source: &str,
    tree: &Tree,
    before: &Read,
    child: &RootChild,
    i: u32,
    deadline: Option<Deadline>,
    out: &mut Read,
) -> (r: Result<(), HighlightError>)
    requires
        i < grammar::tree_children(*tree).len(),
        *child == grammar::tree_children(*tree)[i as int],
        child.start <= child.end <= text::byte_len(source@),
        grammar::read_from(*tree, grammar::query_source(h.query).0, source@),
    ensures
        kept_spans(
            before.view(),
            encode_utf8(source@).subrange(child.start as int, child.end as int),
            *child,
        ) is Some ==> r is Ok,
        forall|rust: bool| #[trigger]
            h.reads(rust) && part_fails(rust, *tree, before.view(), source@, i as int) ==> r is Err,
        r is Err ==> clock::time_up(deadline) || forall|rust: bool| #[trigger]
            h.reads(rust) ==> part_fails(rust, *tree, before.view(), source@, i as int),
        r is Ok ==> forall|rust: bool| #[trigger]
            h.reads(rust) ==> final(out).view() == with_part(
                old(out).view(),
                before.view(),
                encode_utf8(source@).subrange(child.start as int, child.end as int),
                *child,
                highlight::tree_spans(rust, *tree, Some(i as int), source@),
            ),
        r matches Err(e) ==> e.message@ == "syntax query budget exhausted"@,
{
    let bytes = source.as_bytes();
    proof {
        text::lemma_byte_len_encode(source@);
    }
    let part = text::copy_bytes(bytes, child.start, child.end);
    assert(part@ =~= encode_utf8(source@).subrange(child.start as int, child.end as int));
    let spans = match before.spans_of(part.as_slice(), child) {
        Some(kept) => kept,
        None => h.spans(source, tree, Some(i), deadline)?,
    };
    out.add_part(part, child, spans);
    Ok(())
}

/// Reads a file whose tree is this. Without a deadline only a query with too many
/// matches fails. With one it also fails where the time is up when a query ends
/// or before a part is read, so a sound tree without parts is always read.
fn read_tree(
    h: &LanguageHighlighter,
    source: &str,
    tree: &Tree,
    before: &Read,
    deadline: Option<Deadline>,
) -> (r: Result<Read, HighlightError>)
    requires
        grammar::read_from(*tree, grammar::query_source(h.query).0, source@),
    ensures
        !grammar::tree_broken(*tree) && grammar::tree_children(*tree).len() == 0 ==> r is Ok,
        forall|rust: bool| #[trigger]
            h.reads(rust) && read_fails(rust, *tree, before.view(), source@) ==> r is Err,
        r is Err ==> clock::time_up(deadline) || forall|rust: bool| #[trigger]
            h.reads(rust) ==> read_fails(rust, *tree, before.view(), source@),
        r matches Err(e) ==> e.message@ == "syntax query budget exhausted"@ || (deadline is Some
            && e.message@ == "syntax budget exhausted"@),
        r matches Ok(read) ==> forall|rust: bool| #[trigger]
            h.reads(rust) ==> read.view() == tree_read(rust, *tree, before.view(), source@),
{
    let children = grammar::root_children(tree);
    if grammar::is_broken(tree) || !highlight::are_within(&children, source) {
        let spans = h.spans(source, tree, None, deadline)?;
        let read = Read { spans, slices: Vec::new() };
        assert(read.view().slices =~= Seq::<Slice>::empty());
        return Ok(read);
    }
    let ghost bytes = encode_utf8(source@);
    let mut out = Read::empty();
    let mut i: usize = 0;
    while i < children.len()
        invariant
            i <= children@.len() <= u32::MAX,
            children@ == grammar::tree_children(*tree),
            bytes == encode_utf8(source@),
            grammar::read_from(*tree, grammar::query_source(h.query).0, source@),
            highlight::children_within(children@, source@),
            !grammar::tree_broken(*tree),
            forall|rust: bool, k: int| #![trigger h.reads(rust), children@[k]]
                h.reads(rust) && 0 <= k < i ==> !part_fails(rust, *tree, before.view(), source@, k),
            forall|rust: bool| #[trigger]
                h.reads(rust) ==> out.view() == parts_read(
                    before.view(),
                    bytes,
                    children@,
                    |i: int| highlight::tree_spans(rust, *tree, Some(i), source@),
                    i as nat,
                ),
        decreases children@.len() - i,
    {
        match clock::budget_progress(deadline) {
            std::ops::ControlFlow::Break(()) => {
                return Err(HighlightError { message: "syntax budget exhausted".to_owned() });
            },
            std::ops::ControlFlow::Continue(()) => {},
        }
        read_part(h, source, tree, before, &children[i], i as u32, deadline, &mut out)?;
        i += 1;
    }
    Ok(out)
}

// The state.

/// The syntax of one open file.
pub struct SyntaxState {
    pub document_id: String,
    pub version: u64,
    pub source: String,
    pub language: LanguageKind,
    pub highlighter: Option<LanguageHighlighter>,
    pub tree: Option<Tree>,
    pub read: Read,
}

/// What is said where a file could not be read.
pub open spec fn refused(message: Seq<char>, ready: bool) -> bool {
    ||| message == "Tree-sitter parsing failed or was cancelled"@
    ||| ready && message == "syntax parse budget exhausted"@
    ||| ready && message == "syntax budget exhausted"@
    ||| ready && message == "syntax query budget exhausted"@
}

/// What an update leaves alone.
pub open spec fn same_file(a: SyntaxState, b: SyntaxState) -> bool {
    &&& a.document_id@ == b.document_id@
    &&& a.version == b.version
    &&& a.source@ == b.source@
    &&& a.language == b.language
    &&& a.highlighter is Some == b.highlighter is Some
}

impl SyntaxState {
    /// Whether the highlighter, if there is one, is for the language, and the file
    /// small enough to be parsed.
    pub open spec fn sound(&self) -> bool {
        &&& text::byte_len(self.source@) <= u32::MAX
        &&& self.highlighter matches Some(h) ==> self.language != LanguageKind::Plain && h.reads(
            self.language == LanguageKind::Rust,
        )
        &&& self.tree is Some ==> self.highlighter is Some
    }

    /// Whether, moreover, the tree is that of the source.
    pub open spec fn wf(&self) -> bool {
        &&& self.sound()
        &&& self.tree matches Some(tree) ==> grammar::read_from(
            tree,
            grammar::grammar_of(self.language == LanguageKind::Rust),
            self.source@,
        )
    }

    /// Whether the parser, if there is a highlighter, has its language.
    pub open spec fn is_ready(&self) -> bool {
        self.highlighter matches Some(h) ==> h.is_ready()
    }

    /// Whether nothing is shown of a file.
    pub open spec fn is_bare(&self) -> bool {
        self.tree is None && self.read.view() == nothing_read()
    }

    /// Whether this is what reading a file that was in a state gives: the tree of
    /// its source and what is found in it.
    pub open spec fn reads_on(&self, before: SyntaxState) -> bool {
        if self.highlighter is None {
            self.is_bare()
        } else {
            let rust = self.language == LanguageKind::Rust;
            let tree = grammar::tree_of(grammar::grammar_of(rust), before.tree, before.source@);
            &&& self.tree == Some(tree)
            &&& self.read.view() == tree_read(rust, tree, before.read.view(), before.source@)
        }
    }

    /// Whether reading the file fails however much time there is.
    pub open spec fn fails(&self) -> bool {
        let rust = self.language == LanguageKind::Rust;
        let tree = grammar::tree_of(grammar::grammar_of(rust), self.tree, self.source@);
        self.highlighter is Some && read_fails(rust, tree, self.read.view(), self.source@)
    }

    /// The spans that are shown.
    pub fn spans(&self) -> (r: &Vec<HighlightSpan>)
        ensures
            highlight::spans_view(r@) == self.read.view().spans,
    {
        &self.read.spans
    }

    fn refresh_until(&mut self, deadline: Option<Deadline>) -> (r: Result<(), HighlightError>)
        requires
            old(self).sound(),
            old(self).tree matches Some(tree) ==> edits::keeps_up(
                tree,
                grammar::grammar_of(old(self).language == LanguageKind::Rust),
                old(self).source@,
            ),
        ensures
            final(self).wf(),
            same_file(*final(self), *old(self)),
            final(self).is_ready() == old(self).is_ready(),
            r is Ok ==> final(self).reads_on(*old(self)),
            r is Ok && old(self).highlighter is Some ==> clock::in_time(deadline),
            r is Err ==> final(self).is_bare(),
            old(self).highlighter is None ==> r is Ok,
            !old(self).is_ready() || old(self).fails() ==> r is Err,
            r is Err ==> !old(self).is_ready() || old(self).fails() || clock::time_up(deadline),
            r matches Err(e) ==> refused(e.message@, old(self).is_ready()),
    {
        let mut previous = Read::empty();
        std::mem::swap(&mut previous, &mut self.read);
        let earlier = self.tree.take();
        let ghost rust = self.language == LanguageKind::Rust;
        let parsed = match &mut self.highlighter {
            Some(h) => {
                assert(h.reads(rust));
                let tree = h.parse(self.source.as_str(), earlier.as_ref(), deadline);
                assert(h.reads(rust));
                tree
            },
            None => {
                return Ok(());
            },
        };
        let tree = parsed?;
        match clock::budget_progress(deadline) {
            std::ops::ControlFlow::Break(()) => {
                return Err(HighlightError { message: "syntax parse budget exhausted".to_owned() });
            },
            std::ops::ControlFlow::Continue(()) => {},
        }
        match &self.highlighter {
            Some(h) => {
                assert(h.reads(rust));
                self.read = read_tree(h, self.source.as_str(), &tree, &previous, deadline)?;
            },
            None => {},
        }
        self.tree = Some(tree);
        Ok(())
    }

    /// Reads the file again within a time. Where that fails nothing is shown. It
    /// fails where the parser has no language, and else only where the time is up or
    /// a query has too many matches. Without any time it fails.
    pub fn refresh_with_budget(&mut self, milliseconds: u32) -> (r: Result<(), HighlightError>)
        requires
            old(self).wf(),
        ensures
            final(self).wf(),
            same_file(*final(self), *old(self)),
            final(self).is_ready() == old(self).is_ready(),
            r is Ok ==> final(self).reads_on(*old(self)),
            r is Ok && old(self).highlighter is Some ==> clock::kept_to(milliseconds),
            milliseconds == 0 && old(self).highlighter is Some ==> r is Err,
            r is Err ==> final(self).is_bare(),
            old(self).highlighter is None ==> r is Ok,
            !old(self).is_ready() || old(self).fails() ==> r is Err,
            r is Err ==> !old(self).is_ready() || old(self).fails() || clock::ran_out(
                milliseconds,
            ),
            r matches Err(e) ==> refused(e.message@, old(self).is_ready()),
    {
        let deadline = Deadline::after(milliseconds);
        proof {
            if self.tree is Some {
                edits::lemma_read_keeps_up(
                    self.tree->0,
                    grammar::grammar_of(self.language == LanguageKind::Rust),
                    self.source@,
                );
            }
        }
        self.refresh_until(Some(deadline))
    }

    /// Whether a file was just opened: the language goes by its path, and either it
    /// was read or nothing is shown.
    pub open spec fn opened(&self, path: Seq<char>, source: Seq<char>, version: u64) -> bool {
        &&& self.wf()
        &&& self.is_ready()
        &&& self.source@ == source
        &&& self.version == version
        &&& self.language == highlight::language_of(path)
        &&& self.highlighter is Some <==> highlight::highlighter_fault(self.language) is None
        &&& if self.highlighter is None {
            self.is_bare()
        } else {
            let rust = self.language == LanguageKind::Rust;
            let tree = highlight::fresh_tree(rust, source);
            let fails = read_fails(rust, tree, nothing_read(), source);
            ||| self.is_bare() && (fails || clock::ran_out(OPEN_SYNTAX_BUDGET))
            ||| !fails && clock::kept_to(OPEN_SYNTAX_BUDGET) && self.tree == Some(tree)
                && self.read.view() == tree_read(rust, tree, nothing_read(), source)
        }
    }

    pub fn new(document_id: &str, path: &str, source: &str) -> (r: SyntaxState)
        requires
            text::byte_len(source@) <= u32::MAX,
        ensures
            r.document_id@ == document_id@,
            r.opened(path@, source@, 0),
    {
        SyntaxState::from_recovered(document_id, path, source, 0)
    }

    pub fn from_recovered(document_id: &str, path: &str, source: &str, version: u64) -> (r:
        SyntaxState)
        requires
            text::byte_len(source@) <= u32::MAX,
        ensures
            r.document_id@ == document_id@,
            r.opened(path@, source@, version),
    {
        let language = LanguageKind::for_path(path);
        let mut state = SyntaxState {
            document_id: document_id.to_owned(),
            version,
            source: source.to_owned(),
            language,
            highlighter: LanguageHighlighter::new(language).ok(),
            tree: None,
            read: Read::empty(),
        };
        let _ = state.refresh_with_budget(OPEN_SYNTAX_BUDGET);
        state
    }

    /// The file has another path. Where it has another language with it, it is read
    /// again.
    pub fn rename(&mut self, path: &str)
        requires
            old(self).wf(),
        ensures
            final(self).document_id@ == old(self).document_id@,
            highlight::language_of(path@) == old(self).language ==> *final(self) == *old(self),
            highlight::language_of(path@) != old(self).language ==> final(self).opened(
                path@,
                old(self).source@,
                old(self).version,
            ),
    {
        let language = LanguageKind::for_path(path);
        if language != self.language {
            self.language = language;
            self.highlighter = LanguageHighlighter::new(language).ok();
            self.tree = None;
            self.read = Read::empty();
            let _ = self.refresh_with_budget(OPEN_SYNTAX_BUDGET);
        }
    }

    /// Takes in edits that were made. Those of another file or version are refused,
    /// and then nothing is shown. Else the source is the edited one, whether or not
    /// it could be read.
    pub fn apply(&mut self, transaction: &EditorTransaction) -> (r: Result<(), HighlightError>)
        requires
            old(self).wf(),
            transaction.document_id@ == old(self).document_id@ && transaction.version_before
                == old(self).version ==> edits::edits_fit(old(self).source@, transaction.edits@),
        ensures
            final(self).wf(),
            final(self).document_id@ == old(self).document_id@,
            final(self).language == old(self).language,
            final(self).highlighter is Some == old(self).highlighter is Some,
            final(self).is_ready() == old(self).is_ready(),
            r is Err ==> final(self).is_bare(),
            if transaction.document_id@ != old(self).document_id@ || transaction.version_before
                != old(self).version {
                &&& r is Err
                &&& r->Err_0.message@ == "syntax document/version mismatch"@
                &&& final(self).source@ == old(self).source@
                &&& final(self).version == old(self).version
            } else {
                &&& final(self).source@ == edits::edited(old(self).source@, transaction.edits@)
                &&& final(self).version == transaction.version_after
                &&& old(self).highlighter is None ==> r is Ok
                &&& !old(self).is_ready() ==> r is Err
                &&& r matches Err(e) ==> refused(e.message@, old(self).is_ready())
                &&& old(self).highlighter is Some ==> ({
                    let rust = old(self).language == LanguageKind::Rust;
                    let tree = grammar::tree_of(
                        grammar::grammar_of(rust),
                        edits::opt_tree_after(old(self).tree, old(self).source@, transaction.edits@),
                        final(self).source@,
                    );
                    let before = old(self).read.view();
                    let fails = read_fails(rust, tree, before, final(self).source@);
                    &&& fails ==> r is Err
                    &&& r is Err ==> !old(self).is_ready() || fails || clock::ran_out(
                        EDIT_SYNTAX_BUDGET,
                    )
                    &&& r is Ok ==> clock::kept_to(EDIT_SYNTAX_BUDGET) && final(self).tree == Some(
                        tree,
                    ) && final(self).read.view() == tree_read(
                        rust,
                        tree,
                        before,
                        final(self).source@,
                    )
                })
            },
    {
        if !text::str_eq(transaction.document_id.as_str(), self.document_id.as_str())
            || transaction.version_before != self.version {
            self.tree = None;
            self.read = Read::empty();
            return Err(
                HighlightError { message: "syntax document/version mismatch".to_owned() },
            );
        }
        let ghost all = transaction.edits@;
        let ghost first = *self;
        let mut k: usize = transaction.edits.len();
        assert(all.take(k as int) =~= all);
        while k > 0
            invariant
                k <= all.len(),
                all == transaction.edits@,
                self.sound(),
                edits::edits_fit(self.source@, all.take(k as int)),
                edits::edited(self.source@, all.take(k as int)) == edits::edited(
                    first.source@,
                    all,
                ),
                edits::opt_tree_after(self.tree, self.source@, all.take(k as int))
                    == edits::opt_tree_after(
                    first.tree,
                    first.source@,
                    all,
                ),
                self.document_id == first.document_id,
                self.version == first.version,
                self.language == first.language,
                self.highlighter == first.highlighter,
                self.read == first.read,
            decreases k,
        {
            proof {
                assert(all.take(k as int).drop_last() =~= all.take(k - 1));
                assert(all.take(k as int).last() == all[k - 1]);
            }
            let edit = &transaction.edits[k - 1];
            let (source, told) = edits::make_edit(self.source.as_str(), edit);
            match self.tree.take() {
                Some(tree) => {
                    let mut tree = tree;
                    grammar::edit_tree(&mut tree, &told);
                    self.tree = Some(tree);
                },
                None => {},
            }
            self.source = source;
            k -= 1;
        }
        assert(all.take(0).len() == 0);
        self.version = transaction.version_after;
        let deadline = Deadline::after(EDIT_SYNTAX_BUDGET);
        self.refresh_until(Some(deadline))
    }
}

} // verus!
