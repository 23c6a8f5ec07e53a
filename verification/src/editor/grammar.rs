//! Grammars: parsing a source and querying the tree.
//!
//! The parser and its trees belong to `tree_sitter`. What they hold is spoken of
//! by names; the functions here only make the calls.

use super::clock::{budget_progress, Deadline};
use super::{clock, edits};
use crate::text;
use std::time::Instant;
use tree_sitter::{
    InputEdit, Language, ParseOptions, ParseState, Parser, Point, Query, QueryCursor,
    QueryCursorOptions, QueryCursorState, StreamingIterator, Tree,
};
use vstd::prelude::*;

verus! {

#[verifier::external_type_specification]
#[verifier::external_body]
pub struct ExLanguage(tree_sitter::Language);

#[verifier::external_type_specification]
#[verifier::external_body]
pub struct ExParser(tree_sitter::Parser);

#[verifier::external_type_specification]
#[verifier::external_body]
pub struct ExQuery(tree_sitter::Query);

#[verifier::external_type_specification]
#[verifier::external_body]
pub struct ExTree(tree_sitter::Tree);

/// What a query found: a range of bytes and the name of the capture.
#[derive(Debug, PartialEq, Eq)]
pub struct Capture {
    pub range: std::ops::Range<usize>,
    pub name: String,
}

pub struct Captured {
    pub start: int,
    pub end: int,
    pub name: Seq<char>,
}

impl Capture {
    pub open spec fn view(&self) -> Captured {
        Captured { start: self.range.start as int, end: self.range.end as int, name: self.name@ }
    }
}

pub open spec fn captures_view(v: Seq<Capture>) -> Seq<Captured> {
    Seq::new(v.len(), |i: int| v[i].view())
}

/// A child of the root of a tree.
#[derive(Clone, Copy, Debug, PartialEq, Eq, Structural)]
pub struct RootChild {
    pub start: usize,
    pub end: usize,
    pub kind: u16,
}

/// A place in a source: a line and a byte of it.
#[derive(Clone, Copy, Debug, PartialEq, Eq, Structural)]
pub struct Place {
    pub row: usize,
    pub column: usize,
}

/// A change of a source, by bytes and by places.
#[derive(Clone, Copy, Debug, PartialEq, Eq, Structural)]
pub struct SourceEdit {
    pub start_byte: usize,
    pub old_end_byte: usize,
    pub new_end_byte: usize,
    pub start: Place,
    pub old_end: Place,
    pub new_end: Place,
}

/// The grammar of Rust, or else that of TOML.
pub uninterp spec fn grammar_of(rust: bool) -> Language;

/// The query that goes with a grammar.
pub uninterp spec fn grammar_query(rust: bool) -> Seq<char>;

/// The language that a parser was given.
pub uninterp spec fn parser_language(parser: Parser) -> Option<Language>;

/// Whether a parser was given nothing but a language: it reads the whole of a
/// source, and it has no logger.
pub uninterp spec fn parser_plain(parser: Parser) -> bool;

/// Why no parser can have a language, if so.
pub uninterp spec fn language_fault(language: Language) -> Option<Seq<char>>;

/// What is wrong with the text of a query on a language, if anything is.
pub uninterp spec fn query_fault(language: Language, source: Seq<char>) -> Option<Seq<char>>;

/// The language and the text of a query.
pub uninterp spec fn query_source(query: Query) -> (Language, Seq<char>);

/// The tree of a source, read with the help of the tree of an earlier one.
pub uninterp spec fn tree_of(language: Language, earlier: Option<Tree>, source: Seq<char>) -> Tree;

/// A tree after a change of its source.
pub uninterp spec fn tree_edited(tree: Tree, edit: SourceEdit) -> Tree;

/// Whether a tree holds an error.
pub uninterp spec fn tree_broken(tree: Tree) -> bool;

/// The children of the root of a tree.
pub uninterp spec fn tree_children(tree: Tree) -> Seq<RootChild>;

/// What a query finds in a tree, or in one child of its root.
pub uninterp spec fn tree_captures(
    query: (Language, Seq<char>),
    tree: Tree,
    child: Option<int>,
    source: Seq<char>,
) -> Seq<Captured>;

/// Whether a query has too many matches in progress at once.
pub uninterp spec fn beyond_limit(
    query: (Language, Seq<char>),
    tree: Tree,
    child: Option<int>,
    source: Seq<char>,
) -> bool;

/// Whether a tree was read from a source, with or without the help of another
/// tree, and not edited since.
pub open spec fn read_from(tree: Tree, language: Language, source: Seq<char>) -> bool {
    exists|earlier: Option<Tree>| tree == #[trigger] tree_of(language, earlier, source)
}

/// Whether the ends of a change are in order and can be counted in 32 bits.
pub open spec fn in_order(edit: SourceEdit) -> bool {
    &&& edit.start_byte <= edit.old_end_byte <= u32::MAX
    &&& edit.start_byte <= edit.new_end_byte <= u32::MAX
    &&& small(edit.start)
    &&& small(edit.old_end)
    &&& small(edit.new_end)
}

pub open spec fn small(place: Place) -> bool {
    place.row <= u32::MAX && place.column <= u32::MAX
}

pub open spec fn opt_tree(tree: Option<&Tree>) -> Option<Tree> {
    match tree {
        Some(t) => Some(*t),
        None => None,
    }
}

pub open spec fn opt_int(n: Option<u32>) -> Option<int> {
    match n {
        Some(k) => Some(k as int),
        None => None,
    }
}

/// The grammar `tree_sitter_rust::LANGUAGE`.
#[verifier::external_body]
pub(crate) fn rust_grammar() -> (r: Language)
    ensures
        r == grammar_of(true),
{
    tree_sitter_rust::LANGUAGE.into()
}

/// The grammar `tree_sitter_toml_ng::LANGUAGE`.
#[verifier::external_body]
pub(crate) fn toml_grammar() -> (r: Language)
    ensures
        r == grammar_of(false),
{
    tree_sitter_toml_ng::LANGUAGE.into()
}

/// The query `tree_sitter_rust::HIGHLIGHTS_QUERY`.
#[verifier::external_body]
pub(crate) fn rust_query() -> (r: &'static str)
    ensures
        r@ == grammar_query(true),
{
    tree_sitter_rust::HIGHLIGHTS_QUERY
}

/// The query `tree_sitter_toml_ng::HIGHLIGHTS_QUERY`.
#[verifier::external_body]
pub(crate) fn toml_query() -> (r: &'static str)
    ensures
        r@ == grammar_query(false),
{
    tree_sitter_toml_ng::HIGHLIGHTS_QUERY
}

/// `Parser::new` with `Parser::set_language`: a parser that has its language, or
/// why the language cannot be used. Whether it can goes by the language.
#[verifier::external_body]
pub(crate) fn new_parser(language: &Language) -> (r: Result<Parser, String>)
    ensures
        match r {
            Ok(parser) => language_fault(*language) is None && parser_language(parser) == Some(
                *language,
            ) && parser_plain(parser),
            Err(why) => language_fault(*language) == Some(why@),
        },
{
    let mut parser = Parser::new();
    parser.set_language(language).map_err(|error| error.to_string())?;
    Ok(parser)
}

/// `Query::new`: a query on a language, or what is wrong with its text. Whether
/// something is goes by the language and the text.
#[verifier::external_body]
pub(crate) fn new_query(language: &Language, source: &str) -> (r: Result<Query, String>)
    ensures
        match r {
            Ok(query) => query_fault(*language, source@) is None && query_source(query) == (
                *language,
                source@,
            ),
            Err(why) => query_fault(*language, source@) == Some(why@),
        },
{
    Query::new(language, source).map_err(|error| error.to_string())
}

/// Whether captures lie in a source.
pub open spec fn captures_within(captures: Seq<Captured>, source: Seq<char>) -> bool {
    forall|i: int|
        0 <= i < captures.len() ==> (#[trigger] captures[i]).start <= captures[i].end
            <= text::byte_len(source)
}

/// `Parser::parse_with_options`, from the start of the source (`Parser::reset`):
/// the tree of the source. A parser without a language gives none; one that has a
/// language gives none only where it was stopped, since its time was up. An earlier
/// tree has to be one of that language, edited so as to match the source: else the
/// parser would ask for bytes that are not there.
#[verifier::external_body]
pub(crate) fn parse(
    parser: &mut Parser,
    source: &str,
    earlier: Option<&Tree>,
    deadline: Option<Deadline>,
) -> (r: Option<Tree>)
    requires
        text::byte_len(source@) <= u32::MAX,
        parser_plain(*old(parser)),
        earlier is Some && parser_language(*old(parser)) is Some ==> edits::keeps_up(
            *earlier->0,
            parser_language(*old(parser))->0,
            source@,
        ),
    ensures
        parser_plain(*final(parser)),
        parser_language(*final(parser)) == parser_language(*old(parser)),
        match parser_language(*old(parser)) {
            Some(language) => {
                &&& r is None ==> clock::time_up(deadline)
                &&& r matches Some(tree) ==> tree == tree_of(language, opt_tree(earlier), source@)
            },
            None => r is None,
        },
{
    parser.reset();
    let mut progress = |_: &ParseState| budget_progress(deadline);
    parser.parse_with_options(
        &mut |byte, _| &source.as_bytes()[byte..],
        earlier,
        Some(ParseOptions::new().progress_callback(&mut progress)),
    )
}

/// `Tree::edit`. The parser counts bytes, lines and columns in 32 bits.
#[verifier::external_body]
pub(crate) fn edit_tree(tree: &mut Tree, edit: &SourceEdit)
    requires
        in_order(*edit),
    ensures
        *final(tree) == tree_edited(*old(tree), *edit),
{
    tree.edit(
        &InputEdit {
            start_byte: edit.start_byte,
            old_end_byte: edit.old_end_byte,
            new_end_byte: edit.new_end_byte,
            start_position: Point::new(edit.start.row, edit.start.column),
            old_end_position: Point::new(edit.old_end.row, edit.old_end.column),
            new_end_position: Point::new(edit.new_end.row, edit.new_end.column),
        },
    );
}

/// `Node::has_error` of the root.
#[verifier::external_body]
pub(crate) fn is_broken(tree: &Tree) -> (r: bool)
    ensures
        r == tree_broken(*tree),
{
    tree.root_node().has_error()
}

/// `Node::children` of the root: the range and the kind of each. A node counts
/// its children in 32 bits.
#[verifier::external_body]
pub(crate) fn root_children(tree: &Tree) -> (r: Vec<RootChild>)
    ensures
        r@ == tree_children(*tree),
        r@.len() <= u32::MAX,
{
    let mut cursor = tree.walk();
    tree.root_node().children(&mut cursor).map(
        |node| RootChild { start: node.start_byte(), end: node.end_byte(), kind: node.kind_id() },
    ).collect()
}

/// `QueryCursor::captures_with_options` on the root or on one of its children,
/// with `QueryCursor::did_exceed_match_limit`, and the moment at which the query
/// was over (`Instant::now`). The clock does not go back: that moment is not before
/// the one at which the deadline was set, and where it is before the deadline the
/// captures are all of them, since the query was not stopped. The tree has to be the
/// one that was read from the source, in the query's language: the query compares
/// texts, which it takes from the source by the ranges of the nodes. A node is a
/// range of the source.
#[verifier::external_body]
pub(crate) fn captures(
    query: &Query,
    tree: &Tree,
    child: Option<u32>,
    source: &str,
    deadline: Option<Deadline>,
) -> (r: (Vec<Capture>, bool, Instant))
    requires
        child matches Some(i) ==> i < tree_children(*tree).len(),
        read_from(*tree, query_source(*query).0, source@),
    ensures
        deadline matches Some(d) ==> d.covers(r.2),
        captures_within(captures_view(r.0@), source@),
        !clock::passed(r.2, deadline) ==> captures_view(r.0@) == tree_captures(
            query_source(*query),
            *tree,
            opt_int(child),
            source@,
        ),
        !clock::passed(r.2, deadline) ==> r.1 == beyond_limit(
            query_source(*query),
            *tree,
            opt_int(child),
            source@,
        ),
{
    let root = tree.root_node();
    let node = child.map_or(root, |i| root.child(i).unwrap());
    let mut cursor = QueryCursor::new();
    let mut progress = |_: &QueryCursorState| budget_progress(deadline);
    let options = QueryCursorOptions::new().progress_callback(&mut progress);
    let mut all = cursor.captures_with_options(query, node, source.as_bytes(), options);
    let mut out = Vec::new();
    while let Some((found, index)) = all.next() {
        let c = found.captures()[*index];
        let name = query.capture_names()[c.index as usize].to_owned();
        out.push(Capture { range: c.node.byte_range(), name });
    }
    drop(all);
    (out, cursor.did_exceed_match_limit(), Instant::now())
}

} // verus!
