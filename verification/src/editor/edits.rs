//! Edits of a source, and the trees that are kept up with them.

use super::grammar;
use super::grammar::{Place, SourceEdit};
use crate::model::TextEdit;
use crate::text;
use tree_sitter::{Language, Tree};
use vstd::prelude::*;
use vstd::utf8::encode_utf8;

verus! {

// Places and edits.

/// The line feeds among bytes.
pub open spec fn line_feeds(bytes: Seq<u8>, n: nat) -> nat
    decreases n,
{
    if n == 0 {
        0
    } else {
        line_feeds(bytes, (n - 1) as nat) + if bytes[n - 1] == 10 {
            1nat
        } else {
            0nat
        }
    }
}

/// The start of the line that a byte is on.
pub open spec fn line_start(bytes: Seq<u8>, n: nat) -> nat
    decreases n,
{
    if n == 0 || bytes[n - 1] == 10 {
        n
    } else {
        line_start(bytes, (n - 1) as nat)
    }
}

/// The line of a byte, and its place on the line.
pub open spec fn place_at(bytes: Seq<u8>, n: nat) -> Place {
    Place { row: line_feeds(bytes, n) as usize, column: (n - line_start(bytes, n)) as usize }
}

pub fn point_at(bytes: &[u8], n: usize) -> (r: Place)
    requires
        n <= bytes@.len(),
    ensures
        r == place_at(bytes@, n as nat),
        r.row <= n,
        r.column <= n,
{
    let mut row: usize = 0;
    let mut start: usize = 0;
    let mut i: usize = 0;
    while i < n
        invariant
            i <= n <= bytes@.len(),
            row <= i,
            start <= i,
            row == line_feeds(bytes@, i as nat),
            start == line_start(bytes@, i as nat),
        decreases n - i,
    {
        if bytes[i] == 10 {
            row += 1;
            start = i + 1;
        }
        i += 1;
    }
    Place { row, column: n - start }
}

/// The character at a byte: one whose bytes start there, or the end.
pub open spec fn char_at_byte(s: Seq<char>, byte: int, from: nat, at: int) -> Option<nat>
    decreases s.len() - from,
{
    if at == byte {
        Some(from)
    } else if at > byte || from >= s.len() {
        None
    } else {
        char_at_byte(s, byte, from + 1, at + text::char_width(s[from as int]))
    }
}

pub open spec fn char_of(s: Seq<char>, byte: int) -> Option<nat> {
    char_at_byte(s, byte, 0, 0)
}

fn find_char_at(chars: &Vec<char>, byte: u64) -> (r: Option<usize>)
    ensures
        match char_of(chars@, byte as int) {
            Some(k) => r is Some && r->0 == k && k <= chars@.len() && text::byte_len(
                chars@.take(k as int),
            ) == byte,
            None => r is None,
        },
{
    let mut i: usize = 0;
    let mut at: u128 = 0;
    assert(chars@.take(0) =~= Seq::<char>::empty());
    while i < chars.len() && at < byte as u128
        invariant
            i <= chars@.len(),
            at <= byte + 4,
            at == text::byte_len(chars@.take(i as int)),
            char_of(chars@, byte as int) == char_at_byte(chars@, byte as int, i as nat, at as int),
        decreases chars@.len() - i,
    {
        proof {
            assert(chars@.take(i + 1) =~= chars@.take(i as int).push(chars@[i as int]));
            text::lemma_byte_len_push(chars@.take(i as int), chars@[i as int]);
        }
        at = at + text::width_of(chars[i]) as u128;
        i += 1;
    }
    if at == byte as u128 {
        Some(i)
    } else {
        None
    }
}

/// A source with an edit made.
pub open spec fn replaced(s: Seq<char>, edit: TextEdit) -> Seq<char> {
    s.take(char_of(s, edit.start_byte as int)->0 as int) + edit.inserted_text@ + s.skip(
        char_of(s, edit.end_byte as int)->0 as int,
    )
}

/// Whether an edit can be made: its ends are in order and stand between
/// characters, and the source stays small enough to be parsed.
pub open spec fn edit_fits(s: Seq<char>, edit: TextEdit) -> bool {
    &&& edit.start_byte <= edit.end_byte
    &&& char_of(s, edit.start_byte as int) is Some
    &&& char_of(s, edit.end_byte as int) is Some
    &&& text::byte_len(replaced(s, edit)) <= u32::MAX
}

/// Edits are made from the last to the first, so that the earlier ones keep
/// their places.
pub open spec fn edits_fit(s: Seq<char>, edits: Seq<TextEdit>) -> bool
    decreases edits.len(),
{
    edits.len() > 0 ==> edit_fits(s, edits.last()) && edits_fit(
        replaced(s, edits.last()),
        edits.drop_last(),
    )
}

pub open spec fn edited(s: Seq<char>, edits: Seq<TextEdit>) -> Seq<char>
    decreases edits.len(),
{
    if edits.len() == 0 {
        s
    } else {
        edited(replaced(s, edits.last()), edits.drop_last())
    }
}

/// What a tree is told of an edit.
pub open spec fn told_edit(s: Seq<char>, edit: TextEdit) -> SourceEdit {
    let bytes = encode_utf8(s);
    let start = place_at(bytes, edit.start_byte as nat);
    let inserted = encode_utf8(edit.inserted_text@);
    let end = place_at(inserted, inserted.len());
    SourceEdit {
        start_byte: edit.start_byte as usize,
        old_end_byte: edit.end_byte as usize,
        new_end_byte: (edit.start_byte + inserted.len()) as usize,
        start,
        old_end: place_at(bytes, edit.end_byte as nat),
        new_end: Place {
            row: (start.row + end.row) as usize,
            column: if end.row == 0 {
                (start.column + end.column) as usize
            } else {
                end.column
            },
        },
    }
}

pub open spec fn tree_after(tree: Tree, s: Seq<char>, edits: Seq<TextEdit>) -> Tree
    decreases edits.len(),
{
    if edits.len() == 0 {
        tree
    } else {
        tree_after(
            grammar::tree_edited(tree, told_edit(s, edits.last())),
            replaced(s, edits.last()),
            edits.drop_last(),
        )
    }
}

pub open spec fn opt_tree_after(tree: Option<Tree>, s: Seq<char>, edits: Seq<TextEdit>) -> Option<Tree> {
    match tree {
        Some(t) => Some(tree_after(t, s, edits)),
        None => None,
    }
}

/// Whether a tree is up to date with a source: it was read from the source, or it
/// was read from an earlier one and told of each edit since.
pub open spec fn keeps_up(tree: Tree, language: Language, source: Seq<char>) -> bool {
    exists|start: Seq<char>, edits: Seq<TextEdit>, first: Tree|
        #![trigger tree_after(first, start, edits)]
        grammar::read_from(first, language, start) && edits_fit(start, edits) && edited(
            start,
            edits,
        ) == source && tree_after(first, start, edits) == tree
}

/// A tree that was just read is up to date.
pub(crate) proof fn lemma_read_keeps_up(tree: Tree, language: Language, source: Seq<char>)
    requires
        grammar::read_from(tree, language, source),
    ensures
        keeps_up(tree, language, source),
{
    let none = Seq::<TextEdit>::empty();
    assert(tree_after(tree, source, none) == tree);
    assert(edited(source, none) == source);
}

/// Makes one edit of a source, and tells what a tree is told of it.
pub(crate) fn make_edit(source: &str, edit: &TextEdit) -> (r: (String, SourceEdit))
    requires
        edit_fits(source@, *edit),
        text::byte_len(source@) <= u32::MAX,
    ensures
        r.0@ == replaced(source@, *edit),
        r.1 == told_edit(source@, *edit),
        grammar::in_order(r.1),
{
    let chars = text::chars_of(source);
    let bytes = source.as_bytes();
    let inserted = edit.inserted_text.as_str().as_bytes();
    proof {
        text::lemma_byte_len_encode(source@);
        text::lemma_byte_len_encode(edit.inserted_text@);
    }
    let ghost a = char_of(source@, edit.start_byte as int)->0 as int;
    let ghost b = char_of(source@, edit.end_byte as int)->0 as int;
    let from: usize = match find_char_at(&chars, edit.start_byte) {
        Some(k) => k,
        None => 0,
    };
    let to: usize = match find_char_at(&chars, edit.end_byte) {
        Some(k) => k,
        None => 0,
    };
    proof {
        let head = source@.take(a);
        let tail = source@.skip(b);
        text::lemma_byte_len_concat(head + edit.inserted_text@, tail);
        text::lemma_byte_len_concat(head, edit.inserted_text@);
        text::lemma_byte_len_concat(source@.take(b), tail);
        assert(source@.take(b) + tail =~= source@);
        assert(edit.start_byte <= edit.end_byte <= text::byte_len(source@));
        assert(edit.start_byte + inserted@.len() <= u32::MAX);
    }
    let start_byte: usize = edit.start_byte as usize;
    let end_byte: usize = edit.end_byte as usize;
    let start = point_at(bytes, start_byte);
    let old_end = point_at(bytes, end_byte);
    let end = point_at(inserted, inserted.len());
    let told = SourceEdit {
        start_byte,
        old_end_byte: end_byte,
        new_end_byte: start_byte + inserted.len(),
        start,
        old_end,
        new_end: Place {
            row: start.row + end.row,
            column: if end.row == 0 {
                start.column + end.column
            } else {
                end.column
            },
        },
    };
    let mut out = text::string_of(chars.as_slice(), 0, from);
    out.push_str(edit.inserted_text.as_str());
    let rest = text::string_of(chars.as_slice(), to, chars.len());
    out.push_str(rest.as_str());
    assert(out@ =~= replaced(source@, *edit));
    (out, told)
}

/// Two edits of one file that follow one another: what the first leaves is what
/// the second changes.
pub proof fn edits_follow_one_another(s: Seq<char>, first: Seq<TextEdit>, second: Seq<TextEdit>)
    ensures
        edited(s, second + first) == edited(edited(s, first), second),
    decreases first.len(),
{
    if first.len() == 0 {
        assert(second + first =~= second);
    } else {
        assert((second + first).drop_last() =~= second + first.drop_last());
        assert((second + first).last() == first.last());
        edits_follow_one_another(replaced(s, first.last()), first.drop_last(), second);
    }
}

} // verus!
