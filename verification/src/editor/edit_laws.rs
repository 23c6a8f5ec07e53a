//! What an edit does to a text and to the places in it.

use super::edits;
use crate::model::TextEdit;
use crate::text;
use vstd::prelude::*;
use vstd::utf8::encode_utf8;

verus! {

proof fn lemma_prefix_grows(s: Seq<char>, a: nat, b: nat)
    requires
        a < b <= s.len(),
    ensures
        text::byte_len(s.take(a as int)) < text::byte_len(s.take(b as int)),
    decreases b - a,
{
    let t = s.take(b as int);
    assert(t.drop_last() =~= s.take(b - 1));
    assert(text::byte_len(t) == text::byte_len(t.drop_last()) + text::char_width(t.last()));
    if a < b - 1 {
        lemma_prefix_grows(s, a, (b - 1) as nat);
    }
}

proof fn lemma_char_at(s: Seq<char>, byte: int, from: nat)
    requires
        from <= s.len(),
    ensures
        match edits::char_at_byte(s, byte, from, text::byte_len(s.take(from as int)) as int) {
            Some(k) => from <= k <= s.len() && text::byte_len(s.take(k as int)) == byte,
            None => forall|k: nat|
                from <= k <= s.len() ==> text::byte_len(#[trigger] s.take(k as int)) != byte,
        },
    decreases s.len() - from,
{
    let at = text::byte_len(s.take(from as int)) as int;
    if at == byte {
    } else if at > byte || from >= s.len() {
        assert forall|k: nat| from <= k <= s.len() implies text::byte_len(
            #[trigger] s.take(k as int),
        ) != byte by {
            if from < k {
                lemma_prefix_grows(s, from, k);
            }
        }
    } else {
        let t = s.take(from as int + 1);
        assert(t.drop_last() =~= s.take(from as int));
        assert(text::byte_len(t) == at + text::char_width(s[from as int]));
        lemma_char_at(s, byte, from + 1);
    }
}

/// A character is found by the number of bytes before it.
pub proof fn a_character_is_found_by_its_byte(s: Seq<char>, byte: int, k: nat)
    ensures
        edits::char_of(s, byte) == Some(k) <==> k <= s.len() && text::byte_len(s.take(k as int))
            == byte,
{
    assert(s.take(0) =~= Seq::empty());
    lemma_char_at(s, byte, 0);
    match edits::char_of(s, byte) {
        Some(j) => {
            if k <= s.len() && text::byte_len(s.take(k as int)) == byte && j != k {
                if j < k {
                    lemma_prefix_grows(s, j, k);
                } else {
                    lemma_prefix_grows(s, k, j);
                }
            }
        },
        None => {},
    }
}

/// An edit replaces the bytes that it names by its text and leaves the others.
pub proof fn an_edit_replaces_its_bytes(s: Seq<char>, edit: TextEdit)
    requires
        edits::edit_fits(s, edit),
    ensures
        encode_utf8(edits::replaced(s, edit)) == encode_utf8(s).take(edit.start_byte as int)
            + encode_utf8(edit.inserted_text@) + encode_utf8(s).skip(edit.end_byte as int),
{
    let a = edits::char_of(s, edit.start_byte as int)->0;
    let b = edits::char_of(s, edit.end_byte as int)->0;
    a_character_is_found_by_its_byte(s, edit.start_byte as int, a);
    a_character_is_found_by_its_byte(s, edit.end_byte as int, b);
    lemma_cut(s, a);
    lemma_cut(s, b);
    text::lemma_encode_concat(s.take(a as int), edit.inserted_text@);
    text::lemma_encode_concat(s.take(a as int) + edit.inserted_text@, s.skip(b as int));
}

proof fn lemma_cut(s: Seq<char>, k: nat)
    requires
        k <= s.len(),
    ensures
        encode_utf8(s.take(k as int)) == encode_utf8(s).take(text::byte_len(s.take(k as int)) as int),
        encode_utf8(s.skip(k as int)) == encode_utf8(s).skip(text::byte_len(s.take(k as int)) as int),
{
    let x = s.take(k as int);
    let y = s.skip(k as int);
    assert(s =~= x + y);
    text::lemma_encode_concat(x, y);
    text::lemma_byte_len_encode(x);
    assert(encode_utf8(x) =~= encode_utf8(s).take(text::byte_len(x) as int));
    assert(encode_utf8(y) =~= encode_utf8(s).skip(text::byte_len(x) as int));
}

/// How many newlines stand in some bytes.
pub open spec fn newlines(bytes: Seq<u8>) -> nat
    decreases bytes.len(),
{
    if bytes.len() == 0 {
        0
    } else {
        newlines(bytes.drop_last()) + if bytes.last() == 10 {
            1nat
        } else {
            0nat
        }
    }
}

proof fn lemma_feeds(bytes: Seq<u8>, n: nat)
    requires
        n <= bytes.len(),
    ensures
        edits::line_feeds(bytes, n) == newlines(bytes.take(n as int)),
        newlines(bytes.take(n as int)) <= n,
    decreases n,
{
    if n > 0 {
        lemma_feeds(bytes, (n - 1) as nat);
        assert(bytes.take(n as int).drop_last() =~= bytes.take(n - 1));
    }
}

proof fn lemma_start(bytes: Seq<u8>, n: nat, at: nat)
    requires
        at <= n <= bytes.len(),
        at == 0 || bytes[at - 1] == 10,
        forall|i: int| at <= i < n ==> #[trigger] bytes[i] != 10,
    ensures
        edits::line_start(bytes, n) == at,
    decreases n,
{
    if n > at {
        assert(bytes[n - 1] != 10);
        lemma_start(bytes, (n - 1) as nat, at);
    }
}

/// The place of a byte is told by the newlines before it and by what stands between
/// the last of them and the byte.
pub proof fn a_place_counts_lines_and_what_follows(bytes: Seq<u8>, n: nat, at: nat)
    requires
        at <= n <= bytes.len() <= u32::MAX,
        at == 0 || bytes[at - 1] == 10,
        forall|i: int| at <= i < n ==> #[trigger] bytes[i] != 10,
    ensures
        edits::place_at(bytes, n).row == newlines(bytes.take(n as int)),
        edits::place_at(bytes, n).column == n - at,
{
    lemma_feeds(bytes, n);
    lemma_start(bytes, n, at);
}

/// What is told of an edit to the grammar is where it starts, where what it replaces
/// ended and where its text ends.
pub proof fn an_edit_is_told_by_its_bytes(s: Seq<char>, edit: TextEdit)
    requires
        edits::edit_fits(s, edit),
        text::byte_len(s) <= u32::MAX,
    ensures
        ({
            let told = edits::told_edit(s, edit);
            &&& told.start_byte == edit.start_byte
            &&& told.old_end_byte == edit.end_byte
            &&& told.new_end_byte == edit.start_byte + text::byte_len(edit.inserted_text@)
            &&& told.start == edits::place_at(encode_utf8(s), edit.start_byte as nat)
            &&& told.old_end == edits::place_at(encode_utf8(s), edit.end_byte as nat)
        }),
{
    text::lemma_byte_len_encode(edit.inserted_text@);
    an_edit_replaces_its_bytes(s, edit);
    text::lemma_byte_len_encode(edits::replaced(s, edit));
    let a = edits::char_of(s, edit.start_byte as int)->0;
    a_character_is_found_by_its_byte(s, edit.start_byte as int, a);
    lemma_cut(s, a);
    text::lemma_byte_len_encode(s.take(a as int));
    let b = edits::char_of(s, edit.end_byte as int)->0;
    a_character_is_found_by_its_byte(s, edit.end_byte as int, b);
    text::lemma_byte_len_prefix(s, b as int);
    let x = encode_utf8(s).take(edit.start_byte as int);
    assert(x.len() == edit.start_byte);
    assert(encode_utf8(edits::replaced(s, edit)).len() >= edit.start_byte + encode_utf8(
        edit.inserted_text@,
    ).len());
}

} // verus!
