//! What holds of the numbers, the lines and the order of texts.

use crate::order;
use crate::text;
use vstd::prelude::*;

verus! {

/// The number that some digits stand for.
pub open spec fn number_of(digits: Seq<char>) -> nat
    decreases digits.len(),
{
    if digits.len() == 0 {
        0
    } else {
        (10 * number_of(digits.drop_last()) + (digits.last() as int - '0' as int)) as nat
    }
}

pub open spec fn are_digits(s: Seq<char>) -> bool {
    forall|i: int| 0 <= i < s.len() ==> '0' <= #[trigger] s[i] <= '9'
}

/// A number is written in digits that stand for it, without a zero in front.
pub proof fn a_number_is_written_in_its_digits(n: nat)
    ensures
        text::decimal(n).len() > 0,
        are_digits(text::decimal(n)),
        number_of(text::decimal(n)) == n,
        n > 0 ==> text::decimal(n)[0] != '0',
    decreases n,
{
    let s = text::decimal(n);
    if n < 10 {
        reveal_with_fuel(number_of, 2);
        assert(s.drop_last() =~= Seq::empty());
    } else {
        a_number_is_written_in_its_digits(n / 10);
        let t = text::decimal(n / 10);
        assert(s.drop_last() =~= t);
        assert(s[0] == t[0]);
        assert forall|i: int| 0 <= i < s.len() implies '0' <= #[trigger] s[i] <= '9' by {
            if i < t.len() {
                assert(s[i] == t[i]);
            }
        }
    }
}

/// A number below zero has a dash in front.
pub proof fn a_negative_number_has_a_dash(n: int)
    ensures
        n >= 0 ==> text::signed(n) == text::decimal(n as nat),
        n < 0 ==> text::signed(n) == "-"@ + text::decimal((-n) as nat),
{
}

/// The number that some hexadecimal digits stand for.
pub open spec fn hex_number_of(digits: Seq<char>) -> nat
    decreases digits.len(),
{
    if digits.len() == 0 {
        0
    } else {
        let c = digits.last();
        let d = if '0' <= c <= '9' {
            c as int - '0' as int
        } else {
            c as int - 'a' as int + 10
        };
        (16 * hex_number_of(digits.drop_last()) + d) as nat
    }
}

/// A hexadecimal number is written in digits that stand for it.
pub proof fn a_hexadecimal_number_is_written_in_its_digits(n: nat)
    ensures
        text::hex_numeral(n).len() > 0,
        hex_number_of(text::hex_numeral(n)) == n,
    decreases n,
{
    let s = text::hex_numeral(n);
    if n < 16 {
        reveal_with_fuel(hex_number_of, 2);
        assert(s.drop_last() =~= Seq::empty());
    } else {
        a_hexadecimal_number_is_written_in_its_digits(n / 16);
        assert(s.drop_last() =~= text::hex_numeral(n / 16));
    }
}

pub open spec fn is_blank(s: Seq<char>) -> bool {
    forall|i: int| 0 <= i < s.len() ==> text::is_white(#[trigger] s[i])
}

proof fn lemma_white_end(s: Seq<char>, from: int, to: int)
    requires
        0 <= from <= to <= s.len(),
        forall|i: int| from <= i < to ==> text::is_white(#[trigger] s[i]),
        to < s.len() ==> !text::is_white(s[to]),
    ensures
        text::white_end(s, from) == to,
    decreases to - from,
{
    if from < to {
        assert(text::is_white(s[from]));
        lemma_white_end(s, from + 1, to);
    }
}

proof fn lemma_white_start(s: Seq<char>, to: int, from: int)
    requires
        0 <= from <= to <= s.len(),
        forall|i: int| from <= i < to ==> text::is_white(#[trigger] s[i]),
        from > 0 ==> !text::is_white(s[from - 1]),
    ensures
        text::white_start(s, to) == from,
    decreases to - from,
{
    if from < to {
        assert(text::is_white(s[to - 1]));
        lemma_white_start(s, to - 1, from);
    }
}

/// Trimming takes the white space off both ends and nothing else.
pub proof fn trimming_takes_off_the_ends(before: Seq<char>, s: Seq<char>, after: Seq<char>)
    requires
        is_blank(before),
        is_blank(after),
        s.len() > 0 ==> !text::is_white(s[0]) && !text::is_white(s.last()),
    ensures
        text::trimmed(before + s + after) == s,
{
    let all = before + s + after;
    if s.len() == 0 {
        assert forall|i: int| 0 <= i < all.len() implies text::is_white(#[trigger] all[i]) by {
            if i < before.len() {
                assert(text::is_white(before[i]));
            } else {
                assert(text::is_white(after[i - before.len()]));
            }
        }
        lemma_white_end(all, 0, all.len() as int);
        assert(s =~= Seq::empty());
    } else {
        let a = before.len() as int;
        let b = a + s.len();
        assert forall|i: int| 0 <= i < a implies text::is_white(#[trigger] all[i]) by {
            assert(text::is_white(before[i]));
        }
        assert(all[a] == s[0]);
        lemma_white_end(all, 0, a);
        assert forall|i: int| b <= i < all.len() implies text::is_white(#[trigger] all[i]) by {
            assert(text::is_white(after[i - b]));
        }
        assert(all[b - 1] == s.last());
        lemma_white_start(all, all.len() as int, b);
        assert(all.subrange(a, b) =~= s);
    }
}

pub open spec fn has_no_feed(line: Seq<char>) -> bool {
    forall|i: int| 0 <= i < line.len() ==> #[trigger] line[i] != '\n'
}

/// A text is its lines: what stands before the first line feed, without a return at
/// its end, and then the lines of the rest. What stands behind the last line feed is
/// a line where it is not empty.
pub proof fn a_text_is_its_lines(line: Seq<char>, rest: Seq<char>)
    requires
        has_no_feed(line),
    ensures
        text::lines(Seq::empty()) == Seq::<Seq<char>>::empty(),
        line.len() > 0 ==> text::lines(line) == seq![line],
        text::lines(line.push('\n') + rest) == seq![
            if line.len() > 0 && line.last() == '\r' {
                line.drop_last()
            } else {
                line
            },
        ] + text::lines(rest),
{
    text::lemma_place_is(line, '\n', 0, line.len());
    let all = line.push('\n') + rest;
    assert(all[line.len() as int] == '\n');
    assert forall|i: int| 0 <= i < line.len() implies #[trigger] all[i] != '\n' by {
        assert(all[i] == line[i]);
    }
    text::lemma_place_is(all, '\n', 0, line.len());
    assert(all.take(line.len() as int) =~= line);
    assert(all.skip(line.len() as int + 1) =~= rest);
}

/// Texts are in order by the first character in which they differ, and a text comes
/// before one that goes on from it.
pub proof fn texts_are_in_order_by_their_first_difference(
    common: Seq<char>,
    a: Seq<char>,
    b: Seq<char>,
)
    ensures
        b.len() > 0 && (a.len() == 0 || a[0] < b[0]) ==> order::text_before(common + a, common + b)
            && !order::text_before(common + b, common + a),
        !order::text_before(common, common),
    decreases common.len(),
{
    order::lemma_text_irreflexive(common);
    if common.len() == 0 {
        assert(common + a =~= a);
        assert(common + b =~= b);
    } else {
        assert((common + a).drop_first() =~= common.drop_first() + a);
        assert((common + b).drop_first() =~= common.drop_first() + b);
        texts_are_in_order_by_their_first_difference(common.drop_first(), a, b);
    }
}

} // verus!
