//! What the codes of a terminal's styles mean.

use crate::style;
use crate::style::{Color, Style};
use vstd::prelude::*;

verus! {

/// The eight colors and their bright ones, by the last digit of their codes.
pub open spec fn is_color(color: Color, digit: int, bright: bool) -> bool {
    if bright {
        ||| digit == 0 && color == Color::DarkGray
        ||| digit == 1 && color == Color::LightRed
        ||| digit == 2 && color == Color::LightGreen
        ||| digit == 3 && color == Color::LightYellow
        ||| digit == 4 && color == Color::LightBlue
        ||| digit == 5 && color == Color::LightMagenta
        ||| digit == 6 && color == Color::LightCyan
        ||| digit == 7 && color == Color::White
    } else {
        ||| digit == 0 && color == Color::Black
        ||| digit == 1 && color == Color::Red
        ||| digit == 2 && color == Color::Green
        ||| digit == 3 && color == Color::Yellow
        ||| digit == 4 && color == Color::Blue
        ||| digit == 5 && color == Color::Magenta
        ||| digit == 6 && color == Color::Cyan
        ||| digit == 7 && color == Color::Gray
    }
}

/// The code of a color sets it, before or behind the text, and nothing else.
pub proof fn a_color_code_sets_its_color(s: Style, color: Color, digit: int, bright: bool)
    requires
        0 <= digit <= 7,
        is_color(color, digit, bright),
    ensures
        !bright ==> style::simple_code(s, (30 + digit) as u16) == Some(
            Style { fg: Some(color), ..s },
        ),
        !bright ==> style::simple_code(s, (40 + digit) as u16) == Some(
            Style { bg: Some(color), ..s },
        ),
        bright ==> style::simple_code(s, (90 + digit) as u16) == Some(
            Style { fg: Some(color), ..s },
        ),
        bright ==> style::simple_code(s, (100 + digit) as u16) == Some(
            Style { bg: Some(color), ..s },
        ),
{
}

/// The codes of the weights turn them on and off, and the zero takes everything back.
pub proof fn a_weight_is_turned_on_and_off(s: Style)
    ensures
        style::simple_code(s, 0) == Some(style::plain_style()),
        style::simple_code(s, 1) matches Some(t) && t.added.bold && !t.removed.bold && t.fg == s.fg
            && t.bg == s.bg && t.added.italic == s.added.italic && t.added.underlined
            == s.added.underlined && t.added.dim == s.added.dim,
        style::simple_code(s, 2) matches Some(t) && t.added.dim && !t.removed.dim && t.fg == s.fg
            && t.added.bold == s.added.bold,
        style::simple_code(s, 3) matches Some(t) && t.added.italic && !t.removed.italic && t.fg
            == s.fg && t.added.bold == s.added.bold,
        style::simple_code(s, 4) matches Some(t) && t.added.underlined && !t.removed.underlined
            && t.fg == s.fg && t.added.bold == s.added.bold,
        style::simple_code(s, 22) matches Some(t) && !t.added.bold && !t.added.dim && t.removed.bold
            && t.removed.dim && t.added.italic == s.added.italic && t.fg == s.fg,
        style::simple_code(s, 23) matches Some(t) && !t.added.italic && t.removed.italic
            && t.added.bold == s.added.bold && t.fg == s.fg,
        style::simple_code(s, 24) matches Some(t) && !t.added.underlined && t.removed.underlined
            && t.added.bold == s.added.bold && t.fg == s.fg,
        style::simple_code(s, 39) == Some(Style { fg: Some(Color::Reset), ..s }),
        style::simple_code(s, 49) == Some(Style { bg: Some(Color::Reset), ..s }),
{
}

/// Codes are taken one behind the other: the next goes on from what the ones before
/// came to, and one that is not known spoils them all.
pub proof fn codes_are_taken_in_order(s: Style, codes: Seq<u16>, at: int)
    requires
        0 <= at < codes.len(),
        codes[at] != 38,
        codes[at] != 48,
    ensures
        style::applied(s, codes, at) == match style::simple_code(s, codes[at]) {
            Some(t) => style::applied(t, codes, at + 1),
            None => None,
        },
        style::applied(s, codes, codes.len() as int) == Some(s),
{
}

/// A color of the palette or of three parts is taken with its numbers.
pub proof fn a_long_color_is_taken_with_its_numbers(s: Style, a: u8, b: u8, c: u8)
    ensures
        style::applied(s, seq![38u16, 5u16, a as u16], 0) == Some(
            Style { fg: Some(Color::Indexed(a)), ..s },
        ),
        style::applied(s, seq![48u16, 5u16, a as u16], 0) == Some(
            Style { bg: Some(Color::Indexed(a)), ..s },
        ),
        style::applied(s, seq![38u16, 2u16, a as u16, b as u16, c as u16], 0) == Some(
            Style { fg: Some(Color::Rgb(a, b, c)), ..s },
        ),
        style::applied(s, seq![48u16, 2u16, a as u16, b as u16, c as u16], 0) == Some(
            Style { bg: Some(Color::Rgb(a, b, c)), ..s },
        ),
{
    reveal_with_fuel(style::applied, 2);
    assert(a as u16 as u8 == a && b as u16 as u8 == b && c as u16 as u8 == c) by (bit_vector);
}

/// A sequence begins with the escape and the bracket, has its codes in digits, and
/// ends in the letter.
pub proof fn a_sequence_is_read_by_its_digits(s: Style, rest: Seq<u8>, a: u8, b: u8)
    requires
        a <= 9,
        b <= 9,
    ensures
        style::sgr_of(seq![27u8, 91u8, 109u8] + rest, s) == Some((3int, style::plain_style())),
        10 * a + b != 38 && 10 * a + b != 48 ==> style::sgr_of(
            seq![27u8, 91u8, (48 + a) as u8, (48 + b) as u8, 109u8] + rest,
            s,
        ) == match style::simple_code(s, (10 * a + b) as u16) {
            Some(t) => Some((5int, t)),
            None => None,
        },
{
    let plain = seq![27u8, 91u8, 109u8] + rest;
    assert(plain[0] == 27 && plain[1] == 91 && plain[2] == 109);
    assert(style::sgr_codes(plain, 2, seq![0u16]) == Some((3int, seq![0u16])));
    reveal_with_fuel(style::applied, 2);
    let two = seq![27u8, 91u8, (48 + a) as u8, (48 + b) as u8, 109u8] + rest;
    assert(two[0] == 27 && two[1] == 91 && two[2] == 48 + a && two[3] == 48 + b && two[4] == 109);
    assert(seq![0u16].drop_last() =~= Seq::empty());
    assert(seq![0u16].drop_last().push(a as u16) =~= seq![a as u16]);
    assert(seq![a as u16].drop_last().push((10 * a + b) as u16) =~= seq![(10 * a + b) as u16]);
    let last = seq![(10 * a + b) as u16];
    assert(style::sgr_codes(two, 4, last) == Some((5int, last)));
    assert(style::sgr_codes(two, 3, seq![a as u16]) == Some((5int, last)));
    assert(style::sgr_codes(two, 2, seq![0u16]) == Some((5int, last)));
}

} // verus!
