//! Text styles and the escape sequences that may set them.

use vstd::prelude::*;

verus! {

pub const MAX_SGR_BYTES: usize = 64;

pub const MAX_SGR_PARAMS: usize = 16;

/// A terminal colour.
#[derive(Clone, Copy, Debug, PartialEq, Eq, Structural)]
pub enum Color {
    Reset,
    Black,
    Red,
    Green,
    Yellow,
    Blue,
    Magenta,
    Cyan,
    Gray,
    DarkGray,
    LightRed,
    LightGreen,
    LightYellow,
    LightBlue,
    LightMagenta,
    LightCyan,
    White,
    Rgb(u8, u8, u8),
    Indexed(u8),
}

/// A set of text attributes.
#[derive(Clone, Copy, Debug, PartialEq, Eq, Structural)]
pub struct Modifiers {
    pub bold: bool,
    pub dim: bool,
    pub italic: bool,
    pub underlined: bool,
    pub reversed: bool,
}

/// Colours, the attributes that a style adds and those that it takes away.
#[derive(Clone, Copy, Debug, PartialEq, Eq, Structural)]
pub struct Style {
    pub fg: Option<Color>,
    pub bg: Option<Color>,
    pub added: Modifiers,
    pub removed: Modifiers,
}

pub open spec fn no_modifiers() -> Modifiers {
    Modifiers { bold: false, dim: false, italic: false, underlined: false, reversed: false }
}

/// The style that changes nothing.
pub open spec fn plain_style() -> Style {
    Style { fg: None, bg: None, added: no_modifiers(), removed: no_modifiers() }
}

pub open spec fn union(a: Modifiers, b: Modifiers) -> Modifiers {
    Modifiers {
        bold: a.bold || b.bold,
        dim: a.dim || b.dim,
        italic: a.italic || b.italic,
        underlined: a.underlined || b.underlined,
        reversed: a.reversed || b.reversed,
    }
}

pub open spec fn difference(a: Modifiers, b: Modifiers) -> Modifiers {
    Modifiers {
        bold: a.bold && !b.bold,
        dim: a.dim && !b.dim,
        italic: a.italic && !b.italic,
        underlined: a.underlined && !b.underlined,
        reversed: a.reversed && !b.reversed,
    }
}

/// A style with attributes added: they are no longer taken away.
pub open spec fn with_added(s: Style, m: Modifiers) -> Style {
    Style { added: union(s.added, m), removed: difference(s.removed, m), ..s }
}

/// A style with attributes taken away: they are no longer added.
pub open spec fn with_removed(s: Style, m: Modifiers) -> Style {
    Style { added: difference(s.added, m), removed: union(s.removed, m), ..s }
}

impl Modifiers {
    pub fn none() -> (r: Modifiers)
        ensures
            r == no_modifiers(),
    {
        Modifiers { bold: false, dim: false, italic: false, underlined: false, reversed: false }
    }

    fn or(&self, m: Modifiers) -> (r: Modifiers)
        ensures
            r == union(*self, m),
    {
        Modifiers {
            bold: self.bold || m.bold,
            dim: self.dim || m.dim,
            italic: self.italic || m.italic,
            underlined: self.underlined || m.underlined,
            reversed: self.reversed || m.reversed,
        }
    }

    fn without(&self, m: Modifiers) -> (r: Modifiers)
        ensures
            r == difference(*self, m),
    {
        Modifiers {
            bold: self.bold && !m.bold,
            dim: self.dim && !m.dim,
            italic: self.italic && !m.italic,
            underlined: self.underlined && !m.underlined,
            reversed: self.reversed && !m.reversed,
        }
    }
}

impl Style {
    /// The style that changes nothing.
    pub fn plain() -> (r: Style)
        ensures
            r == plain_style(),
    {
        Style { fg: None, bg: None, added: Modifiers::none(), removed: Modifiers::none() }
    }

    pub fn with_fg(self, color: Color) -> (r: Style)
        ensures
            r == (Style { fg: Some(color), ..self }),
    {
        Style { fg: Some(color), ..self }
    }

    pub fn with_bg(self, color: Color) -> (r: Style)
        ensures
            r == (Style { bg: Some(color), ..self }),
    {
        Style { bg: Some(color), ..self }
    }

    pub fn add_modifier(self, m: Modifiers) -> (r: Style)
        ensures
            r == with_added(self, m),
    {
        Style { added: self.added.or(m), removed: self.removed.without(m), ..self }
    }

    pub fn remove_modifier(self, m: Modifiers) -> (r: Style)
        ensures
            r == with_removed(self, m),
    {
        Style { added: self.added.without(m), removed: self.removed.or(m), ..self }
    }
}

/// The colour that a foreground code from 30 to 37 or from 90 to 97 stands for.
pub open spec fn ansi_color_of(code: u16) -> Color {
    let i = if code >= 90 {
        code - 90 + 8
    } else {
        code - 30
    };
    if i == 0 {
        Color::Black
    } else if i == 1 {
        Color::Red
    } else if i == 2 {
        Color::Green
    } else if i == 3 {
        Color::Yellow
    } else if i == 4 {
        Color::Blue
    } else if i == 5 {
        Color::Magenta
    } else if i == 6 {
        Color::Cyan
    } else if i == 7 {
        Color::Gray
    } else if i == 8 {
        Color::DarkGray
    } else if i == 9 {
        Color::LightRed
    } else if i == 10 {
        Color::LightGreen
    } else if i == 11 {
        Color::LightYellow
    } else if i == 12 {
        Color::LightBlue
    } else if i == 13 {
        Color::LightMagenta
    } else if i == 14 {
        Color::LightCyan
    } else {
        Color::White
    }
}

fn ansi_color(code: u16) -> (r: Color)
    requires
        30 <= code <= 37 || 90 <= code <= 97,
    ensures
        r == ansi_color_of(code),
{
    match code {
        30 => Color::Black,
        31 => Color::Red,
        32 => Color::Green,
        33 => Color::Yellow,
        34 => Color::Blue,
        35 => Color::Magenta,
        36 => Color::Cyan,
        37 => Color::Gray,
        90 => Color::DarkGray,
        91 => Color::LightRed,
        92 => Color::LightGreen,
        93 => Color::LightYellow,
        94 => Color::LightBlue,
        95 => Color::LightMagenta,
        96 => Color::LightCyan,
        _ => Color::White,
    }
}

pub open spec fn bold() -> Modifiers {
    Modifiers { bold: true, ..no_modifiers() }
}

pub open spec fn dim() -> Modifiers {
    Modifiers { dim: true, ..no_modifiers() }
}

pub open spec fn italic() -> Modifiers {
    Modifiers { italic: true, ..no_modifiers() }
}

pub open spec fn underlined() -> Modifiers {
    Modifiers { underlined: true, ..no_modifiers() }
}

/// What one code does that stands alone, or nothing where it is not allowed.
pub open spec fn simple_code(s: Style, code: u16) -> Option<Style> {
    if code == 0 {
        Some(plain_style())
    } else if code == 1 {
        Some(with_added(s, bold()))
    } else if code == 2 {
        Some(with_added(s, dim()))
    } else if code == 3 {
        Some(with_added(s, italic()))
    } else if code == 4 {
        Some(with_added(s, underlined()))
    } else if code == 22 {
        Some(with_removed(s, union(bold(), dim())))
    } else if code == 23 {
        Some(with_removed(s, italic()))
    } else if code == 24 {
        Some(with_removed(s, underlined()))
    } else if 30 <= code <= 37 || 90 <= code <= 97 {
        Some(Style { fg: Some(ansi_color_of(code)), ..s })
    } else if 40 <= code <= 47 || 100 <= code <= 107 {
        Some(Style { bg: Some(ansi_color_of((code - 10) as u16)), ..s })
    } else if code == 39 {
        Some(Style { fg: Some(Color::Reset), ..s })
    } else if code == 49 {
        Some(Style { bg: Some(Color::Reset), ..s })
    } else {
        None
    }
}

/// An indexed or direct colour behind a code 38 or 48, and how many codes it takes.
pub open spec fn extended_color(params: Seq<u16>, at: int) -> Option<(Color, int)> {
    if at < params.len() && params[at] == 5 && at + 1 < params.len() {
        Some((Color::Indexed(params[at + 1] as u8), 2))
    } else if at < params.len() && params[at] == 2 && at + 3 < params.len() {
        Some(
            (
                Color::Rgb(params[at + 1] as u8, params[at + 2] as u8, params[at + 3] as u8),
                4,
            ),
        )
    } else {
        None
    }
}

/// The style after the codes from `at` on, or nothing where one is not allowed.
pub open spec fn applied(s: Style, params: Seq<u16>, at: int) -> Option<Style>
    decreases params.len() - at,
{
    if at >= params.len() {
        Some(s)
    } else if params[at] == 38 || params[at] == 48 {
        match extended_color(params, at + 1) {
            Some((color, taken)) => applied(
                if params[at] == 38 {
                    Style { fg: Some(color), ..s }
                } else {
                    Style { bg: Some(color), ..s }
                },
                params,
                at + 1 + taken,
            ),
            None => None,
        }
    } else {
        match simple_code(s, params[at]) {
            Some(t) => applied(t, params, at + 1),
            None => None,
        }
    }
}

fn apply_simple(s: Style, code: u16) -> (r: Option<Style>)
    ensures
        r == simple_code(s, code),
{
    let none = Modifiers::none();
    if code == 0 {
        Some(Style::plain())
    } else if code == 1 {
        Some(s.add_modifier(Modifiers { bold: true, ..none }))
    } else if code == 2 {
        Some(s.add_modifier(Modifiers { dim: true, ..none }))
    } else if code == 3 {
        Some(s.add_modifier(Modifiers { italic: true, ..none }))
    } else if code == 4 {
        Some(s.add_modifier(Modifiers { underlined: true, ..none }))
    } else if code == 22 {
        Some(s.remove_modifier(Modifiers { bold: true, dim: true, ..none }))
    } else if code == 23 {
        Some(s.remove_modifier(Modifiers { italic: true, ..none }))
    } else if code == 24 {
        Some(s.remove_modifier(Modifiers { underlined: true, ..none }))
    } else if (30 <= code && code <= 37) || (90 <= code && code <= 97) {
        Some(s.with_fg(ansi_color(code)))
    } else if (40 <= code && code <= 47) || (100 <= code && code <= 107) {
        Some(s.with_bg(ansi_color(code - 10)))
    } else if code == 39 {
        Some(s.with_fg(Color::Reset))
    } else if code == 49 {
        Some(s.with_bg(Color::Reset))
    } else {
        None
    }
}

/// Applies a list of codes to a style. One code that is not allowed spoils all.
pub fn apply_sgr(style: Style, params: &[u16]) -> (r: Option<Style>)
    requires
        params@.len() <= MAX_SGR_PARAMS,
        forall|i: int| 0 <= i < params@.len() ==> #[trigger] params@[i] <= 255,
    ensures
        r == applied(style, params@, 0),
{
    let mut s = style;
    let mut at: usize = 0;
    while at < params.len()
        invariant
            params@.len() <= MAX_SGR_PARAMS,
            forall|i: int| 0 <= i < params@.len() ==> #[trigger] params@[i] <= 255,
            at <= MAX_SGR_PARAMS + 5,
            applied(s, params@, at as int) == applied(style, params@, 0),
        decreases params@.len() + 5 - at,
    {
        let code: u16 = params[at];
        if code == 38 || code == 48 {
            let n: usize = params.len();
            let color: Color;
            let taken: usize;
            if at + 2 < n && params[at + 1] == 5 {
                color = Color::Indexed(params[at + 2] as u8);
                taken = 2;
            } else if at + 4 < n && params[at + 1] == 2 {
                color = Color::Rgb(
                    params[at + 2] as u8,
                    params[at + 3] as u8,
                    params[at + 4] as u8,
                );
                taken = 4;
            } else {
                return None;
            }
            if code == 38 {
                s = s.with_fg(color);
            } else {
                s = s.with_bg(color);
            }
            at = at + 1 + taken;
        } else {
            match apply_simple(s, code) {
                Some(t) => {
                    s = t;
                },
                None => {
                    return None;
                },
            }
            at += 1;
        }
    }
    Some(s)
}

/// The codes of a sequence whose digits start at `at`, where those before it are
/// already read, and the length of the sequence. Each code is at most 255, there
/// are at most `MAX_SGR_PARAMS`, and the whole fits in `MAX_SGR_BYTES`.
pub open spec fn sgr_codes(bytes: Seq<u8>, at: int, params: Seq<u16>) -> Option<(int, Seq<u16>)>
    decreases bytes.len() - at,
{
    if at < 0 || at >= bytes.len() || at >= MAX_SGR_BYTES || params.len() == 0 {
        None
    } else {
        let b = bytes[at];
        if 48 <= b <= 57 {
            let value = params.last() * 10 + (b - 48);
            if value > 255 {
                None
            } else {
                sgr_codes(bytes, at + 1, params.drop_last().push(value as u16))
            }
        } else if b == 59 && params.len() < MAX_SGR_PARAMS {
            sgr_codes(bytes, at + 1, params.push(0))
        } else if b == 109 {
            Some((at + 1, params))
        } else {
            None
        }
    }
}

/// The length of the style sequence that the bytes start with and the style after
/// it, or nothing where they start with no sequence that is allowed.
pub open spec fn sgr_of(bytes: Seq<u8>, current: Style) -> Option<(int, Style)> {
    if bytes.len() >= 2 && bytes[0] == 27 && bytes[1] == 91 {
        match sgr_codes(bytes, 2, seq![0u16]) {
            Some((length, params)) => match applied(current, params, 0) {
                Some(style) => Some((length, style)),
                None => None,
            },
            None => None,
        }
    } else {
        None
    }
}

/// Reads a style sequence at the front of `bytes[from..]`.
pub fn parse_sgr(bytes: &[u8], from: usize, current: Style) -> (r: Option<(usize, Style)>)
    requires
        from <= bytes@.len(),
    ensures
        match r {
            Some((length, style)) => sgr_of(bytes@.skip(from as int), current) == Some(
                (length as int, style),
            ) && 0 < length <= bytes@.len() - from,
            None => sgr_of(bytes@.skip(from as int), current) is None,
        },
{
    let ghost rest = bytes@.skip(from as int);
    let n: usize = bytes.len() - from;
    if n < 2 || bytes[from] != 27 || bytes[from + 1] != 91 {
        return None;
    }
    let mut params: Vec<u16> = Vec::new();
    params.push(0);
    assert(params@ =~= seq![0u16]);
    let mut at: usize = 2;
    while at < n && at < MAX_SGR_BYTES
        invariant
            2 <= at <= n,
            from + n == bytes.len(),
            rest == bytes@.skip(from as int),
            rest.len() >= 2 && rest[0] == 27 && rest[1] == 91,
            1 <= params@.len() <= MAX_SGR_PARAMS,
            forall|i: int| 0 <= i < params@.len() ==> #[trigger] params@[i] <= 255,
            sgr_codes(rest, at as int, params@) == sgr_codes(rest, 2, seq![0u16]),
        decreases n - at,
    {
        let b: u8 = bytes[from + at];
        assert(b == rest[at as int]);
        if 48 <= b && b <= 57 {
            let last: usize = params.len() - 1;
            let value: u16 = params[last] * 10 + (b - 48) as u16;
            if value > 255 {
                return None;
            }
            let ghost before = params@;
            params.set(last, value);
            assert(params@ =~= before.drop_last().push(value));
        } else if b == 59 && params.len() < MAX_SGR_PARAMS {
            params.push(0);
        } else if b == 109 {
            return match apply_sgr(current, params.as_slice()) {
                Some(style) => Some((at + 1, style)),
                None => None,
            };
        } else {
            return None;
        }
        at += 1;
    }
    None
}

proof fn lemma_sgr_codes_length(bytes: Seq<u8>, at: int, params: Seq<u16>)
    ensures
        sgr_codes(bytes, at, params) matches Some((length, p)) ==> at < length <= bytes.len(),
    decreases bytes.len() - at,
{
    if 0 <= at < bytes.len() && at < MAX_SGR_BYTES && params.len() > 0 {
        let b = bytes[at];
        if 48 <= b <= 57 {
            let value = params.last() * 10 + (b - 48);
            if value <= 255 {
                lemma_sgr_codes_length(bytes, at + 1, params.drop_last().push(value as u16));
            }
        } else if b == 59 && params.len() < MAX_SGR_PARAMS {
            lemma_sgr_codes_length(bytes, at + 1, params.push(0));
        }
    }
}

/// A style sequence is part of the bytes that it was read from.
pub proof fn lemma_sgr_length(bytes: Seq<u8>, current: Style)
    ensures
        sgr_of(bytes, current) matches Some((length, s)) ==> 0 < length <= bytes.len(),
{
    lemma_sgr_codes_length(bytes, 2, seq![0u16]);
}

} // verus!
