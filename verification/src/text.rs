//! Character sequences: byte lengths, copies, and the small scans that the
//! parsers and renderers share.

use vstd::prelude::*;
use vstd::utf8::*;

verus! {

/// `String::push` puts one character behind the ones that are there.
pub assume_specification[ std::string::String::push ](s: &mut std::string::String, c: char)
    ensures
        final(s)@ == old(s)@.push(c),
;

/// `std::string::String::push_str` puts a whole string behind the characters that are there.
pub assume_specification[ std::string::String::push_str ](s: &mut std::string::String, other: &str)
    ensures
        final(s)@ == old(s)@ + other@,
;

/// Number of bytes that a character takes in UTF-8.
pub open spec fn char_width(c: char) -> nat {
    let v = c as u32;
    if v <= 0x7f {
        1
    } else if v <= 0x7ff {
        2
    } else if v <= 0xffff {
        3
    } else {
        4
    }
}

/// Number of bytes that a character sequence takes in UTF-8.
pub open spec fn byte_len(s: Seq<char>) -> nat
    decreases s.len(),
{
    if s.len() == 0 {
        0
    } else {
        byte_len(s.drop_last()) + char_width(s.last())
    }
}

pub proof fn lemma_encode_scalar_len(c: char)
    ensures
        encode_scalar(c as u32).len() == char_width(c),
{
    char_is_scalar(c);
}

pub proof fn lemma_encode_concat(a: Seq<char>, b: Seq<char>)
    ensures
        encode_utf8(a + b) == encode_utf8(a) + encode_utf8(b),
    decreases a.len(),
{
    if a.len() == 0 {
        assert(a + b =~= b);
        assert(encode_utf8(a) + encode_utf8(b) =~= encode_utf8(b));
    } else {
        assert((a + b).drop_first() =~= a.drop_first() + b);
        lemma_encode_concat(a.drop_first(), b);
        assert(encode_utf8(a + b) =~= encode_utf8(a) + encode_utf8(b));
    }
}

/// `byte_len` is the length of the UTF-8 encoding.
pub proof fn lemma_byte_len_encode(s: Seq<char>)
    ensures
        byte_len(s) == encode_utf8(s).len(),
    decreases s.len(),
{
    if s.len() > 0 {
        lemma_byte_len_encode(s.drop_last());
        let last = seq![s.last()];
        assert(s =~= s.drop_last() + last);
        lemma_encode_concat(s.drop_last(), last);
        assert(encode_utf8(last) =~= encode_scalar(s.last() as u32)) by {
            assert(last.drop_first() =~= Seq::<char>::empty());
            reveal_with_fuel(encode_utf8, 2);
        }
        lemma_encode_scalar_len(s.last());
    }
}

pub proof fn lemma_byte_len_concat(a: Seq<char>, b: Seq<char>)
    ensures
        byte_len(a + b) == byte_len(a) + byte_len(b),
{
    lemma_byte_len_encode(a);
    lemma_byte_len_encode(b);
    lemma_byte_len_encode(a + b);
    lemma_encode_concat(a, b);
}

pub proof fn lemma_byte_len_push(s: Seq<char>, c: char)
    ensures
        byte_len(s.push(c)) == byte_len(s) + char_width(c),
{
    assert(s.push(c).drop_last() =~= s);
}

pub proof fn lemma_byte_len_ge(s: Seq<char>)
    ensures
        s.len() <= byte_len(s) <= 4 * s.len(),
    decreases s.len(),
{
    if s.len() > 0 {
        lemma_byte_len_ge(s.drop_last());
    }
}

/// Byte length of a prefix never exceeds the byte length of the whole.
pub proof fn lemma_byte_len_prefix(s: Seq<char>, n: int)
    requires
        0 <= n <= s.len(),
    ensures
        byte_len(s.take(n)) <= byte_len(s),
        byte_len(s) == byte_len(s.take(n)) + byte_len(s.skip(n)),
{
    assert(s =~= s.take(n) + s.skip(n));
    lemma_byte_len_concat(s.take(n), s.skip(n));
}

pub proof fn lemma_byte_len_ascii(s: Seq<char>)
    requires
        is_ascii_chars(s),
    ensures
        byte_len(s) == s.len(),
    decreases s.len(),
{
    if s.len() > 0 {
        assert(is_ascii_chars(s.drop_last()));
        lemma_byte_len_ascii(s.drop_last());
    }
}

/// Byte length of a string.
pub fn str_bytes(s: &str) -> (n: usize)
    ensures
        n == byte_len(s@),
{
    proof {
        lemma_byte_len_encode(s@);
    }
    s.as_bytes().len()
}

/// Byte width of one character.
pub fn width_of(c: char) -> (n: usize)
    ensures
        n == char_width(c),
        1 <= n <= 4,
{
    let v: u32 = c as u32;
    if v <= 0x7f {
        1
    } else if v <= 0x7ff {
        2
    } else if v <= 0xffff {
        3
    } else {
        4
    }
}

/// The characters of a string.
pub fn chars_of(s: &str) -> (v: Vec<char>)
    ensures
        v@ == s@,
{
    let mut v: Vec<char> = Vec::new();
    for c in it: s.chars()
        invariant
            v@ == it.seq().take(it.index()),
            it.seq() == s@,
    {
        v.push(c);
        assert(it.seq().take(it.index() + 1) =~= it.seq().take(it.index()).push(c));
    }
    assert(s@.take(s@.len() as int) =~= s@);
    v
}

/// The string made of `chars[from..to]`.
pub fn string_of(chars: &[char], from: usize, to: usize) -> (s: String)
    requires
        from <= to <= chars@.len(),
    ensures
        s@ == chars@.subrange(from as int, to as int),
{
    let mut s: String = String::new();
    let mut i: usize = from;
    while i < to
        invariant
            from <= i <= to <= chars@.len(),
            s@ == chars@.subrange(from as int, i as int),
        decreases to - i,
    {
        s.push(chars[i]);
        i += 1;
        assert(s@ =~= chars@.subrange(from as int, i as int));
    }
    s
}

/// Whether two strings hold the same characters.
pub fn str_eq(a: &str, b: &str) -> (r: bool)
    ensures
        r == (a@ == b@),
{
    let x = a.as_bytes();
    let y = b.as_bytes();
    proof {
        if encode_utf8(a@) == encode_utf8(b@) {
            encode_utf8_decode_utf8(a@);
            encode_utf8_decode_utf8(b@);
        }
    }
    bytes_eq(x, y)
}

/// Whether two byte sequences are the same.
pub fn bytes_eq(a: &[u8], b: &[u8]) -> (r: bool)
    ensures
        r == (a@ == b@),
{
    if a.len() != b.len() {
        return false;
    }
    let mut i: usize = 0;
    while i < a.len()
        invariant
            i <= a@.len(),
            a@.len() == b@.len(),
            forall|j: int| 0 <= j < i ==> a@[j] == b@[j],
        decreases a@.len() - i,
    {
        if a[i] != b[i] {
            return false;
        }
        i += 1;
    }
    assert(a@ =~= b@);
    true
}

/// The longest prefix that takes at most `max` bytes.
pub open spec fn fit_prefix(s: Seq<char>, max: nat) -> Seq<char>
    decreases s.len(),
{
    if byte_len(s) <= max {
        s
    } else {
        fit_prefix(s.drop_last(), max)
    }
}

pub proof fn lemma_fit_prefix(s: Seq<char>, max: nat, n: int)
    requires
        0 <= n <= s.len(),
        byte_len(s.take(n)) <= max,
        n < s.len() ==> byte_len(s.take(n + 1)) > max,
    ensures
        fit_prefix(s, max) == s.take(n),
    decreases s.len(),
{
    if n == s.len() {
        assert(s.take(n) =~= s);
    } else {
        lemma_byte_len_prefix(s, n + 1);
        let t = s.drop_last();
        assert(t.take(n) =~= s.take(n));
        if n < t.len() {
            assert(t.take(n + 1) =~= s.take(n + 1));
        }
        lemma_fit_prefix(t, max, n);
    }
}

/// What `fit_prefix` promises: a prefix, within the bound, and no longer prefix fits.
pub proof fn lemma_fit_prefix_bound(s: Seq<char>, max: nat)
    ensures
        byte_len(fit_prefix(s, max)) <= max,
        fit_prefix(s, max).len() <= s.len(),
        fit_prefix(s, max) == s.take(fit_prefix(s, max).len() as int),
    decreases s.len(),
{
    if byte_len(s) <= max {
        assert(s.take(s.len() as int) =~= s);
    } else {
        lemma_fit_prefix_bound(s.drop_last(), max);
        let n = fit_prefix(s, max).len() as int;
        assert(s.drop_last().take(n) =~= s.take(n));
    }
}

/// Cuts a string to its longest prefix of at most `max` bytes.
pub fn fit(s: &str, max: usize) -> (r: String)
    ensures
        r@ == fit_prefix(s@, max as nat),
{
    let chars = chars_of(s);
    let mut used: usize = 0;
    let mut n: usize = 0;
    while n < chars.len() && width_of(chars[n]) <= max - used
        invariant
            n <= chars@.len(),
            chars@ == s@,
            used == byte_len(s@.take(n as int)),
            used <= max,
        decreases chars@.len() - n,
    {
        proof {
            assert(s@.take(n as int + 1) =~= s@.take(n as int).push(s@[n as int]));
            lemma_byte_len_push(s@.take(n as int), s@[n as int]);
        }
        used += width_of(chars[n]);
        n += 1;
    }
    proof {
        if n < s@.len() {
            assert(s@.take(n as int + 1) =~= s@.take(n as int).push(s@[n as int]));
            lemma_byte_len_push(s@.take(n as int), s@[n as int]);
        }
        lemma_fit_prefix(s@, max as nat, n as int);
    }
    string_of(chars.as_slice(), 0, n)
}

/// Calls `std::str::from_utf8`: it succeeds exactly on well-formed UTF-8 and
/// gives the characters that the bytes encode.
#[verifier::external_body]
pub(crate) fn utf8_str(bytes: &[u8]) -> (r: Option<&str>)
    ensures
        r is Some <==> valid_utf8(bytes@),
        r is Some ==> r->0@ == decode_utf8(bytes@),
{
    std::str::from_utf8(bytes).ok()
}

/// What `String::from_utf8_lossy` reads out of bytes.
pub uninterp spec fn lossy_text(bytes: Seq<u8>) -> Seq<char>;

/// Calls `String::from_utf8_lossy`. Well-formed UTF-8 is read as what it encodes;
/// what stands for bytes that are none is left to the standard library.
#[verifier::external_body]
pub(crate) fn read_lossily(bytes: &[u8]) -> (r: String)
    ensures
        r@ == lossy_text(bytes@),
        valid_utf8(bytes@) ==> r@ == decode_utf8(bytes@),
{
    String::from_utf8_lossy(bytes).into_owned()
}

/// Whether bytes are well-formed UTF-8.
pub fn is_utf8(bytes: &[u8]) -> (r: bool)
    ensures
        r == valid_utf8(bytes@),
{
    utf8_str(bytes).is_some()
}

/// Copies a list of strings.
pub fn copy_strings(v: &Vec<String>) -> (r: Vec<String>)
    ensures
        r@ == v@,
{
    let mut r: Vec<String> = Vec::new();
    let mut i: usize = 0;
    while i < v.len()
        invariant
            i <= v@.len(),
            r@ == v@.take(i as int),
        decreases v@.len() - i,
    {
        r.push(v[i].clone());
        i += 1;
        assert(r@ =~= v@.take(i as int));
    }
    assert(v@.take(v@.len() as int) =~= v@);
    r
}

/// Copies `bytes[from..to]`.
pub fn copy_bytes(bytes: &[u8], from: usize, to: usize) -> (r: Vec<u8>)
    requires
        from <= to <= bytes@.len(),
    ensures
        r@ == bytes@.subrange(from as int, to as int),
{
    let mut r: Vec<u8> = Vec::new();
    let mut i: usize = from;
    while i < to
        invariant
            from <= i <= to <= bytes@.len(),
            r@ == bytes@.subrange(from as int, i as int),
        decreases to - i,
    {
        r.push(bytes[i]);
        i += 1;
        assert(r@ =~= bytes@.subrange(from as int, i as int));
    }
    r
}

/// The lower-case hexadecimal digit of a number below 16.
pub open spec fn hex_digit(n: int) -> char {
    if n < 10 {
        (('0' as int) + n) as char
    } else {
        (('a' as int) + n - 10) as char
    }
}

/// The number that a lower-case hexadecimal digit stands for.
pub open spec fn hex_value(c: char) -> int {
    if '0' <= c <= '9' {
        c as int - '0' as int
    } else {
        c as int - 'a' as int + 10
    }
}

pub open spec fn is_hex_char(c: char) -> bool {
    '0' <= c <= '9' || 'a' <= c <= 'f'
}

/// Two lower-case hexadecimal digits for each byte.
pub open spec fn hex_of(bytes: Seq<u8>) -> Seq<char> {
    Seq::new(
        2 * bytes.len(),
        |i: int|
            if i % 2 == 0 {
                hex_digit(bytes[i / 2] as int / 16)
            } else {
                hex_digit(bytes[i / 2] as int % 16)
            },
    )
}

/// The bytes that a string of hexadecimal digits stands for.
pub open spec fn bytes_of_hex(s: Seq<char>) -> Seq<u8> {
    Seq::new(
        s.len() / 2,
        |i: int| (hex_value(s[2 * i]) * 16 + hex_value(s[2 * i + 1])) as u8,
    )
}

/// An even number of lower-case hexadecimal digits and nothing else.
pub open spec fn is_hex_text(s: Seq<char>) -> bool {
    s.len() % 2 == 0 && forall|i: int| 0 <= i < s.len() ==> is_hex_char(#[trigger] s[i])
}

/// Reading hexadecimal digits gives back the bytes they were written for.
pub proof fn hex_round_trip(bytes: Seq<u8>)
    ensures
        is_hex_text(hex_of(bytes)),
        bytes_of_hex(hex_of(bytes)) == bytes,
{
    let s = hex_of(bytes);
    assert forall|i: int| 0 <= i < s.len() implies is_hex_char(#[trigger] s[i]) by {
        let b = bytes[i / 2] as int;
        assert(0 <= b / 16 < 16 && 0 <= b % 16 < 16);
    }
    assert forall|i: int| 0 <= i < bytes.len() implies bytes_of_hex(s)[i] == bytes[i] by {
        assert((2 * i) / 2 == i && (2 * i) % 2 == 0);
        assert((2 * i + 1) / 2 == i && (2 * i + 1) % 2 == 1);
        let b = bytes[i] as int;
        assert(0 <= b / 16 < 16 && 0 <= b % 16 < 16);
        assert(hex_value(hex_digit(b / 16)) == b / 16);
        assert(hex_value(hex_digit(b % 16)) == b % 16);
        assert((b / 16) * 16 + b % 16 == b);
    }
    assert(bytes_of_hex(s) =~= bytes);
}

/// The lower-case hexadecimal digit of a number below 16.
pub fn hex_char(n: u8) -> (c: char)
    requires
        n < 16,
    ensures
        c == hex_digit(n as int),
{
    if n < 10 {
        (48u8 + n) as char
    } else {
        (87u8 + n) as char
    }
}

/// Writes each byte as two lower-case hexadecimal digits.
pub fn encode_hex(bytes: &[u8]) -> (s: String)
    ensures
        s@ == hex_of(bytes@),
{
    let mut out: String = String::new();
    let mut i: usize = 0;
    assert(hex_of(bytes@.take(0)) =~= Seq::<char>::empty());
    while i < bytes.len()
        invariant
            i <= bytes@.len(),
            out@ == hex_of(bytes@.take(i as int)),
        decreases bytes@.len() - i,
    {
        let b: u8 = bytes[i];
        let ghost before = out@;
        out.push(hex_char(b / 16));
        out.push(hex_char(b % 16));
        i += 1;
        assert(out@ =~= hex_of(bytes@.take(i as int))) by {
            let t = hex_of(bytes@.take(i as int));
            assert(t.len() == 2 * i);
            assert forall|j: int| 0 <= j < 2 * i implies out@[j] == t[j] by {
                if j < 2 * (i - 1) {
                    assert(j / 2 < i - 1);
                    assert(bytes@.take(i as int)[j / 2] == bytes@.take(i - 1)[j / 2]);
                } else {
                    assert(j / 2 == i - 1);
                }
            }
        }
    }
    assert(bytes@.take(bytes@.len() as int) =~= bytes@);
    out
}

/// The number that a lower-case hexadecimal digit stands for.
pub fn nibble(c: char) -> (n: u8)
    requires
        is_hex_char(c),
    ensures
        n == hex_value(c),
        n < 16,
{
    let v: u32 = c as u32;
    if v <= 57 {
        (v - 48) as u8
    } else {
        (v - 87) as u8
    }
}

/// Reads hexadecimal digits back into bytes.
pub fn decode_hex(s: &str) -> (r: Option<Vec<u8>>)
    ensures
        r is Some <==> is_hex_text(s@),
        r is Some ==> r->0@ == bytes_of_hex(s@),
{
    let chars = chars_of(s);
    if chars.len() % 2 != 0 {
        return None;
    }
    let mut out: Vec<u8> = Vec::new();
    let mut i: usize = 0;
    while i < chars.len()
        invariant
            i <= chars@.len(),
            chars@ == s@,
            s@.len() % 2 == 0,
            i % 2 == 0,
            forall|j: int| 0 <= j < i ==> is_hex_char(#[trigger] s@[j]),
            out@.len() == i / 2,
            forall|j: int| 0 <= j < i / 2 ==> #[trigger] out@[j] == bytes_of_hex(s@)[j],
        decreases chars@.len() - i,
    {
        let a = chars[i];
        let b = chars[i + 1];
        let fine_a = ('0' <= a && a <= '9') || ('a' <= a && a <= 'f');
        let fine_b = ('0' <= b && b <= '9') || ('a' <= b && b <= 'f');
        if !fine_a {
            assert(!is_hex_char(s@[i as int]));
            return None;
        }
        if !fine_b {
            assert(!is_hex_char(s@[i as int + 1]));
            return None;
        }
        let byte: u8 = nibble(a) * 16 + nibble(b);
        out.push(byte);
        assert(bytes_of_hex(s@)[i as int / 2] == byte) by {
            assert(2 * (i as int / 2) == i);
        }
        i += 2;
    }
    assert(out@ =~= bytes_of_hex(s@));
    Some(out)
}

/// The lower-case hexadecimal numeral of a number, without leading zeros.
pub open spec fn hex_numeral(n: nat) -> Seq<char>
    decreases n,
{
    if n < 16 {
        seq![hex_digit(n as int)]
    } else {
        hex_numeral(n / 16).push(hex_digit((n % 16) as int))
    }
}

/// The decimal numeral of a number, without leading zeros.
pub open spec fn decimal(n: nat) -> Seq<char>
    decreases n,
{
    if n < 10 {
        seq![hex_digit(n as int)]
    } else {
        decimal(n / 10).push(hex_digit((n % 10) as int))
    }
}

/// Writes a number in hexadecimal.
pub fn write_hex(n: u32) -> (s: String)
    ensures
        s@ == hex_numeral(n as nat),
    decreases n,
{
    let digit = hex_char((n % 16) as u8);
    if n < 16 {
        let mut s: String = String::new();
        s.push(digit);
        assert(s@ =~= hex_numeral(n as nat));
        s
    } else {
        let mut s = write_hex(n / 16);
        s.push(digit);
        s
    }
}

/// Writes a number in decimal.
pub fn write_decimal(n: u64) -> (s: String)
    ensures
        s@ == decimal(n as nat),
    decreases n,
{
    let digit = hex_char((n % 10) as u8);
    if n < 10 {
        let mut s: String = String::new();
        s.push(digit);
        assert(s@ =~= decimal(n as nat));
        s
    } else {
        let mut s = write_decimal(n / 10);
        s.push(digit);
        s
    }
}

/// The strings of a list, one behind the other.
pub open spec fn joined(parts: Seq<Seq<char>>) -> Seq<char>
    decreases parts.len(),
{
    if parts.len() == 0 {
        Seq::empty()
    } else {
        parts[0] + joined(parts.skip(1))
    }
}

/// The characters of each string of a list.
pub open spec fn texts(v: Seq<String>) -> Seq<Seq<char>> {
    Seq::new(v.len(), |i: int| v[i]@)
}

pub proof fn lemma_joined_concat(a: Seq<Seq<char>>, b: Seq<Seq<char>>)
    ensures
        joined(a + b) == joined(a) + joined(b),
    decreases a.len(),
{
    if a.len() == 0 {
        assert(a + b =~= b);
        assert(joined(a) + joined(b) =~= joined(b));
    } else {
        assert((a + b).skip(1) =~= a.skip(1) + b);
        lemma_joined_concat(a.skip(1), b);
        assert(joined(a + b) =~= joined(a) + joined(b));
    }
}

/// The pieces before a place and the pieces from it on.
pub proof fn lemma_joined_split(parts: Seq<Seq<char>>, n: int)
    requires
        0 <= n <= parts.len(),
    ensures
        joined(parts) == joined(parts.take(n)) + joined(parts.skip(n)),
        byte_len(joined(parts.take(n))) <= byte_len(joined(parts)),
        n < parts.len() ==> joined(parts.take(n + 1)) == joined(parts.take(n)) + parts[n],
{
    assert(parts =~= parts.take(n) + parts.skip(n));
    lemma_joined_concat(parts.take(n), parts.skip(n));
    lemma_byte_len_concat(joined(parts.take(n)), joined(parts.skip(n)));
    if n < parts.len() {
        let one = seq![parts[n]];
        assert(parts.take(n + 1) =~= parts.take(n) + one);
        lemma_joined_concat(parts.take(n), one);
        assert(one.skip(1) =~= Seq::<Seq<char>>::empty());
        assert(joined(one) =~= parts[n]) by {
            reveal_with_fuel(joined, 2);
        }
    }
}

/// Writes the strings of a list one behind the other.
pub fn join_all(parts: &Vec<String>) -> (r: String)
    ensures
        r@ == joined(texts(parts@)),
{
    let ghost all = texts(parts@);
    let mut r = String::new();
    let mut i: usize = 0;
    assert(all.take(0) =~= Seq::<Seq<char>>::empty());
    assert(r@ =~= joined(all.take(0)));
    while i < parts.len()
        invariant
            i <= parts@.len(),
            all == texts(parts@),
            r@ == joined(all.take(i as int)),
        decreases parts@.len() - i,
    {
        proof {
            lemma_joined_split(all, i as int);
        }
        r.push_str(parts[i].as_str());
        i += 1;
    }
    assert(all.take(all.len() as int) =~= all);
    r
}

// Kinds of characters.

/// The characters with the Unicode property White_Space.
pub open spec fn is_white(c: char) -> bool {
    let v = c as u32;
    ||| 0x09 <= v <= 0x0d
    ||| v == 0x20
    ||| v == 0x85
    ||| v == 0xa0
    ||| v == 0x1680
    ||| 0x2000 <= v <= 0x200a
    ||| v == 0x2028
    ||| v == 0x2029
    ||| v == 0x202f
    ||| v == 0x205f
    ||| v == 0x3000
}

/// The control characters.
pub open spec fn is_control(c: char) -> bool {
    let v = c as u32;
    v <= 0x1f || 0x7f <= v <= 0x9f
}

pub fn white(c: char) -> (r: bool)
    ensures
        r == is_white(c),
{
    let v: u32 = c as u32;
    (0x09 <= v && v <= 0x0d) || v == 0x20 || v == 0x85 || v == 0xa0 || v == 0x1680 || (0x2000 <= v && v
        <= 0x200a) || v == 0x2028 || v == 0x2029 || v == 0x202f || v == 0x205f || v == 0x3000
}

pub fn control(c: char) -> (r: bool)
    ensures
        r == is_control(c),
{
    let v: u32 = c as u32;
    v <= 0x1f || (0x7f <= v && v <= 0x9f)
}

/// The first place at or after `from` that holds no white space.
pub open spec fn white_end(s: Seq<char>, from: int) -> int
    decreases s.len() - from,
{
    if from >= s.len() || !is_white(s[from]) {
        from
    } else {
        white_end(s, from + 1)
    }
}

/// The place behind the last character before `to` that is no white space.
pub open spec fn white_start(s: Seq<char>, to: int) -> int
    decreases to,
{
    if to <= 0 || !is_white(s[to - 1]) {
        to
    } else {
        white_start(s, to - 1)
    }
}

/// A text without the white space at its ends.
pub open spec fn trimmed(s: Seq<char>) -> Seq<char> {
    let a = white_end(s, 0);
    if a >= s.len() {
        Seq::empty()
    } else {
        s.subrange(a, white_start(s, s.len() as int))
    }
}

/// Takes the white space off the ends of a text.
pub fn trim(s: &str) -> (r: String)
    ensures
        r@ == trimmed(s@),
{
    let chars = chars_of(s);
    let mut a: usize = 0;
    while a < chars.len() && white(chars[a])
        invariant
            a <= chars@.len(),
            chars@ == s@,
            white_end(s@, 0) == white_end(s@, a as int),
        decreases chars@.len() - a,
    {
        a += 1;
    }
    if a == chars.len() {
        return String::new();
    }
    let mut b: usize = chars.len();
    while white(chars[b - 1])
        invariant
            a < chars@.len(),
            a < b <= chars@.len(),
            chars@ == s@,
            !is_white(s@[a as int]),
            white_start(s@, s@.len() as int) == white_start(s@, b as int),
        decreases b,
    {
        b -= 1;
    }
    string_of(chars.as_slice(), a, b)
}

/// A signed number in decimal.
pub open spec fn signed(n: int) -> Seq<char> {
    if n < 0 {
        "-"@ + decimal((-n) as nat)
    } else {
        decimal(n as nat)
    }
}

pub fn write_signed(n: i32) -> (r: String)
    ensures
        r@ == signed(n as int),
{
    if n < 0 {
        let mut r = "-".to_owned();
        let m: i64 = -(n as i64);
        r.push_str(write_decimal(m as u64).as_str());
        r
    } else {
        write_decimal(n as u64)
    }
}

// Lines.

/// The place of the first character of a kind at or after a place, or the end.
pub open spec fn place_of(s: Seq<char>, c: char, from: nat) -> nat
    decreases s.len() - from,
{
    if from >= s.len() {
        s.len()
    } else if s[from as int] == c {
        from
    } else {
        place_of(s, c, from + 1)
    }
}

pub proof fn lemma_place_of(s: Seq<char>, c: char, from: nat)
    requires
        from <= s.len(),
    ensures
        from <= place_of(s, c, from) <= s.len(),
        place_of(s, c, from) < s.len() ==> s[place_of(s, c, from) as int] == c,
    decreases s.len() - from,
{
    if from < s.len() && s[from as int] != c {
        lemma_place_of(s, c, from + 1);
    }
}

/// The place of a character that stands nowhere before it.
pub proof fn lemma_place_is(s: Seq<char>, c: char, from: nat, at: nat)
    requires
        from <= at <= s.len(),
        forall|i: int| from <= i < at ==> #[trigger] s[i] != c,
        at < s.len() ==> s[at as int] == c,
    ensures
        place_of(s, c, from) == at,
    decreases at - from,
{
    if from < at {
        lemma_place_is(s, c, from + 1, at);
    }
}

/// A line that ended in a line feed, without the carriage return before it.
pub open spec fn without_return(line: Seq<char>) -> Seq<char> {
    if line.len() > 0 && line.last() == '\r' {
        line.drop_last()
    } else {
        line
    }
}

/// The lines of a text. What ends in no line feed is a line too.
pub open spec fn lines(s: Seq<char>) -> Seq<Seq<char>>
    decreases s.len(),
{
    let k = place_of(s, '\n', 0);
    if s.len() == 0 {
        Seq::empty()
    } else if k < s.len() {
        seq![without_return(s.take(k as int))] + lines(s.skip((k + 1) as int))
    } else {
        seq![s]
    }
}

/// One more line behind whole lines.
pub proof fn lemma_lines_push(s: Seq<char>, line: Seq<char>)
    requires
        s.len() == 0 || s.last() == '\n',
        forall|i: int| 0 <= i < line.len() ==> #[trigger] line[i] != '\n',
    ensures
        lines(s + line.push('\n')) == lines(s).push(without_return(line)),
    decreases s.len(),
{
    let all = s + line.push('\n');
    if s.len() == 0 {
        assert(all =~= line.push('\n'));
        lemma_place_is(all, '\n', 0, line.len());
        assert(all.take(line.len() as int) =~= line);
        assert(all.skip((line.len() + 1) as int) =~= Seq::<char>::empty());
        assert(lines(Seq::<char>::empty()) =~= Seq::<Seq<char>>::empty());
        assert(lines(all) =~= seq![without_return(line)]);
        assert(lines(s).push(without_return(line)) =~= seq![without_return(line)]);
    } else {
        let k = place_of(s, '\n', 0);
        lemma_place_of(s, '\n', 0);
        lemma_place_before(s, '\n', 0);
        assert(k < s.len());
        assert forall|i: int| 0 <= i < k implies #[trigger] all[i] != '\n' by {
            assert(all[i] == s[i]);
        }
        lemma_place_is(all, '\n', 0, k);
        let rest = s.skip((k + 1) as int);
        assert(all.take(k as int) =~= s.take(k as int));
        assert(all.skip((k + 1) as int) =~= rest + line.push('\n'));
        if rest.len() > 0 {
            assert(rest.last() == s.last());
        }
        lemma_lines_push(rest, line);
        assert(lines(all) =~= lines(s).push(without_return(line)));
    }
}

/// Before the first one there is none.
proof fn lemma_place_before(s: Seq<char>, c: char, from: nat)
    requires
        from <= s.len(),
    ensures
        forall|i: int| from <= i < place_of(s, c, from) ==> #[trigger] s[i] != c,
        (exists|i: int| from <= i < s.len() && #[trigger] s[i] == c) ==> place_of(s, c, from) < s.len(),
    decreases s.len() - from,
{
    if from < s.len() && s[from as int] != c {
        lemma_place_before(s, c, from + 1);
    }
}

/// A text that neither starts nor ends in white space stays as it is.
pub proof fn lemma_trimmed(s: Seq<char>)
    requires
        s.len() > 0,
        !is_white(s[0]),
        !is_white(s.last()),
    ensures
        trimmed(s) == s,
{
    assert(white_end(s, 0) == 0);
    assert(white_start(s, s.len() as int) == s.len());
    assert(s.subrange(0, s.len() as int) =~= s);
}

pub fn find_char(chars: &Vec<char>, c: char, from: usize) -> (r: usize)
    requires
        from <= chars@.len(),
    ensures
        r == place_of(chars@, c, from as nat),
        from <= r <= chars@.len(),
{
    let mut i: usize = from;
    while i < chars.len() && chars[i] != c
        invariant
            from <= i <= chars@.len(),
            place_of(chars@, c, from as nat) == place_of(chars@, c, i as nat),
        decreases chars@.len() - i,
    {
        i += 1;
    }
    i
}

proof fn lemma_place_skip(s: Seq<char>, c: char, at: nat, from: nat)
    requires
        at <= from <= s.len(),
    ensures
        place_of(s.skip(at as int), c, (from - at) as nat) + at == place_of(s, c, from),
    decreases s.len() - from,
{
    if from < s.len() {
        assert(s.skip(at as int)[from - at] == s[from as int]);
        if s[from as int] != c {
            lemma_place_skip(s, c, at, from + 1);
        }
    }
}

/// Splits a text into its lines.
pub fn split_lines(s: &str) -> (r: Vec<String>)
    ensures
        texts(r@) == lines(s@),
{
    let chars = chars_of(s);
    let mut r: Vec<String> = Vec::new();
    let mut at: usize = 0;
    assert(texts(r@) =~= Seq::<Seq<char>>::empty());
    assert(s@.skip(0) =~= s@);
    assert(texts(r@) + lines(s@) =~= lines(s@));
    while at < chars.len()
        invariant
            at <= chars@.len(),
            chars@ == s@,
            texts(r@) + lines(s@.skip(at as int)) == lines(s@),
        decreases chars@.len() - at,
    {
        let ghost rest = s@.skip(at as int);
        let ghost before = r@;
        let k = find_char(&chars, '\n', at);
        proof {
            lemma_place_skip(s@, '\n', at as nat, at as nat);
        }
        if k == chars.len() {
            let line = string_of(chars.as_slice(), at, k);
            assert(line@ =~= rest);
            r.push(line);
            proof {
                assert(texts(r@) =~= texts(before) + seq![rest]);
                assert(texts(r@) =~= lines(s@));
            }
            return r;
        }
        let end: usize = if k > at && chars[k - 1] == '\r' {
            k - 1
        } else {
            k
        };
        let line = string_of(chars.as_slice(), at, end);
        proof {
            let whole = rest.take(k - at);
            assert(k > at ==> whole.last() == s@[k - 1]);
            assert(line@ =~= without_return(whole));
            assert(rest.skip(k - at + 1) =~= s@.skip(k + 1));
        }
        r.push(line);
        proof {
            assert(texts(r@) =~= texts(before).push(line@));
            assert(texts(r@) + lines(s@.skip(k + 1)) =~= texts(before) + lines(rest));
        }
        at = k + 1;
    }
    proof {
        assert(s@.skip(at as int).len() == 0);
        assert(texts(r@) + lines(s@.skip(at as int)) =~= texts(r@));
    }
    r
}

/// What a text is behind a beginning, where it has it.
pub open spec fn behind(s: Seq<char>, start: Seq<char>) -> Option<Seq<char>> {
    if s.len() >= start.len() && s.take(start.len() as int) == start {
        Some(s.skip(start.len() as int))
    } else {
        None
    }
}

pub fn strip_start(s: &str, start: &str) -> (r: Option<String>)
    ensures
        match behind(s@, start@) {
            Some(t) => r is Some && r->0@ == t,
            None => r is None,
        },
{
    let a = chars_of(s);
    let b = chars_of(start);
    if a.len() < b.len() {
        return None;
    }
    let mut i: usize = 0;
    while i < b.len()
        invariant
            i <= b@.len(),
            b@.len() <= a@.len(),
            a@ == s@,
            b@ == start@,
            forall|j: int| 0 <= j < i ==> #[trigger] b@[j] == a@[j],
        decreases b@.len() - i,
    {
        if a[i] != b[i] {
            proof {
                assert(s@.take(start@.len() as int)[i as int] == a@[i as int]);
            }
            return None;
        }
        i += 1;
    }
    assert(s@.take(start@.len() as int) =~= start@);
    let r = string_of(a.as_slice(), b.len(), a.len());
    assert(r@ =~= s@.skip(start@.len() as int));
    Some(r)
}

/// A name below a directory. With no directory it is the name.
pub open spec fn path_below(directory: Seq<char>, name: Seq<char>) -> Seq<char> {
    if directory.len() == 0 {
        name
    } else if directory.last() == '/' {
        directory + name
    } else {
        directory + "/"@ + name
    }
}

pub fn join_path(directory: &str, name: &str) -> (r: String)
    ensures
        r@ == path_below(directory@, name@),
{
    let chars = chars_of(directory);
    let mut r = directory.to_owned();
    if chars.len() > 0 && chars[chars.len() - 1] != '/' {
        r.push_str("/");
    }
    let ghost before = r@;
    r.push_str(name);
    assert(r@ =~= path_below(directory@, name@));
    r
}

// Building texts and lists of texts.

pub fn cat2(a: &str, b: &str) -> (r: String)
    ensures
        r@ == a@ + b@,
{
    let mut r = a.to_owned();
    r.push_str(b);
    r
}

pub fn cat3(a: &str, b: &str, c: &str) -> (r: String)
    ensures
        r@ == a@ + b@ + c@,
{
    let mut r = a.to_owned();
    r.push_str(b);
    r.push_str(c);
    r
}

pub fn cat4(a: &str, b: &str, c: &str, d: &str) -> (r: String)
    ensures
        r@ == a@ + b@ + c@ + d@,
{
    let mut r = a.to_owned();
    r.push_str(b);
    r.push_str(c);
    r.push_str(d);
    r
}

pub fn cat5(a: &str, b: &str, c: &str, d: &str, e: &str) -> (r: String)
    ensures
        r@ == a@ + b@ + c@ + d@ + e@,
{
    let mut r = a.to_owned();
    r.push_str(b);
    r.push_str(c);
    r.push_str(d);
    r.push_str(e);
    r
}

pub fn cat6(a: &str, b: &str, c: &str, d: &str, e: &str, f: &str) -> (r: String)
    ensures
        r@ == a@ + b@ + c@ + d@ + e@ + f@,
{
    let mut r = a.to_owned();
    r.push_str(b);
    r.push_str(c);
    r.push_str(d);
    r.push_str(e);
    r.push_str(f);
    r
}

pub fn cat7(a: &str, b: &str, c: &str, d: &str, e: &str, f: &str, g: &str) -> (r: String)
    ensures
        r@ == a@ + b@ + c@ + d@ + e@ + f@ + g@,
{
    let mut r = a.to_owned();
    r.push_str(b);
    r.push_str(c);
    r.push_str(d);
    r.push_str(e);
    r.push_str(f);
    r.push_str(g);
    r
}

/// Puts a line at the end of a list.
pub fn put(out: &mut Vec<String>, line: String)
    ensures
        texts(final(out)@) == texts(old(out)@).push(line@),
{
    let ghost before = out@;
    out.push(line);
    assert(texts(out@) =~= texts(before).push(line@));
}

// Letters without their case.

/// Whether the lower case of an ASCII letter, or another character itself, is
/// a given character.
pub open spec fn lowers_to(c: char, d: char) -> bool {
    if 'A' <= c <= 'Z' {
        c as u32 + 32 == d as u32
    } else {
        c == d
    }
}

pub fn char_lowers_to(c: char, d: char) -> (r: bool)
    ensures
        r == lowers_to(c, d),
{
    if 'A' <= c && c <= 'Z' {
        let x: u32 = c as u32;
        let y: u32 = d as u32;
        y >= 32 && y - 32 == x
    } else {
        c == d
    }
}

/// Whether a word stands at a place of a text whose letters are lowered.
pub open spec fn lowered_at(s: Seq<char>, word: Seq<char>, at: int) -> bool {
    0 <= at && at + word.len() <= s.len() && forall|j: int|
        0 <= j < word.len() ==> lowers_to(s[at + j], #[trigger] word[j])
}

fn word_at(s: &Vec<char>, word: &Vec<char>, at: usize) -> (r: bool)
    requires
        at <= s@.len(),
    ensures
        r == lowered_at(s@, word@, at as int),
{
    if s.len() - at < word.len() {
        return false;
    }
    let mut j: usize = 0;
    while j < word.len()
        invariant
            j <= word@.len(),
            at + word.len() <= s.len(),
            forall|k: int| 0 <= k < j ==> lowers_to(s@[at + k], #[trigger] word@[k]),
        decreases word@.len() - j,
    {
        if !char_lowers_to(s[at + j], word[j]) {
            return false;
        }
        j += 1;
    }
    true
}

/// Whether a word stands anywhere in a text whose letters are lowered.
pub open spec fn lowered_holds(s: Seq<char>, word: Seq<char>) -> bool {
    exists|at: int| #[trigger] lowered_at(s, word, at)
}

pub fn holds_lowered(s: &str, word: &str) -> (r: bool)
    ensures
        r == lowered_holds(s@, word@),
{
    let a = chars_of(s);
    let b = chars_of(word);
    let mut i: usize = 0;
    while i < a.len()
        invariant
            i <= a@.len(),
            a@ == s@,
            b@ == word@,
            forall|at: int| 0 <= at < i ==> !#[trigger] lowered_at(s@, word@, at),
        decreases a@.len() - i,
    {
        if word_at(&a, &b, i) {
            return true;
        }
        i += 1;
    }
    word_at(&a, &b, a.len())
}

/// Whether a text is a word once its letters are lowered.
pub open spec fn lowered_is(s: Seq<char>, word: Seq<char>) -> bool {
    s.len() == word.len() && lowered_at(s, word, 0)
}

pub fn is_lowered(s: &str, word: &str) -> (r: bool)
    ensures
        r == lowered_is(s@, word@),
{
    let a = chars_of(s);
    let b = chars_of(word);
    a.len() == b.len() && word_at(&a, &b, 0)
}

} // verus!
