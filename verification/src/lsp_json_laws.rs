//! How addresses and messages are written for a language server.

use crate::json::Json;
use crate::lsp_json;
use crate::text;
use vstd::prelude::*;

verus! {

/// Whether a byte stands for itself in an address: letters, digits, `-`, `.`, `_` and
/// `~`.
pub open spec fn is_unreserved(b: u8) -> bool {
    ||| 0x61 <= b <= 0x7a
    ||| 0x41 <= b <= 0x5a
    ||| 0x30 <= b <= 0x39
    ||| b == 0x2d
    ||| b == 0x2e
    ||| b == 0x5f
    ||| b == 0x7e
}

/// An address is written byte by byte: those that stand for themselves and, in a path,
/// the slash as they are, and every other as its two digits behind a percent sign.
pub proof fn an_address_is_written_byte_by_byte(bytes: Seq<u8>, b: u8, slash: bool)
    ensures
        lsp_json::percent(Seq::empty(), slash) == Seq::<char>::empty(),
        is_unreserved(b) || (slash && b == 0x2f) ==> lsp_json::percent(bytes.push(b), slash)
            == lsp_json::percent(bytes, slash).push(b as char),
        !(is_unreserved(b) || (slash && b == 0x2f)) ==> lsp_json::percent(bytes.push(b), slash)
            == lsp_json::percent(bytes, slash) + seq![
            '%',
            lsp_json::upper_hex(b as int / 16),
            lsp_json::upper_hex(b as int % 16),
        ],
{
    assert(bytes.push(b).drop_last() =~= bytes);
    let before = lsp_json::percent(bytes, slash);
    assert(before + seq![b as char] =~= before.push(b as char));
}

/// A digit of an address stands for its number.
pub proof fn a_digit_stands_for_its_number(n: int)
    requires
        0 <= n < 16,
    ensures
        n < 10 ==> lsp_json::upper_hex(n) as int == '0' as int + n,
        n >= 10 ==> lsp_json::upper_hex(n) as int == 'A' as int + n - 10,
{
}

/// A path has an address where it is absolute.
pub proof fn an_absolute_path_has_an_address(path: Seq<char>)
    ensures
        path.len() > 0 && path[0] == '/' ==> lsp_json::uri_of(Some(path)) == Ok::<
            Seq<char>,
            Seq<char>,
        >("file://"@ + lsp_json::percent(vstd::utf8::encode_utf8(path), true)),
        !(path.len() > 0 && path[0] == '/') ==> lsp_json::uri_of(Some(path)) is Err,
        lsp_json::uri_of(None) is Err,
{
}

/// A message is sent with the number of its bytes before it.
pub proof fn a_message_is_sent_with_its_length(message: Json)
    ensures
        lsp_json::framed(message) == "Content-Length: "@ + text::decimal(
            text::byte_len(crate::json::json_text(message)),
        ) + "\r\n\r\n"@ + crate::json::json_text(message),
{
}

/// Whether a value has no parts.
pub open spec fn is_single(value: Json) -> bool {
    !(value is Array) && !(value is Object)
}

/// A value without parts is within the limits where a text in it is short enough.
pub proof fn a_single_value_is_within_the_limits(value: Json, max: usize)
    requires
        is_single(value),
    ensures
        lsp_json::json_fault(value, max) is None <==> (value matches Json::Text(t) ==> text::byte_len(
            t,
        ) <= max),
{
}

proof fn lemma_singles(items: Seq<Json>, from: nat, count: nat, max: usize)
    requires
        from <= items.len(),
        count + (items.len() - from) <= 8192,
        forall|i: int|
            0 <= i < items.len() ==> is_single(#[trigger] items[i]) && (items[i]
                matches Json::Text(t) ==> text::byte_len(t) <= max),
    ensures
        lsp_json::visited_items(items, from, 1, count, max) == Ok::<nat, Seq<char>>(
            (count + (items.len() - from)) as nat,
        ),
    decreases items.len() - from,
{
    if from < items.len() {
        let item = items[from as int];
        assert(is_single(item));
        assert(lsp_json::visited(item, 1, count, max) == Ok::<nat, Seq<char>>(count + 1));
        lemma_singles(items, from + 1, count + 1, max);
    }
}

/// A list of up to 1024 values without parts is within the limits, and a longer one is
/// not.
pub proof fn a_list_is_within_the_limits_up_to_its_bound(items: Seq<Json>, max: usize)
    requires
        forall|i: int|
            0 <= i < items.len() ==> is_single(#[trigger] items[i]) && (items[i]
                matches Json::Text(t) ==> text::byte_len(t) <= max),
    ensures
        lsp_json::json_fault(Json::Array(items), max) is None <==> items.len() <= 1024,
{
    if items.len() <= 1024 {
        lemma_singles(items, 0, 1, max);
    }
}

} // verus!
