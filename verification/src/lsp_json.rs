//! The JSON that is exchanged with a language server, and its limits.

use crate::json;
use crate::json::{items_view, members_view, Json, JsonNumber, JsonValue};
use crate::text;
use vstd::prelude::*;

verus! {

pub const MAX_JSON_DEPTH: usize = 16;

pub const MAX_JSON_VALUES: usize = 8192;

pub const MAX_JSON_ITEMS: usize = 1024;

pub const MAX_JSON_KEY_BYTES: usize = 4096;

/// Limits that are set elsewhere in a workspace: how long a message, a string
/// in it, a label and an inserted text may be, and how many files there are.
#[derive(Clone, Copy, Debug, PartialEq, Eq)]
pub struct LspLimits {
    pub message_bytes: usize,
    pub string_bytes: usize,
    pub label_bytes: usize,
    pub inserted_bytes: usize,
    pub files: usize,
}

// Messages on the wire.

/// A message behind a line that says how many bytes it has.
pub open spec fn framed(message: Json) -> Seq<char> {
    let body = json::json_text(message);
    "Content-Length: "@ + text::decimal(text::byte_len(body)) + "\r\n\r\n"@ + body
}

pub fn write_frame(message: &JsonValue) -> (r: String)
    ensures
        r@ == framed(message.view()),
{
    let body = json::write_json(message);
    let mut r = "Content-Length: ".to_owned();
    r.push_str(text::write_decimal(text::str_bytes(body.as_str()) as u64).as_str());
    r.push_str("\r\n\r\n");
    r.push_str(body.as_str());
    r
}

/// The message that a body holds, if it is one.
pub fn read_body(body: &[u8]) -> (r: Option<JsonValue>)
    ensures
        r is Some <==> json::parsed_json(body@) is Some,
        r is Some ==> r->0.view() == json::parsed_json(body@)->0,
{
    json::parse_json(body)
}

// Building values.

pub fn text_value(s: &str) -> (r: JsonValue)
    ensures
        r.view() == Json::Text(s@),
{
    JsonValue::Text(s.to_owned())
}

pub fn number_value(n: u64) -> (r: JsonValue)
    ensures
        r.view() == Json::Unsigned(n),
{
    JsonValue::Number(JsonNumber::Unsigned(n))
}

pub fn integer_value(n: i64) -> (r: JsonValue)
    ensures
        r.view() == integer(n),
{
    if n >= 0 {
        JsonValue::Number(JsonNumber::Unsigned(n as u64))
    } else {
        JsonValue::Number(JsonNumber::Negative(n))
    }
}

pub open spec fn integer(n: i64) -> Json {
    if n >= 0 {
        Json::Unsigned(n as u64)
    } else {
        Json::Negative(n)
    }
}

pub fn array_value(items: Vec<JsonValue>) -> (r: JsonValue)
    ensures
        r.view() == Json::Array(items_view(items@)),
{
    let r = JsonValue::Array(items);
    assert(r.view()->Array_0 =~= items_view(items@));
    r
}

pub fn one(item: JsonValue) -> (r: JsonValue)
    ensures
        r.view() == Json::Array(seq![item.view()]),
{
    let items = vec![item];
    assert(items_view(items@) =~= seq![item.view()]);
    array_value(items)
}

pub fn two(a: JsonValue, b: JsonValue) -> (r: JsonValue)
    ensures
        r.view() == Json::Array(seq![a.view(), b.view()]),
{
    let items = vec![a, b];
    assert(items_view(items@) =~= seq![a.view(), b.view()]);
    array_value(items)
}

pub fn object_value(members: Vec<(String, JsonValue)>) -> (r: JsonValue)
    ensures
        r.view() == Json::Object(members_view(members@)),
{
    let r = JsonValue::Object(members);
    assert(r.view()->Object_0 =~= members_view(members@));
    r
}

pub fn object1(k: &str, v: JsonValue) -> (r: JsonValue)
    ensures
        r.view() == Json::Object(seq![(k@, v.view())]),
{
    let members = vec![(k.to_owned(), v)];
    assert(members_view(members@) =~= seq![(k@, v.view())]);
    object_value(members)
}

pub fn object2(k: &str, v: JsonValue, k2: &str, v2: JsonValue) -> (r: JsonValue)
    ensures
        r.view() == Json::Object(seq![(k@, v.view()), (k2@, v2.view())]),
{
    let members = vec![(k.to_owned(), v), (k2.to_owned(), v2)];
    assert(members_view(members@) =~= seq![(k@, v.view()), (k2@, v2.view())]);
    object_value(members)
}

pub fn object3(k: &str, v: JsonValue, k2: &str, v2: JsonValue, k3: &str, v3: JsonValue) -> (r: JsonValue)
    ensures
        r.view() == Json::Object(seq![(k@, v.view()), (k2@, v2.view()), (k3@, v3.view())]),
{
    let members = vec![(k.to_owned(), v), (k2.to_owned(), v2), (k3.to_owned(), v3)];
    assert(members_view(members@) =~= seq![(k@, v.view()), (k2@, v2.view()), (k3@, v3.view())]);
    object_value(members)
}

pub fn object4(
    k: &str,
    v: JsonValue,
    k2: &str,
    v2: JsonValue,
    k3: &str,
    v3: JsonValue,
    k4: &str,
    v4: JsonValue,
) -> (r: JsonValue)
    ensures
        r.view() == Json::Object(
            seq![(k@, v.view()), (k2@, v2.view()), (k3@, v3.view()), (k4@, v4.view())],
        ),
{
    let members = vec![
        (k.to_owned(), v),
        (k2.to_owned(), v2),
        (k3.to_owned(), v3),
        (k4.to_owned(), v4),
    ];
    assert(members_view(members@) =~= seq![
        (k@, v.view()),
        (k2@, v2.view()),
        (k3@, v3.view()),
        (k4@, v4.view()),
    ]);
    object_value(members)
}

// What the editor asks of every server.

/// Nothing runs by itself: no checks, no build scripts, no macros, no network.
pub open spec fn options() -> Json {
    Json::Object(
        seq![
            ("checkOnSave"@, Json::Bool(false)),
            (
                "cargo"@,
                Json::Object(
                    seq![
                        ("autoreload"@, Json::Bool(false)),
                        (
                            "buildScripts"@,
                            Json::Object(
                                seq![
                                    ("enable"@, Json::Bool(false)),
                                    ("rebuildOnSave"@, Json::Bool(false)),
                                    ("useRustcWrapper"@, Json::Bool(false)),
                                ],
                            ),
                        ),
                        (
                            "metadataExtraArgs"@,
                            Json::Array(seq![Json::Text("--locked"@), Json::Text("--offline"@)]),
                        ),
                    ],
                ),
            ),
            ("procMacro"@, Json::Object(seq![("enable"@, Json::Bool(false))])),
        ],
    )
}

pub fn initialization_options() -> (r: JsonValue)
    ensures
        r.view() == options(),
{
    let scripts = object3(
        "enable",
        JsonValue::Bool(false),
        "rebuildOnSave",
        JsonValue::Bool(false),
        "useRustcWrapper",
        JsonValue::Bool(false),
    );
    let arguments = two(text_value("--locked"), text_value("--offline"));
    let cargo = object3(
        "autoreload",
        JsonValue::Bool(false),
        "buildScripts",
        scripts,
        "metadataExtraArgs",
        arguments,
    );
    object3(
        "checkOnSave",
        JsonValue::Bool(false),
        "cargo",
        cargo,
        "procMacro",
        object1("enable", JsonValue::Bool(false)),
    )
}

/// Why a server's way of following documents does not serve, if it does not.
pub open spec fn sync_fault(value: Option<Json>) -> Option<Seq<char>> {
    match json::json_object(value) {
        None => Some("language server did not declare document synchronization options"@),
        Some(options) => if json::json_bool(json::member(options, "openClose"@)) != Some(true) {
            Some("language server did not declare document open/close support"@)
        } else {
            match json::json_u64(json::member(options, "change"@)) {
                Some(1) => None,
                Some(2) => None,
                _ => Some("language server does not support full document updates"@),
            }
        },
    }
}

/// What a fault says, as a result.
pub open spec fn answers(r: Result<(), String>, fault: Option<Seq<char>>) -> bool {
    match fault {
        None => r is Ok,
        Some(why) => r is Err && r->Err_0@ == why,
    }
}

pub fn validate_text_sync(value: Option<&JsonValue>) -> (r: Result<(), String>)
    ensures
        answers(r, sync_fault(json::json_ref(value))),
{
    let options = match json::as_object(value) {
        Some(options) => options,
        None => {
            return Err(
                "language server did not declare document synchronization options".to_owned(),
            );
        },
    };
    match json::as_bool(json::get_member(options.as_slice(), "openClose")) {
        Some(true) => {},
        _ => {
            return Err("language server did not declare document open/close support".to_owned());
        },
    }
    match json::as_u64(json::get_member(options.as_slice(), "change")) {
        Some(1) => Ok(()),
        Some(2) => Ok(()),
        _ => Err("language server does not support full document updates".to_owned()),
    }
}

// Addresses.

/// A byte that stands for itself in an address.
pub open spec fn plain_byte(b: u8, keep_slash: bool) -> bool {
    ||| 0x30 <= b <= 0x39
    ||| 0x41 <= b <= 0x5a
    ||| 0x61 <= b <= 0x7a
    ||| b == 0x2d
    ||| b == 0x2e
    ||| b == 0x5f
    ||| b == 0x7e
    ||| keep_slash && b == 0x2f
}

pub open spec fn upper_hex(n: int) -> char {
    if n < 10 {
        (0x30 + n) as char
    } else {
        (0x41 + n - 10) as char
    }
}

pub open spec fn byte_code(b: u8, keep_slash: bool) -> Seq<char> {
    if plain_byte(b, keep_slash) {
        seq![b as char]
    } else {
        seq!['%', upper_hex(b as int / 16), upper_hex(b as int % 16)]
    }
}

/// Bytes as they stand in an address.
pub open spec fn percent(bytes: Seq<u8>, keep_slash: bool) -> Seq<char>
    decreases bytes.len(),
{
    if bytes.len() == 0 {
        Seq::empty()
    } else {
        percent(bytes.drop_last(), keep_slash) + byte_code(bytes.last(), keep_slash)
    }
}

fn hex_letter(n: u8) -> (r: char)
    requires
        n < 16,
    ensures
        r == upper_hex(n as int),
{
    if n < 10 {
        (0x30 + n) as char
    } else {
        (0x41 + (n - 10)) as char
    }
}

pub fn percent_encode(bytes: &[u8], keep_slash: bool) -> (r: String)
    ensures
        r@ == percent(bytes@, keep_slash),
{
    let mut r: String = String::new();
    let mut i: usize = 0;
    while i < bytes.len()
        invariant
            i <= bytes@.len(),
            r@ == percent(bytes@.take(i as int), keep_slash),
        decreases bytes@.len() - i,
    {
        let b: u8 = bytes[i];
        proof {
            assert(bytes@.take(i + 1).drop_last() =~= bytes@.take(i as int));
            assert(bytes@.take(i + 1).last() == b);
        }
        let ghost before = r@;
        let keep = (0x30 <= b && b <= 0x39) || (0x41 <= b && b <= 0x5a) || (0x61 <= b && b <= 0x7a)
            || b == 0x2d || b == 0x2e || b == 0x5f || b == 0x7e || (keep_slash && b == 0x2f);
        if keep {
            r.push(b as char);
        } else {
            r.push('%');
            r.push(hex_letter(b / 16));
            r.push(hex_letter(b % 16));
        }
        assert(r@ =~= before + byte_code(b, keep_slash));
        i += 1;
    }
    assert(bytes@.take(bytes@.len() as int) =~= bytes@);
    r
}

/// The address of a directory, or why it has none. No text stands for a path
/// that is not UTF-8.
pub open spec fn uri_of(path: Option<Seq<char>>) -> Result<Seq<char>, Seq<char>> {
    match path {
        None => Err("language-server workspace path is not UTF-8"@),
        Some(p) => if p.len() == 0 || p[0] != '/' {
            Err("language-server workspace path is not absolute"@)
        } else {
            Ok("file://"@ + percent(vstd::utf8::encode_utf8(p), true))
        },
    }
}

pub fn file_uri(path: Option<&str>) -> (r: Result<String, String>)
    ensures
        match uri_of(
            match path {
                Some(p) => Some(p@),
                None => None,
            },
        ) {
            Ok(uri) => r is Ok && r->Ok_0@ == uri,
            Err(why) => r is Err && r->Err_0@ == why,
        },
{
    match path {
        None => Err("language-server workspace path is not UTF-8".to_owned()),
        Some(p) => {
            let chars = text::chars_of(p);
            if chars.len() == 0 || chars[0] != '/' {
                return Err("language-server workspace path is not absolute".to_owned());
            }
            let mut uri = "file://".to_owned();
            uri.push_str(percent_encode(p.as_bytes(), true).as_str());
            Ok(uri)
        },
    }
}

/// The address of a document below a directory.
pub open spec fn document_address(root: Seq<char>, path: Seq<char>) -> Seq<char> {
    root + "/"@ + percent(vstd::utf8::encode_utf8(path), true)
}

pub fn document_uri(root_uri: &str, path: &str) -> (r: String)
    ensures
        r@ == document_address(root_uri@, path@),
{
    let mut r = root_uri.to_owned();
    r.push_str("/");
    r.push_str(percent_encode(path.as_bytes(), true).as_str());
    r
}

/// Whether the last part of a path has `.rs` behind a name.
pub open spec fn is_rust_path(path: Seq<char>) -> bool {
    &&& path.len() >= 4
    &&& path[path.len() - 1] == 's'
    &&& path[path.len() - 2] == 'r'
    &&& path[path.len() - 3] == '.'
    &&& path[path.len() - 4] != '/'
}

/// Whether a server is told of a document. The path has a slash between its
/// parts and none at its end.
pub fn supports_document(path: &str) -> (r: bool)
    ensures
        r == is_rust_path(path@),
{
    let chars = text::chars_of(path);
    let n: usize = chars.len();
    n >= 4 && chars[n - 1] == 's' && chars[n - 2] == 'r' && chars[n - 3] == '.' && chars[n - 4] != '/'
}

pub open spec fn version_fault(version: u64) -> Option<Seq<char>> {
    if version > 0x7fff_ffff {
        Some("language-server document version exceeds i32"@)
    } else {
        None
    }
}

pub fn checked_version(version: u64) -> (r: Result<i32, String>)
    ensures
        match version_fault(version) {
            None => r == Ok::<i32, String>(version as i32),
            Some(why) => r is Err && r->Err_0@ == why,
        },
{
    if version > 0x7fff_ffff {
        Err("language-server document version exceeds i32".to_owned())
    } else {
        Ok(version as i32)
    }
}

// Limits on values.

pub open spec fn long_key(members: Seq<(Seq<char>, Json)>) -> bool {
    exists|i: int|
        0 <= i < members.len() && text::byte_len((#[trigger] members[i]).0) > MAX_JSON_KEY_BYTES
}

/// Counts a value and what is in it, or says which limit it breaks first.
pub open spec fn visited(value: Json, depth: nat, count: nat, max: usize) -> Result<nat, Seq<char>>
    decreases value, 0nat,
{
    if depth > MAX_JSON_DEPTH {
        Err("language-server JSON nesting exceeds limit"@)
    } else if count + 1 > MAX_JSON_VALUES {
        Err("language-server JSON value count exceeds limit"@)
    } else {
        match value {
            Json::Text(t) => if text::byte_len(t) > max {
                Err("language-server JSON string exceeds limit"@)
            } else {
                Ok(count + 1)
            },
            Json::Array(items) => if items.len() > MAX_JSON_ITEMS {
                Err("language-server JSON array exceeds limit"@)
            } else {
                visited_items(items, 0, depth + 1, count + 1, max)
            },
            Json::Object(members) => if members.len() > MAX_JSON_ITEMS || long_key(members) {
                Err("language-server JSON object exceeds limit"@)
            } else {
                visited_members(members, 0, depth + 1, count + 1, max)
            },
            _ => Ok(count + 1),
        }
    }
}

pub open spec fn visited_items(items: Seq<Json>, from: nat, depth: nat, count: nat, max: usize) -> Result<
    nat,
    Seq<char>,
>
    decreases items, items.len() - from,
{
    if from >= items.len() {
        Ok(count)
    } else {
        match visited(items[from as int], depth, count, max) {
            Err(why) => Err(why),
            Ok(n) => visited_items(items, from + 1, depth, n, max),
        }
    }
}

pub open spec fn visited_members(
    members: Seq<(Seq<char>, Json)>,
    from: nat,
    depth: nat,
    count: nat,
    max: usize,
) -> Result<nat, Seq<char>>
    decreases members, members.len() - from,
{
    if from >= members.len() {
        Ok(count)
    } else {
        match visited(members[from as int].1, depth, count, max) {
            Err(why) => Err(why),
            Ok(n) => visited_members(members, from + 1, depth, n, max),
        }
    }
}

/// The limit that a value breaks first, if any.
pub open spec fn json_fault(value: Json, max: usize) -> Option<Seq<char>> {
    match visited(value, 0, 0, max) {
        Ok(n) => None,
        Err(why) => Some(why),
    }
}

fn has_long_key(members: &Vec<(String, JsonValue)>) -> (r: bool)
    ensures
        r == long_key(members_view(members@)),
{
    let ghost all = members_view(members@);
    let mut i: usize = 0;
    while i < members.len()
        invariant
            i <= members@.len(),
            all == members_view(members@),
            forall|j: int| 0 <= j < i ==> text::byte_len((#[trigger] all[j]).0) <= MAX_JSON_KEY_BYTES,
        decreases members@.len() - i,
    {
        assert(all[i as int].0 == members@[i as int].0@);
        if text::str_bytes(members[i].0.as_str()) > MAX_JSON_KEY_BYTES {
            return true;
        }
        i += 1;
    }
    false
}

fn visit(value: &JsonValue, depth: usize, count: usize, max: usize) -> (r: Result<usize, String>)
    requires
        depth <= MAX_JSON_DEPTH + 1,
        count <= MAX_JSON_VALUES,
    ensures
        match visited(value.view(), depth as nat, count as nat, max) {
            Ok(n) => r is Ok && r->Ok_0 == n && n <= MAX_JSON_VALUES,
            Err(why) => r is Err && r->Err_0@ == why,
        },
    decreases value,
{
    if depth > MAX_JSON_DEPTH {
        return Err("language-server JSON nesting exceeds limit".to_owned());
    }
    if count + 1 > MAX_JSON_VALUES {
        return Err("language-server JSON value count exceeds limit".to_owned());
    }
    match value {
        JsonValue::Text(t) => {
            if text::str_bytes(t.as_str()) > max {
                return Err("language-server JSON string exceeds limit".to_owned());
            }
            Ok(count + 1)
        },
        JsonValue::Array(items) => {
            let ghost all = items_view(items@);
            assert(value.view()->Array_0 =~= all);
            if items.len() > MAX_JSON_ITEMS {
                return Err("language-server JSON array exceeds limit".to_owned());
            }
            let mut n: usize = count + 1;
            let mut i: usize = 0;
            while i < items.len()
                invariant
                    i <= items@.len(),
                    value == JsonValue::Array(*items),
                    all == items_view(items@),
                    depth <= MAX_JSON_DEPTH,
                    n <= MAX_JSON_VALUES,
                    visited_items(all, 0, (depth + 1) as nat, (count + 1) as nat, max)
                        == visited_items(all, i as nat, (depth + 1) as nat, n as nat, max),
                    visited(value.view(), depth as nat, count as nat, max) == visited_items(
                        all,
                        0,
                        (depth + 1) as nat,
                        (count + 1) as nat,
                        max,
                    ),
                decreases items@.len() - i,
            {
                assert(decreases_to!(value => value->Array_0@[i as int]));
                assert(all[i as int] == items@[i as int].view());
                n = visit(&items[i], depth + 1, n, max)?;
                i += 1;
            }
            Ok(n)
        },
        JsonValue::Object(members) => {
            let ghost all = members_view(members@);
            assert(value.view()->Object_0 =~= all);
            if members.len() > MAX_JSON_ITEMS || has_long_key(members) {
                return Err("language-server JSON object exceeds limit".to_owned());
            }
            let mut n: usize = count + 1;
            let mut i: usize = 0;
            while i < members.len()
                invariant
                    i <= members@.len(),
                    value == JsonValue::Object(*members),
                    all == members_view(members@),
                    depth <= MAX_JSON_DEPTH,
                    n <= MAX_JSON_VALUES,
                    visited_members(all, 0, (depth + 1) as nat, (count + 1) as nat, max)
                        == visited_members(all, i as nat, (depth + 1) as nat, n as nat, max),
                    visited(value.view(), depth as nat, count as nat, max) == visited_members(
                        all,
                        0,
                        (depth + 1) as nat,
                        (count + 1) as nat,
                        max,
                    ),
                decreases members@.len() - i,
            {
                assert(decreases_to!(value => value->Object_0@[i as int].1));
                assert(all[i as int].1 == members@[i as int].1.view());
                n = visit(&members[i].1, depth + 1, n, max)?;
                i += 1;
            }
            Ok(n)
        },
        _ => Ok(count + 1),
    }
}

/// Refuses a value that is too deep, too long or of too many parts.
pub fn validate_json(value: &JsonValue, limits: &LspLimits) -> (r: Result<(), String>)
    ensures
        answers(r, json_fault(value.view(), limits.string_bytes)),
{
    match visit(value, 0, 0, limits.string_bytes) {
        Ok(_) => Ok(()),
        Err(why) => Err(why),
    }
}

proof fn lemma_percent_first(bytes: Seq<u8>, keep_slash: bool)
    requires
        bytes.len() > 0,
    ensures
        percent(bytes, keep_slash) == byte_code(bytes[0], keep_slash) + percent(
            bytes.drop_first(),
            keep_slash,
        ),
    decreases bytes.len(),
{
    let rest = bytes.drop_first();
    if bytes.len() == 1 {
        assert(bytes.drop_last() =~= Seq::<u8>::empty());
        assert(rest =~= Seq::<u8>::empty());
        assert(percent(bytes, keep_slash) =~= byte_code(bytes[0], keep_slash) + percent(
            rest,
            keep_slash,
        ));
    } else {
        lemma_percent_first(bytes.drop_last(), keep_slash);
        assert(bytes.drop_last().drop_first() =~= rest.drop_last());
        assert(percent(bytes, keep_slash) =~= byte_code(bytes[0], keep_slash) + percent(
            rest,
            keep_slash,
        ));
    }
}

/// Different bytes stand differently in an address.
pub proof fn addresses_tell_bytes_apart(a: Seq<u8>, b: Seq<u8>, keep_slash: bool)
    requires
        percent(a, keep_slash) == percent(b, keep_slash),
    ensures
        a == b,
    decreases a.len(),
{
    if a.len() == 0 {
        if b.len() > 0 {
            lemma_percent_first(b, keep_slash);
            assert(percent(b, keep_slash).len() > 0);
        }
        assert(a =~= b);
    } else if b.len() == 0 {
        lemma_percent_first(a, keep_slash);
        assert(percent(a, keep_slash).len() > 0);
    } else {
        lemma_percent_first(a, keep_slash);
        lemma_percent_first(b, keep_slash);
        let whole = percent(a, keep_slash);
        let x = byte_code(a[0], keep_slash);
        let y = byte_code(b[0], keep_slash);
        let s = percent(a.drop_first(), keep_slash);
        let t = percent(b.drop_first(), keep_slash);
        assert(whole[0] == x[0] && whole[0] == y[0]);
        assert(x.len() == y.len());
        assert(x =~= whole.take(x.len() as int));
        assert(y =~= whole.take(y.len() as int));
        assert(s =~= whole.skip(x.len() as int));
        assert(t =~= whole.skip(y.len() as int));
        assert(a[0] == b[0]) by {
            assert(x == y);
            if x.len() == 3 {
                assert(x[1] == y[1] && x[2] == y[2]);
            } else {
                assert(x[0] == y[0]);
            }
        }
        addresses_tell_bytes_apart(a.drop_first(), b.drop_first(), keep_slash);
        assert(a =~= seq![a[0]] + a.drop_first());
        assert(b =~= seq![b[0]] + b.drop_first());
    }
}

} // verus!
