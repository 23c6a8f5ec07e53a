//! JSON values as the library reads and writes them.

use crate::text;
use vstd::prelude::*;

verus! {

/// A JSON number. A number that is no integer of 64 bits is kept as its text.
#[derive(Debug, PartialEq, Eq)]
pub enum JsonNumber {
    Unsigned(u64),
    Negative(i64),
    Float(String),
}

/// A JSON value. The members of an object are kept as a list of pairs.
#[derive(Debug, PartialEq, Eq)]
pub enum JsonValue {
    Null,
    Bool(bool),
    Number(JsonNumber),
    Text(String),
    Array(Vec<JsonValue>),
    Object(Vec<(String, JsonValue)>),
}

/// What a JSON value is, over mathematical sequences.
pub enum Json {
    Null,
    Bool(bool),
    Unsigned(u64),
    Negative(i64),
    Float(Seq<char>),
    Text(Seq<char>),
    Array(Seq<Json>),
    Object(Seq<(Seq<char>, Json)>),
}

impl JsonValue {
    pub open spec fn view(&self) -> Json
        decreases self,
    {
        match self {
            JsonValue::Null => Json::Null,
            JsonValue::Bool(b) => Json::Bool(*b),
            JsonValue::Number(JsonNumber::Unsigned(n)) => Json::Unsigned(*n),
            JsonValue::Number(JsonNumber::Negative(n)) => Json::Negative(*n),
            JsonValue::Number(JsonNumber::Float(t)) => Json::Float(t@),
            JsonValue::Text(t) => Json::Text(t@),
            JsonValue::Array(items) => Json::Array(
                Seq::new(
                    items@.len(),
                    |i: int|
                        if 0 <= i < items@.len() {
                            items@[i].view()
                        } else {
                            Json::Null
                        },
                ),
            ),
            JsonValue::Object(members) => Json::Object(
                Seq::new(
                    members@.len(),
                    |i: int|
                        if 0 <= i < members@.len() {
                            (members@[i].0@, members@[i].1.view())
                        } else {
                            (Seq::<char>::empty(), Json::Null)
                        },
                ),
            ),
        }
    }
}

/// The members of a list of pairs, as sequences.
pub open spec fn members_view(members: Seq<(String, JsonValue)>) -> Seq<(Seq<char>, Json)> {
    Seq::new(members.len(), |i: int| (members[i].0@, members[i].1.view()))
}

/// The items of an array, as sequences.
pub open spec fn items_view(items: Seq<JsonValue>) -> Seq<Json> {
    Seq::new(items.len(), |i: int| items[i].view())
}

/// The value of the first member called `key`.
pub open spec fn member(members: Seq<(Seq<char>, Json)>, key: Seq<char>) -> Option<Json>
    decreases members.len(),
{
    if members.len() == 0 {
        None
    } else if members[0].0 == key {
        Some(members[0].1)
    } else {
        member(members.skip(1), key)
    }
}

pub proof fn lemma_member_skip(members: Seq<(Seq<char>, Json)>, key: Seq<char>, n: int)
    requires
        0 <= n <= members.len(),
        forall|i: int| 0 <= i < n ==> (#[trigger] members[i]).0 != key,
    ensures
        member(members, key) == member(members.skip(n), key),
    decreases n,
{
    if n == 0 {
        assert(members.skip(0) =~= members);
    } else {
        assert(members[0].0 != key);
        assert forall|i: int| 0 <= i < n - 1 implies (#[trigger] members.skip(1)[i]).0 != key by {
            assert(members.skip(1)[i] == members[i + 1]);
        }
        lemma_member_skip(members.skip(1), key, n - 1);
        assert(members.skip(1).skip(n - 1) =~= members.skip(n));
    }
}

/// The members of an object, or nothing for any other value.
pub open spec fn json_object(value: Option<Json>) -> Option<Seq<(Seq<char>, Json)>> {
    match value {
        Some(Json::Object(members)) => Some(members),
        _ => None,
    }
}

/// The items of an array, or nothing for any other value.
pub open spec fn json_array(value: Option<Json>) -> Option<Seq<Json>> {
    match value {
        Some(Json::Array(items)) => Some(items),
        _ => None,
    }
}

/// The characters of a string, or nothing for any other value.
pub open spec fn json_str(value: Option<Json>) -> Option<Seq<char>> {
    match value {
        Some(Json::Text(text)) => Some(text),
        _ => None,
    }
}

/// A nonnegative integer of 64 bits, or nothing for any other value.
pub open spec fn json_u64(value: Option<Json>) -> Option<u64> {
    match value {
        Some(Json::Unsigned(n)) => Some(n),
        _ => None,
    }
}

/// An integer that fits in a signed word of 64 bits, or nothing.
pub open spec fn json_i64(value: Option<Json>) -> Option<i64> {
    match value {
        Some(Json::Unsigned(n)) => if n <= i64::MAX {
            Some(n as i64)
        } else {
            None
        },
        Some(Json::Negative(n)) => Some(n),
        _ => None,
    }
}

/// A truth value, or nothing for any other value.
pub open spec fn json_bool(value: Option<Json>) -> Option<bool> {
    match value {
        Some(Json::Bool(b)) => Some(b),
        _ => None,
    }
}

/// What is known of an optional reference to a value.
pub open spec fn json_ref(value: Option<&JsonValue>) -> Option<Json> {
    match value {
        Some(v) => Some(v.view()),
        None => None,
    }
}

/// Looks a member up by name.
pub fn get_member<'a>(members: &'a [(String, JsonValue)], key: &str) -> (r: Option<&'a JsonValue>)
    ensures
        json_ref(r) == member(members_view(members@), key@),
{
    let ghost all = members_view(members@);
    let mut i: usize = 0;
    while i < members.len()
        invariant
            i <= members@.len(),
            all == members_view(members@),
            forall|j: int| 0 <= j < i ==> (#[trigger] all[j]).0 != key@,
        decreases members@.len() - i,
    {
        if text::str_eq(members[i].0.as_str(), key) {
            proof {
                lemma_member_skip(all, key@, i as int);
                assert(all.skip(i as int)[0] == all[i as int]);
            }
            return Some(&members[i].1);
        }
        assert(all[i as int].0 != key@);
        i += 1;
    }
    proof {
        lemma_member_skip(all, key@, all.len() as int);
    }
    None
}

/// The members of a value that is an object.
pub fn as_object<'a>(value: Option<&'a JsonValue>) -> (r: Option<&'a Vec<(String, JsonValue)>>)
    ensures
        r is Some <==> json_object(json_ref(value)) is Some,
        r is Some ==> members_view(r->0@) == json_object(json_ref(value))->0,
{
    match value {
        Some(JsonValue::Object(members)) => {
            proof {
                assert(members_view(members@) =~= json_object(json_ref(value))->0);
            }
            Some(members)
        },
        _ => None,
    }
}

/// The items of a value that is an array.
pub fn as_array<'a>(value: Option<&'a JsonValue>) -> (r: Option<&'a Vec<JsonValue>>)
    ensures
        r is Some <==> json_array(json_ref(value)) is Some,
        r is Some ==> items_view(r->0@) == json_array(json_ref(value))->0,
{
    match value {
        Some(JsonValue::Array(items)) => {
            proof {
                assert(items_view(items@) =~= json_array(json_ref(value))->0);
            }
            Some(items)
        },
        _ => None,
    }
}

/// The text of a value that is a string.
pub fn as_text<'a>(value: Option<&'a JsonValue>) -> (r: Option<&'a String>)
    ensures
        r is Some <==> json_str(json_ref(value)) is Some,
        r is Some ==> r->0@ == json_str(json_ref(value))->0,
{
    match value {
        Some(JsonValue::Text(text)) => Some(text),
        _ => None,
    }
}

pub fn as_u64(value: Option<&JsonValue>) -> (r: Option<u64>)
    ensures
        r == json_u64(json_ref(value)),
{
    match value {
        Some(JsonValue::Number(JsonNumber::Unsigned(n))) => Some(*n),
        _ => None,
    }
}

pub fn as_i64(value: Option<&JsonValue>) -> (r: Option<i64>)
    ensures
        r == json_i64(json_ref(value)),
{
    match value {
        Some(JsonValue::Number(JsonNumber::Unsigned(n))) => if *n <= 0x7fff_ffff_ffff_ffff {
            Some(*n as i64)
        } else {
            None
        },
        Some(JsonValue::Number(JsonNumber::Negative(n))) => Some(*n),
        _ => None,
    }
}

pub fn as_bool(value: Option<&JsonValue>) -> (r: Option<bool>)
    ensures
        r == json_bool(json_ref(value)),
{
    match value {
        Some(JsonValue::Bool(b)) => Some(*b),
        _ => None,
    }
}

impl JsonNumber {
    pub fn copy(&self) -> (r: JsonNumber)
        ensures
            JsonValue::Number(r).view() == JsonValue::Number(*self).view(),
    {
        match self {
            JsonNumber::Unsigned(n) => JsonNumber::Unsigned(*n),
            JsonNumber::Negative(n) => JsonNumber::Negative(*n),
            JsonNumber::Float(t) => JsonNumber::Float(t.clone()),
        }
    }
}

impl JsonValue {
    /// A copy of the value.
    pub fn copy(&self) -> (r: JsonValue)
        ensures
            r.view() == self.view(),
        decreases self,
    {
        match self {
            JsonValue::Null => JsonValue::Null,
            JsonValue::Bool(b) => JsonValue::Bool(*b),
            JsonValue::Number(n) => JsonValue::Number(n.copy()),
            JsonValue::Text(t) => JsonValue::Text(t.clone()),
            JsonValue::Array(items) => {
                let mut out: Vec<JsonValue> = Vec::new();
                let mut i: usize = 0;
                while i < items.len()
                    invariant
                        self == JsonValue::Array(*items),
                        i <= items@.len(),
                        out@.len() == i,
                        forall|j: int| 0 <= j < i ==> (#[trigger] out@[j]).view() == items@[j].view(),
                    decreases items@.len() - i,
                {
                    assert(decreases_to!(self => self->Array_0@[i as int]));
                    let item = items[i].copy();
                    out.push(item);
                    i += 1;
                }
                assert(items_view(out@) =~= items_view(items@));
                let r = JsonValue::Array(out);
                assert(r.view()->Array_0 =~= self.view()->Array_0);
                r
            },
            JsonValue::Object(members) => {
                let mut out: Vec<(String, JsonValue)> = Vec::new();
                let mut i: usize = 0;
                while i < members.len()
                    invariant
                        self == JsonValue::Object(*members),
                        i <= members@.len(),
                        out@.len() == i,
                        forall|j: int|
                            0 <= j < i ==> (#[trigger] out@[j]).0@ == members@[j].0@
                                && out@[j].1.view() == members@[j].1.view(),
                    decreases members@.len() - i,
                {
                    assert(decreases_to!(self => self->Object_0@[i as int].1));
                    let pair = (members[i].0.clone(), members[i].1.copy());
                    out.push(pair);
                    i += 1;
                }
                let r = JsonValue::Object(out);
                assert(r.view()->Object_0 =~= self.view()->Object_0);
                r
            },
        }
    }
}

/// What `serde_json::from_slice` reads out of a byte sequence as a
/// `serde_json::Value`, or nothing where it reports an error.
pub uninterp spec fn parsed_json(bytes: Seq<u8>) -> Option<Json>;

/// The compact text that `serde_json::to_string` writes for a value.
pub uninterp spec fn json_text(value: Json) -> Seq<char>;

/// `serde_json::Value`, carried between the conversions below.
#[verifier::external_type_specification]
#[verifier::external_body]
pub struct ExValue(serde_json::Value);

/// The same value in the library's own type, variant by variant.
#[verifier::external_body]
fn from_value(value: serde_json::Value) -> (r: JsonValue) {
    match value {
        serde_json::Value::Null => JsonValue::Null,
        serde_json::Value::Bool(b) => JsonValue::Bool(b),
        serde_json::Value::Number(n) => JsonValue::Number(match (n.as_u64(), n.as_i64()) {
            (Some(u), _) => JsonNumber::Unsigned(u),
            (None, Some(i)) => JsonNumber::Negative(i),
            (None, None) => JsonNumber::Float(n.to_string()),
        }),
        serde_json::Value::String(t) => JsonValue::Text(t),
        serde_json::Value::Array(a) => JsonValue::Array(a.into_iter().map(from_value).collect()),
        serde_json::Value::Object(o) => JsonValue::Object(o.into_iter().map(|(k, v)| (k, from_value(v))).collect()),
    }
}

/// The same value in the outside type, variant by variant. Of two members with
/// one name the later one stays.
#[verifier::external_body]
fn to_value(value: &JsonValue) -> (r: serde_json::Value) {
    match value {
        JsonValue::Null => serde_json::Value::Null,
        JsonValue::Bool(b) => serde_json::Value::Bool(*b),
        JsonValue::Number(JsonNumber::Unsigned(n)) => serde_json::Value::from(*n),
        JsonValue::Number(JsonNumber::Negative(n)) => serde_json::Value::from(*n),
        JsonValue::Number(JsonNumber::Float(t)) => serde_json::from_str(t).unwrap_or_default(),
        JsonValue::Text(t) => serde_json::Value::String(t.clone()),
        JsonValue::Array(a) => serde_json::Value::Array(a.iter().map(to_value).collect()),
        JsonValue::Object(o) => serde_json::Value::Object(o.iter().map(|(k, v)| (k.clone(), to_value(v))).collect()),
    }
}

/// Calls `serde_json::from_slice` for a `serde_json::Value` and converts it.
/// The result is a function of the bytes; what it is on given bytes is left to
/// that crate.
#[verifier::external_body]
pub(crate) fn parse_json(bytes: &[u8]) -> (r: Option<JsonValue>)
    ensures
        r is Some <==> parsed_json(bytes@) is Some,
        r is Some ==> r->0.view() == parsed_json(bytes@)->0,
{
    serde_json::from_slice::<serde_json::Value>(bytes).ok().map(from_value)
}

/// Calls `serde_json::to_string`, which does not fail on a `serde_json::Value`.
/// The text is a function of the value; of `null` it is the four letters.
#[verifier::external_body]
pub(crate) fn write_json(value: &JsonValue) -> (r: String)
    ensures
        r@ == json_text(value.view()),
        value.view() is Null ==> r@ == seq!['n', 'u', 'l', 'l'],
{
    serde_json::to_string(&to_value(value)).unwrap_or_default()
}

/// The indented text that `serde_json::to_vec_pretty` writes for a value.
pub uninterp spec fn json_pretty(value: Json) -> Seq<u8>;

/// Calls `serde_json::to_vec_pretty`, which does not fail on a
/// `serde_json::Value`. The bytes are a function of the value.
#[verifier::external_body]
pub(crate) fn write_json_pretty(value: &JsonValue) -> (r: Vec<u8>)
    ensures
        r@ == json_pretty(value.view()),
{
    serde_json::to_vec_pretty(&to_value(value)).unwrap_or_default()
}

} // verus!
