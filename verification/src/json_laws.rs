//! How the members of an object are found.

use crate::json;
use crate::json::Json;
use vstd::prelude::*;

verus! {

/// Whether an object has a member of a name with a value: the first of that name.
pub open spec fn has(value: Json, key: Seq<char>, x: Json) -> bool {
    value is Object && exists|i: int|
        0 <= i < value->Object_0.len() && (#[trigger] value->Object_0[i]) == (key, x) && (forall|
            j: int,
        |
            0 <= j < i ==> (#[trigger] value->Object_0[j]).0 != key)
}

/// Whether an object has no member of a name.
pub open spec fn lacks(value: Json, key: Seq<char>) -> bool {
    value is Object && forall|i: int|
        0 <= i < value->Object_0.len() ==> (#[trigger] value->Object_0[i]).0 != key
}

/// A member is found by its name, and one that is not there is not.
pub proof fn members_are_found_by_name(o: Seq<(Seq<char>, Json)>, key: Seq<char>)
    ensures
        forall|x: Json| #[trigger] has(Json::Object(o), key, x) <==> json::member(o, key) == Some(x),
        lacks(Json::Object(o), key) <==> json::member(o, key) is None,
    decreases o.len(),
{
    if o.len() > 0 {
        let rest = o.skip(1);
        assert(Json::Object(o)->Object_0 == o);
        assert(Json::Object(rest)->Object_0 == rest);
        members_are_found_by_name(rest, key);
        assert forall|x: Json| #[trigger] has(Json::Object(o), key, x) implies json::member(o, key) == Some(
            x,
        ) by {
            let i = choose|i: int|
                0 <= i < o.len() && (#[trigger] o[i]) == (key, x) && (forall|j: int|
                    0 <= j < i ==> (#[trigger] o[j]).0 != key);
            if i > 0 {
                assert(o[0].0 != key);
                assert(rest[i - 1] == (key, x));
                assert forall|j: int| 0 <= j < i - 1 implies (#[trigger] rest[j]).0 != key by {
                    assert(o[j + 1].0 != key);
                }
                assert(has(Json::Object(rest), key, x));
            }
        }
        assert forall|x: Json| json::member(o, key) == Some(x) implies #[trigger] has(
            Json::Object(o),
            key,
            x,
        ) by {
            if o[0].0 == key {
                assert(o[0] == (key, x));
            } else {
                assert(has(Json::Object(rest), key, x));
                let i = choose|i: int|
                    0 <= i < rest.len() && (#[trigger] rest[i]) == (key, x) && (forall|j: int|
                        0 <= j < i ==> (#[trigger] rest[j]).0 != key);
                assert(o[i + 1] == (key, x));
                assert forall|j: int| 0 <= j < i + 1 implies (#[trigger] o[j]).0 != key by {
                    if j > 0 {
                        assert(rest[j - 1] == o[j]);
                    }
                }
            }
        }
        if lacks(Json::Object(o), key) {
            assert(o[0].0 != key);
            assert forall|i: int| 0 <= i < rest.len() implies (#[trigger] rest[i]).0 != key by {
                assert(o[i + 1].0 != key);
            }
        }
        if json::member(o, key) is None {
            assert forall|i: int| 0 <= i < o.len() implies (#[trigger] o[i]).0 != key by {
                if i > 0 {
                    assert(rest[i - 1] == o[i]);
                }
            }
        }
    }
}

} // verus!
