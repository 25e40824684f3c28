//! A JSON document as the library reads it, with the lookups the
//! dictionary and translation replies need.
use vstd::prelude::*;

use crate::text::same_text;

verus! {

/// A JSON value. Numbers carry no payload: nothing here reads them.
/// An object keeps its members in document order.
pub enum Json {
    Null,
    Bool(bool),
    Number,
    Str(String),
    Array(Vec<Json>),
    Object(Vec<(String, Json)>),
}

/// The value of the first member named `key` among `members`.
pub open spec fn member_value(members: Seq<(String, Json)>, key: Seq<char>) -> Option<Json>
    decreases members.len(),
{
    if members.len() == 0 {
        None
    } else if members[0].0@ == key {
        Some(members[0].1)
    } else {
        member_value(members.drop_first(), key)
    }
}

/// The member `key` of `j` when `j` is an object that has one
/// (`serde_json::Value::get` with a string index).
pub open spec fn field(j: Json, key: Seq<char>) -> Option<Json> {
    match j {
        Json::Object(members) => member_value(members@, key),
        _ => None,
    }
}

/// Element `i` of `j` when `j` is an array that long
/// (`serde_json::Value::get` with a number index).
pub open spec fn element(j: Json, i: int) -> Option<Json> {
    match j {
        Json::Array(items) => if 0 <= i < items@.len() {
            Some(items@[i])
        } else {
            None
        },
        _ => None,
    }
}

/// The elements of `j` when it is an array, and nothing otherwise.
pub open spec fn items_of(j: Option<Json>) -> Seq<Json> {
    match j {
        Some(Json::Array(items)) => items@,
        _ => Seq::empty(),
    }
}

/// The text of `j` when it is a string.
pub open spec fn text_of(j: Option<Json>) -> Option<Seq<char>> {
    match j {
        Some(Json::Str(s)) => Some(s@),
        _ => None,
    }
}

/// The first member named `key` gives the value, whatever later members of
/// that name hold.
pub proof fn law_first_member_wins(members: Seq<(String, Json)>, key: Seq<char>, k: int)
    requires
        0 <= k < members.len(),
        members[k].0@ == key,
        forall|j: int| 0 <= j < k ==> (#[trigger] members[j]).0@ != key,
    ensures
        member_value(members, key) == Some(members[k].1),
    decreases k,
{
    if k > 0 {
        let rest = members.drop_first();
        assert(members[0].0@ != key);
        assert(rest[k - 1] == members[k]);
        assert forall|j: int| 0 <= j < k - 1 implies (#[trigger] rest[j]).0@ != key by {
            assert(rest[j] == members[j + 1]);
        }
        law_first_member_wins(rest, key, k - 1);
    }
}

/// Without a member named `key`, there is no value.
pub proof fn law_missing_member(members: Seq<(String, Json)>, key: Seq<char>)
    requires
        forall|j: int| 0 <= j < members.len() ==> (#[trigger] members[j]).0@ != key,
    ensures
        member_value(members, key) is None,
    decreases members.len(),
{
    if members.len() > 0 {
        let rest = members.drop_first();
        assert(members[0].0@ != key);
        assert forall|j: int| 0 <= j < rest.len() implies (#[trigger] rest[j]).0@ != key by {
            assert(rest[j] == members[j + 1]);
        }
        law_missing_member(rest, key);
    }
}

/// Only objects have members, and only arrays have elements, and an array
/// has exactly the elements at its positions.
pub proof fn law_fields_and_elements(j: Json, key: Seq<char>, i: int)
    ensures
        !(j is Object) ==> field(j, key) is None,
        !(j is Array) ==> element(j, i) is None,
        j matches Json::Array(items) ==> (element(j, i) is Some <==> 0 <= i < items@.len()),
{
}

/// The member `key` of `j`, when `j` is an object that has one.
pub fn get_field<'a>(j: &'a Json, key: &str) -> (r: Option<&'a Json>)
    ensures
        r matches Some(v) ==> field(*j, key@) == Some(*v),
        r is None ==> field(*j, key@) is None,
{
    match j {
        Json::Object(members) => {
            let mut i: usize = 0;
            proof {
                assert(members@.skip(0) =~= members@);
            }
            while i < members.len()
                invariant
                    i <= members@.len(),
                    field(*j, key@) == member_value(members@, key@),
                    member_value(members@, key@) == member_value(members@.skip(i as int), key@),
                decreases members@.len() - i,
            {
                proof {
                    assert(members@.skip(i as int).drop_first() =~= members@.skip(i + 1));
                    assert(members@.skip(i as int)[0] == members@[i as int]);
                }
                if same_text(members[i].0.as_str(), key) {
                    return Some(&members[i].1);
                }
                i = i + 1;
            }
            None
        },
        _ => None,
    }
}

/// Element `i` of `j`, when `j` is an array that long.
pub fn get_element(j: &Json, i: usize) -> (r: Option<&Json>)
    ensures
        r matches Some(v) ==> element(*j, i as int) == Some(*v),
        r is None ==> element(*j, i as int) is None,
{
    match j {
        Json::Array(items) => if i < items.len() {
            Some(&items[i])
        } else {
            None
        },
        _ => None,
    }
}

/// The elements of `j` when it is an array (`serde_json::Value::as_array`).
pub fn as_array(j: Option<&Json>) -> (r: Option<&Vec<Json>>)
    ensures
        r matches Some(v) ==> j matches Some(x) && *x == Json::Array(*v),
        r is None ==> !(j matches Some(Json::Array(_))),
{
    match j {
        Some(Json::Array(items)) => Some(items),
        _ => None,
    }
}

/// The text of `j` when it is a string (`serde_json::Value::as_str`).
pub fn as_text(j: Option<&Json>) -> (r: Option<&String>)
    ensures
        r matches Some(s) ==> j matches Some(x) && *x == Json::Str(*s),
        r is None ==> !(j matches Some(Json::Str(_))),
{
    match j {
        Some(Json::Str(s)) => Some(s),
        _ => None,
    }
}

} // verus!
