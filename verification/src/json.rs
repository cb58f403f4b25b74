//! JSON values of `serde_json`, seen through one level of their structure.
use crate::string_map::distinct_keys;
use serde_json::Value;
use vstd::prelude::*;

verus! {

/// A JSON value of `serde_json`; Verus sees nothing inside it but what
/// `json_shape` says.
#[verifier::external_type_specification]
#[verifier::external_body]
pub struct ExValue(serde_json::Value);

/// The outermost level of a JSON value.
pub ghost enum JsonShape {
    /// `null`, a boolean or a number.
    Scalar,
    /// A string with its characters.
    Text(Seq<char>),
    /// An array with its elements in order.
    Array(Seq<Value>),
    /// An object with its members.
    Object(Map<Seq<char>, Value>),
}

/// What a JSON value holds at its outermost level.
pub uninterp spec fn json_shape(value: Value) -> JsonShape;

impl JsonShape {
    /// The member of an object under `key`; `None` where there is none, and for
    /// everything that is not an object.
    pub open spec fn member(self, key: Seq<char>) -> Option<Value> {
        match self {
            JsonShape::Object(members) => if members.contains_key(key) {
                Some(members[key])
            } else {
                None
            },
            _ => None,
        }
    }

    /// The characters of a string; `None` for everything else.
    pub open spec fn text(self) -> Option<Seq<char>> {
        match self {
            JsonShape::Text(text) => Some(text),
            _ => None,
        }
    }
}

/// The string that the object `value` holds under `key`, if it is an object and
/// holds a string there.
pub open spec fn text_member(value: Value, key: Seq<char>) -> Option<Seq<char>> {
    match json_shape(value).member(key) {
        Some(member) => json_shape(member).text(),
        None => None,
    }
}

/// The object whose members are `entries`, no two of which have the same key.
pub open spec fn object_of(entries: Seq<(String, Value)>) -> Map<Seq<char>, Value>
    decreases entries.len(),
{
    if entries.len() == 0 {
        Map::empty()
    } else {
        object_of(entries.drop_last()).insert(entries.last().0@, entries.last().1)
    }
}

/// `Value::clone`: the copy is the same JSON value.
pub assume_specification[ <Value as Clone>::clone ](value: &Value) -> (copy: Value)
    ensures
        copy == *value,
;

/// `Value::get` with a string key: the member of an object, `None` where the
/// value is no object or has no such member.
#[verifier::external_body]
pub(crate) fn json_get<'a>(value: &'a Value, key: &str) -> (member: Option<&'a Value>)
    ensures
        member == (match json_shape(*value).member(key@) {
            Some(m) => Some(&m),
            None => None,
        }),
{
    value.get(key)
}

/// `Value::as_str`: the text of a JSON string, `None` for every other value.
#[verifier::external_body]
pub(crate) fn json_as_str<'a>(value: &'a Value) -> (text: Option<&'a str>)
    ensures
        (match text {
            Some(t) => Some(t@),
            None => None,
        }) == json_shape(*value).text(),
{
    value.as_str()
}

/// `Value::from` on a string: the JSON string with that text.
#[verifier::external_body]
pub(crate) fn json_string(text: String) -> (value: Value)
    ensures
        json_shape(value) == JsonShape::Text(text@),
{
    Value::from(text)
}

/// `Value::from` on a vector of values: the JSON array with those elements.
#[verifier::external_body]
pub(crate) fn json_array(items: Vec<Value>) -> (value: Value)
    ensures
        json_shape(value) == JsonShape::Array(items@),
{
    Value::from(items)
}

/// `Value::from_iter` on pairs with distinct keys: the JSON object with those
/// members.
#[verifier::external_body]
pub(crate) fn json_object(entries: Vec<(String, Value)>) -> (value: Value)
    requires
        distinct_keys(entries@),
    ensures
        json_shape(value) == JsonShape::Object(object_of(entries@)),
{
    Value::from_iter(entries)
}

/// Reads the string under `key` out of a JSON object.
pub fn get_text(value: &Value, key: &str) -> (text: Option<String>)
    ensures
        crate::text::opt_text(text) == text_member(*value, key@),
{
    match json_get(value, key) {
        Some(member) => match json_as_str(member) {
            Some(text) => Some(text.to_owned()),
            None => None,
        },
        None => None,
    }
}

/// Reads the member under `key` out of a JSON object.
pub fn get_member(value: &Value, key: &str) -> (member: Option<Value>)
    ensures
        member == json_shape(*value).member(key@),
{
    match json_get(value, key) {
        Some(member) => Some(member.clone()),
        None => None,
    }
}

/// An object made of entries with distinct keys has exactly these entries as its
/// members.
pub proof fn law_an_object_has_its_entries(entries: Seq<(String, Value)>, key: Seq<char>)
    requires
        distinct_keys(entries),
    ensures
        forall|i: int|
            0 <= i < entries.len() ==> object_of(entries).contains_key(#[trigger] entries[i].0@)
                && object_of(entries)[entries[i].0@] == entries[i].1,
        object_of(entries).contains_key(key) ==> exists|i: int|
            0 <= i < entries.len() && #[trigger] entries[i].0@ == key,
    decreases entries.len(),
{
    if entries.len() > 0 {
        let shorter = entries.drop_last();
        let n = shorter.len() as int;
        assert forall|i: int, j: int|
            #![trigger shorter[i], shorter[j]]
            0 <= i < shorter.len() && 0 <= j < shorter.len() && shorter[i].0@ == shorter[j].0@ implies i
            == j by {
            assert(entries[i].0@ == entries[j].0@);
        }
        law_an_object_has_its_entries(shorter, key);
        assert(entries[n] == entries.last());
        assert forall|i: int| 0 <= i < entries.len() implies object_of(entries).contains_key(
            #[trigger] entries[i].0@,
        ) && object_of(entries)[entries[i].0@] == entries[i].1 by {
            if i < n {
                assert(shorter[i].0@ == entries[i].0@);
                assert(entries[i].0@ != entries[n].0@);
            }
        }
        if object_of(entries).contains_key(key) && key != entries[n].0@ {
            let i = choose|i: int| 0 <= i < shorter.len() && #[trigger] shorter[i].0@ == key;
            assert(entries[i].0@ == key);
        }
    }
}

/// Members are found in objects only, and texts in strings only; both are what the
/// value holds.
pub proof fn law_what_a_value_holds(value: Value, key: Seq<char>)
    ensures
        json_shape(value) matches JsonShape::Object(members) ==> {
            &&& members.contains_key(key) ==> json_shape(value).member(key) == Some(members[key])
            &&& !members.contains_key(key) ==> json_shape(value).member(key) is None
        },
        !(json_shape(value) is Object) ==> json_shape(value).member(key) is None,
        json_shape(value) matches JsonShape::Text(text) ==> json_shape(value).text() == Some(text),
        !(json_shape(value) is Text) ==> json_shape(value).text() is None,
        json_shape(value).member(key) matches Some(member) ==> text_member(value, key)
            == json_shape(member).text(),
        json_shape(value).member(key) is None ==> text_member(value, key) is None,
{
}

} // verus!
