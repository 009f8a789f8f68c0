//! The JSON values that the client reads out of server responses.
//!
//! Numbers are carried as their JSON text, so that no value is changed on the
//! way through; the client only ever inspects strings, `null` and object fields.

use vstd::prelude::*;

use crate::text::str_equal;

verus! {

/// A JSON document. An object keeps its members in order; a well-formed
/// object (one that came from a JSON parser) has pairwise distinct keys.
#[derive(Debug, PartialEq, Eq)]
pub enum JsonValue {
    Null,
    Bool(bool),
    /// The number as written in JSON.
    Number(String),
    String(String),
    Array(Vec<JsonValue>),
    Object(Vec<(String, JsonValue)>),
}

/// The value of the first member of `fields` named `key`.
pub open spec fn member_lookup(fields: Seq<(String, JsonValue)>, key: Seq<char>) -> Option<
    JsonValue,
>
    decreases fields.len(),
{
    if fields.len() == 0 {
        None
    } else if fields[0].0@ == key {
        Some(fields[0].1)
    } else {
        member_lookup(fields.drop_first(), key)
    }
}

/// `value.get(key)`: the member `key` of an object; nothing for any other value.
pub open spec fn json_get(v: JsonValue, key: Seq<char>) -> Option<JsonValue> {
    match v {
        JsonValue::Object(fields) => member_lookup(fields@, key),
        _ => None,
    }
}

/// `value.as_str()`: the text of a JSON string; nothing for any other value.
pub open spec fn json_as_str(v: JsonValue) -> Option<Seq<char>> {
    match v {
        JsonValue::String(s) => Some(s@),
        _ => None,
    }
}

/// `value.get(key).and_then(as_str)`.
pub open spec fn json_get_str(v: JsonValue, key: Seq<char>) -> Option<Seq<char>> {
    match json_get(v, key) {
        Some(m) => json_as_str(m),
        None => None,
    }
}

/// The position of the first member of `fields` named `key`.
pub open spec fn member_index(fields: Seq<(String, JsonValue)>, key: Seq<char>) -> Option<int>
    decreases fields.len(),
{
    if fields.len() == 0 {
        None
    } else if fields[0].0@ == key {
        Some(0)
    } else {
        match member_index(fields.drop_first(), key) {
            Some(i) => Some(i + 1),
            None => None,
        }
    }
}

proof fn lemma_member_index(fields: Seq<(String, JsonValue)>, key: Seq<char>)
    ensures
        member_index(fields, key) is None <==> member_lookup(fields, key) is None,
        member_index(fields, key) matches Some(i) ==> 0 <= i < fields.len() && fields[i].0@
            == key && member_lookup(fields, key) == Some(fields[i].1),
    decreases fields.len(),
{
    if fields.len() > 0 && fields[0].0@ != key {
        lemma_member_index(fields.drop_first(), key);
    }
}

proof fn lemma_member_skip(fields: Seq<(String, JsonValue)>, key: Seq<char>, i: int)
    requires
        0 <= i <= fields.len(),
        forall|j: int| 0 <= j < i ==> (#[trigger] fields[j]).0@ != key,
    ensures
        member_index(fields, key) == (match member_index(fields.skip(i), key) {
            Some(k) => Some(k + i),
            None => None::<int>,
        }),
        member_lookup(fields, key) == member_lookup(fields.skip(i), key),
    decreases i,
{
    if i == 0 {
        assert(fields.skip(0) =~= fields);
    } else {
        assert(fields.drop_first().skip(i - 1) =~= fields.skip(i));
        assert forall|j: int| 0 <= j < i - 1 implies (#[trigger] fields.drop_first()[j]).0@
            != key by {
            assert(fields.drop_first()[j] == fields[j + 1]);
        }
        lemma_member_skip(fields.drop_first(), key, i - 1);
    }
}

/// The position of the member `key` among `fields`, found as `member_index` says.
fn find_member(fields: &Vec<(String, JsonValue)>, key: &str) -> (r: Option<usize>)
    ensures
        r matches Some(i) ==> member_index(fields@, key@) == Some(i as int),
        r is None ==> member_index(fields@, key@) is None,
        r is None <==> member_lookup(fields@, key@) is None,
        r matches Some(i) ==> i < fields@.len() && member_lookup(fields@, key@) == Some(
            fields@[i as int].1,
        ),
{
    proof {
        lemma_member_index(fields@, key@);
    }
    let mut i: usize = 0;
    while i < fields.len()
        invariant
            i <= fields@.len(),
            forall|j: int| 0 <= j < i ==> (#[trigger] fields@[j]).0@ != key@,
        decreases fields.len() - i,
    {
        if str_equal(fields[i].0.as_str(), key) {
            proof {
                lemma_member_skip(fields@, key@, i as int);
                assert(fields@.skip(i as int)[0] == fields@[i as int]);
            }
            return Some(i);
        }
        i = i + 1;
    }
    proof {
        lemma_member_skip(fields@, key@, i as int);
    }
    None
}

impl JsonValue {
    /// `Value::get` with a string key.
    pub fn get<'a>(&'a self, key: &str) -> (r: Option<&'a JsonValue>)
        ensures
            r matches Some(m) ==> json_get(*self, key@) == Some(*m),
            r is None ==> json_get(*self, key@) is None,
    {
        match self {
            JsonValue::Object(fields) => {
                match find_member(fields, key) {
                    Some(i) => Some(&fields[i].1),
                    None => None,
                }
            },
            _ => None,
        }
    }

    /// `Value::as_str`.
    pub fn as_str<'a>(&'a self) -> (r: Option<&'a str>)
        ensures
            r matches Some(s) ==> json_as_str(*self) == Some(s@),
            r is None ==> json_as_str(*self) is None,
    {
        match self {
            JsonValue::String(s) => Some(s.as_str()),
            _ => None,
        }
    }

    /// `Value::is_null`.
    pub fn is_null(&self) -> (b: bool)
        ensures
            b == (*self is Null),
    {
        match self {
            JsonValue::Null => true,
            _ => false,
        }
    }

    /// `value.get(key).and_then(|v| v.as_str())`.
    pub fn get_str<'a>(&'a self, key: &str) -> (r: Option<&'a str>)
        ensures
            r matches Some(s) ==> json_get_str(*self, key@) == Some(s@),
            r is None ==> json_get_str(*self, key@) is None,
    {
        match self.get(key) {
            Some(m) => m.as_str(),
            None => None,
        }
    }

    /// Takes the member `key` out of an object, or gives the value back whole
    /// when it has no such member.
    pub fn into_member_or_self(self, key: &str) -> (r: JsonValue)
        ensures
            r == (match json_get(self, key@) {
                Some(m) => m,
                None => self,
            }),
    {
        match self {
            JsonValue::Object(mut fields) => {
                match find_member(&fields, key) {
                    Some(i) => {
                        let member = fields.remove(i);
                        member.1
                    },
                    None => JsonValue::Object(fields),
                }
            },
            other => other,
        }
    }
}

} // verus!
