//! JSON values as the library reads and builds them.
//!
//! `JsonValue` holds what a JSON document holds, with numbers kept as the
//! text that serde_json prints for them.  Its view `Json` is the same tree
//! with strings seen as character sequences.
use vstd::prelude::*;
use crate::text::{chars_of, same_chars};

verus! {

/// A JSON value.
#[derive(Debug, PartialEq)]
pub enum JsonValue {
    Null,
    Bool(bool),
    /// A number, as its decimal text.
    Number(String),
    Str(String),
    Array(Vec<JsonValue>),
    /// The members of an object, in order.
    Object(Vec<(String, JsonValue)>),
}

/// The mathematical form of a JSON value.
pub enum Json {
    Null,
    Bool(bool),
    Number(Seq<char>),
    Str(Seq<char>),
    Array(Seq<Json>),
    Object(Seq<(Seq<char>, Json)>),
}

/// The view of a JSON value.
pub open spec fn json_of(v: JsonValue) -> Json
    decreases v, 0nat,
{
    match v {
        JsonValue::Null => Json::Null,
        JsonValue::Bool(b) => Json::Bool(b),
        JsonValue::Number(s) => Json::Number(s@),
        JsonValue::Str(s) => Json::Str(s@),
        JsonValue::Array(items) => Json::Array(jsons_of(items@)),
        JsonValue::Object(members) => Json::Object(members_of(members@)),
    }
}

/// The views of a sequence of JSON values.
pub open spec fn jsons_of(s: Seq<JsonValue>) -> Seq<Json>
    decreases s, 1nat,
{
    if s.len() == 0 {
        Seq::empty()
    } else {
        jsons_of(s.drop_last()).push(json_of(s.last()))
    }
}

/// The views of the members of an object.
pub open spec fn members_of(s: Seq<(String, JsonValue)>) -> Seq<(Seq<char>, Json)>
    decreases s, 1nat,
{
    if s.len() == 0 {
        Seq::empty()
    } else {
        members_of(s.drop_last()).push((s.last().0@, json_of(s.last().1)))
    }
}

impl View for JsonValue {
    type V = Json;

    open spec fn view(&self) -> Json {
        json_of(*self)
    }
}

/// The lengths and elements of `jsons_of`.
pub proof fn lemma_jsons_of(s: Seq<JsonValue>)
    ensures
        jsons_of(s).len() == s.len(),
        forall|i: int| 0 <= i < s.len() ==> #[trigger] jsons_of(s)[i] == json_of(s[i]),
    decreases s.len(),
{
    if s.len() > 0 {
        lemma_jsons_of(s.drop_last());
        assert forall|i: int| 0 <= i < s.len() implies #[trigger] jsons_of(s)[i] == json_of(s[i]) by {
            if i < s.len() - 1 {
                assert(s.drop_last()[i] == s[i]);
            }
        }
    }
}

/// The lengths and elements of `members_of`.
pub proof fn lemma_members_of(s: Seq<(String, JsonValue)>)
    ensures
        members_of(s).len() == s.len(),
        forall|i: int|
            0 <= i < s.len() ==> #[trigger] members_of(s)[i] == (s[i].0@, json_of(s[i].1)),
    decreases s.len(),
{
    if s.len() > 0 {
        lemma_members_of(s.drop_last());
        assert forall|i: int| 0 <= i < s.len() implies #[trigger] members_of(s)[i] == (
            s[i].0@,
            json_of(s[i].1),
        ) by {
            if i < s.len() - 1 {
                assert(s.drop_last()[i] == s[i]);
            }
        }
    }
}

/// The value of the last member named `key`.
pub open spec fn member_value(ms: Seq<(Seq<char>, Json)>, key: Seq<char>) -> Option<Json>
    decreases ms.len(),
{
    if ms.len() == 0 {
        None
    } else if ms.last().0 == key {
        Some(ms.last().1)
    } else {
        member_value(ms.drop_last(), key)
    }
}

/// The member `key` of an object (`Value::get` with a string key).
pub open spec fn get(j: Json, key: Seq<char>) -> Option<Json> {
    match j {
        Json::Object(ms) => member_value(ms, key),
        _ => None,
    }
}

/// Element `i` of an array (`Value::get` with an index).
pub open spec fn at(j: Json, i: int) -> Option<Json> {
    match j {
        Json::Array(items) => if 0 <= i < items.len() {
            Some(items[i])
        } else {
            None
        },
        _ => None,
    }
}

/// The text of a string value (`Value::as_str`).
pub open spec fn as_str(j: Json) -> Option<Seq<char>> {
    match j {
        Json::Str(s) => Some(s),
        _ => None,
    }
}

/// The elements of an array value (`Value::as_array`).
pub open spec fn as_array(j: Json) -> Option<Seq<Json>> {
    match j {
        Json::Array(items) => Some(items),
        _ => None,
    }
}

/// `get` followed by `as_str`, for an optional value.
pub open spec fn str_member(j: Json, key: Seq<char>) -> Option<Seq<char>> {
    match get(j, key) {
        Some(v) => as_str(v),
        None => None,
    }
}

/// `get` followed by `as_array`, for an optional value.
pub open spec fn array_member(j: Json, key: Seq<char>) -> Option<Seq<Json>> {
    match get(j, key) {
        Some(v) => as_array(v),
        None => None,
    }
}

/// An object with the given members.
pub open spec fn object(ms: Seq<(Seq<char>, Json)>) -> Json {
    Json::Object(ms)
}

/// The value of the last member named `key`.
pub fn member<'a>(members: &'a Vec<(String, JsonValue)>, key: &str) -> (r: Option<&'a JsonValue>)
    ensures
        match r {
            Some(x) => member_value(members_of(members@), key@) == Some(x@),
            None => member_value(members_of(members@), key@) is None,
        },
{
    let k = chars_of(key);
    let mut i = members.len();
    proof {
        lemma_members_of(members@);
        assert(members@.subrange(0, i as int) == members@);
    }
    while i > 0
        invariant
            i <= members@.len(),
            member_value(members_of(members@), key@) == member_value(
                members_of(members@.subrange(0, i as int)),
                key@,
            ),
            k@ == key@,
        decreases i,
    {
        let name = chars_of(members[i - 1].0.as_str());
        let ghost pre = members@.subrange(0, i as int);
        proof {
            lemma_members_of(pre);
            assert(pre.drop_last() == members@.subrange(0, i - 1));
        }
        if same_chars(&name, &k) {
            return Some(&members[i - 1].1);
        }
        proof {
            assert(members_of(pre) == members_of(pre.drop_last()).push(
                (pre.last().0@, json_of(pre.last().1)),
            ));
            assert(members_of(pre).drop_last() =~= members_of(pre.drop_last()));
        }
        i = i - 1;
    }
    None
}

/// A deep copy of a list of values.
pub fn copy_values(v: &Vec<JsonValue>) -> (r: Vec<JsonValue>)
    ensures
        jsons_of(r@) == jsons_of(v@),
{
    let mut out: Vec<JsonValue> = Vec::new();
    let mut i: usize = 0;
    while i < v.len()
        invariant
            i <= v@.len(),
            out@.len() == i,
            forall|k: int| 0 <= k < i ==> json_of(#[trigger] out@[k]) == json_of(v@[k]),
        decreases v@.len() - i,
    {
        out.push(v[i].copy());
        i = i + 1;
    }
    proof {
        lemma_jsons_of(out@);
        lemma_jsons_of(v@);
        assert(jsons_of(out@) =~= jsons_of(v@));
    }
    out
}

impl Clone for JsonValue {
    /// A copy of the value.
    fn clone(&self) -> (r: JsonValue)
        ensures
            r@ == self@,
    {
        self.copy()
    }
}

impl JsonValue {
    /// A deep copy.
    #[verifier::loop_isolation(false)]
    pub fn copy(&self) -> (r: JsonValue)
        ensures
            r@ == self@,
        decreases self,
    {
        match self {
            JsonValue::Null => JsonValue::Null,
            JsonValue::Bool(b) => JsonValue::Bool(*b),
            JsonValue::Number(s) => JsonValue::Number(s.clone()),
            JsonValue::Str(s) => JsonValue::Str(s.clone()),
            JsonValue::Array(items) => {
                let mut out: Vec<JsonValue> = Vec::new();
                let mut i: usize = 0;
                proof {
                    lemma_jsons_of(items@);
                }
                while i < items.len()
                    invariant
                        i <= items@.len(),
                        out@.len() == i,
                        forall|k: int| 0 <= k < i ==> json_of(#[trigger] out@[k]) == json_of(items@[k]),
                    decreases items@.len() - i,
                {
                    assert(decreases_to!(self => items));
                    assert(decreases_to!(items => items@[i as int]));
                    let c = items[i].copy();
                    out.push(c);
                    i = i + 1;
                }
                proof {
                    lemma_jsons_of(out@);
                    lemma_jsons_of(items@);
                    assert(jsons_of(out@) =~= jsons_of(items@));
                }
                JsonValue::Array(out)
            },
            JsonValue::Object(members) => {
                let mut out: Vec<(String, JsonValue)> = Vec::new();
                let mut i: usize = 0;
                while i < members.len()
                    invariant
                        i <= members@.len(),
                        out@.len() == i,
                        forall|k: int|
                            0 <= k < i ==> (#[trigger] out@[k]).0@ == members@[k].0@ && json_of(
                                out@[k].1,
                            ) == json_of(members@[k].1),
                    decreases members@.len() - i,
                {
                    assert(decreases_to!(self => members));
                    assert(decreases_to!(members => members@[i as int]));
                    assert(decreases_to!(members@[i as int] => members@[i as int].1));
                    let c = members[i].1.copy();
                    out.push((members[i].0.clone(), c));
                    i = i + 1;
                }
                proof {
                    lemma_members_of(out@);
                    lemma_members_of(members@);
                    assert(members_of(out@) =~= members_of(members@));
                }
                JsonValue::Object(out)
            },
        }
    }

    /// The member `key` of an object.
    pub fn get(&self, key: &str) -> (r: Option<&JsonValue>)
        ensures
            match r {
                Some(x) => get(self@, key@) == Some(x@),
                None => get(self@, key@) is None,
            },
    {
        match self {
            JsonValue::Object(members) => member(members, key),
            _ => None,
        }
    }

    /// Element `i` of an array.
    pub fn at(&self, i: usize) -> (r: Option<&JsonValue>)
        ensures
            match r {
                Some(x) => at(self@, i as int) == Some(x@),
                None => at(self@, i as int) is None,
            },
    {
        match self {
            JsonValue::Array(items) => {
                proof {
                    lemma_jsons_of(items@);
                }
                if i < items.len() {
                    Some(&items[i])
                } else {
                    None
                }
            },
            _ => None,
        }
    }

    /// The text of a string value.
    pub fn as_str(&self) -> (r: Option<&str>)
        ensures
            match r {
                Some(s) => as_str(self@) == Some(s@),
                None => as_str(self@) is None,
            },
    {
        match self {
            JsonValue::Str(s) => Some(s.as_str()),
            _ => None,
        }
    }

    /// The elements of an array value.
    pub fn as_array(&self) -> (r: Option<&Vec<JsonValue>>)
        ensures
            match r {
                Some(v) => as_array(self@) == Some(jsons_of(v@)),
                None => as_array(self@) is None,
            },
    {
        match self {
            JsonValue::Array(items) => Some(items),
            _ => None,
        }
    }

    /// A string value.
    pub fn text(s: &str) -> (r: JsonValue)
        ensures
            r@ == Json::Str(s@),
    {
        JsonValue::Str(s.to_string())
    }
}

/// A value of serde_json's dynamic JSON type.
#[verifier::external_type_specification]
#[verifier::external_body]
pub struct ExSerdeValue(serde_json::Value);

/// What serde_json's `from_str::<Value>` gives for a text: the value it
/// reads, or the text of its error.
pub uninterp spec fn serde_parse(text: Seq<char>) -> Result<Json, Seq<char>>;

/// What serde_json's `from_str::<Map<String, Value>>` gives for a text: the
/// members of the object it reads, or the text of its error.
pub uninterp spec fn serde_parse_object(text: Seq<char>) -> Result<Seq<(Seq<char>, Json)>, Seq<char>>;

/// The compact text that serde_json writes for a value (`Value::to_string`).
pub uninterp spec fn serde_text(j: Json) -> Seq<char>;

/// Copies a serde_json value into a `JsonValue`, member for member; numbers
/// keep the text that serde_json prints for them.
#[verifier::external_body]
fn from_serde(v: serde_json::Value) -> JsonValue {
    match v {
        serde_json::Value::Null => JsonValue::Null,
        serde_json::Value::Bool(b) => JsonValue::Bool(b),
        serde_json::Value::Number(n) => JsonValue::Number(n.to_string()),
        serde_json::Value::String(s) => JsonValue::Str(s),
        serde_json::Value::Array(a) => JsonValue::Array(a.into_iter().map(from_serde).collect()),
        serde_json::Value::Object(m) => JsonValue::Object(
            m.into_iter().map(|(k, v)| (k, from_serde(v))).collect(),
        ),
    }
}

/// Copies a `JsonValue` into a serde_json value; a number whose text
/// serde_json does not read as a number becomes `null`.
#[verifier::external_body]
fn to_serde(v: &JsonValue) -> serde_json::Value {
    match v {
        JsonValue::Null => serde_json::Value::Null,
        JsonValue::Bool(b) => serde_json::Value::Bool(*b),
        JsonValue::Number(n) => n.parse().map(serde_json::Value::Number).unwrap_or(serde_json::Value::Null),
        JsonValue::Str(s) => serde_json::Value::String(s.clone()),
        JsonValue::Array(a) => serde_json::Value::Array(a.iter().map(to_serde).collect()),
        JsonValue::Object(m) => serde_json::Value::Object(
            m.iter().map(|(k, v)| (k.clone(), to_serde(v))).collect(),
        ),
    }
}

/// Reads JSON text with serde_json (`serde_json::from_str::<Value>`); the
/// result is serde_json's, copied into a `JsonValue`, and an error is given
/// by its message.
#[verifier::external_body]
pub(crate) fn parse_json(text: &str) -> (r: Result<JsonValue, String>)
    ensures
        match r {
            Ok(v) => serde_parse(text@) == Ok::<Json, Seq<char>>(v@),
            Err(e) => serde_parse(text@) == Err::<Json, Seq<char>>(e@),
        },
{
    match serde_json::from_str::<serde_json::Value>(text) {
        Ok(v) => Ok(from_serde(v)),
        Err(e) => Err(e.to_string()),
    }
}

/// Reads a JSON object with serde_json
/// (`serde_json::from_str::<Map<String, Value>>`); its members are copied
/// into `JsonValue`s, and an error is given by its message.
#[verifier::external_body]
pub(crate) fn parse_json_object(text: &str) -> (r: Result<Vec<(String, JsonValue)>, String>)
    ensures
        match r {
            Ok(ms) => serde_parse_object(text@) == Ok::<Seq<(Seq<char>, Json)>, Seq<char>>(members_of(ms@)),
            Err(e) => serde_parse_object(text@) == Err::<Seq<(Seq<char>, Json)>, Seq<char>>(e@),
        },
{
    match serde_json::from_str::<serde_json::Map<String, serde_json::Value>>(text) {
        Ok(m) => Ok(m.into_iter().map(|(k, v)| (k, from_serde(v))).collect()),
        Err(e) => Err(e.to_string()),
    }
}

/// The compact JSON text of a value, as serde_json writes it
/// (`Value::to_string`).
#[verifier::external_body]
pub(crate) fn json_text(v: &JsonValue) -> (r: String)
    ensures
        r@ == serde_text(v@),
{
    to_serde(v).to_string()
}

} // verus!
