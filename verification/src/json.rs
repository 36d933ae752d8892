//! JSON values as the relay sends them.
use vstd::prelude::*;
use crate::seqs::{first_from, first_index};
use crate::text::{decimal_int, i64_text, opt_str, opt_text, same_text};

verus! {

/// A JSON number: its value as a signed and as an unsigned integer where it is
/// one, and the value cut down to a signed integer.
#[derive(Debug, Clone, Copy, PartialEq, Eq, Structural)]
pub struct JsonNumber {
    pub signed: Option<i64>,
    pub unsigned: Option<u64>,
    pub truncated: i64,
}

/// A JSON value.
#[derive(Debug)]
pub enum Json {
    Null,
    Bool(bool),
    Number(JsonNumber),
    Text(String),
    Array(Vec<Json>),
    Object(Vec<JsonMember>),
}

/// One entry of a JSON object.
#[derive(Debug)]
pub struct JsonMember {
    pub key: String,
    pub value: Json,
}

pub open spec fn json_text(value: Json) -> Option<Seq<char>> {
    match value {
        Json::Text(t) => Some(t@),
        _ => None,
    }
}

pub open spec fn json_bool(value: Json) -> Option<bool> {
    match value {
        Json::Bool(b) => Some(b),
        _ => None,
    }
}

pub open spec fn json_signed(value: Json) -> Option<i64> {
    match value {
        Json::Number(n) => n.signed,
        _ => None,
    }
}

/// The integer of a number, or what is left when its fraction is cut off.
pub open spec fn json_whole(value: Json) -> Option<i64> {
    match value {
        Json::Number(n) => Some(
            match n.signed {
                Some(i) => i,
                None => n.truncated,
            },
        ),
        _ => None,
    }
}

pub open spec fn json_object(value: Json) -> Option<Seq<JsonMember>> {
    match value {
        Json::Object(members) => Some(members@),
        _ => None,
    }
}

/// The value of a key.
pub open spec fn member(obj: Seq<JsonMember>, key: Seq<char>) -> Option<Json> {
    match first_index(obj, |m: JsonMember| m.key@ == key) {
        Some(i) => Some(obj[i].value),
        None => None,
    }
}

/// The member that is found is the first with its key.
pub proof fn lemma_member(obj: Seq<JsonMember>, key: Seq<char>)
    ensures
        match member(obj, key) {
            Some(value) => exists|i: int|
                0 <= i < obj.len() && obj[i].value == value && (#[trigger] obj[i]).key@ == key
                    && forall|j: int| 0 <= j < i ==> (#[trigger] obj[j]).key@ != key,
            None => forall|i: int| 0 <= i < obj.len() ==> (#[trigger] obj[i]).key@ != key,
        },
{
    let keys = seq![key];
    let p = |m: JsonMember| m.key@ == keys[0];
    crate::seqs::lemma_first_from(obj, p, 0);
    assert(member(obj, keys[0]) == (match first_index(obj, p) {
        Some(i) => Some(obj[i].value),
        None => None,
    }));
    match first_index(obj, p) {
        Some(i) => {
            assert(p(obj[i]));
            assert forall|j: int| 0 <= j < i implies (#[trigger] obj[j]).key@ != key by {
                assert(!p(obj[j]));
            }
        },
        None => {
            assert forall|i: int| 0 <= i < obj.len() implies (#[trigger] obj[i]).key@ != key by {
                assert(!p(obj[i]));
            }
        },
    }
}

pub open spec fn member_text(obj: Seq<JsonMember>, key: Seq<char>) -> Option<Seq<char>> {
    match member(obj, key) {
        Some(value) => json_text(value),
        None => None,
    }
}

pub open spec fn member_text_or(obj: Seq<JsonMember>, key: Seq<char>, other: Seq<char>) -> Seq<
    char,
> {
    match member_text(obj, key) {
        Some(t) => t,
        None => other,
    }
}

pub open spec fn member_bool_or(obj: Seq<JsonMember>, key: Seq<char>, other: bool) -> bool {
    match member(obj, key) {
        Some(value) => match json_bool(value) {
            Some(b) => b,
            None => other,
        },
        None => other,
    }
}

pub open spec fn member_whole_or(obj: Seq<JsonMember>, key: Seq<char>, other: i64) -> i64 {
    match member(obj, key) {
        Some(value) => match json_whole(value) {
            Some(n) => n,
            None => other,
        },
        None => other,
    }
}

pub open spec fn member_object(obj: Seq<JsonMember>, key: Seq<char>) -> Option<Seq<JsonMember>> {
    match member(obj, key) {
        Some(value) => json_object(value),
        None => None,
    }
}

/// The text of an identifier, which the relay sends as a number or as a text.
pub open spec fn id_text(value: Json) -> Option<Seq<char>> {
    match value {
        Json::Number(n) => Some(decimal_int(json_whole(value)->0 as int)),
        Json::Text(t) => Some(t@),
        _ => None,
    }
}

pub open spec fn member_id(obj: Seq<JsonMember>, key: Seq<char>) -> Option<Seq<char>> {
    match member(obj, key) {
        Some(value) => id_text(value),
        None => None,
    }
}

impl Json {
    pub fn as_str(&self) -> (text: Option<&str>)
        ensures
            opt_str(text) == json_text(*self),
    {
        match self {
            Json::Text(t) => Some(t.as_str()),
            _ => None,
        }
    }

    pub fn as_bool(&self) -> (value: Option<bool>)
        ensures
            value == json_bool(*self),
    {
        match self {
            Json::Bool(b) => Some(*b),
            _ => None,
        }
    }

    pub fn as_i64(&self) -> (value: Option<i64>)
        ensures
            value == json_signed(*self),
    {
        match self {
            Json::Number(n) => n.signed,
            _ => None,
        }
    }

    pub fn whole(&self) -> (value: Option<i64>)
        ensures
            value == json_whole(*self),
    {
        match self {
            Json::Number(n) => Some(
                match n.signed {
                    Some(i) => i,
                    None => n.truncated,
                },
            ),
            _ => None,
        }
    }

    pub fn as_object(&self) -> (members: Option<&Vec<JsonMember>>)
        ensures
            match members {
                Some(m) => *self == Json::Object(*m),
                None => json_object(*self) is None,
            },
    {
        match self {
            Json::Object(members) => Some(members),
            _ => None,
        }
    }

    /// The text of an identifier: an integer, a number cut down to one, or a
    /// text.
    pub fn parse_id(&self) -> (id: Option<String>)
        ensures
            opt_text(id) == id_text(*self),
    {
        match self {
            Json::Text(t) => Some(t.clone()),
            _ => match self.whole() {
                Some(n) => Some(i64_text(n)),
                None => None,
            },
        }
    }
}

pub fn get<'a>(obj: &'a Vec<JsonMember>, key: &str) -> (value: Option<&'a Json>)
    ensures
        match value {
            Some(v) => member(obj@, key@) == Some(*v),
            None => member(obj@, key@) is None,
        },
{
    let ghost p = |m: JsonMember| m.key@ == key@;
    let mut i: usize = 0;
    while i < obj.len()
        invariant
            i <= obj@.len(),
            p == (|m: JsonMember| m.key@ == key@),
            first_index(obj@, p) == first_from(obj@, p, i as int),
        decreases obj@.len() - i,
    {
        if same_text(obj[i].key.as_str(), key) {
            return Some(&obj[i].value);
        }
        i = i + 1;
    }
    None
}

pub fn get_str<'a>(obj: &'a Vec<JsonMember>, key: &str) -> (text: Option<&'a str>)
    ensures
        opt_str(text) == member_text(obj@, key@),
{
    match get(obj, key) {
        Some(v) => v.as_str(),
        None => None,
    }
}

/// The text of a key, or another one.
pub fn get_text_or(obj: &Vec<JsonMember>, key: &str, other: &str) -> (text: String)
    ensures
        text@ == member_text_or(obj@, key@, other@),
{
    match get_str(obj, key) {
        Some(t) => t.to_owned(),
        None => other.to_owned(),
    }
}

pub fn get_bool_or(obj: &Vec<JsonMember>, key: &str, other: bool) -> (value: bool)
    ensures
        value == member_bool_or(obj@, key@, other),
{
    match get(obj, key) {
        Some(v) => match v.as_bool() {
            Some(b) => b,
            None => other,
        },
        None => other,
    }
}

pub fn get_whole_or(obj: &Vec<JsonMember>, key: &str, other: i64) -> (value: i64)
    ensures
        value == member_whole_or(obj@, key@, other),
{
    match get(obj, key) {
        Some(v) => match v.whole() {
            Some(n) => n,
            None => other,
        },
        None => other,
    }
}

pub fn get_object<'a>(obj: &'a Vec<JsonMember>, key: &str) -> (members: Option<&'a Vec<JsonMember>>)
    ensures
        match members {
            Some(m) => member(obj@, key@) == Some(Json::Object(*m)) && member_object(obj@, key@)
                == Some(m@),
            None => member_object(obj@, key@) is None,
        },
{
    match get(obj, key) {
        Some(v) => v.as_object(),
        None => None,
    }
}

pub fn get_id(obj: &Vec<JsonMember>, key: &str) -> (id: Option<String>)
    ensures
        opt_text(id) == member_id(obj@, key@),
{
    match get(obj, key) {
        Some(v) => v.parse_id(),
        None => None,
    }
}

} // verus!
