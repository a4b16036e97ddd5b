//! JSON, read and written through `serde_json`, one level at a time.

use crate::text::{join, join_strings, views};
use serde_json::Value;
use vstd::prelude::*;
use vstd::string::*;

verus! {

/// A JSON value, read one level deep: a scalar as itself, an array or an
/// object with each of its children as compact JSON text.
#[derive(Debug, Clone, PartialEq)]
pub enum Json {
    Null,
    Bool(bool),
    /// A number, as the text it is written with.
    Number(String),
    /// A string's content, without quotes or escapes.
    Text(String),
    /// The compact text of each element, in order.
    Array(Vec<String>),
    /// Each member's key and the compact text of its value, in the order the
    /// parser hands them out.
    Object(Vec<(String, String)>),
}

/// A JSON value, read one level deep, as contracts see it.
pub ghost enum JsonView {
    Null,
    Bool(bool),
    Number(Seq<char>),
    Text(Seq<char>),
    Array(Seq<Seq<char>>),
    Object(Seq<(Seq<char>, Seq<char>)>),
}

impl View for Json {
    type V = JsonView;

    open spec fn view(&self) -> JsonView {
        match self {
            Json::Null => JsonView::Null,
            Json::Bool(b) => JsonView::Bool(*b),
            Json::Number(n) => JsonView::Number(n@),
            Json::Text(s) => JsonView::Text(s@),
            Json::Array(items) => JsonView::Array(views(items@)),
            Json::Object(members) => JsonView::Object(member_views(members@)),
        }
    }
}

/// What `serde_json` reads `text` as: `None` where it is not one JSON value.
pub uninterp spec fn json_read(text: Seq<char>) -> Option<JsonView>;

/// What `serde_json` writes the string `content` as: a quoted JSON string.
pub uninterp spec fn json_quoted(content: Seq<char>) -> Option<Seq<char>>;

/// Calls `serde_json::from_str` for a `serde_json::Value` and hands out the
/// value's top level; children are rendered with `Value`'s `Display`, which
/// writes compact JSON. The result is a function of `text` alone and is
/// named `json_read`; nothing else is claimed of it.
#[verifier::external_body]
pub(crate) fn read_json(text: &str) -> (r: Option<Json>)
    ensures
        r is Some == json_read(text@) is Some,
        r matches Some(j) ==> json_read(text@) == Some(j@),
{
    match serde_json::from_str::<Value>(text) {
        Ok(Value::Null) => Some(Json::Null),
        Ok(Value::Bool(b)) => Some(Json::Bool(b)),
        Ok(Value::Number(n)) => Some(Json::Number(n.to_string())),
        Ok(Value::String(s)) => Some(Json::Text(s)),
        Ok(Value::Array(a)) => Some(Json::Array(a.iter().map(|v| v.to_string()).collect())),
        Ok(Value::Object(m)) => Some(
            Json::Object(m.into_iter().map(|(k, v)| (k, v.to_string())).collect()),
        ),
        Err(_) => None,
    }
}

/// Calls `serde_json::to_string` on a string slice, which writes it as a
/// quoted JSON string. The result is a function of `content` alone and is
/// named `json_quoted`; nothing else is claimed of it.
#[verifier::external_body]
pub(crate) fn quote_json(content: &str) -> (r: Option<String>)
    ensures
        r is Some == json_quoted(content@) is Some,
        r matches Some(q) ==> json_quoted(content@) == Some(q@),
{
    serde_json::to_string(content).ok()
}

/// Reads one JSON value from `text`, one level deep.
pub fn parse(text: &str) -> (r: Option<Json>)
    ensures
        r is Some == json_read(text@) is Some,
        r matches Some(json) ==> json_read(text@) == Some(json@),
{
    read_json(text)
}

/// Writes `content` as a quoted JSON string.
pub fn quote(content: &str) -> (r: Option<String>)
    ensures
        r is Some == json_quoted(content@) is Some,
        r matches Some(text) ==> json_quoted(content@) == Some(text@),
{
    quote_json(content)
}

/// The views of an object's members.
pub open spec fn member_views(members: Seq<(String, String)>) -> Seq<(Seq<char>, Seq<char>)> {
    members.map_values(|m: (String, String)| (m.0@, m.1@))
}

/// The value text of the first member named `key`.
pub open spec fn member_value(members: Seq<(Seq<char>, Seq<char>)>, key: Seq<char>) -> Option<
    Seq<char>,
>
    decreases members.len(),
{
    if members.len() == 0 {
        None
    } else if members[0].0 == key {
        Some(members[0].1)
    } else {
        member_value(members.drop_first(), key)
    }
}

/// One member as it stands in compact JSON: the quoted key, a colon, the value.
pub open spec fn member_text(member: (Seq<char>, Seq<char>)) -> Option<Seq<char>> {
    match json_quoted(member.0) {
        Some(key) => Some(key + ":"@ + member.1),
        None => None,
    }
}

/// The texts of all members, or `None` if some key cannot be quoted.
pub open spec fn member_texts(members: Seq<(Seq<char>, Seq<char>)>) -> Option<Seq<Seq<char>>> {
    if forall|i: int| 0 <= i < members.len() ==> (#[trigger] member_text(members[i])) is Some {
        Some(members.map_values(|m: (Seq<char>, Seq<char>)| member_text(m).unwrap()))
    } else {
        None
    }
}

/// The compact JSON text of an object with the given members.
pub open spec fn object_text(members: Seq<(Seq<char>, Seq<char>)>) -> Option<Seq<char>> {
    match member_texts(members) {
        Some(texts) => Some("{"@ + join(texts, ","@) + "}"@),
        None => None,
    }
}

/// The compact JSON text of an array with the given elements.
pub open spec fn array_text(items: Seq<Seq<char>>) -> Seq<char> {
    "["@ + join(items, ","@) + "]"@
}

/// The compact JSON text of a value that was read one level deep.
pub open spec fn compact(json: JsonView) -> Option<Seq<char>> {
    match json {
        JsonView::Null => Some("null"@),
        JsonView::Bool(b) => Some(if b { "true"@ } else { "false"@ }),
        JsonView::Number(n) => Some(n),
        JsonView::Text(s) => json_quoted(s),
        JsonView::Array(items) => Some(array_text(items)),
        JsonView::Object(members) => object_text(members),
    }
}

/// Looks up the first member named `key`.
pub fn member<'a>(members: &'a Vec<(String, String)>, key: &str) -> (r: Option<&'a String>)
    ensures
        r is Some == member_value(member_views(members@), key@) is Some,
        r matches Some(value) ==> member_value(member_views(members@), key@) == Some(value@),
{
    let ghost all = member_views(members@);
    let mut i: usize = 0;
    assert(all.skip(0) =~= all);
    while i < members.len()
        invariant
            i <= members.len(),
            all == member_views(members@),
            member_value(all, key@) == member_value(all.skip(i as int), key@),
        decreases members.len() - i,
    {
        proof {
            assert(all.skip(i as int)[0] == all[i as int]);
            assert(all.skip(i as int).drop_first() =~= all.skip(i + 1));
        }
        if members[i].0.as_str().eq(key) {
            return Some(&members[i].1);
        }
        i += 1;
    }
    assert(all.skip(members.len() as int).len() == 0);
    None
}

/// Writes an array of compact JSON texts.
pub fn render_array(items: &Vec<String>) -> (r: String)
    ensures
        r@ == array_text(views(items@)),
{
    let mut out = String::from_str("[");
    out.append(join_strings(items, ",").as_str());
    out.append("]");
    out
}

/// Writes an object from its members' keys and compact value texts.
pub fn render_object(members: &Vec<(String, String)>) -> (r: Option<String>)
    ensures
        r is Some == object_text(member_views(members@)) is Some,
        r matches Some(text) ==> object_text(member_views(members@)) == Some(text@),
{
    let ghost all = member_views(members@);
    let mut texts: Vec<String> = Vec::new();
    let mut i: usize = 0;
    while i < members.len()
        invariant
            i <= members.len(),
            texts.len() == i,
            all == member_views(members@),
            forall|j: int| 0 <= j < i ==> member_text(#[trigger] all[j]) == Some(texts@[j]@),
        decreases members.len() - i,
    {
        match quote_json(members[i].0.as_str()) {
            Some(key) => {
                let mut text = key;
                text.append(":");
                text.append(members[i].1.as_str());
                texts.push(text);
            },
            None => {
                assert(member_text(all[i as int]) is None);
                return None;
            },
        }
        i += 1;
    }
    proof {
        let wanted = all.map_values(|m: (Seq<char>, Seq<char>)| member_text(m).unwrap());
        assert(wanted =~= views(texts@));
    }
    let mut out = String::from_str("{");
    out.append(join_strings(&texts, ",").as_str());
    out.append("}");
    Some(out)
}

/// Writes a value that was read one level deep as compact JSON.
pub fn render(json: &Json) -> (r: Option<String>)
    ensures
        r is Some == compact(json@) is Some,
        r matches Some(text) ==> compact(json@) == Some(text@),
{
    match json {
        Json::Null => Some(String::from_str("null")),
        Json::Bool(b) => Some(String::from_str(if *b { "true" } else { "false" })),
        Json::Number(n) => Some(n.clone()),
        Json::Text(s) => quote_json(s.as_str()),
        Json::Array(items) => Some(render_array(items)),
        Json::Object(members) => render_object(members),
    }
}

} // verus!
