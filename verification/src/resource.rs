//! Resources, the values that make them up, and their tagged JSON form.

use crate::json::{json_read, read_json, Json, JsonView};
use crate::text::{join, join_strings, views};
use vstd::prelude::*;
use vstd::string::*;

verus! {

/// What a stored value must offer: a JSON form that reads back, a test for
/// equality and a way to copy it. Contracts speak of a value by its view.
pub trait Payload: View + Sized {
    /// The value that a JSON text stands for, if it stands for one.
    spec fn decoded(text: Seq<char>) -> Option<Self::V>;

    /// The compact JSON text of a value, if it has one.
    spec fn encoded(value: Self::V) -> Option<Seq<char>>;

    /// Reads a value from its JSON text.
    fn decode(text: &str) -> (r: Option<Self>)
        ensures
            r is Some == Self::decoded(text@) is Some,
            r matches Some(value) ==> Self::decoded(text@) == Some(value@),
    ;

    /// Writes the value as compact JSON.
    fn encode(&self) -> (r: Option<String>)
        ensures
            r is Some == Self::encoded(self@) is Some,
            r matches Some(text) ==> Self::encoded(self@) == Some(text@),
    ;

    /// Whether two values are equal.
    fn same(&self, other: &Self) -> (r: bool)
        ensures
            r == (self@ == other@),
    ;

    /// A copy of the value.
    fn duplicate(&self) -> (r: Self)
        ensures
            r@ == self@,
    ;
}

/// Either one entity or a list of entities.
#[derive(Debug, Clone, PartialEq)]
pub enum Resource<T> {
    Single(T),
    List(Vec<T>),
}

/// A resource as contracts see it.
pub ghost enum ResourceView<V> {
    Single(V),
    List(Seq<V>),
}

/// The views of a list of values.
pub open spec fn list_view<T: View>(items: Seq<T>) -> Seq<T::V> {
    items.map_values(|item: T| item@)
}

impl<T: View> View for Resource<T> {
    type V = ResourceView<T::V>;

    open spec fn view(&self) -> ResourceView<T::V> {
        match self {
            Resource::Single(item) => ResourceView::Single(item@),
            Resource::List(items) => ResourceView::List(list_view(items@)),
        }
    }
}

impl<T: Payload> Resource<T> {
    /// Whether two resources are of the same kind and hold equal values, in
    /// the same order.
    pub fn same(&self, other: &Resource<T>) -> (r: bool)
        ensures
            r == (self@ == other@),
    {
        match (self, other) {
            (Resource::Single(a), Resource::Single(b)) => a.same(b),
            (Resource::List(a), Resource::List(b)) => {
                if a.len() != b.len() {
                    assert(list_view(a@).len() != list_view(b@).len());
                    return false;
                }
                let mut i: usize = 0;
                while i < a.len()
                    invariant
                        i <= a.len(),
                        a.len() == b.len(),
                        self@ == ResourceView::List(list_view(a@)),
                        other@ == ResourceView::List(list_view(b@)),
                        forall|j: int| 0 <= j < i ==> a@[j]@ == b@[j]@,
                    decreases a.len() - i,
                {
                    if !a[i].same(&b[i]) {
                        assert(list_view(a@)[i as int] != list_view(b@)[i as int]);
                        return false;
                    }
                    i += 1;
                }
                assert(list_view(a@) =~= list_view(b@));
                true
            },
            _ => false,
        }
    }

    /// A copy of the resource.
    pub fn duplicate(&self) -> (r: Resource<T>)
        ensures
            r@ == self@,
    {
        match self {
            Resource::Single(item) => Resource::Single(item.duplicate()),
            Resource::List(items) => {
                let mut copies: Vec<T> = Vec::new();
                let mut i: usize = 0;
                while i < items.len()
                    invariant
                        i <= items.len(),
                        copies.len() == i,
                        forall|j: int| 0 <= j < i ==> copies@[j]@ == items@[j]@,
                    decreases items.len() - i,
                {
                    copies.push(items[i].duplicate());
                    i += 1;
                }
                assert(list_view(copies@) =~= list_view(items@));
                Resource::List(copies)
            },
        }
    }
}

/// The values that a list of JSON texts stands for: all of them or none.
pub open spec fn decoded_all<T: Payload>(texts: Seq<Seq<char>>) -> Option<Seq<T::V>> {
    if forall|i: int| 0 <= i < texts.len() ==> (#[trigger] T::decoded(texts[i])) is Some {
        Some(texts.map_values(|t: Seq<char>| T::decoded(t).unwrap()))
    } else {
        None
    }
}

/// The list that a JSON array stands for.
pub open spec fn decoded_list<T: Payload>(text: Seq<char>) -> Option<Seq<T::V>> {
    match json_read(text) {
        Some(JsonView::Array(items)) => decoded_all::<T>(items),
        _ => None,
    }
}

/// The resource that a JSON text stands for: an object with the one member
/// `Single`, holding a value, or `List`, holding an array of values.
pub open spec fn decoded_resource<T: Payload>(text: Seq<char>) -> Option<ResourceView<T::V>> {
    match json_read(text) {
        Some(JsonView::Object(members)) => {
            if members.len() != 1 {
                None
            } else if members[0].0 == "Single"@ {
                match T::decoded(members[0].1) {
                    Some(value) => Some(ResourceView::Single(value)),
                    None => None,
                }
            } else if members[0].0 == "List"@ {
                match decoded_list::<T>(members[0].1) {
                    Some(values) => Some(ResourceView::List(values)),
                    None => None,
                }
            } else {
                None
            }
        },
        _ => None,
    }
}

/// The JSON texts of a list of values: all of them or none.
pub open spec fn encoded_all<T: Payload>(values: Seq<T::V>) -> Option<Seq<Seq<char>>> {
    if forall|i: int| 0 <= i < values.len() ==> (#[trigger] T::encoded(values[i])) is Some {
        Some(values.map_values(|v: T::V| T::encoded(v).unwrap()))
    } else {
        None
    }
}

/// The compact JSON text of a resource, tagged `Single` or `List`.
pub open spec fn encoded_resource<T: Payload>(resource: ResourceView<T::V>) -> Option<Seq<char>> {
    match resource {
        ResourceView::Single(value) => match T::encoded(value) {
            Some(text) => Some("{\"Single\":"@ + text + "}"@),
            None => None,
        },
        ResourceView::List(values) => match encoded_all::<T>(values) {
            Some(texts) => Some("{\"List\":["@ + join(texts, ","@) + "]}"@),
            None => None,
        },
    }
}

/// Decodes every text of `texts`; `None` as soon as one does not decode.
pub fn decode_all<T: Payload>(texts: &Vec<String>) -> (r: Option<Vec<T>>)
    ensures
        r is Some == decoded_all::<T>(views(texts@)) is Some,
        r matches Some(items) ==> decoded_all::<T>(views(texts@)) == Some(list_view(items@)),
{
    let mut items: Vec<T> = Vec::new();
    let mut i: usize = 0;
    while i < texts.len()
        invariant
            i <= texts.len(),
            items.len() == i,
            forall|j: int| 0 <= j < i ==> T::decoded(#[trigger] views(texts@)[j]) == Some(items@[j]@),
        decreases texts.len() - i,
    {
        match T::decode(texts[i].as_str()) {
            Some(item) => {
                items.push(item);
            },
            None => {
                assert(T::decoded(views(texts@)[i as int]) is None);
                return None;
            },
        }
        i += 1;
    }
    proof {
        let wanted = views(texts@).map_values(|t: Seq<char>| T::decoded(t).unwrap());
        assert(wanted =~= list_view(items@));
    }
    Some(items)
}

/// Decodes a JSON array of values.
pub fn decode_list<T: Payload>(text: &str) -> (r: Option<Vec<T>>)
    ensures
        r is Some == decoded_list::<T>(text@) is Some,
        r matches Some(items) ==> decoded_list::<T>(text@) == Some(list_view(items@)),
{
    match read_json(text) {
        Some(Json::Array(texts)) => decode_all::<T>(&texts),
        _ => None,
    }
}

/// Decodes a resource from its tagged JSON text.
pub fn decode_resource<T: Payload>(text: &str) -> (r: Option<Resource<T>>)
    ensures
        r is Some == decoded_resource::<T>(text@) is Some,
        r matches Some(resource) ==> decoded_resource::<T>(text@) == Some(resource@),
{
    match read_json(text) {
        Some(Json::Object(members)) => {
            if members.len() != 1 {
                return None;
            }
            let tag = members[0].0.as_str();
            let body = members[0].1.as_str();
            if tag.eq("Single") {
                match T::decode(body) {
                    Some(item) => Some(Resource::Single(item)),
                    None => None,
                }
            } else if tag.eq("List") {
                match decode_list::<T>(body) {
                    Some(items) => Some(Resource::List(items)),
                    None => None,
                }
            } else {
                None
            }
        },
        _ => None,
    }
}

/// Encodes every value of `items`; `None` as soon as one has no JSON text.
pub fn encode_all<T: Payload>(items: &Vec<T>) -> (r: Option<Vec<String>>)
    ensures
        r is Some == encoded_all::<T>(list_view(items@)) is Some,
        r matches Some(texts) ==> encoded_all::<T>(list_view(items@)) == Some(views(texts@)),
{
    let mut texts: Vec<String> = Vec::new();
    let mut i: usize = 0;
    while i < items.len()
        invariant
            i <= items.len(),
            texts.len() == i,
            forall|j: int| 0 <= j < i ==> T::encoded(#[trigger] list_view(items@)[j]) == Some(texts@[j]@),
        decreases items.len() - i,
    {
        match items[i].encode() {
            Some(text) => {
                texts.push(text);
            },
            None => {
                assert(T::encoded(list_view(items@)[i as int]) is None);
                return None;
            },
        }
        i += 1;
    }
    proof {
        let wanted = list_view(items@).map_values(|v: T::V| T::encoded(v).unwrap());
        assert(wanted =~= views(texts@));
    }
    Some(texts)
}

/// Encodes a resource as compact JSON, tagged `Single` or `List`.
pub fn encode_resource<T: Payload>(resource: &Resource<T>) -> (r: Option<String>)
    ensures
        r is Some == encoded_resource::<T>(resource@) is Some,
        r matches Some(text) ==> encoded_resource::<T>(resource@) == Some(text@),
{
    match resource {
        Resource::Single(item) => match item.encode() {
            Some(text) => {
                let mut out = String::from_str("{\"Single\":");
                out.append(text.as_str());
                out.append("}");
                Some(out)
            },
            None => None,
        },
        Resource::List(items) => match encode_all::<T>(items) {
            Some(texts) => {
                let mut out = String::from_str("{\"List\":[");
                out.append(join_strings(&texts, ",").as_str());
                out.append("]}");
                Some(out)
            },
            None => None,
        },
    }
}

} // verus!
