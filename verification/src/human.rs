//! A person, as a value that can be stored.

use crate::json::{json_quoted, json_read, member, member_value, quote_json, read_json, Json, JsonView};
use crate::resource::Payload;
use vstd::prelude::*;
use vstd::string::*;

verus! {

/// A person, known by name. Its JSON form is an object with the member `name`.
#[derive(Debug, Clone, PartialEq)]
pub struct Human {
    pub name: String,
}

/// A person as contracts see one.
pub ghost struct HumanView {
    pub name: Seq<char>,
}

impl View for Human {
    type V = HumanView;

    open spec fn view(&self) -> HumanView {
        HumanView { name: self.name@ }
    }
}

impl Payload for Human {
    open spec fn decoded(text: Seq<char>) -> Option<HumanView> {
        match json_read(text) {
            Some(JsonView::Object(members)) => match member_value(members, "name"@) {
                Some(value) => match json_read(value) {
                    Some(JsonView::Text(name)) => Some(HumanView { name }),
                    _ => None,
                },
                None => None,
            },
            _ => None,
        }
    }

    open spec fn encoded(value: HumanView) -> Option<Seq<char>> {
        match json_quoted(value.name) {
            Some(name) => Some("{\"name\":"@ + name + "}"@),
            None => None,
        }
    }

    fn decode(text: &str) -> (r: Option<Human>) {
        match read_json(text) {
            Some(Json::Object(members)) => match member(&members, "name") {
                Some(value) => match read_json(value.as_str()) {
                    Some(Json::Text(name)) => Some(Human { name }),
                    _ => None,
                },
                None => None,
            },
            _ => None,
        }
    }

    fn encode(&self) -> (r: Option<String>) {
        match quote_json(self.name.as_str()) {
            Some(name) => {
                let mut out = String::from_str("{\"name\":");
                out.append(name.as_str());
                out.append("}");
                Some(out)
            },
            None => None,
        }
    }

    fn same(&self, other: &Human) -> (r: bool) {
        self.name == other.name
    }

    fn duplicate(&self) -> (r: Human) {
        Human { name: self.name.clone() }
    }
}

} // verus!
