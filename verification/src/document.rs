//! Any JSON value, as a value that can be stored.

use crate::json::{compact, json_read, read_json, render};
use crate::resource::Payload;
use vstd::prelude::*;

verus! {

/// Any JSON value, held as its compact text.
#[derive(Debug, Clone, PartialEq)]
pub struct Document {
    text: String,
}

impl View for Document {
    type V = Seq<char>;

    closed spec fn view(&self) -> Seq<char> {
        self.text@
    }
}

impl Document {
    /// The compact JSON text of the value.
    pub fn as_str(&self) -> (r: &str)
        ensures
            r@ == self@,
    {
        self.text.as_str()
    }
}

impl Payload for Document {
    open spec fn decoded(text: Seq<char>) -> Option<Seq<char>> {
        match json_read(text) {
            Some(json) => compact(json),
            None => None,
        }
    }

    open spec fn encoded(value: Seq<char>) -> Option<Seq<char>> {
        Some(value)
    }

    fn decode(text: &str) -> (r: Option<Document>) {
        match read_json(text) {
            Some(json) => match render(&json) {
                Some(text) => Some(Document { text }),
                None => None,
            },
            None => None,
        }
    }

    fn encode(&self) -> (r: Option<String>) {
        Some(self.text.clone())
    }

    fn same(&self, other: &Document) -> (r: bool) {
        self.text == other.text
    }

    fn duplicate(&self) -> (r: Document) {
        Document { text: self.text.clone() }
    }
}

} // verus!
