//! JSON values as plain data.
use std::sync::Arc;
use vstd::prelude::*;

use crate::text::{owned, same_text};

verus! {

/// A JSON value. Arrays and objects are shared, so that a copy of a value is the same value.
#[derive(Debug, PartialEq, Eq)]
pub enum Json {
    Null,
    Bool(bool),
    Unsigned(u64),
    Signed(i64),
    /// A number that is no integer of the two kinds above, as it is written.
    Decimal(String),
    Text(String),
    Array(Arc<Vec<Json>>),
    /// The members of an object in order; of two with one name the first counts.
    Object(Arc<Vec<(String, Json)>>),
}

impl DeepView for Json {
    type V = Json;

    open spec fn deep_view(&self) -> Json {
        *self
    }
}

impl Clone for Json {
    fn clone(&self) -> (copy: Self)
        ensures
            copy == *self,
    {
        match self {
            Json::Null => Json::Null,
            Json::Bool(value) => Json::Bool(*value),
            Json::Unsigned(value) => Json::Unsigned(*value),
            Json::Signed(value) => Json::Signed(*value),
            Json::Decimal(value) => Json::Decimal(value.clone()),
            Json::Text(value) => Json::Text(value.clone()),
            Json::Array(values) => Json::Array(values.clone()),
            Json::Object(members) => Json::Object(members.clone()),
        }
    }
}

/// The first member from position `at` on that has the name.
pub open spec fn member_from(members: Seq<(String, Json)>, name: Seq<char>, at: int) -> Option<Json>
    decreases members.len() - at,
{
    if at < 0 || at >= members.len() {
        None
    } else if members[at].0@ == name {
        Some(members[at].1)
    } else {
        member_from(members, name, at + 1)
    }
}

impl Json {
    /// The member of an object that has the name.
    pub open spec fn member(self, name: Seq<char>) -> Option<Json> {
        match self {
            Json::Object(members) => member_from(members@, name, 0),
            _ => None,
        }
    }

    /// The text of a JSON string.
    pub open spec fn as_text(self) -> Option<Seq<char>> {
        match self {
            Json::Text(value) => Some(value@),
            _ => None,
        }
    }

    /// The elements of an array.
    pub open spec fn as_elements(self) -> Option<Seq<Json>> {
        match self {
            Json::Array(values) => Some(values@),
            _ => None,
        }
    }

    /// The text of the member that has the name.
    pub open spec fn text_member(self, name: Seq<char>) -> Option<Seq<char>> {
        match self.member(name) {
            Some(value) => value.as_text(),
            None => None,
        }
    }

    /// Whether the member that has the name is the value `true`.
    pub open spec fn flag(self, name: Seq<char>) -> bool {
        self.member(name) == Some(Json::Bool(true))
    }

    /// The elements of the member that has the name; none if it is no array.
    pub open spec fn elements_member(self, name: Seq<char>) -> Seq<Json> {
        match self.member(name) {
            Some(Json::Array(values)) => values@,
            _ => Seq::empty(),
        }
    }

    /// The JSON string that holds a text.
    pub fn string(value: &str) -> (r: Json)
        ensures
            r.as_text() == Some(value@),
    {
        Json::Text(owned(value))
    }

    /// The array of the values.
    pub fn array(values: Vec<Json>) -> (r: Json)
        ensures
            r.as_elements() == Some(values@),
    {
        Json::Array(Arc::new(values))
    }

    /// The object with the members.
    pub fn object(members: Vec<(String, Json)>) -> (r: Json)
        ensures
            forall|name: Seq<char>| #[trigger]
                r.member(name) == member_from(members@, name, 0),
    {
        Json::Object(Arc::new(members))
    }

    /// The member of an object that has the name.
    pub fn get(&self, name: &str) -> (r: Option<&Json>)
        ensures
            match r {
                Some(value) => self.member(name@) == Some(*value),
                None => self.member(name@) is None,
            },
            r matches Some(value) ==> decreases_to!(*self => *value),
    {
        match self {
            Json::Object(members) => {
                let mut i: usize = 0;
                while i < members.len()
                    invariant
                        i <= members.len(),
                        *self == Json::Object(*members),
                        self.member(name@) == member_from(members@, name@, i as int),
                    decreases members.len() - i,
                {
                    if same_text(members[i].0.as_str(), name) {
                        assert(decreases_to!(*self => members));
                        assert(decreases_to!(members@ => members@[i as int]));
                        return Some(&members[i].1);
                    }
                    i += 1;
                }
                None
            },
            _ => None,
        }
    }

    /// The text of a JSON string.
    pub fn as_str(&self) -> (r: Option<&str>)
        ensures
            match r {
                Some(value) => self.as_text() == Some(value@),
                None => self.as_text() is None,
            },
    {
        match self {
            Json::Text(value) => Some(value.as_str()),
            _ => None,
        }
    }

    /// The text of the member that has the name.
    pub fn get_str(&self, name: &str) -> (r: Option<&str>)
        ensures
            match r {
                Some(value) => self.text_member(name@) == Some(value@),
                None => self.text_member(name@) is None,
            },
    {
        match self.get(name) {
            Some(value) => value.as_str(),
            None => None,
        }
    }

    /// The elements of an array.
    pub fn as_array(&self) -> (r: Option<&Vec<Json>>)
        ensures
            match r {
                Some(values) => self.as_elements() == Some(values@),
                None => self.as_elements() is None,
            },
            r matches Some(values) ==> decreases_to!(*self => *values),
    {
        match self {
            Json::Array(values) => {
                assert(decreases_to!(*self => *values));
                Some(values)
            },
            _ => None,
        }
    }

    /// Whether the member that has the name is the value `true`.
    pub fn is_flagged(&self, name: &str) -> (r: bool)
        ensures
            r == self.flag(name@),
    {
        match self.get(name) {
            Some(Json::Bool(value)) => *value,
            _ => false,
        }
    }
}

} // verus!
