//! JSON values, as far as requests and events need them.

use crate::text::same_text;
use vstd::prelude::*;

verus! {

/// A JSON value. A number is kept as it is written; the members of an object
/// are named each once.
pub enum Json {
    Null,
    Bool(bool),
    Number(String),
    Text(String),
    List(Vec<Json>),
    Object(Vec<(String, Json)>),
}

/// The first member with this name, from a place on.
pub open spec fn first_member(members: Seq<(String, Json)>, name: Seq<char>, from: int) -> Option<
    Json,
>
    decreases
            (if from < members.len() {
                members.len() - from
            } else {
                0
            }),
{
    if from >= members.len() {
        None
    } else if members[from].0@ == name {
        Some(members[from].1)
    } else {
        first_member(members, name, from + 1)
    }
}

impl Json {
    /// The text of a string.
    pub open spec fn text(self) -> Option<Seq<char>> {
        match self {
            Json::Text(s) => Some(s@),
            _ => None,
        }
    }

    pub fn as_str(&self) -> (r: Option<&str>)
        ensures
            match r {
                Some(s) => self.text() == Some(s@),
                None => self.text() is None,
            },
    {
        match self {
            Json::Text(s) => Some(s.as_str()),
            _ => None,
        }
    }

    /// The items of an array.
    pub open spec fn items(self) -> Option<Seq<Json>> {
        match self {
            Json::List(list) => Some(list@),
            _ => None,
        }
    }

    pub fn as_array(&self) -> (r: Option<&Vec<Json>>)
        ensures
            match r {
                Some(list) => self.items() == Some(list@),
                None => self.items() is None,
            },
    {
        match self {
            Json::List(list) => Some(list),
            _ => None,
        }
    }

    /// The member of an object with this name.
    pub open spec fn member(self, name: Seq<char>) -> Option<Json> {
        match self {
            Json::Object(members) => first_member(members@, name, 0),
            _ => None,
        }
    }

    /// The text of the member of an object with this name.
    pub open spec fn member_text(self, name: Seq<char>) -> Option<Seq<char>> {
        match self.member(name) {
            Some(v) => v.text(),
            None => None,
        }
    }

    pub fn get(&self, name: &str) -> (r: Option<&Json>)
        ensures
            match r {
                Some(v) => self.member(name@) == Some(*v),
                None => self.member(name@) is None,
            },
    {
        match self {
            Json::Object(members) => {
                let mut i: usize = 0;
                while i < members.len()
                    invariant
                        *self == Json::Object(*members),
                        i <= members@.len(),
                        first_member(members@, name@, 0) == first_member(
                            members@,
                            name@,
                            i as int,
                        ),
                    decreases members@.len() - i,
                {
                    if same_text(members[i].0.as_str(), name) {
                        return Some(&members[i].1);
                    }
                    i += 1;
                }
                None
            },
            _ => None,
        }
    }

    /// A copy of the text of the member with this name.
    pub fn get_str(&self, name: &str) -> (r: Option<String>)
        ensures
            match r {
                Some(s) => self.member_text(name@) == Some(s@),
                None => self.member_text(name@) is None,
            },
    {
        match self.get(name) {
            Some(v) => match v.as_str() {
                Some(s) => Some(s.to_owned()),
                None => None,
            },
            None => None,
        }
    }

    /// Is this the object whose members are these texts, in this order?
    pub open spec fn is_record(self, members: Seq<(Seq<char>, Seq<char>)>) -> bool {
        match self {
            Json::Object(list) => {
                &&& list@.len() == members.len()
                &&& forall|i: int|
                    0 <= i < list@.len() ==> (#[trigger] list@[i]).0@ == members[i].0
                        && list@[i].1.text() == Some(members[i].1)
            },
            _ => false,
        }
    }

    /// An object with one text.
    pub fn record(name: &str, text: &str) -> (v: Json)
        ensures
            v.is_record(seq![(name@, text@)]),
    {
        let mut members: Vec<(String, Json)> = Vec::new();
        members.push((name.to_owned(), Json::Text(text.to_owned())));
        Json::Object(members)
    }

    /// An object with two texts.
    pub fn record_of_two(name: &str, text: &str, name2: &str, text2: &str) -> (v: Json)
        ensures
            v.is_record(seq![(name@, text@), (name2@, text2@)]),
    {
        let mut members: Vec<(String, Json)> = Vec::new();
        members.push((name.to_owned(), Json::Text(text.to_owned())));
        members.push((name2.to_owned(), Json::Text(text2.to_owned())));
        Json::Object(members)
    }
}

} // verus!
