//! JSON objects, written by `serde_json`. The members of an object are put
//! together in verified code; the text of the object is `serde_json`'s, and
//! of that nothing is proved: the text is named, and the wrapper says only
//! that `serde_json` wrote it from the members given.

use vstd::prelude::*;
use serde_json::Value;
use crate::dict::{texts, Dict};

verus! {

/// The value of one member of an object.
#[derive(Debug)]
pub enum Member {
    /// `null`.
    Null,
    /// A whole number.
    Number(i32),
    /// A string.
    Text(String),
    /// An object whose members are all strings.
    Texts(Dict<String>),
}

/// The value of one member, as contracts see it.
pub enum MemberView {
    Null,
    Number(i32),
    Text(Seq<char>),
    Texts(Seq<(Seq<char>, Seq<char>)>),
}

impl View for Member {
    type V = MemberView;

    open spec fn view(&self) -> MemberView {
        match *self {
            Member::Null => MemberView::Null,
            Member::Number(number) => MemberView::Number(number),
            Member::Text(text) => MemberView::Text(text@),
            Member::Texts(members) => MemberView::Texts(texts(members@)),
        }
    }
}

/// The members of an object, each name by its characters and each value by
/// its view.
pub open spec fn members_of(members: Seq<(String, Member)>) -> Seq<(Seq<char>, MemberView)> {
    Seq::new(members.len(), |i: int| (members[i].0@, members[i].1@))
}

/// The JSON text of the object with these members (of two members with one
/// name, the later one), as `serde_json::to_vec` writes it.
pub uninterp spec fn object_json(members: Seq<(Seq<char>, MemberView)>) -> Seq<u8>;

/// Hands the members to `serde_json`, each as the value of `serde_json`'s
/// own type that it stands for, and has `serde_json::to_vec` write the
/// object. Writing a value of that type into a vector cannot fail.
#[verifier::external_body]
pub(crate) fn write_object(members: &Vec<(String, Member)>) -> (json: Vec<u8>)
    ensures
        json@ == object_json(members_of(members@)),
{
    let mut object = serde_json::Map::new();
    for (name, member) in members.iter() {
        let value = match member {
            Member::Null => Value::Null,
            Member::Number(number) => Value::from(*number),
            Member::Text(text) => Value::String(text.clone()),
            Member::Texts(inner) => Value::Object(
                inner.entries.iter().map(|(k, v)| (k.clone(), Value::String(v.clone()))).collect(),
            ),
        };
        object.insert(name.clone(), value);
    }
    serde_json::to_vec(&Value::Object(object)).unwrap_or_default()
}

} // verus!
