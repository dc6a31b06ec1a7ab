//! A JSON document as a value: what a response body holds once it has been
//! parsed.

use vstd::prelude::*;

verus! {

/// A JSON value. A number carries no payload: nothing here reads one.
#[derive(Debug, PartialEq, Eq)]
pub enum Json {
    Null,
    Bool(bool),
    Number,
    Text(String),
    Array(Vec<Json>),
    Object(Vec<Member>),
}

/// One member of an object: a key and the value under it.
#[derive(Debug, PartialEq, Eq)]
pub struct Member {
    pub key: String,
    pub value: Json,
}

/// The value under the first member of the given key, if there is one.
pub open spec fn member_of(members: Seq<Member>, key: Seq<char>) -> Option<Json>
    decreases members.len(),
{
    if members.len() == 0 {
        None
    } else if members[0].key@ == key {
        Some(members[0].value)
    } else {
        member_of(members.drop_first(), key)
    }
}

/// The value under `key` where `json` is an object that has it.
pub open spec fn field_of(json: Json, key: Seq<char>) -> Option<Json> {
    match json {
        Json::Object(members) => member_of(members@, key),
        _ => None,
    }
}

/// The text under `key` where `json` is an object that has it and the value
/// is a text.
pub open spec fn text_field_of(json: Json, key: Seq<char>) -> Option<Seq<char>> {
    match field_of(json, key) {
        Some(Json::Text(text)) => Some(text@),
        _ => None,
    }
}

/// The items under `key` where `json` is an object that has it and the
/// value is an array.
pub open spec fn array_field_of(json: Json, key: Seq<char>) -> Option<Seq<Json>> {
    match field_of(json, key) {
        Some(Json::Array(items)) => Some(items@),
        _ => None,
    }
}

/// A member of another key, wherever it stands among the members, does not
/// change what is found under `key`.
pub proof fn lemma_member_ignores_other_keys(
    members: Seq<Member>,
    at: int,
    extra: Member,
    key: Seq<char>,
)
    requires
        0 <= at <= members.len(),
        extra.key@ != key,
    ensures
        member_of(members.insert(at, extra), key) == member_of(members, key),
    decreases members.len(),
{
    let all = members.insert(at, extra);
    if at == 0 {
        assert(all.drop_first() =~= members);
    } else {
        assert(all[0] == members[0]);
        assert(all.drop_first() =~= members.drop_first().insert(at - 1, extra));
        lemma_member_ignores_other_keys(members.drop_first(), at - 1, extra, key);
    }
}

/// Whether `wider` is the object `json` with the member `extra` put in at
/// index `at`.
pub open spec fn widened(json: Json, wider: Json, at: int, extra: Member) -> bool {
    match (json, wider) {
        (Json::Object(members), Json::Object(more)) => 0 <= at <= members@.len() && more@
            == members@.insert(at, extra),
        _ => false,
    }
}

/// An object with one more member has the same value under every other
/// key.
pub proof fn lemma_field_ignores_other_keys(
    json: Json,
    wider: Json,
    at: int,
    extra: Member,
    key: Seq<char>,
)
    requires
        widened(json, wider, at, extra),
        extra.key@ != key,
    ensures
        field_of(wider, key) == field_of(json, key),
        text_field_of(wider, key) == text_field_of(json, key),
        array_field_of(wider, key) == array_field_of(json, key),
{
    lemma_member_ignores_other_keys(json->Object_0@, at, extra, key);
}

/// The value under the first member of the given key, if there is one.
pub fn member<'a>(members: &'a Vec<Member>, key: &str) -> (found: Option<&'a Json>)
    ensures
        match found {
            Some(value) => member_of(members@, key@) == Some(*value),
            None => member_of(members@, key@) is None,
        },
{
    let wanted = key.to_owned();
    let mut i: usize = 0;
    assert(members@.skip(0) =~= members@);
    while i < members.len()
        invariant
            i <= members.len(),
            wanted@ == key@,
            member_of(members@, key@) == member_of(members@.skip(i as int), key@),
        decreases members.len() - i,
    {
        if members[i].key == wanted {
            assert(members@.skip(i as int)[0] == members@[i as int]);
            return Some(&members[i].value);
        }
        assert(members@.skip(i as int).drop_first() =~= members@.skip(i + 1));
        i += 1;
    }
    None
}

impl Json {
    /// The value under `key`, where this is an object with a member of that
    /// key; the first such member counts. Nothing for any other value.
    pub fn field(&self, key: &str) -> (found: Option<&Json>)
        ensures
            match found {
                Some(value) => field_of(*self, key@) == Some(*value),
                None => field_of(*self, key@) is None,
            },
    {
        match self {
            Json::Object(members) => member(members, key),
            _ => None,
        }
    }

    /// The text under `key`, where this is an object whose member of that
    /// key is a text.
    pub fn text_field(&self, key: &str) -> (found: Option<&String>)
        ensures
            match found {
                Some(text) => text_field_of(*self, key@) == Some(text@),
                None => text_field_of(*self, key@) is None,
            },
    {
        match self.field(key) {
            Some(Json::Text(text)) => Some(text),
            _ => None,
        }
    }

    /// The items under `key`, where this is an object whose member of that
    /// key is an array.
    pub fn array_field(&self, key: &str) -> (found: Option<&Vec<Json>>)
        ensures
            match found {
                Some(items) => array_field_of(*self, key@) == Some(items@),
                None => array_field_of(*self, key@) is None,
            },
    {
        match self.field(key) {
            Some(Json::Array(items)) => Some(items),
            _ => None,
        }
    }
}

} // verus!
