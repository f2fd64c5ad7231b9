//! JSON values as plain data.

use vstd::prelude::*;

use crate::text::text_eq;

verus! {

/// A number by the integers that it is, if it is one.
#[derive(Debug, Clone, Copy, PartialEq, Eq, Structural)]
pub struct JsonNumber {
    pub unsigned: Option<u64>,
    pub signed: Option<i64>,
}

/// A JSON value.
#[derive(Debug)]
pub enum Json {
    Null,
    Bool(bool),
    Number(JsonNumber),
    Text(String),
    Array(Vec<Json>),
    Object(Vec<(String, Json)>),
}

/// The value of the first member with a key.
pub open spec fn member_in(members: Seq<(String, Json)>, key: Seq<char>) -> Option<Json>
    decreases members.len(),
{
    if members.len() == 0 {
        None
    } else if members[0].0@ == key {
        Some(members[0].1)
    } else {
        member_in(members.skip(1), key)
    }
}

impl Json {
    /// The value of a member of an object.
    pub open spec fn spec_get(self, key: Seq<char>) -> Option<Json> {
        match self {
            Json::Object(members) => member_in(members@, key),
            _ => None,
        }
    }

    /// The characters of a text.
    pub open spec fn spec_text(self) -> Option<Seq<char>> {
        match self {
            Json::Text(s) => Some(s@),
            _ => None,
        }
    }

    /// The characters of a member that is a text.
    pub open spec fn member_text(self, key: Seq<char>) -> Option<Seq<char>> {
        match self.spec_get(key) {
            Some(v) => v.spec_text(),
            None => None,
        }
    }

    /// The value of a member that is an unsigned integer.
    pub open spec fn member_u64(self, key: Seq<char>) -> Option<u64> {
        match self.spec_get(key) {
            Some(Json::Number(n)) => n.unsigned,
            _ => None,
        }
    }

    /// The value of a member that is a signed integer.
    pub open spec fn member_i64(self, key: Seq<char>) -> Option<i64> {
        match self.spec_get(key) {
            Some(Json::Number(n)) => n.signed,
            _ => None,
        }
    }

    /// The items of a member that is an array.
    pub open spec fn member_items(self, key: Seq<char>) -> Option<Seq<Json>> {
        match self.spec_get(key) {
            Some(Json::Array(items)) => Some(items@),
            _ => None,
        }
    }

    /// The value of a member of an object.
    pub fn get(&self, key: &str) -> (r: Option<&Json>)
        ensures
            match r {
                Some(v) => self.spec_get(key@) == Some(*v),
                None => self.spec_get(key@) is None,
            },
    {
        match self {
            Json::Object(members) => {
                let mut i: usize = 0;
                assert(members@.skip(0) =~= members@);
                while i < members.len()
                    invariant
                        i <= members@.len(),
                        self.spec_get(key@) == member_in(members@, key@),
                        member_in(members@, key@) == member_in(members@.skip(i as int), key@),
                    decreases members@.len() - i,
                {
                    assert(members@.skip(i as int)[0] == members@[i as int]);
                    if text_eq(members[i].0.as_str(), key) {
                        return Some(&members[i].1);
                    }
                    assert(members@.skip(i as int).skip(1) =~= members@.skip(i + 1));
                    i = i + 1;
                }
                None
            },
            _ => None,
        }
    }

    /// The text that the value is.
    pub fn as_text(&self) -> (r: Option<&String>)
        ensures
            match r {
                Some(s) => self.spec_text() == Some(s@),
                None => self.spec_text() is None,
            },
    {
        match self {
            Json::Text(s) => Some(s),
            _ => None,
        }
    }

    /// The text that a member is.
    pub fn get_text(&self, key: &str) -> (r: Option<&String>)
        ensures
            match r {
                Some(s) => self.member_text(key@) == Some(s@),
                None => self.member_text(key@) is None,
            },
    {
        match self.get(key) {
            Some(v) => v.as_text(),
            None => None,
        }
    }

    /// The unsigned integer that a member is.
    pub fn get_u64(&self, key: &str) -> (r: Option<u64>)
        ensures
            r == self.member_u64(key@),
    {
        match self.get(key) {
            Some(Json::Number(n)) => n.unsigned,
            _ => None,
        }
    }

    /// The signed integer that a member is.
    pub fn get_i64(&self, key: &str) -> (r: Option<i64>)
        ensures
            r == self.member_i64(key@),
    {
        match self.get(key) {
            Some(Json::Number(n)) => n.signed,
            _ => None,
        }
    }

    /// The items of a member that is an array.
    pub fn get_items(&self, key: &str) -> (r: Option<&Vec<Json>>)
        ensures
            match r {
                Some(items) => self.member_items(key@) == Some(items@),
                None => self.member_items(key@) is None,
            },
    {
        match self.get(key) {
            Some(Json::Array(items)) => Some(items),
            _ => None,
        }
    }
}

/// The texts among the items, in their order.
pub open spec fn texts_among(items: Seq<Json>, n: int) -> Seq<Seq<char>>
    decreases n,
{
    if n <= 0 {
        Seq::empty()
    } else {
        match items[n - 1].spec_text() {
            Some(s) => texts_among(items, n - 1).push(s),
            None => texts_among(items, n - 1),
        }
    }
}

/// The texts that the items have as a member, in the order of the items.
pub open spec fn member_texts_among(items: Seq<Json>, key: Seq<char>, n: int) -> Seq<Seq<char>>
    decreases n,
{
    if n <= 0 {
        Seq::empty()
    } else {
        match items[n - 1].member_text(key) {
            Some(s) => member_texts_among(items, key, n - 1).push(s),
            None => member_texts_among(items, key, n - 1),
        }
    }
}

/// The characters of a list of strings.
pub open spec fn texts(v: Seq<String>) -> Seq<Seq<char>> {
    v.map_values(|s: String| s@)
}

/// Picks the texts among the items.
pub fn pick_texts(items: &Vec<Json>) -> (r: Vec<String>)
    ensures
        texts(r@) == texts_among(items@, items@.len() as int),
{
    let mut out: Vec<String> = Vec::new();
    let mut i: usize = 0;
    assert(texts(out@) =~= Seq::<Seq<char>>::empty());
    while i < items.len()
        invariant
            i <= items@.len(),
            texts(out@) == texts_among(items@, i as int),
        decreases items@.len() - i,
    {
        match items[i].as_text() {
            Some(s) => {
                let ghost before = out@;
                out.push(s.clone());
                assert(texts(out@) =~= texts(before).push(s@));
            },
            None => {},
        }
        i = i + 1;
    }
    out
}

/// Picks the texts that the items have as a member.
pub fn pick_member_texts(items: &Vec<Json>, key: &str) -> (r: Vec<String>)
    ensures
        texts(r@) == member_texts_among(items@, key@, items@.len() as int),
{
    let mut out: Vec<String> = Vec::new();
    let mut i: usize = 0;
    assert(texts(out@) =~= Seq::<Seq<char>>::empty());
    while i < items.len()
        invariant
            i <= items@.len(),
            texts(out@) == member_texts_among(items@, key@, i as int),
        decreases items@.len() - i,
    {
        match items[i].get_text(key) {
            Some(s) => {
                let ghost before = out@;
                out.push(s.clone());
                assert(texts(out@) =~= texts(before).push(s@));
            },
            None => {},
        }
        i = i + 1;
    }
    out
}

// ---------------------------------------------------------------------------
// Laws
// ---------------------------------------------------------------------------

/// A member is found by its key, the first one where several have it. What is no
/// object has no members.
pub proof fn first_member_is_found(members: Seq<(String, Json)>, key: Seq<char>, k: int)
    requires
        0 <= k < members.len(),
    ensures
        members[k].0@ == key && (forall|i: int|
            0 <= i < k ==> (#[trigger] members[i]).0@ != key) ==> member_in(members, key) == Some(
            members[k].1,
        ),
        (forall|i: int| 0 <= i < members.len() ==> (#[trigger] members[i]).0@ != key)
            ==> member_in(members, key) is None,
    decreases members.len(),
{
    let rest = members.skip(1);
    assert(forall|i: int| 0 <= i < rest.len() ==> #[trigger] rest[i] == members[i + 1]);
    if k > 0 {
        first_member_is_found(rest, key, k - 1);
    } else if rest.len() > 0 {
        first_member_is_found(rest, key, 0);
    }
}

/// A member is read as what it is: a text as a text, a number as a number, a
/// list as a list, and nothing as anything else.
pub proof fn member_is_read_as_what_it_is(object: Json, key: Seq<char>, value: Json)
    requires
        object.spec_get(key) == Some(value),
    ensures
        value matches Json::Text(s) ==> object.member_text(key) == Some(s@),
        !(value is Text) ==> object.member_text(key) is None,
        value matches Json::Number(n) ==> object.member_u64(key) == n.unsigned
            && object.member_i64(key) == n.signed,
        !(value is Number) ==> object.member_u64(key) is None && object.member_i64(key) is None,
        value matches Json::Array(items) ==> object.member_items(key) == Some(items@),
        !(value is Array) ==> object.member_items(key) is None,
{
}

/// What is no object has no members.
pub proof fn only_objects_have_members(value: Json, key: Seq<char>)
    ensures
        !(value is Object) ==> value.spec_get(key) is None,
        value matches Json::Object(members) ==> value.spec_get(key) == member_in(members@, key),
{
}

/// One more item adds its text, where it is one or holds one, behind the others.
pub proof fn texts_are_picked_in_order(items: Seq<Json>, key: Seq<char>, n: int)
    requires
        0 < n <= items.len(),
    ensures
        texts_among(items, 0).len() == 0 && member_texts_among(items, key, 0).len() == 0,
        items[n - 1] matches Json::Text(s) ==> texts_among(items, n) == texts_among(
            items,
            n - 1,
        ).push(s@),
        !(items[n - 1] is Text) ==> texts_among(items, n) == texts_among(items, n - 1),
        items[n - 1].member_text(key) matches Some(s) ==> member_texts_among(items, key, n)
            == member_texts_among(items, key, n - 1).push(s),
        items[n - 1].member_text(key) is None ==> member_texts_among(items, key, n)
            == member_texts_among(items, key, n - 1),
{
}

} // verus!
