//! A plain model of a JSON value, as the remote API sends it. Numbers keep
//! their decimal text; an object keeps its members in order.
use vstd::prelude::*;
use crate::text::same_text;

verus! {

/// A JSON value.
#[derive(Debug)]
pub enum Json {
    Null,
    Bool(bool),
    Number(String),
    Str(String),
    Array(Vec<Json>),
    Object(Vec<Member>),
}

/// One member of a JSON object.
#[derive(Debug)]
pub struct Member {
    pub name: String,
    pub value: Json,
}

/// The value of the first member of `members` named `key`.
pub open spec fn member(members: Seq<Member>, key: Seq<char>) -> Option<Json>
    decreases members.len(),
{
    if members.len() == 0 {
        None
    } else if members[0].name@ == key {
        Some(members[0].value)
    } else {
        member(members.drop_first(), key)
    }
}

/// A new object with no members.
pub fn empty_object() -> (r: Json)
    ensures
        r matches Json::Object(m) && m@.len() == 0,
{
    Json::Object(Vec::new())
}

/// The value of the first member named `key` of the object `members`.
pub fn get_member<'a>(members: &'a Vec<Member>, key: &str) -> (r: Option<&'a Json>)
    ensures
        match r {
            Some(v) => member(members@, key@) == Some(*v),
            None => member(members@, key@) is None,
        },
{
    let mut i: usize = 0;
    assert(members@.subrange(0, members@.len() as int) =~= members@);
    while i < members.len()
        invariant
            0 <= i <= members@.len(),
            member(members@, key@) == member(members@.subrange(i as int, members@.len() as int), key@),
        decreases members@.len() - i,
    {
        let m = &members[i];
        if same_text(m.name.as_str(), key) {
            let ghost rest = members@.subrange(i as int, members@.len() as int);
            assert(rest[0] == members@[i as int]);
            return Some(&m.value);
        }
        proof {
            let rest = members@.subrange(i as int, members@.len() as int);
            assert(rest[0] == members@[i as int]);
            assert(rest.drop_first() =~= members@.subrange(i + 1, members@.len() as int));
        }
        i = i + 1;
    }
    None
}

} // verus!
