//! A JSON document as plain values, the shape in which ExifTool metadata and
//! JSON-RPC requests reach the library.
use vstd::prelude::*;
use crate::text;

verus! {

/// A JSON number, kept in the three forms a JSON parser distinguishes.
pub enum JsonNumber {
    /// A non-negative integer.
    PosInt(u64),
    /// A negative integer.
    NegInt(i64),
    /// Any other number, as its decimal text.
    Float(String),
}

impl JsonNumber {
    /// A copy of this number.
    pub fn duplicate(&self) -> (r: JsonNumber)
        ensures
            r == *self,
    {
        match self {
            JsonNumber::PosInt(n) => JsonNumber::PosInt(*n),
            JsonNumber::NegInt(n) => JsonNumber::NegInt(*n),
            JsonNumber::Float(s) => JsonNumber::Float(s.clone()),
        }
    }
}

/// A JSON value. Object members keep the order in which the parser yields them.
pub enum Json {
    Null,
    Bool(bool),
    Number(JsonNumber),
    Str(String),
    Array(Vec<Json>),
    Object(Vec<(String, Json)>),
}

/// The value of the first member of `members` named `key`.
pub open spec fn member(members: Seq<(String, Json)>, key: Seq<char>) -> Option<Json>
    decreases members.len(),
{
    if members.len() == 0 {
        None
    } else if members[0].0@ == key {
        Some(members[0].1)
    } else {
        member(members.skip(1), key)
    }
}

impl Json {
    /// `Value::get` on an object; `None` on any other value.
    pub open spec fn get_spec(self, key: Seq<char>) -> Option<Json> {
        match self {
            Json::Object(m) => member(m@, key),
            _ => None,
        }
    }

    /// The text of a string value.
    pub open spec fn str_spec(self) -> Option<Seq<char>> {
        match self {
            Json::Str(s) => Some(s@),
            _ => None,
        }
    }

    pub fn get(&self, key: &String) -> (r: Option<&Json>)
        ensures
            r matches Some(v) ==> self.get_spec(key@) == Some(*v),
            r is None ==> self.get_spec(key@) is None,
    {
        match self {
            Json::Object(m) => {
                let mut i: usize = 0;
                assert(m@.skip(0) =~= m@);
                while i < m.len()
                    invariant
                        i <= m@.len(),
                        self.get_spec(key@) == member(m@, key@),
                        member(m@, key@) == member(m@.skip(i as int), key@),
                    decreases m.len() - i,
                {
                    assert(m@.skip(i as int)[0] == m@[i as int]);
                    if m[i].0 == *key {
                        return Some(&m[i].1);
                    }
                    assert(m@.skip(i as int).skip(1) =~= m@.skip(i + 1));
                    i = i + 1;
                }
                None
            },
            _ => None,
        }
    }

    pub fn as_str(&self) -> (r: Option<&String>)
        ensures
            r matches Some(s) ==> self.str_spec() == Some(s@),
            r is None ==> self.str_spec() is None,
    {
        match self {
            Json::Str(s) => Some(s),
            _ => None,
        }
    }

    /// `Value::as_u64`: a non-negative integer.
    pub open spec fn u64_spec(self) -> Option<u64> {
        match self {
            Json::Number(JsonNumber::PosInt(n)) => Some(n),
            _ => None,
        }
    }

    pub fn as_u64(&self) -> (r: Option<u64>)
        ensures
            r == self.u64_spec(),
    {
        match self {
            Json::Number(JsonNumber::PosInt(n)) => Some(*n),
            _ => None,
        }
    }

    /// The member `key` of an object, looked up by a string slice.
    pub fn field(&self, key: &str) -> (r: Option<&Json>)
        ensures
            r matches Some(v) ==> self.get_spec(key@) == Some(*v),
            r is None ==> self.get_spec(key@) is None,
    {
        self.get(&key.to_string())
    }

    /// The text of the member `key`, where it is a string.
    pub open spec fn str_field(self, key: Seq<char>) -> Option<Seq<char>> {
        match self.get_spec(key) {
            Some(v) => v.str_spec(),
            None => None,
        }
    }

    /// The number of the member `key`, where it is a non-negative integer.
    pub open spec fn u64_field(self, key: Seq<char>) -> Option<u64> {
        match self.get_spec(key) {
            Some(v) => v.u64_spec(),
            None => None,
        }
    }

    /// A string value.
    pub fn text(s: &str) -> (r: Json)
        ensures
            r.str_spec() == Some(s@),
    {
        Json::Str(s.to_string())
    }
}

/// The index of the first member of `members` named `key`.
pub open spec fn member_index(members: Seq<(String, Json)>, key: Seq<char>) -> Option<int>
    decreases members.len(),
{
    if members.len() == 0 {
        None
    } else if members[0].0@ == key {
        Some(0)
    } else {
        match member_index(members.skip(1), key) {
            Some(k) => Some(k + 1),
            None => None,
        }
    }
}

pub proof fn lemma_member_index(members: Seq<(String, Json)>, key: Seq<char>)
    ensures
        match member_index(members, key) {
            Some(k) => 0 <= k < members.len() && members[k].0@ == key && member(members, key)
                == Some(members[k].1),
            None => member(members, key) is None,
        },
    decreases members.len(),
{
    if members.len() > 0 && members[0].0@ != key {
        lemma_member_index(members.skip(1), key);
        match member_index(members.skip(1), key) {
            Some(k) => {
                assert(members[k + 1] == members.skip(1)[k]);
            },
            None => {},
        }
    }
}

/// Removing a member named otherwise leaves the lookup of `key` as it was.
pub proof fn lemma_member_remove(members: Seq<(String, Json)>, k: int, key: Seq<char>)
    requires
        0 <= k < members.len(),
        members[k].0@ != key,
    ensures
        member(members.remove(k), key) == member(members, key),
    decreases members.len(),
{
    if k == 0 {
        assert(members.remove(0) =~= members.skip(1));
    } else {
        assert(members.remove(k)[0] == members[0]);
        assert(members.remove(k).skip(1) =~= members.skip(1).remove(k - 1));
        if members[0].0@ != key {
            lemma_member_remove(members.skip(1), k - 1, key);
        }
    }
}

/// Takes the first member named `key` out of `members`, and gives its value.
pub fn take_member(members: &mut Vec<(String, Json)>, key: &str) -> (r: Option<Json>)
    ensures
        r == member(old(members)@, key@),
        forall|other: Seq<char>|
            other != key@ ==> #[trigger] member(final(members)@, other) == member(
                old(members)@,
                other,
            ),
{
    proof {
        lemma_member_index(members@, key@);
    }
    let ghost m0 = members@;
    let mut i: usize = 0;
    assert(members@.skip(0) =~= members@);
    while i < members.len()
        invariant
            members@ == m0,
            m0 == old(members)@,
            i <= m0.len(),
            member_index(m0, key@) == match member_index(m0.skip(i as int), key@) {
                Some(j) => Some(j + i),
                None => None,
            },
        decreases members.len() - i,
    {
        assert(m0.skip(i as int)[0] == m0[i as int]);
        if text::equal_text(members[i].0.as_str(), key) {
            let (_, v) = members.remove(i);
            proof {
                lemma_member_index(m0, key@);
                assert forall|other: Seq<char>| other != key@ implies #[trigger] member(
                    members@,
                    other,
                ) == member(m0, other) by {
                    lemma_member_remove(m0, i as int, other);
                }
            }
            return Some(v);
        }
        assert(m0.skip(i as int).skip(1) =~= m0.skip(i + 1));
        i = i + 1;
    }
    assert(m0.skip(i as int) =~= Seq::<(String, Json)>::empty());
    None
}

/// Looking up a key after one more member is added at the end.
pub proof fn lemma_member_push(members: Seq<(String, Json)>, entry: (String, Json), key: Seq<char>)
    ensures
        member(members.push(entry), key) == match member(members, key) {
            Some(v) => Some(v),
            None => if entry.0@ == key {
                Some(entry.1)
            } else {
                None
            },
        },
    decreases members.len(),
{
    if members.len() == 0 {
        assert(members.push(entry)[0] == entry);
        assert(members.push(entry).skip(1) =~= Seq::<(String, Json)>::empty());
        assert(member(Seq::<(String, Json)>::empty(), key) is None);
    } else {
        assert(members.push(entry)[0] == members[0]);
        assert(members.push(entry).skip(1) =~= members.skip(1).push(entry));
        lemma_member_push(members.skip(1), entry, key);
    }
}

/// Adds the member `key: value` at the end of an object's members.
pub fn push_member(members: &mut Vec<(String, Json)>, key: &str, value: Json)
    ensures
        final(members)@.len() == old(members)@.len() + 1,
        final(members)@.drop_last() == old(members)@,
        final(members)@.last().0@ == key@,
        final(members)@.last().1 == value,
        forall|k: Seq<char>|
            #[trigger] member(final(members)@, k) == match member(old(members)@, k) {
                Some(v) => Some(v),
                None => if k == key@ {
                    Some(value)
                } else {
                    None
                },
            },
{
    let ghost m0 = members@;
    let entry = (key.to_string(), value);
    members.push(entry);
    assert(members@.drop_last() =~= m0);
    proof {
        assert forall|k: Seq<char>| #[trigger] member(members@, k) == match member(m0, k) {
            Some(v) => Some(v),
            None => if k == key@ {
                Some(value)
            } else {
                None
            },
        } by {
            lemma_member_push(m0, entry, k);
        }
    }
}

/// The number of members of an object, 0 for any other value.
pub open spec fn member_count(j: Json) -> nat {
    match j {
        Json::Object(m) => m@.len(),
        _ => 0,
    }
}

} // verus!
