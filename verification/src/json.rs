//! A JSON document as the library reads it. Decoding the text is the
//! job of a JSON parser outside the library; the library only walks the
//! decoded value.
use vstd::prelude::*;
use crate::text::str_eq;

verus! {

/// One decoded JSON value.
#[derive(Debug)]
pub enum Json {
    Null,
    Bool(bool),
    /// A number, holding its value when it is an integer in the range of
    /// `i64` or of `u64`.
    Number(Option<i128>),
    Str(String),
    Array(Vec<Json>),
    /// Members in document order.
    Object(Vec<(String, Json)>),
}

/// Index of the first member of `members` named `key`.
pub open spec fn member_index(members: Seq<(String, Json)>, key: Seq<char>) -> Option<int>
    decreases members.len(),
{
    if members.len() == 0 {
        None
    } else if members[0].0@ == key {
        Some(0)
    } else {
        match member_index(members.skip(1), key) {
            Some(i) => Some(i + 1),
            None => None,
        }
    }
}

/// The member `key` of an object (the first one of that name), if any.
pub open spec fn spec_get(v: Json, key: Seq<char>) -> Option<Json> {
    match v {
        Json::Object(members) => match member_index(members@, key) {
            Some(i) => Some(members@[i].1),
            None => None,
        },
        _ => None,
    }
}

/// The text of a string value.
pub open spec fn spec_as_str(v: Json) -> Option<Seq<char>> {
    match v {
        Json::Str(s) => Some(s@),
        _ => None,
    }
}

proof fn lemma_member_index_found(members: Seq<(String, Json)>, key: Seq<char>, i: int)
    requires
        0 <= i < members.len(),
        members[i].0@ == key,
        forall|j: int| 0 <= j < i ==> members[j].0@ != key,
    ensures
        member_index(members, key) == Some(i),
    decreases i,
{
    if i > 0 {
        assert forall|j: int| 0 <= j < i - 1 implies members.skip(1)[j].0@ != key by {
            assert(members.skip(1)[j] == members[j + 1]);
        }
        lemma_member_index_found(members.skip(1), key, i - 1);
    }
}

proof fn lemma_member_index_absent(members: Seq<(String, Json)>, key: Seq<char>)
    requires
        forall|j: int| 0 <= j < members.len() ==> members[j].0@ != key,
    ensures
        member_index(members, key) is None,
    decreases members.len(),
{
    if members.len() > 0 {
        assert forall|j: int| 0 <= j < members.len() - 1 implies members.skip(1)[j].0@ != key by {
            assert(members.skip(1)[j] == members[j + 1]);
        }
        lemma_member_index_absent(members.skip(1), key);
    }
}

/// The value of an integer number in `u64`'s range.
pub open spec fn spec_as_u64(v: Json) -> Option<u64> {
    match v {
        Json::Number(Some(n)) => if 0 <= n <= u64::MAX { Some(n as u64) } else { None },
        _ => None,
    }
}

/// The value of an integer number in `i64`'s range.
pub open spec fn spec_as_i64(v: Json) -> Option<i64> {
    match v {
        Json::Number(Some(n)) => if i64::MIN <= n <= i64::MAX { Some(n as i64) } else { None },
        _ => None,
    }
}

impl Json {
    /// The member `key` of an object (`Value::get` with a string key).
    pub fn get(&self, key: &str) -> (r: Option<&Json>)
        ensures
            match r {
                Some(v) => spec_get(*self, key@) == Some(*v),
                None => spec_get(*self, key@) is None,
            },
    {
        match self {
            Json::Object(members) => {
                let mut i: usize = 0;
                while i < members.len()
                    invariant
                        i <= members.len(),
                        *self == Json::Object(*members),
                        forall|j: int| 0 <= j < i ==> members@[j].0@ != key@,
                    decreases members.len() - i,
                {
                    if str_eq(members[i].0.as_str(), key) {
                        proof {
                            lemma_member_index_found(members@, key@, i as int);
                            assert(members@[i as int] == members[i as int]);
                            assert(member_index(members@, key@) == Some(i as int));

                        }
                        return Some(&members[i].1);
                    }
                    i = i + 1;
                }
                proof {
                    lemma_member_index_absent(members@, key@);
                }
                None
            },
            _ => None,
        }
    }

    /// The text of a string value (`Value::as_str`).
    pub fn as_str(&self) -> (r: Option<&str>)
        ensures
            match r {
                Some(s) => spec_as_str(*self) == Some(s@),
                None => spec_as_str(*self) is None,
            },
    {
        match self {
            Json::Str(s) => Some(s.as_str()),
            _ => None,
        }
    }

    /// The value of a number that is an integer in `u64`'s range (`Value::as_u64`).
    pub fn as_u64(&self) -> (r: Option<u64>)
        ensures
            r == spec_as_u64(*self),
    {
        match self {
            Json::Number(Some(n)) => {
                if 0 <= *n && *n <= u64::MAX as i128 {
                    Some(*n as u64)
                } else {
                    None
                }
            },
            _ => None,
        }
    }

    /// The value of a number that is an integer in `i64`'s range (`Value::as_i64`).
    pub fn as_i64(&self) -> (r: Option<i64>)
        ensures
            r == spec_as_i64(*self),
    {
        match self {
            Json::Number(Some(n)) => {
                if i64::MIN as i128 <= *n && *n <= i64::MAX as i128 {
                    Some(*n as i64)
                } else {
                    None
                }
            },
            _ => None,
        }
    }

    /// The value of a boolean (`Value::as_bool`).
    pub fn as_bool(&self) -> (r: Option<bool>)
        ensures
            r == (match *self {
                Json::Bool(b) => Some(b),
                _ => None,
            }),
    {
        match self {
            Json::Bool(b) => Some(*b),
            _ => None,
        }
    }

    /// The elements of an array (`Value::as_array`).
    pub fn as_array(&self) -> (r: Option<&Vec<Json>>)
        ensures
            match r {
                Some(a) => *self == Json::Array(*a),
                None => !(*self is Array),
            },
    {
        match self {
            Json::Array(a) => Some(a),
            _ => None,
        }
    }

    /// The members of an object (`Value::as_object`).
    pub fn as_object(&self) -> (r: Option<&Vec<(String, Json)>>)
        ensures
            match r {
                Some(m) => *self == Json::Object(*m),
                None => !(*self is Object),
            },
    {
        match self {
            Json::Object(m) => Some(m),
            _ => None,
        }
    }
}

/// The text of the string member `key` of `v`.
pub open spec fn get_str(v: Json, key: Seq<char>) -> Option<Seq<char>> {
    match spec_get(v, key) {
        Some(x) => spec_as_str(x),
        None => None,
    }
}

/// The text of `o`, or the empty text.
pub open spec fn or_empty(o: Option<Seq<char>>) -> Seq<char> {
    match o {
        Some(s) => s,
        None => Seq::empty(),
    }
}

impl Json {
    /// The text of the string member `key` of `self`.
    pub fn get_str(&self, key: &str) -> (r: Option<&str>)
        ensures
            match r {
                Some(s) => get_str(*self, key@) == Some(s@),
                None => get_str(*self, key@) is None,
            },
    {
        match self.get(key) {
            Some(v) => v.as_str(),
            None => None,
        }
    }
}

/// A `String` holding `o`'s text, or the empty string.
pub fn string_or_empty(o: Option<&str>) -> (r: String)
    ensures
        r@ == or_empty(match o {
            Some(s) => Some(s@),
            None => None,
        }),
{
    match o {
        Some(s) => s.to_owned(),
        None => String::new(),
    }
}

} // verus!
