use vstd::prelude::*;

verus! {

/// A JSON number as the document holds it: an integer of either sign, or any
/// other number kept as its decimal text.
#[derive(Debug, PartialEq, Eq)]
pub enum JsonNumber {
    PosInt(u64),
    NegInt(i64),
    Decimal(String),
}

/// An untyped JSON document. Object members keep their order; a lookup by key
/// finds the first member with that key.
#[derive(Debug)]
pub enum JsonValue {
    Null,
    Bool(bool),
    Number(JsonNumber),
    Str(String),
    Array(Vec<JsonValue>),
    Object(Vec<(String, JsonValue)>),
}

/// The failure of the envelope check: the document does not hold a list at
/// `data.profileImpressionPage.impressedUsers.edges`.
#[derive(Debug, Clone, Copy, PartialEq, Eq, Structural)]
pub enum WantedlyJsonError {
    InvalidStructure,
}

/// The value of the first member named `key`, if any.
pub open spec fn member_of(members: Seq<(String, JsonValue)>, key: Seq<char>) -> Option<JsonValue>
    decreases members.len(),
{
    if members.len() == 0 {
        None
    } else if members[0].0@ == key {
        Some(members[0].1)
    } else {
        member_of(members.drop_first(), key)
    }
}

/// The value of field `key` of an object; nothing for any other value.
pub open spec fn field_of(v: JsonValue, key: Seq<char>) -> Option<JsonValue> {
    match v {
        JsonValue::Object(members) => member_of(members@, key),
        _ => None,
    }
}

/// Follows one field name from an optional value.
pub open spec fn step(v: Option<JsonValue>, key: Seq<char>) -> Option<JsonValue> {
    match v {
        Some(x) => field_of(x, key),
        None => None,
    }
}

pub open spec fn data_key() -> Seq<char> {
    seq!['d', 'a', 't', 'a']
}

pub open spec fn page_key() -> Seq<char> {
    seq![
        'p', 'r', 'o', 'f', 'i', 'l', 'e', 'I', 'm', 'p', 'r', 'e', 's', 's', 'i', 'o', 'n',
        'P', 'a', 'g', 'e',
    ]
}

pub open spec fn users_key() -> Seq<char> {
    seq!['i', 'm', 'p', 'r', 'e', 's', 's', 'e', 'd', 'U', 's', 'e', 'r', 's']
}

pub open spec fn edges_key() -> Seq<char> {
    seq!['e', 'd', 'g', 'e', 's']
}

pub open spec fn node_key() -> Seq<char> {
    seq!['n', 'o', 'd', 'e']
}

/// The value at `data.profileImpressionPage.impressedUsers.edges`, if every
/// segment is there.
pub open spec fn edges_value(doc: JsonValue) -> Option<JsonValue> {
    step(step(step(field_of(doc, data_key()), page_key()), users_key()), edges_key())
}

/// The edge list of a document, if the path leads to a list.
pub open spec fn edges_spec(doc: JsonValue) -> Option<Seq<JsonValue>> {
    match edges_value(doc) {
        Some(JsonValue::Array(items)) => Some(items@),
        _ => None,
    }
}

/// Whether a string equals the given characters.
pub fn text_is(s: &str, expected: &str) -> (r: bool)
    ensures
        r == (s@ == expected@),
{
    let n = s.unicode_len();
    if n != expected.unicode_len() {
        return false;
    }
    let mut i: usize = 0;
    while i < n
        invariant
            n == s@.len() == expected@.len(),
            0 <= i <= n,
            s@.subrange(0, i as int) == expected@.subrange(0, i as int),
        decreases n - i,
    {
        if s.get_char(i) != expected.get_char(i) {
            return false;
        }
        assert(s@.subrange(0, i + 1) =~= s@.subrange(0, i as int).push(s@[i as int]));
        assert(expected@.subrange(0, i + 1) =~= expected@.subrange(0, i as int).push(
            expected@[i as int],
        ));
        i = i + 1;
    }
    assert(s@ =~= s@.subrange(0, n as int));
    assert(expected@ =~= expected@.subrange(0, n as int));
    true
}

impl JsonValue {
    /// The value of field `key` when `self` is an object that has it.
    pub fn get(&self, key: &str) -> (r: Option<&JsonValue>)
        ensures
            match r {
                Some(v) => field_of(*self, key@) == Some(*v),
                None => field_of(*self, key@).is_none(),
            },
    {
        match self {
            JsonValue::Object(members) => {
                let mut i: usize = 0;
                assert(members@ =~= members@.subrange(0, members@.len() as int));
                assert(field_of(*self, key@) == member_of(members@, key@));
                while i < members.len()
                    invariant
                        field_of(*self, key@) == member_of(members@, key@),
                        0 <= i <= members@.len(),
                        member_of(members@, key@) == member_of(
                            members@.subrange(i as int, members@.len() as int),
                            key@,
                        ),
                    decreases members.len() - i,
                {
                    let ghost rest = members@.subrange(i as int, members@.len() as int);
                    assert(rest[0] == members@[i as int]);
                    if text_is(members[i].0.as_str(), key) {
                        return Some(&members[i].1);
                    }
                    assert(rest.drop_first() =~= members@.subrange(
                        i + 1,
                        members@.len() as int,
                    ));
                    i = i + 1;
                }
                None
            },
            _ => None,
        }
    }

    /// Takes the value of field `key` out of `self` when it is an object that
    /// has it.
    pub fn into_field(self, key: &str) -> (r: Option<JsonValue>)
        ensures
            r == field_of(self, key@),
    {
        let ghost whole = self;
        match self {
            JsonValue::Object(mut members) => {
                let ghost all = members@;
                let mut i: usize = 0;
                assert(all =~= all.subrange(0, all.len() as int));
                while i < members.len()
                    invariant
                        members@ == all,
                        whole == self,
                        field_of(whole, key@) == member_of(all, key@),
                        0 <= i <= all.len(),
                        member_of(all, key@) == member_of(all.subrange(i as int, all.len() as int), key@),
                    decreases members.len() - i,
                {
                    let ghost rest = all.subrange(i as int, all.len() as int);
                    assert(rest[0] == all[i as int]);
                    if text_is(members[i].0.as_str(), key) {
                        assert(member_of(rest, key@) == Some(all[i as int].1));
                        let member = members.remove(i);
                        assert(member == all[i as int]);
                        return Some(member.1);
                    }
                    assert(rest.drop_first() =~= all.subrange(i + 1, all.len() as int));
                    i = i + 1;
                }
                None
            },
            _ => None,
        }
    }

    /// The items of `self` when it is a list.
    pub fn as_array(&self) -> (r: Option<&Vec<JsonValue>>)
        ensures
            match r {
                Some(items) => *self == JsonValue::Array(*items),
                None => !(*self is Array),
            },
    {
        match self {
            JsonValue::Array(items) => Some(items),
            _ => None,
        }
    }
}

/// Finds the edge list at `data.profileImpressionPage.impressedUsers.edges`.
pub fn extract_impressed_user_edges(json_value: &JsonValue) -> (r: Result<
    &Vec<JsonValue>,
    WantedlyJsonError,
>)
    ensures
        match r {
            Ok(items) => edges_spec(*json_value) == Some(items@),
            Err(e) => e == WantedlyJsonError::InvalidStructure && edges_spec(*json_value).is_none(),
        },
{
    proof {
        reveal_strlit("data");
        reveal_strlit("profileImpressionPage");
        reveal_strlit("impressedUsers");
        reveal_strlit("edges");
    }
    assert("data"@ =~= data_key());
    assert("profileImpressionPage"@ =~= page_key());
    assert("impressedUsers"@ =~= users_key());
    assert("edges"@ =~= edges_key());
    let data = match json_value.get("data") {
        Some(v) => v,
        None => return Err(WantedlyJsonError::InvalidStructure),
    };
    let page = match data.get("profileImpressionPage") {
        Some(v) => v,
        None => return Err(WantedlyJsonError::InvalidStructure),
    };
    let users = match page.get("impressedUsers") {
        Some(v) => v,
        None => return Err(WantedlyJsonError::InvalidStructure),
    };
    let edges = match users.get("edges") {
        Some(v) => v,
        None => return Err(WantedlyJsonError::InvalidStructure),
    };
    match edges.as_array() {
        Some(items) => Ok(items),
        None => Err(WantedlyJsonError::InvalidStructure),
    }
}

/// Takes the edge list out of a document, under the same rule as
/// `extract_impressed_user_edges`.
pub fn into_impressed_user_edges(json_value: JsonValue) -> (r: Result<
    Vec<JsonValue>,
    WantedlyJsonError,
>)
    ensures
        match r {
            Ok(items) => edges_spec(json_value) == Some(items@),
            Err(e) => e == WantedlyJsonError::InvalidStructure && edges_spec(json_value).is_none(),
        },
{
    proof {
        reveal_strlit("data");
        reveal_strlit("profileImpressionPage");
        reveal_strlit("impressedUsers");
        reveal_strlit("edges");
    }
    assert("data"@ =~= data_key());
    assert("profileImpressionPage"@ =~= page_key());
    assert("impressedUsers"@ =~= users_key());
    assert("edges"@ =~= edges_key());
    let data = match json_value.into_field("data") {
        Some(v) => v,
        None => return Err(WantedlyJsonError::InvalidStructure),
    };
    let page = match data.into_field("profileImpressionPage") {
        Some(v) => v,
        None => return Err(WantedlyJsonError::InvalidStructure),
    };
    let users = match page.into_field("impressedUsers") {
        Some(v) => v,
        None => return Err(WantedlyJsonError::InvalidStructure),
    };
    let edges = match users.into_field("edges") {
        Some(v) => v,
        None => return Err(WantedlyJsonError::InvalidStructure),
    };
    match edges {
        JsonValue::Array(items) => Ok(items),
        _ => Err(WantedlyJsonError::InvalidStructure),
    }
}

} // verus!
