//! JSON values as plain data.

use vstd::prelude::*;

use crate::outside::{json_text, parse_json};

verus! {

/// A JSON value. An object is the list of its members in their order.
#[derive(Debug)]
pub enum Json {
    /// `null`.
    Null,
    /// `true` or `false`.
    Bool(bool),
    /// An integer that is not negative.
    Number(u64),
    /// Any other number, as it is written.
    Numeral(String),
    /// A string.
    Text(String),
    /// An array.
    Array(Vec<Json>),
    /// An object.
    Object(Vec<(String, Json)>),
}

/// The mathematical value of a [`Json`].
pub enum JsonView {
    /// `null`.
    Null,
    /// `true` or `false`.
    Bool(bool),
    /// An integer that is not negative.
    Number(u64),
    /// Any other number, as it is written.
    Numeral(Seq<char>),
    /// A string.
    Text(Seq<char>),
    /// An array.
    Array(Seq<JsonView>),
    /// An object.
    Object(Seq<(Seq<char>, JsonView)>),
}

/// The mathematical value of `j`.
pub open spec fn json_view(j: Json) -> JsonView
    decreases j,
{
    match j {
        Json::Null => JsonView::Null,
        Json::Bool(b) => JsonView::Bool(b),
        Json::Number(n) => JsonView::Number(n),
        Json::Numeral(t) => JsonView::Numeral(t@),
        Json::Text(t) => JsonView::Text(t@),
        Json::Array(items) => JsonView::Array(
            Seq::new(
                items@.len(),
                |i: int|
                    if 0 <= i < items@.len() {
                        json_view(items@[i])
                    } else {
                        JsonView::Null
                    },
            ),
        ),
        Json::Object(members) => JsonView::Object(
            Seq::new(
                members@.len(),
                |i: int|
                    if 0 <= i < members@.len() {
                        (members@[i].0@, json_view(members@[i].1))
                    } else {
                        (Seq::<char>::empty(), JsonView::Null)
                    },
            ),
        ),
    }
}

impl View for Json {
    type V = JsonView;

    open spec fn view(&self) -> JsonView {
        json_view(*self)
    }
}

/// The views of the members of an object.
pub open spec fn members_view(members: Seq<(String, Json)>) -> Seq<(Seq<char>, JsonView)> {
    members.map_values(|m: (String, Json)| (m.0@, m.1@))
}

/// The views of the items of an array.
pub open spec fn items_view(items: Seq<Json>) -> Seq<JsonView> {
    items.map_values(|v: Json| v@)
}

/// The view of an optional value.
pub open spec fn opt_json_view(v: Option<&Json>) -> Option<JsonView> {
    match v {
        Some(j) => Some(j@),
        None => None,
    }
}

/// The position of the first member with this key, or the number of members.
pub open spec fn member_index(members: Seq<(Seq<char>, JsonView)>, key: Seq<char>) -> int
    decreases members.len(),
{
    if members.len() == 0 || members[0].0 == key {
        0
    } else {
        1 + member_index(members.skip(1), key)
    }
}

/// The value of a member of an object.
pub open spec fn member(v: JsonView, key: Seq<char>) -> Option<JsonView> {
    match v {
        JsonView::Object(members) => {
            let i = member_index(members, key);
            if 0 <= i < members.len() {
                Some(members[i].1)
            } else {
                None
            }
        },
        _ => None,
    }
}

/// The first member with a key is at `k` when no member before it has that key.
pub proof fn lemma_member_index(members: Seq<(Seq<char>, JsonView)>, key: Seq<char>, k: int)
    requires
        0 <= k <= members.len(),
        forall|i: int| 0 <= i < k ==> (#[trigger] members[i]).0 != key,
        k < members.len() ==> members[k].0 == key,
    ensures
        member_index(members, key) == k,
    decreases members.len(),
{
    if k > 0 {
        assert(members[0].0 != key);
        assert forall|i: int| 0 <= i < k - 1 implies (#[trigger] members.skip(1)[i]).0 != key by {
            assert(members.skip(1)[i] == members[i + 1]);
        }
        lemma_member_index(members.skip(1), key, k - 1);
    }
}

/// The value that a JSON text stands for, or why it is none.
pub fn parse(text: &str) -> (r: Result<Json, String>)
    ensures
        match r {
            Ok(j) => json_text(text@) == Ok::<JsonView, Seq<char>>(j@),
            Err(e) => json_text(text@) == Err::<JsonView, Seq<char>>(e@),
        },
{
    parse_json(text)
}

/// Whether two strings hold the same characters.
pub fn same_text(a: &str, b: &str) -> (r: bool)
    ensures
        r == (a@ == b@),
{
    a.to_owned() == b.to_owned()
}

/// A number as a JSON value.
pub fn number(n: usize) -> (r: Json)
    ensures
        r@ == JsonView::Number(n as u64),
{
    Json::Number(n as u64)
}

/// A truth value as a JSON value.
pub fn flag(b: bool) -> (r: Json)
    ensures
        r@ == JsonView::Bool(b),
{
    Json::Bool(b)
}

/// A list as a JSON value.
pub fn array(items: Vec<Json>) -> (r: Json)
    ensures
        r@ == JsonView::Array(items_view(items@)),
{
    let r = Json::Array(items);
    assert(r@->Array_0 =~= items_view(items@));
    r
}

/// A string as a JSON value.
pub fn text(s: &str) -> (r: Json)
    ensures
        r@ == JsonView::Text(s@),
{
    Json::Text(s.to_owned())
}

/// An object with the given members.
pub fn object(members: Vec<(String, Json)>) -> (r: Json)
    ensures
        r@ == JsonView::Object(members_view(members@)),
{
    let r = Json::Object(members);
    assert(r@ == JsonView::Object(members_view(members@))) by {
        assert(r@->Object_0 =~= members_view(members@));
    }
    r
}

/// Adds a member at the end.
pub fn put(members: &mut Vec<(String, Json)>, key: &str, value: Json)
    ensures
        members_view(final(members)@) == members_view(old(members)@).push((key@, value@)),
{
    members.push((key.to_owned(), value));
    assert(members_view(members@) =~= members_view(old(members)@).push((key@, value@)));
}

impl Json {
    /// The value of a member of an object; `None` for any other value and where
    /// the object has no such member.
    pub fn get(&self, key: &str) -> (r: Option<&Json>)
        ensures
            opt_json_view(r) == member(self@, key@),
    {
        match self {
            Json::Object(members) => {
                let ghost mv = self@->Object_0;
                let mut i: usize = 0;
                while i < members.len()
                    invariant
                        i <= members@.len(),
                        *self == Json::Object(*members),
                        self@ == JsonView::Object(mv),
                        mv.len() == members@.len(),
                        forall|k: int|
                            0 <= k < mv.len() ==> #[trigger] mv[k] == (
                                members@[k].0@,
                                members@[k].1@,
                            ),
                        forall|k: int| 0 <= k < i ==> (#[trigger] mv[k]).0 != key@,
                    decreases members@.len() - i,
                {
                    assert(mv[i as int] == (members@[i as int].0@, members@[i as int].1@));
                    if same_text(members[i].0.as_str(), key) {
                        proof {
                            lemma_member_index(mv, key@, i as int);
                        }
                        return Some(&members[i].1);
                    }
                    i += 1;
                }
                proof {
                    lemma_member_index(mv, key@, i as int);
                }
                None
            },
            _ => None,
        }
    }

    /// The integer that this value is, where it is one that is not negative.
    pub fn as_u64(&self) -> (r: Option<u64>)
        ensures
            r == match self@ {
                JsonView::Number(n) => Some(n),
                _ => None,
            },
    {
        match self {
            Json::Number(n) => Some(*n),
            _ => None,
        }
    }

    /// The truth value that this value is, where it is one.
    pub fn as_bool(&self) -> (r: Option<bool>)
        ensures
            r == match self@ {
                JsonView::Bool(b) => Some(b),
                _ => None,
            },
    {
        match self {
            Json::Bool(b) => Some(*b),
            _ => None,
        }
    }

    /// The string that this value is, where it is one.
    pub fn as_str(&self) -> (r: Option<&str>)
        ensures
            match r {
                Some(s) => self@ == JsonView::Text(s@),
                None => !(self@ is Text),
            },
    {
        match self {
            Json::Text(s) => Some(s.as_str()),
            _ => None,
        }
    }

    /// The items that this value has, where it is an array.
    pub fn as_array(&self) -> (r: Option<&Vec<Json>>)
        ensures
            match r {
                Some(items) => self@ == JsonView::Array(items_view(items@)),
                None => !(self@ is Array),
            },
    {
        match self {
            Json::Array(items) => {
                assert(self@->Array_0 =~= items_view(items@));
                Some(items)
            },
            _ => None,
        }
    }

    /// The value of the first of the given members that an object has.
    pub fn get_any(&self, keys: &[&str]) -> (r: Option<&Json>)
        ensures
            opt_json_view(r) == first_member(self@, keys@),
    {
        let mut i: usize = 0;
        assert(keys@.skip(0) =~= keys@);
        while i < keys.len()
            invariant
                i <= keys@.len(),
                first_member(self@, keys@) == first_member(self@, keys@.skip(i as int)),
            decreases keys@.len() - i,
        {
            assert(keys@.skip(i as int)[0] == keys@[i as int]);
            assert(keys@.skip(i as int).skip(1) =~= keys@.skip(i + 1));
            if let Some(v) = self.get(keys[i]) {
                return Some(v);
            }
            i += 1;
        }
        None
    }
}

/// The value of the first of the given members that an object has.
pub open spec fn first_member(v: JsonView, keys: Seq<&str>) -> Option<JsonView>
    decreases keys.len(),
{
    if keys.len() == 0 {
        None
    } else if member(v, keys[0]@) is Some {
        member(v, keys[0]@)
    } else {
        first_member(v, keys.skip(1))
    }
}

/// The text that a value is, where there is one and it is a text.
pub open spec fn text_of(v: Option<JsonView>) -> Option<Seq<char>> {
    match v {
        Some(JsonView::Text(t)) => Some(t),
        _ => None,
    }
}

/// The text that a value is, where there is one and it is a text.
pub fn text_in(v: Option<&Json>) -> (r: Option<String>)
    ensures
        crate::text::opt_view(r) == text_of(opt_json_view(v)),
{
    match v {
        Some(j) => match j.as_str() {
            Some(t) => Some(t.to_owned()),
            None => None,
        },
        None => None,
    }
}

/// The text that a value is, or another.
pub fn text_or(v: Option<&Json>, default: &str) -> (r: String)
    ensures
        r@ == match text_of(opt_json_view(v)) {
            Some(t) => t,
            None => default@,
        },
{
    match text_in(v) {
        Some(t) => t,
        None => default.to_owned(),
    }
}

/// A member of an object is the first that has its name; an object without such a
/// member, and any other value, has none.
pub proof fn law_member_is_the_first(members: Seq<(Seq<char>, JsonView)>, key: Seq<char>, i: int)
    requires
        0 <= i <= members.len(),
        forall|j: int| 0 <= j < i ==> (#[trigger] members[j]).0 != key,
    ensures
        i < members.len() && members[i].0 == key ==> member(JsonView::Object(members), key) == Some(
            members[i].1,
        ),
        i == members.len() ==> member(JsonView::Object(members), key) is None,
        member(JsonView::Array(Seq::empty()), key) is None,
        member(JsonView::Null, key) is None,
{
    if i == members.len() || members[i].0 == key {
        lemma_member_index(members, key, i);
    }
}

/// Of several names the first that an object has a member of counts.
pub proof fn law_first_of_several_names(v: JsonView, keys: Seq<&str>, i: int)
    requires
        0 <= i <= keys.len(),
        forall|j: int| 0 <= j < i ==> member(v, (#[trigger] keys[j])@) is None,
    ensures
        i < keys.len() && member(v, keys[i]@) is Some ==> first_member(v, keys) == member(
            v,
            keys[i]@,
        ),
        i == keys.len() ==> first_member(v, keys) is None,
    decreases i,
{
    if i > 0 {
        let rest = keys.skip(1);
        assert(member(v, keys[0]@) is None);
        assert forall|j: int| 0 <= j < i - 1 implies member(v, (#[trigger] rest[j])@) is None by {
            assert(rest[j] == keys[j + 1]);
        }
        if i < keys.len() {
            assert(rest[i - 1] == keys[i]);
        }
        law_first_of_several_names(v, rest, i - 1);
    }
}

} // verus!
