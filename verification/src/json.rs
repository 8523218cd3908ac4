//! JSON values.
//!
//! [`Json`] holds a value as plain data. Its view, [`JsonView`], is the mathematical tree in
//! which an object is a map from text to trees, so that the order in which the members of an
//! object were written does not count.

use crate::strmap;
use crate::strmap::StrMap;
use vstd::prelude::*;

verus! {

/// A JSON number.
#[derive(Debug, Clone, Copy, PartialEq, Eq, Structural)]
pub enum JsonNumber {
    /// A non-negative integer.
    PosInt(u64),
    /// A negative integer.
    NegInt(i64),
    /// The bits of a double-precision number.
    Float(u64),
}

/// A JSON value.
#[derive(Debug)]
pub enum Json {
    Null,
    Bool(bool),
    Number(JsonNumber),
    String(String),
    Array(Vec<Json>),
    Object(StrMap<Json>),
}

/// What a JSON value means.
pub enum JsonView {
    Null,
    Bool(bool),
    Number(JsonNumber),
    String(Seq<char>),
    Array(Seq<JsonView>),
    Object(Map<Seq<char>, JsonView>),
}

impl View for Json {
    type V = JsonView;

    open spec fn view(&self) -> JsonView
    {
        json_view(*self)
    }
}

/// The meaning of a JSON value.
pub open spec fn json_view(value: Json) -> JsonView
    decreases value,
{
    match value {
        Json::Null => JsonView::Null,
        Json::Bool(b) => JsonView::Bool(b),
        Json::Number(n) => JsonView::Number(n),
        Json::String(s) => JsonView::String(s@),
        Json::Array(items) => JsonView::Array(array_view(items@)),
        Json::Object(members) => {
            proof { members.lemma_pairs_smaller(); }
            JsonView::Object(pairs_view(members.pairs()))
        },
    }
}

/// The meaning of the items of an array.
pub open spec fn array_view(items: Seq<Json>) -> Seq<JsonView>
    decreases items,
{
    if items.len() == 0 {
        Seq::empty()
    } else {
        array_view(items.drop_last()).push(json_view(items.last()))
    }
}

/// The meaning of the members of an object.
pub open spec fn pairs_view(pairs: Seq<(String, Json)>) -> Map<Seq<char>, JsonView>
    decreases pairs,
{
    if pairs.len() == 0 {
        Map::empty()
    } else {
        pairs_view(pairs.drop_last()).insert(pairs.last().0@, json_view(pairs.last().1))
    }
}

/// The meaning of the members of an object.
pub open spec fn object_view(members: StrMap<Json>) -> Map<Seq<char>, JsonView> {
    pairs_view(members.pairs())
}

/// The meaning of an optional reference to a value.
pub open spec fn option_view(value: Option<&Json>) -> Option<JsonView> {
    match value {
        Some(v) => Some(v@),
        None => None,
    }
}

/// The characters of an optional string slice.
pub open spec fn option_chars(text: Option<&str>) -> Option<Seq<char>> {
    match text {
        Some(s) => Some(s@),
        None => None,
    }
}

impl JsonView {
    /// The members, where the value is an object.
    pub open spec fn members(self) -> Option<Map<Seq<char>, JsonView>> {
        match self {
            JsonView::Object(m) => Some(m),
            _ => None,
        }
    }

    /// The member under a key, where the value is an object that has one.
    pub open spec fn get(self, key: Seq<char>) -> Option<JsonView> {
        match self {
            JsonView::Object(m) => if m.contains_key(key) {
                Some(m[key])
            } else {
                None
            },
            _ => None,
        }
    }

    /// The characters, where the value is a string.
    pub open spec fn text(self) -> Option<Seq<char>> {
        match self {
            JsonView::String(s) => Some(s),
            _ => None,
        }
    }

    /// The characters of the member under a key, where it is a string.
    pub open spec fn get_text(self, key: Seq<char>) -> Option<Seq<char>> {
        match self.get(key) {
            Some(v) => v.text(),
            None => None,
        }
    }

    /// The items, where the value is an array.
    pub open spec fn items(self) -> Option<Seq<JsonView>> {
        match self {
            JsonView::Array(s) => Some(s),
            _ => None,
        }
    }

    /// The truth value, where the value is a Boolean.
    pub open spec fn boolean(self) -> Option<bool> {
        match self {
            JsonView::Bool(b) => Some(b),
            _ => None,
        }
    }

    /// The number, where the value is a non-negative integer.
    pub open spec fn unsigned(self) -> Option<u64> {
        match self {
            JsonView::Number(JsonNumber::PosInt(n)) => Some(n),
            _ => None,
        }
    }
}

/// The low 32 bits of a number.
pub open spec fn low_bits(n: u64) -> u32 {
    (n % 0x1_0000_0000) as u32
}

/// The low 32 bits of a number.
pub fn low_u32(n: u64) -> (r: u32)
    ensures
        r == low_bits(n),
{
    proof {
        assert(n as u32 == n % 0x1_0000_0000) by (bit_vector);
    }
    n as u32
}

/// The items of an array keep their places in its meaning.
pub proof fn lemma_array_view(items: Seq<Json>)
    ensures
        array_view(items).len() == items.len(),
        forall|i: int| 0 <= i < items.len() ==> #[trigger] array_view(items)[i] == items[i]@,
    decreases items.len(),
{
    if items.len() > 0 {
        let init = items.drop_last();
        lemma_array_view(init);
        assert forall|i: int| 0 <= i < items.len() implies #[trigger] array_view(items)[i]
            == items[i]@ by {
            if i < init.len() {
                assert(array_view(items)[i] == array_view(init)[i]);
                assert(init[i] == items[i]);
            }
        }
    }
}

/// The meaning of an object has its keys, and the meanings of its values.
pub proof fn lemma_pairs_view(pairs: Seq<(String, Json)>)
    ensures
        pairs_view(pairs).dom() == strmap::pairs_map(pairs).dom(),
        forall|k: Seq<char>| #[trigger]
            pairs_view(pairs).contains_key(k) ==> pairs_view(pairs)[k] == strmap::pairs_map(pairs)[k]@,
    decreases pairs.len(),
{
    if pairs.len() > 0 {
        lemma_pairs_view(pairs.drop_last());
        assert(pairs_view(pairs).dom() =~= strmap::pairs_map(pairs).dom());
        assert forall|k: Seq<char>| #[trigger] pairs_view(pairs).contains_key(k) implies pairs_view(
            pairs,
        )[k] == strmap::pairs_map(pairs)[k]@ by {
            if k != pairs.last().0@ {
                assert(pairs_view(pairs.drop_last()).contains_key(k));
            }
        }
    }
}

/// The meaning of an object has its keys, and the meanings of its values.
pub proof fn lemma_object_view(members: StrMap<Json>)
    ensures
        object_view(members).dom() == members@.dom(),
        forall|k: Seq<char>| #[trigger]
            object_view(members).contains_key(k) ==> object_view(members)[k] == members@[k]@,
        Json::Object(members)@ == JsonView::Object(object_view(members)),
{
    lemma_pairs_view(members.pairs());
}

impl StrMap<Json> {
    /// The member under `key`.
    pub fn member(&self, key: &str) -> (r: Option<&Json>)
        ensures
            option_view(r) == JsonView::Object(object_view(*self)).get(key@),
    {
        proof {
            lemma_object_view(*self);
        }
        self.get(key)
    }

    /// Put a member under `key`.
    pub fn set_member(&mut self, key: &str, value: Json)
        ensures
            object_view(*final(self)) == object_view(*old(self)).insert(key@, value@),
    {
        proof {
            lemma_object_view(*self);
        }
        self.insert(key, value);
        proof {
            lemma_object_view(*self);
            assert(object_view(*self) =~= object_view(*old(self)).insert(key@, value@));
        }
    }

    /// Take the member under `key` out.
    pub fn take_member(&mut self, key: &str) -> (r: Option<Json>)
        ensures
            object_view(*final(self)) == object_view(*old(self)).remove(key@),
            match r {
                Some(v) => JsonView::Object(object_view(*old(self))).get(key@) == Some(v@),
                None => JsonView::Object(object_view(*old(self))).get(key@) is None,
            },
    {
        proof {
            lemma_object_view(*self);
        }
        let r = self.remove(key);
        proof {
            lemma_object_view(*self);
            assert(object_view(*self) =~= object_view(*old(self)).remove(key@));
        }
        r
    }
}

impl Json {
    /// A string value.
    pub fn text(s: &str) -> (r: Json)
        ensures
            r@ == JsonView::String(s@),
    {
        Json::String(s.to_owned())
    }

    /// A non-negative integer value.
    pub fn unsigned(n: u64) -> (r: Json)
        ensures
            r@ == JsonView::Number(JsonNumber::PosInt(n)),
    {
        Json::Number(JsonNumber::PosInt(n))
    }

    /// An object without members.
    pub fn empty_object() -> (r: Json)
        ensures
            r@ == JsonView::Object(Map::empty()),
    {
        Json::Object(StrMap::new())
    }

    /// The characters, where the value is a string.
    pub fn as_str(&self) -> (r: Option<&str>)
        ensures
            option_chars(r) == self@.text(),
    {
        match self {
            Json::String(s) => Some(s.as_str()),
            _ => None,
        }
    }

    /// The truth value, where the value is a Boolean.
    pub fn as_bool(&self) -> (r: Option<bool>)
        ensures
            r == self@.boolean(),
    {
        match self {
            Json::Bool(b) => Some(*b),
            _ => None,
        }
    }

    /// The number, where the value is a non-negative integer.
    pub fn as_u64(&self) -> (r: Option<u64>)
        ensures
            r == self@.unsigned(),
    {
        match self {
            Json::Number(JsonNumber::PosInt(n)) => Some(*n),
            _ => None,
        }
    }

    /// The items, where the value is an array.
    pub fn as_array(&self) -> (r: Option<&Vec<Json>>)
        ensures
            match r {
                Some(items) => self@ == JsonView::Array(array_view(items@)),
                None => self@.items() is None,
            },
    {
        match self {
            Json::Array(items) => Some(items),
            _ => None,
        }
    }

    /// The members, where the value is an object.
    pub fn as_object(&self) -> (r: Option<&StrMap<Json>>)
        ensures
            match r {
                Some(members) => self@ == JsonView::Object(object_view(*members)),
                None => self@.members() is None,
            },
    {
        match self {
            Json::Object(members) => Some(members),
            _ => None,
        }
    }

    /// The member under `key`, where the value is an object that has one.
    pub fn get(&self, key: &str) -> (r: Option<&Json>)
        ensures
            option_view(r) == self@.get(key@),
    {
        match self {
            Json::Object(members) => members.member(key),
            _ => None,
        }
    }

    /// The characters of the member under `key`, where it is a string.
    pub fn get_str(&self, key: &str) -> (r: Option<&str>)
        ensures
            option_chars(r) == self@.get_text(key@),
    {
        match self.get(key) {
            Some(v) => v.as_str(),
            None => None,
        }
    }

    /// A copy of the value.
    pub fn copied(&self) -> (r: Json)
        ensures
            r@ == self@,
        decreases self,
    {
        match self {
            Json::Null => Json::Null,
            Json::Bool(b) => Json::Bool(*b),
            Json::Number(n) => Json::Number(*n),
            Json::String(s) => Json::String(s.clone()),
            Json::Array(items) => {
                let mut copies: Vec<Json> = Vec::new();
                let mut i: usize = 0;
                while i < items.len()
                    invariant
                        *self == Json::Array(*items),
                        i <= items@.len(),
                        array_view(copies@) == array_view(items@.take(i as int)),
                    decreases items@.len() - i,
                {
                    proof {
                        assert(decreases_to!(*self => self->Array_0));
                        assert(decreases_to!(*items => items@[i as int]));
                    }
                    let copy = items[i].copied();
                    let ghost before = copies@;
                    copies.push(copy);
                    proof {
                        assert(copies@.drop_last() =~= before);
                        assert(items@.take(i + 1).drop_last() =~= items@.take(i as int));
                    }
                    i += 1;
                }
                proof {
                    assert(items@.take(items@.len() as int) =~= items@);
                }
                Json::Array(copies)
            },
            Json::Object(members) => {
                let n = members.len();
                let mut copies: StrMap<Json> = StrMap::new();
                let mut i: usize = 0;
                while i < n
                    invariant
                        *self == Json::Object(*members),
                        n == members.pairs().len(),
                        i <= n,
                        object_view(copies) == pairs_view(members.pairs().take(i as int)),
                    decreases n - i,
                {
                    proof {
                        members.lemma_pairs_smaller();
                        assert(decreases_to!(*self => self->Object_0));
                        assert(decreases_to!(members.pairs() => members.pairs()[i as int]));
                        assert(decreases_to!(members.pairs()[i as int] => members.pairs()[i as int].1));
                    }
                    let (key, value) = members.pair(i);
                    let copy = value.copied();
                    copies.set_member(key.as_str(), copy);
                    proof {
                        assert(members.pairs().take(i + 1).drop_last() =~= members.pairs().take(
                            i as int,
                        ));
                    }
                    i += 1;
                }
                proof {
                    assert(members.pairs().take(n as int) =~= members.pairs());
                }
                Json::Object(copies)
            },
        }
    }
}

impl Clone for Json {
    fn clone(&self) -> (r: Self)
        ensures
            r@ == self@,
    {
        self.copied()
    }
}

/// A member that is put into an object is read back under its key, and every other member stays.
pub proof fn law_member_is_read_back(
    members: Map<Seq<char>, JsonView>,
    key: Seq<char>,
    value: JsonView,
    other: Seq<char>,
)
    ensures
        JsonView::Object(members.insert(key, value)).get(key) == Some(value),
        JsonView::Object(members.remove(key)).get(key) is None,
        other != key ==> {
            &&& JsonView::Object(members.insert(key, value)).get(other) == JsonView::Object(
                members,
            ).get(other)
            &&& JsonView::Object(members.remove(key)).get(other) == JsonView::Object(members).get(
                other,
            )
        },
{
}

/// A value is of one kind only, and reading it as that kind gives its contents back.
pub proof fn law_value_is_of_one_kind(value: JsonView, key: Seq<char>)
    ensures
        match value {
            JsonView::String(s) => value.text() == Some(s),
            _ => value.text() is None,
        },
        match value {
            JsonView::Array(s) => value.items() == Some(s),
            _ => value.items() is None,
        },
        match value {
            JsonView::Bool(b) => value.boolean() == Some(b),
            _ => value.boolean() is None,
        },
        match value {
            JsonView::Number(JsonNumber::PosInt(n)) => value.unsigned() == Some(n),
            _ => value.unsigned() is None,
        },
        match value {
            JsonView::Object(m) => value.members() == Some(m) && (value.get(key) is Some
                <==> m.contains_key(key)),
            _ => value.members() is None && value.get(key) is None,
        },
        match value.get(key) {
            Some(JsonView::String(s)) => value.get_text(key) == Some(s),
            _ => value.get_text(key) is None,
        },
{
}

/// The meaning of a value is of the same kind as the value, and holds what the value holds.
pub proof fn law_meaning_keeps_the_value(value: Json)
    ensures
        match value {
            Json::Null => value@ == JsonView::Null,
            Json::Bool(b) => value@ == JsonView::Bool(b),
            Json::Number(n) => value@ == JsonView::Number(n),
            Json::String(s) => value@.text() == Some(s@),
            Json::Array(items) => value@.items() matches Some(meanings) && meanings.len()
                == items@.len() && forall|i: int|
                0 <= i < items@.len() ==> #[trigger] meanings[i] == items@[i]@,
            Json::Object(members) => value@.members() is Some && forall|key: Seq<char>| #[trigger]
                value@.get(key) == match members@.contains_key(key) {
                    true => Some(members@[key]@),
                    false => None,
                },
        },
{
    match value {
        Json::Array(items) => {
            lemma_array_view(items@);
        },
        Json::Object(members) => {
            lemma_object_view(members);
        },
        _ => {},
    }
}

/// A number below the bound of 32 bits keeps its value, and what lies above them does not count.
pub proof fn law_low_bits_are_kept(n: u64)
    ensures
        n < 0x1_0000_0000 ==> low_bits(n) == n,
        n + 0x1_0000_0000 <= u64::MAX ==> low_bits((n + 0x1_0000_0000) as u64) == low_bits(n),
{
}

/// An optional value or text is there exactly where its meaning is, and keeps it.
pub proof fn law_options_keep_their_contents(value: &Json, text: &str)
    ensures
        option_view(Some(value)) == Some(value@),
        option_view(None) is None,
        option_chars(Some(text)) == Some(text@),
        option_chars(None) is None,
{
}

} // verus!
