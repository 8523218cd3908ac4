//! Reading JSON text.
//!
//! The text is read by `serde_json`; the value that it hands back is then turned into a
//! [`Json`], level by level, by verified code.

use crate::json;
use crate::json::{Json, JsonNumber, JsonView};
use crate::strmap;
use crate::strmap::StrMap;
use vstd::prelude::*;

verus! {

/// The value type of `serde_json`.
#[verifier::external_type_specification]
#[verifier::external_body]
pub struct ExValue(serde_json::Value);

/// What a `serde_json` value holds: its tree of nulls, Booleans, numbers, strings, arrays and
/// objects.
pub uninterp spec fn value_view(value: serde_json::Value) -> JsonView;

/// What `serde_json` reads from a text: the tree that the text spells, or nothing where it does
/// not accept the text.
pub uninterp spec fn parsed(text: Seq<char>) -> Option<JsonView>;

/// The outermost level of a `serde_json` value.
pub enum Opened {
    Null,
    Bool(bool),
    Number(JsonNumber),
    String(String),
    Array(Vec<serde_json::Value>),
    Object(Vec<(String, serde_json::Value)>),
}

/// The trees of a list of values.
pub open spec fn values_view(values: Seq<serde_json::Value>) -> Seq<JsonView> {
    values.map_values(|v: serde_json::Value| value_view(v))
}

/// The trees of a list of members, by key.
pub open spec fn members_view(members: Seq<(String, serde_json::Value)>) -> Map<
    Seq<char>,
    JsonView,
>
    decreases members.len(),
{
    if members.len() == 0 {
        Map::empty()
    } else {
        members_view(members.drop_last()).insert(
            members.last().0@,
            value_view(members.last().1),
        )
    }
}

/// The tree whose outermost level is given.
pub open spec fn opened_view(opened: Opened) -> JsonView {
    match opened {
        Opened::Null => JsonView::Null,
        Opened::Bool(b) => JsonView::Bool(b),
        Opened::Number(n) => JsonView::Number(n),
        Opened::String(s) => JsonView::String(s@),
        Opened::Array(values) => JsonView::Array(values_view(values@)),
        Opened::Object(members) => JsonView::Object(members_view(members@)),
    }
}

/// Calls `serde_json::from_str` for a `serde_json::Value`.
///
/// The result is a function of the text alone: the value that the text spells, or `None` where
/// `serde_json` reports an error.
#[verifier::external_body]
fn read_value(text: &str) -> (r: Option<serde_json::Value>)
    ensures
        parsed(text@) == match r {
            Some(value) => Some(value_view(value)),
            None => None,
        },
{
    serde_json::from_str::<serde_json::Value>(text).ok()
}

/// Tells the kinds of a `serde_json::Value` apart and hands its parts out.
///
/// An object is handed out member by member; a `serde_json::Map` holds a key once. A number is
/// held by `serde_json` as an unsigned integer, as a negative integer or as a double-precision
/// number.
#[verifier::external_body]
fn open_value(value: serde_json::Value) -> (r: Opened)
    ensures
        opened_view(r) == value_view(value),
        r matches Opened::Object(members) ==> strmap::distinct_keys(members@),
{
    match value {
        serde_json::Value::Null => Opened::Null,
        serde_json::Value::Bool(b) => Opened::Bool(b),
        serde_json::Value::Number(n) => Opened::Number(match (n.as_u64(), n.as_i64()) {
            (Some(u), _) => JsonNumber::PosInt(u),
            (None, Some(i)) => JsonNumber::NegInt(i),
            (None, None) => JsonNumber::Float(n.as_f64().unwrap_or_default().to_bits()),
        }),
        serde_json::Value::String(s) => Opened::String(s),
        serde_json::Value::Array(values) => Opened::Array(values),
        serde_json::Value::Object(members) => Opened::Object(members.into_iter().collect()),
    }
}

proof fn lemma_members_view_at(members: Seq<(String, serde_json::Value)>, i: int)
    requires
        strmap::distinct_keys(members),
        0 <= i < members.len(),
    ensures
        members_view(members).contains_key(members[i].0@),
        members_view(members)[members[i].0@] == value_view(members[i].1),
    decreases members.len(),
{
    let init = members.drop_last();
    assert(strmap::distinct_keys(init));
    if i < init.len() {
        lemma_members_view_at(init, i);
        assert(init[i] == members[i]);
        assert(members[i].0@ != members[members.len() - 1].0@);
    }
}

proof fn lemma_members_view_finite(members: Seq<(String, serde_json::Value)>)
    ensures
        members_view(members).dom().finite(),
    decreases members.len(),
{
    if members.len() > 0 {
        lemma_members_view_finite(members.drop_last());
    }
}

/// The value that a `serde_json` value holds.
pub fn from_value(value: serde_json::Value) -> (r: Json)
    ensures
        r@ == value_view(value),
    decreases value_view(value),
{
    let ghost whole = value_view(value);
    match open_value(value) {
        Opened::Null => Json::Null,
        Opened::Bool(b) => Json::Bool(b),
        Opened::Number(n) => Json::Number(n),
        Opened::String(s) => Json::String(s),
        Opened::Array(values) => {
            let ghost all = values@;
            let mut items: Vec<Json> = Vec::new();
            proof {
                assert(whole->Array_0 =~= values_view(all));
            }
            for first in it: values
                invariant
                    it.seq() == all,
                    whole == value_view(value),
                    whole == JsonView::Array(values_view(all)),
                    items@.len() == it.index(),
                    json::array_view(items@) == values_view(all.take(it.index())),
            {
                let ghost n = it.index();
                let ghost before = items@;
                proof {
                    assert(first == all[n]);
                    assert(values_view(all)[n] == value_view(first));
                    assert(decreases_to!(whole => whole->Array_0));
                    assert(decreases_to!(whole->Array_0 => whole->Array_0[n]));
                }
                items.push(from_value(first));
                proof {
                    assert(items@.drop_last() =~= before);
                    assert(values_view(all.take(n + 1)) =~= values_view(all.take(n)).push(
                        value_view(all[n]),
                    ));
                }
            }
            proof {
                assert(all.take(all.len() as int) =~= all);
            }
            Json::Array(items)
        },
        Opened::Object(members) => {
            let ghost all = members@;
            let mut object: StrMap<Json> = StrMap::new();
            for member in it: members
                invariant
                    it.seq() == all,
                    whole == value_view(value),
                    whole == JsonView::Object(members_view(all)),
                    strmap::distinct_keys(all),
                    json::object_view(object) == members_view(all.take(it.index())),
            {
                let ghost n = it.index();
                let (key, first) = member;
                proof {
                    assert((key, first) == all[n]);
                    lemma_members_view_at(all, n);
                    lemma_members_view_finite(all);
                    assert(decreases_to!(whole => whole->Object_0));
                    assert(decreases_to!(whole->Object_0 => whole->Object_0[key@]));
                }
                object.set_member(key.as_str(), from_value(first));
                proof {
                    assert(all.take(n + 1).drop_last() =~= all.take(n));
                }
            }
            proof {
                assert(all.take(all.len() as int) =~= all);
            }
            Json::Object(object)
        },
    }
}

/// The value that a text spells, or nothing where the text is not JSON.
pub fn parse(text: &str) -> (r: Option<Json>)
    ensures
        parsed(text@) == match r {
            Some(value) => Some(value@),
            None => None,
        },
{
    match read_value(text) {
        Some(value) => Some(from_value(value)),
        None => None,
    }
}

/// The outermost level of a tree is of the kind of what was handed out, with the same contents.
pub proof fn law_opened_level_is_the_outermost(opened: Opened, i: int)
    ensures
        match opened {
            Opened::Null => opened_view(opened) == JsonView::Null,
            Opened::Bool(b) => opened_view(opened) == JsonView::Bool(b),
            Opened::Number(n) => opened_view(opened) == JsonView::Number(n),
            Opened::String(s) => opened_view(opened) == JsonView::String(s@),
            Opened::Array(values) => opened_view(opened).items() matches Some(items)
                && items.len() == values@.len() && (0 <= i < items.len() ==> items[i]
                == value_view(values@[i])),
            Opened::Object(members) => opened_view(opened) is Object && (strmap::distinct_keys(
                members@,
            ) && 0 <= i < members@.len() ==> opened_view(opened).get(members@[i].0@) == Some(
                value_view(members@[i].1),
            )),
        },
{
    if let Opened::Object(members) = opened {
        if strmap::distinct_keys(members@) && 0 <= i < members@.len() {
            lemma_members_view_at(members@, i);
        }
    }
}

} // verus!
