//! JSON values as the gateway reads them. Parsing is `serde_json`'s; the
//! parsed value is held in the library's own type, field by field.
use serde_json::Value;
use vstd::prelude::*;
use crate::text::{str_eq, trim, chars_of, trim_vec, string_of};

verus! {

broadcast use vstd::string::group_string_axioms;

/// `serde_json::Value`, carried through to its conversion.
#[verifier::external_type_specification]
#[verifier::external_body]
pub struct ExJsonValue(serde_json::Value);

/// A JSON number: an unsigned integer, a negative integer, or any other
/// number by its decimal text.
#[derive(Debug, Clone)]
pub enum JsonNumber {
    PosInt(u64),
    NegInt(i64),
    Float(String),
}

/// A JSON value. An object lists its members in `serde_json`'s order, each
/// key once.
#[derive(Debug)]
pub enum JsonValue {
    Null,
    Bool(bool),
    Number(JsonNumber),
    String(String),
    Array(Vec<JsonValue>),
    Object(Vec<(String, JsonValue)>),
}

/// What `serde_json::from_str::<serde_json::Value>` parses a text into, when
/// it parses.
pub uninterp spec fn json_from_text(s: Seq<char>) -> Option<JsonValue>;

/// What `serde_json::from_slice::<serde_json::Value>` parses bytes into, when
/// they parse.
pub uninterp spec fn json_from_bytes(b: Seq<u8>) -> Option<JsonValue>;

/// Converts a `serde_json::Value` member by member: each variant to the one
/// of the same name; a number to `PosInt` when `as_u64` reads it, else to
/// `NegInt` when `as_i64` does, else to `Float` with its text.
#[verifier::external_body]
fn json_value_from_serde(v: serde_json::Value) -> JsonValue {
    match v {
        serde_json::Value::Null => JsonValue::Null,
        serde_json::Value::Bool(b) => JsonValue::Bool(b),
        serde_json::Value::Number(n) => JsonValue::Number(match (n.as_u64(), n.as_i64()) {
            (Some(u), _) => JsonNumber::PosInt(u),
            (None, Some(i)) => JsonNumber::NegInt(i),
            (None, None) => JsonNumber::Float(n.to_string()),
        }),
        serde_json::Value::String(s) => JsonValue::String(s),
        serde_json::Value::Array(items) => JsonValue::Array(items.into_iter().map(json_value_from_serde).collect()),
        serde_json::Value::Object(map) => JsonValue::Object(map.into_iter().map(|(k, x)| (k, json_value_from_serde(x))).collect()),
    }
}

/// Parses a text with `serde_json::from_str`. The value depends on the text
/// alone; where the text does not parse, the error comes back as its
/// message, of which nothing more is said.
#[verifier::external_body]
pub(crate) fn parse_json_text_or_error(s: &str) -> (r: Result<JsonValue, String>)
    ensures
        match r {
            Ok(v) => json_from_text(s@) == Some(v),
            Err(_) => json_from_text(s@) is None,
        },
{
    match serde_json::from_str::<serde_json::Value>(s) {
        Ok(v) => Ok(json_value_from_serde(v)),
        Err(e) => Err(e.to_string()),
    }
}

/// Parses a text as JSON.
pub fn parse_json_text(s: &str) -> (r: Option<JsonValue>)
    ensures
        r == json_from_text(s@),
{
    match parse_json_text_or_error(s) {
        Ok(v) => Some(v),
        Err(_) => None,
    }
}

/// Parses bytes with `serde_json::from_slice`. The value depends on the bytes
/// alone.
#[verifier::external_body]
pub fn parse_json_bytes(b: &[u8]) -> (r: Option<JsonValue>)
    ensures
        r == json_from_bytes(b@),
{
    serde_json::from_slice::<serde_json::Value>(b).ok().map(json_value_from_serde)
}

/// The value of the first member with the given key.
pub open spec fn member(entries: Seq<(String, JsonValue)>, key: Seq<char>) -> Option<JsonValue>
    decreases entries.len(),
{
    if entries.len() == 0 {
        None
    } else if entries[0].0@ == key {
        Some(entries[0].1)
    } else {
        member(entries.drop_first(), key)
    }
}

/// `Value::get` with a key: the member of an object, nothing for other values.
pub open spec fn field(v: JsonValue, key: Seq<char>) -> Option<JsonValue> {
    match v {
        JsonValue::Object(entries) => member(entries@, key),
        _ => None,
    }
}

/// `field` on an optional value.
pub open spec fn field_of(v: Option<JsonValue>, key: Seq<char>) -> Option<JsonValue> {
    match v {
        Some(x) => field(x, key),
        None => None,
    }
}

/// A member that is present and not `null`.
pub open spec fn non_null_field(v: Option<JsonValue>, key: Seq<char>) -> Option<JsonValue> {
    match field_of(v, key) {
        Some(JsonValue::Null) => None,
        other => other,
    }
}

/// `Value::as_str`.
pub open spec fn as_text(v: Option<JsonValue>) -> Option<Seq<char>> {
    match v {
        Some(JsonValue::String(s)) => Some(s@),
        _ => None,
    }
}

/// `Value::as_u64`.
pub open spec fn as_u64(v: Option<JsonValue>) -> Option<u64> {
    match v {
        Some(JsonValue::Number(JsonNumber::PosInt(u))) => Some(u),
        _ => None,
    }
}

/// `Value::as_i64`.
pub open spec fn as_i64(v: Option<JsonValue>) -> Option<i64> {
    match v {
        Some(JsonValue::Number(JsonNumber::PosInt(u))) => if u <= i64::MAX {
            Some(u as i64)
        } else {
            None
        },
        Some(JsonValue::Number(JsonNumber::NegInt(i))) => Some(i),
        _ => None,
    }
}

/// `Value::as_bool`.
pub open spec fn as_bool(v: Option<JsonValue>) -> Option<bool> {
    match v {
        Some(JsonValue::Bool(b)) => Some(b),
        _ => None,
    }
}

/// The member of an object with the given key.
pub fn get_member<'a>(v: &'a JsonValue, key: &str) -> (r: Option<&'a JsonValue>)
    ensures
        match r {
            Some(x) => field(*v, key@) == Some(*x),
            None => field(*v, key@) is None,
        },
{
    match v {
        JsonValue::Object(entries) => {
            let mut i: usize = 0;
            assert(entries@.skip(0) =~= entries@);
            while i < entries.len()
                invariant
                    i <= entries@.len(),
                    field(*v, key@) == member(entries@, key@),
                    member(entries@, key@) == member(entries@.skip(i as int), key@),
                decreases entries@.len() - i,
            {
                let ghost rest = entries@.skip(i as int);
                proof {
                    assert(rest[0] == entries@[i as int]);
                    assert(rest.drop_first() =~= entries@.skip(i as int + 1));
                }
                if str_eq(entries[i].0.as_str(), key) {
                    return Some(&entries[i].1);
                }
                i = i + 1;
            }
            None
        },
        _ => None,
    }
}

/// A member on an optional value.
pub fn get_member_of<'a>(v: Option<&'a JsonValue>, key: &str) -> (r: Option<&'a JsonValue>)
    ensures
        match r {
            Some(x) => field_of(
                match v {
                    Some(y) => Some(*y),
                    None => None,
                },
                key@,
            ) == Some(*x),
            None => field_of(
                match v {
                    Some(y) => Some(*y),
                    None => None,
                },
                key@,
            ) is None,
        },
{
    match v {
        Some(x) => get_member(x, key),
        None => None,
    }
}

/// A member that is present and not `null`, on an optional value.
pub fn non_null_member<'a>(v: Option<&'a JsonValue>, key: &str) -> (r: Option<&'a JsonValue>)
    ensures
        match r {
            Some(x) => non_null_field(
                match v {
                    Some(y) => Some(*y),
                    None => None,
                },
                key@,
            ) == Some(*x),
            None => non_null_field(
                match v {
                    Some(y) => Some(*y),
                    None => None,
                },
                key@,
            ) is None,
        },
{
    match get_member_of(v, key) {
        Some(JsonValue::Null) => None,
        other => other,
    }
}

/// The text of a string value.
pub fn text_of(v: Option<&JsonValue>) -> (r: Option<String>)
    ensures
        match r {
            Some(s) => as_text(
                match v {
                    Some(y) => Some(*y),
                    None => None,
                },
            ) == Some(s@),
            None => as_text(
                match v {
                    Some(y) => Some(*y),
                    None => None,
                },
            ) is None,
        },
{
    match v {
        Some(JsonValue::String(s)) => Some(crate::text::copy_string(s)),
        _ => None,
    }
}

/// The value of an unsigned integer.
pub fn u64_of(v: Option<&JsonValue>) -> (r: Option<u64>)
    ensures
        r == as_u64(
            match v {
                Some(y) => Some(*y),
                None => None,
            },
        ),
{
    match v {
        Some(JsonValue::Number(JsonNumber::PosInt(u))) => Some(*u),
        _ => None,
    }
}

/// The value of an integer that fits `i64`.
pub fn i64_of(v: Option<&JsonValue>) -> (r: Option<i64>)
    ensures
        r == as_i64(
            match v {
                Some(y) => Some(*y),
                None => None,
            },
        ),
{
    match v {
        Some(JsonValue::Number(JsonNumber::PosInt(u))) => {
            if *u <= i64::MAX as u64 {
                Some(*u as i64)
            } else {
                None
            }
        },
        Some(JsonValue::Number(JsonNumber::NegInt(i))) => Some(*i),
        _ => None,
    }
}

/// The value of a boolean.
pub fn bool_of(v: Option<&JsonValue>) -> (r: Option<bool>)
    ensures
        r == as_bool(
            match v {
                Some(y) => Some(*y),
                None => None,
            },
        ),
{
    match v {
        Some(JsonValue::Bool(b)) => Some(*b),
        _ => None,
    }
}

/// A JSON number as contracts read it.
pub enum NumberView {
    PosInt(u64),
    NegInt(i64),
    Float(Seq<char>),
}

/// The view of a number.
pub open spec fn number_view(n: JsonNumber) -> NumberView {
    match n {
        JsonNumber::PosInt(u) => NumberView::PosInt(u),
        JsonNumber::NegInt(i) => NumberView::NegInt(i),
        JsonNumber::Float(t) => NumberView::Float(t@),
    }
}

/// A copy of a number.
pub fn copy_number(n: &JsonNumber) -> (r: JsonNumber)
    ensures
        number_view(r) == number_view(*n),
{
    match n {
        JsonNumber::PosInt(u) => JsonNumber::PosInt(*u),
        JsonNumber::NegInt(i) => JsonNumber::NegInt(*i),
        JsonNumber::Float(t) => JsonNumber::Float(crate::text::copy_string(t)),
    }
}

/// A JSON value as contracts read it: texts by their characters, arrays
/// and objects as sequences.
pub enum JsonView {
    Null,
    Bool(bool),
    Number(NumberView),
    Str(Seq<char>),
    Array(Seq<JsonView>),
    Object(Seq<(Seq<char>, JsonView)>),
}

/// The view of a value.
pub open spec fn json_view(v: JsonValue) -> JsonView
    decreases v, 0nat,
{
    match v {
        JsonValue::Null => JsonView::Null,
        JsonValue::Bool(b) => JsonView::Bool(b),
        JsonValue::Number(n) => JsonView::Number(number_view(n)),
        JsonValue::String(s) => JsonView::Str(s@),
        JsonValue::Array(items) => JsonView::Array(items_view(items@)),
        JsonValue::Object(entries) => JsonView::Object(entries_view(entries@)),
    }
}

/// The views of a sequence of values.
pub open spec fn items_view(s: Seq<JsonValue>) -> Seq<JsonView>
    decreases s, 1nat,
{
    if s.len() == 0 {
        Seq::empty()
    } else {
        items_view(s.drop_last()).push(json_view(s.last()))
    }
}

/// The views of the members of an object.
pub open spec fn entries_view(s: Seq<(String, JsonValue)>) -> Seq<(Seq<char>, JsonView)>
    decreases s, 1nat,
{
    if s.len() == 0 {
        Seq::empty()
    } else {
        entries_view(s.drop_last()).push((s.last().0@, json_view(s.last().1)))
    }
}

impl View for JsonValue {
    type V = JsonView;

    open spec fn view(&self) -> JsonView {
        json_view(*self)
    }
}

/// `items_view` maps each value to its view.
pub proof fn lemma_items_view(s: Seq<JsonValue>)
    ensures
        items_view(s).len() == s.len(),
        forall|i: int| 0 <= i < s.len() ==> #[trigger] items_view(s)[i] == json_view(s[i]),
    decreases s.len(),
{
    if s.len() > 0 {
        lemma_items_view(s.drop_last());
    }
}

/// `entries_view` maps each member to its key's text and its value's view.
pub proof fn lemma_entries_view(s: Seq<(String, JsonValue)>)
    ensures
        entries_view(s).len() == s.len(),
        forall|i: int|
            0 <= i < s.len() ==> #[trigger] entries_view(s)[i] == (s[i].0@, json_view(s[i].1)),
    decreases s.len(),
{
    if s.len() > 0 {
        lemma_entries_view(s.drop_last());
    }
}

/// The first position of a key among the members of an object view.
pub open spec fn view_index(entries: Seq<(Seq<char>, JsonView)>, key: Seq<char>) -> Option<int>
    decreases entries.len(),
{
    if entries.len() == 0 {
        None
    } else if entries[0].0 == key {
        Some(0)
    } else {
        match view_index(entries.drop_first(), key) {
            Some(i) => Some(i + 1),
            None => None,
        }
    }
}

/// `view_index` finds the first member with the key.
pub proof fn lemma_view_index(entries: Seq<(Seq<char>, JsonView)>, key: Seq<char>)
    ensures
        match view_index(entries, key) {
            Some(i) => 0 <= i < entries.len() && entries[i].0 == key && forall|j: int|
                0 <= j < i ==> #[trigger] entries[j].0 != key,
            None => forall|j: int| 0 <= j < entries.len() ==> #[trigger] entries[j].0 != key,
        },
    decreases entries.len(),
{
    if entries.len() > 0 {
        lemma_view_index(entries.drop_first(), key);
        if entries[0].0 != key {
            match view_index(entries.drop_first(), key) {
                Some(i) => {
                    assert forall|j: int| 0 <= j < i + 1 implies #[trigger] entries[j].0 != key by {
                        if j > 0 {
                            assert(entries[j] == entries.drop_first()[j - 1]);
                        }
                    }
                },
                None => {
                    assert forall|j: int| 0 <= j < entries.len() implies #[trigger] entries[j].0
                        != key by {
                        if j > 0 {
                            assert(entries[j] == entries.drop_first()[j - 1]);
                        }
                    }
                },
            }
        }
    }
}

/// The value of the first member with the key, in an object view.
pub open spec fn view_member(entries: Seq<(Seq<char>, JsonView)>, key: Seq<char>) -> Option<JsonView> {
    match view_index(entries, key) {
        Some(i) => Some(entries[i].1),
        None => None,
    }
}

/// The member at `i` is the one a lookup finds when no member before it has
/// the key.
pub proof fn lemma_view_member_at(entries: Seq<(Seq<char>, JsonView)>, key: Seq<char>, i: int)
    requires
        0 <= i < entries.len(),
        entries[i].0 == key,
        forall|j: int| 0 <= j < i ==> #[trigger] entries[j].0 != key,
    ensures
        view_member(entries, key) == Some(entries[i].1),
{
    lemma_view_index(entries, key);
}

/// A key no member has is not found.
pub proof fn lemma_view_member_absent(entries: Seq<(Seq<char>, JsonView)>, key: Seq<char>)
    requires
        forall|j: int| 0 <= j < entries.len() ==> #[trigger] entries[j].0 != key,
    ensures
        view_member(entries, key) is None,
{
    lemma_view_index(entries, key);
}

/// `Value::get` on a view.
pub open spec fn view_field(v: JsonView, key: Seq<char>) -> Option<JsonView> {
    match v {
        JsonView::Object(entries) => view_member(entries, key),
        _ => None,
    }
}

/// An object view with a member set: the first member with the key takes
/// the value in its place, or, where there is none, the member is added at
/// the end.
pub open spec fn view_set(entries: Seq<(Seq<char>, JsonView)>, key: Seq<char>, value: JsonView) -> Seq<
    (Seq<char>, JsonView),
> {
    match view_index(entries, key) {
        Some(i) => entries.update(i, (key, value)),
        None => entries.push((key, value)),
    }
}

/// An object view without the first member with the key.
pub open spec fn view_remove(entries: Seq<(Seq<char>, JsonView)>, key: Seq<char>) -> Seq<
    (Seq<char>, JsonView),
> {
    match view_index(entries, key) {
        Some(i) => entries.remove(i),
        None => entries,
    }
}

/// The position of the first member with the key.
fn member_index(entries: &Vec<(String, JsonValue)>, key: &str) -> (r: Option<usize>)
    ensures
        match r {
            Some(i) => view_index(entries_view(entries@), key@) == Some(i as int),
            None => view_index(entries_view(entries@), key@) is None,
        },
{
    proof {
        lemma_entries_view(entries@);
        lemma_view_index(entries_view(entries@), key@);
    }
    let mut i: usize = 0;
    while i < entries.len()
        invariant
            i <= entries@.len(),
            entries_view(entries@).len() == entries@.len(),
            forall|j: int|
                0 <= j < entries@.len() ==> #[trigger] entries_view(entries@)[j] == (
                    entries@[j].0@,
                    json_view(entries@[j].1),
                ),
            forall|j: int| 0 <= j < i ==> #[trigger] entries@[j].0@ != key@,
            match view_index(entries_view(entries@), key@) {
                Some(k) => 0 <= k < entries@.len() && entries_view(entries@)[k].0 == key@ && forall|
                    j: int,
                | 0 <= j < k ==> #[trigger] entries_view(entries@)[j].0 != key@,
                None => forall|j: int|
                    0 <= j < entries@.len() ==> #[trigger] entries_view(entries@)[j].0 != key@,
            },
        decreases entries@.len() - i,
    {
        if str_eq(entries[i].0.as_str(), key) {
            proof {
                assert(entries_view(entries@)[i as int].0 == key@);
                match view_index(entries_view(entries@), key@) {
                    Some(k) => {
                        if k < i {
                            assert(entries_view(entries@)[k].0 == entries@[k].0@);
                        }
                        if k > i {
                            assert(entries_view(entries@)[i as int].0 != key@);
                        }
                    },
                    None => {},
                }
            }
            return Some(i);
        }
        i = i + 1;
    }
    proof {
        match view_index(entries_view(entries@), key@) {
            Some(k) => {
                assert(entries_view(entries@)[k].0 == entries@[k].0@);
            },
            None => {},
        }
    }
    None
}

/// Sets a member of an object: `Map::insert` on the object's members.
pub fn set_member(entries: &mut Vec<(String, JsonValue)>, key: &str, value: JsonValue)
    ensures
        entries_view(final(entries)@) == view_set(entries_view(old(entries)@), key@, json_view(value)),
{
    proof {
        lemma_entries_view(old(entries)@);
    }
    match member_index(entries, key) {
        Some(i) => {
            proof {
                lemma_view_index(entries_view(entries@), key@);
            }
            let ghost before = entries@;
            let (k, old_value) = entries.remove(i);
            entries.insert(i, (k, value));
            proof {
                assert(entries@ =~= before.update(i as int, (k, value)));
                lemma_entries_view(entries@);
                assert(view_index(entries_view(before), key@) == Some(i as int));
                assert(entries_view(before)[i as int].0 == key@);
                assert forall|j: int| 0 <= j < entries@.len() implies #[trigger] entries_view(
                    entries@,
                )[j] == view_set(entries_view(before), key@, json_view(value))[j] by {
                    if j != i {
                        assert(entries@[j] == before[j]);
                    }
                }
                assert(entries_view(entries@) =~= view_set(
                    entries_view(old(entries)@),
                    key@,
                    json_view(value),
                ));
            }
        },
        None => {
            entries.push((key.to_string(), value));
            proof {
                lemma_entries_view(entries@);
                assert(entries_view(entries@) =~= view_set(
                    entries_view(old(entries)@),
                    key@,
                    json_view(value),
                ));
            }
        },
    }
}

/// Removes a member of an object: `Map::remove` on the object's members.
pub fn remove_member(entries: &mut Vec<(String, JsonValue)>, key: &str)
    ensures
        entries_view(final(entries)@) == view_remove(entries_view(old(entries)@), key@),
{
    proof {
        lemma_entries_view(old(entries)@);
    }
    match member_index(entries, key) {
        Some(i) => {
            proof {
                lemma_view_index(entries_view(entries@), key@);
            }
            let ghost before = entries@;
            let _removed = entries.remove(i);
            proof {
                assert(entries@ =~= before.remove(i as int));
                lemma_entries_view(entries@);
                assert forall|j: int| 0 <= j < entries@.len() implies #[trigger] entries_view(
                    entries@,
                )[j] == view_remove(entries_view(before), key@)[j] by {
                    if j < i {
                        assert(entries@[j] == before[j]);
                    } else {
                        assert(entries@[j] == before[j + 1]);
                    }
                }
                assert(entries_view(entries@) =~= view_remove(entries_view(old(entries)@), key@));
            }
        },
        None => {},
    }
}

/// An item of an array is smaller than the array.
proof fn lemma_array_item_decreases(v: JsonValue, i: int)
    requires
        v is Array,
        0 <= i < v->Array_0@.len(),
    ensures
        decreases_to!(v => v->Array_0@[i]),
{
    let items = v->Array_0;
    assert(decreases_to!(v => items));
    assert(decreases_to!(items => items@));
    assert(decreases_to!(items@ => items@[i]));
}

/// The value of a member of an object is smaller than the object.
proof fn lemma_member_decreases(v: JsonValue, i: int)
    requires
        v is Object,
        0 <= i < v->Object_0@.len(),
    ensures
        decreases_to!(v => v->Object_0@[i].1),
{
    let entries = v->Object_0;
    assert(decreases_to!(v => entries));
    assert(decreases_to!(entries => entries@));
    assert(decreases_to!(entries@ => entries@[i]));
    assert(decreases_to!(entries@[i] => entries@[i].1));
}

/// A copy of a value.
pub fn clone_json(v: &JsonValue) -> (r: JsonValue)
    ensures
        json_view(r) == json_view(*v),
    decreases v,
{
    match v {
        JsonValue::Null => JsonValue::Null,
        JsonValue::Bool(b) => JsonValue::Bool(*b),
        JsonValue::Number(n) => JsonValue::Number(copy_number(n)),
        JsonValue::String(s) => JsonValue::String(crate::text::copy_string(s)),
        JsonValue::Array(items) => {
            let mut out: Vec<JsonValue> = Vec::new();
            let mut i: usize = 0;
            proof {
                lemma_items_view(items@);
            }
            while i < items.len()
                invariant
                    *v is Array,
                    v->Array_0 == *items,
                    i <= items@.len(),
                    items_view(items@).len() == items@.len(),
                    forall|j: int|
                        0 <= j < items@.len() ==> #[trigger] items_view(items@)[j] == json_view(
                            items@[j],
                        ),
                    items_view(out@) =~= items_view(items@).take(i as int),
                decreases items@.len() - i,
            {
                proof {
                    lemma_array_item_decreases(*v, i as int);
                }
                let c = clone_json(&items[i]);
                let ghost before = out@;
                out.push(c);
                proof {
                    assert(out@.drop_last() =~= before);
                }
                i = i + 1;
            }
            proof {
                assert(items_view(items@).take(items@.len() as int) =~= items_view(items@));
            }
            JsonValue::Array(out)
        },
        JsonValue::Object(entries) => {
            let mut out: Vec<(String, JsonValue)> = Vec::new();
            let mut i: usize = 0;
            proof {
                lemma_entries_view(entries@);
            }
            while i < entries.len()
                invariant
                    *v is Object,
                    v->Object_0 == *entries,
                    i <= entries@.len(),
                    entries_view(entries@).len() == entries@.len(),
                    forall|j: int|
                        0 <= j < entries@.len() ==> #[trigger] entries_view(entries@)[j] == (
                            entries@[j].0@,
                            json_view(entries@[j].1),
                        ),
                    entries_view(out@) =~= entries_view(entries@).take(i as int),
                decreases entries@.len() - i,
            {
                proof {
                    lemma_member_decreases(*v, i as int);
                }
                let c = clone_json(&entries[i].1);
                let k = crate::text::copy_string(&entries[i].0);
                let ghost before = out@;
                out.push((k, c));
                proof {
                    assert(out@.drop_last() =~= before);
                }
                i = i + 1;
            }
            proof {
                assert(entries_view(entries@).take(entries@.len() as int) =~= entries_view(entries@));
            }
            JsonValue::Object(out)
        },
    }
}

/// What `serde_json::to_vec` writes for a value.
pub uninterp spec fn json_bytes(v: JsonView) -> Seq<u8>;

/// Converts a value back to a `serde_json::Value`, variant for variant; a
/// `Float` number from the text that `serde_json` gave it.
#[verifier::external_body]
fn json_value_to_serde(v: &JsonValue) -> Value {
    match v {
        JsonValue::Null => Value::Null,
        JsonValue::Bool(b) => Value::Bool(*b),
        JsonValue::Number(JsonNumber::PosInt(u)) => Value::from(*u),
        JsonValue::Number(JsonNumber::NegInt(i)) => Value::from(*i),
        JsonValue::Number(JsonNumber::Float(t)) => t.parse().map(Value::Number).unwrap_or(Value::Null),
        JsonValue::String(s) => Value::String(s.clone()),
        JsonValue::Array(items) => Value::Array(items.iter().map(json_value_to_serde).collect()),
        JsonValue::Object(entries) => Value::Object(entries.iter().map(|(k, x)| (k.clone(), json_value_to_serde(x))).collect()),
    }
}

/// Serialises a value with `serde_json::to_vec`. The bytes depend on the
/// value's view alone. It does not fail: `serde_json` documents failure
/// only for a `Serialize` impl that fails or for a map whose keys are not
/// strings, and a `serde_json::Value` has neither.
#[verifier::external_body]
pub fn json_to_vec(v: &JsonValue) -> (r: Result<Vec<u8>, String>)
    ensures
        r is Ok,
        r matches Ok(b) ==> b@ == json_bytes(json_view(*v)),
{
    serde_json::to_vec(&json_value_to_serde(v)).map_err(|e| e.to_string())
}

/// What `serde_json::to_string` writes for a value.
pub uninterp spec fn json_text(v: JsonView) -> Seq<char>;

/// Serialises a value with `serde_json::to_string`. The text depends on the
/// value's view alone; it does not fail, for the reason given at
/// `json_to_vec`.
#[verifier::external_body]
pub fn json_to_string(v: &JsonValue) -> (r: Result<String, String>)
    ensures
        r is Ok,
        r matches Ok(s) ==> s@ == json_text(json_view(*v)),
{
    serde_json::to_string(&json_value_to_serde(v)).map_err(|e| e.to_string())
}

/// What `serde_json::to_string_pretty` writes for a value.
pub uninterp spec fn json_pretty_text(v: JsonView) -> Seq<char>;

/// Serialises a value with `serde_json::to_string_pretty`. The text depends
/// on the value's view alone; it does not fail, for the reason given at
/// `json_to_vec`.
#[verifier::external_body]
pub fn json_to_string_pretty(v: &JsonValue) -> (r: Result<String, String>)
    ensures
        r is Ok,
        r matches Ok(s) ==> s@ == json_pretty_text(json_view(*v)),
{
    serde_json::to_string_pretty(&json_value_to_serde(v)).map_err(|e| e.to_string())
}

/// The JSON value of a request body: none for an empty body or one that
/// does not parse.
pub open spec fn request_body_json(body: Seq<u8>) -> Option<JsonValue> {
    if body.len() == 0 {
        None
    } else {
        json_from_bytes(body)
    }
}

/// Parses a request body as JSON.
pub fn parse_request_body_json(body: &[u8]) -> (r: Option<JsonValue>)
    ensures
        r == request_body_json(body@),
{
    if body.len() == 0 {
        None
    } else {
        parse_json_bytes(body)
    }
}

/// Adds a member at the end of an object's members.
pub fn push_entry(entries: &mut Vec<(String, JsonValue)>, key: &str, value: JsonValue)
    ensures
        entries_view(final(entries)@) == entries_view(old(entries)@).push((key@, json_view(value))),
{
    let ghost before = entries@;
    entries.push((key.to_string(), value));
    assert(entries@.drop_last() =~= before);
}

/// Adds an item at the end of an array's items.
pub fn push_item(items: &mut Vec<JsonValue>, value: JsonValue)
    ensures
        items_view(final(items)@) == items_view(old(items)@).push(json_view(value)),
{
    let ghost before = items@;
    items.push(value);
    assert(items@.drop_last() =~= before);
}

/// The value of the first member with the key, among an object's members.
pub fn get_entry<'a>(entries: &'a Vec<(String, JsonValue)>, key: &str) -> (r: Option<&'a JsonValue>)
    ensures
        r matches Some(x) ==> view_member(entries_view(entries@), key@) == Some(json_view(*x)),
        r is None ==> view_member(entries_view(entries@), key@) is None,
{
    proof {
        lemma_entries_view(entries@);
        lemma_view_index(entries_view(entries@), key@);
    }
    match member_index(entries, key) {
        Some(i) => {
            proof {
                assert(entries_view(entries@)[i as int] == (entries@[i as int].0@, json_view(entries@[i as int].1)));
            }
            Some(&entries[i].1)
        },
        None => None,
    }
}

/// The text of a view.
pub open spec fn view_text(v: Option<JsonView>) -> Option<Seq<char>> {
    match v {
        Some(JsonView::Str(s)) => Some(s),
        _ => None,
    }
}

} // verus!
