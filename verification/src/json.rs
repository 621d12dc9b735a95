//! JSON values as the worker protocol holds them: what a document says, with
//! the fields of an object in the order in which they were written.

use crate::text::same_text;
use vstd::prelude::*;

verus! {

/// A JSON value. A number is held as the unsigned or the negative integer that
/// it is, or else as the text that it is written with.
#[derive(Debug, PartialEq, Eq)]
pub enum JsonValue {
    Null,
    Bool(bool),
    Unsigned(u64),
    Negative(i64),
    Float(String),
    Text(String),
    Array(Vec<JsonValue>),
    Object(Vec<(String, JsonValue)>),
}

/// The value that a `JsonValue` stands for.
#[verifier::ext_equal]
pub enum Json {
    Null,
    Bool(bool),
    Unsigned(u64),
    Negative(i64),
    Float(Seq<char>),
    Text(Seq<char>),
    Array(Seq<Json>),
    Object(Seq<(Seq<char>, Json)>),
}

/// The value that `value` stands for.
pub open spec fn model(value: JsonValue) -> Json
    decreases value,
{
    match value {
        JsonValue::Null => Json::Null,
        JsonValue::Bool(flag) => Json::Bool(flag),
        JsonValue::Unsigned(number) => Json::Unsigned(number),
        JsonValue::Negative(number) => Json::Negative(number),
        JsonValue::Float(number) => Json::Float(number@),
        JsonValue::Text(text) => Json::Text(text@),
        JsonValue::Array(items) => Json::Array(
            Seq::new(
                items@.len(),
                |i: int|
                    if 0 <= i < items@.len() {
                        model(items@[i])
                    } else {
                        Json::Null
                    },
            ),
        ),
        JsonValue::Object(entries) => Json::Object(
            Seq::new(
                entries@.len(),
                |i: int|
                    if 0 <= i < entries@.len() {
                        (entries@[i].0@, model(entries@[i].1))
                    } else {
                        (seq![], Json::Null)
                    },
            ),
        ),
    }
}

impl View for JsonValue {
    type V = Json;

    open spec fn view(&self) -> Json {
        model(*self)
    }
}

/// What the entries of an object stand for.
pub open spec fn entries_model(entries: Seq<(String, JsonValue)>) -> Seq<(Seq<char>, Json)> {
    entries.map_values(|entry: (String, JsonValue)| (entry.0@, entry.1@))
}

/// What the items of an array stand for.
pub open spec fn items_model(items: Seq<JsonValue>) -> Seq<Json> {
    items.map_values(|item: JsonValue| item@)
}

/// The view of an array and of an object, item by item.
pub proof fn lemma_model(value: JsonValue)
    ensures
        value matches JsonValue::Array(items) ==> value@ == Json::Array(items_model(items@)),
        value matches JsonValue::Object(entries) ==> value@ == Json::Object(
            entries_model(entries@),
        ),
{
    match value {
        JsonValue::Array(items) => {
            assert(value@->Array_0 =~= items_model(items@));
        },
        JsonValue::Object(entries) => {
            assert(value@->Object_0 =~= entries_model(entries@));
        },
        _ => {},
    }
}

impl Clone for JsonValue {
    fn clone(&self) -> (copy: Self)
        ensures
            copy@ == self@,
        decreases self,
    {
        proof {
            lemma_model(*self);
        }
        match self {
            JsonValue::Null => JsonValue::Null,
            JsonValue::Bool(flag) => JsonValue::Bool(*flag),
            JsonValue::Unsigned(number) => JsonValue::Unsigned(*number),
            JsonValue::Negative(number) => JsonValue::Negative(*number),
            JsonValue::Float(number) => JsonValue::Float(number.clone()),
            JsonValue::Text(text) => JsonValue::Text(text.clone()),
            JsonValue::Array(items) => {
                let mut copies: Vec<JsonValue> = Vec::new();
                for i in 0..items.len()
                    invariant
                        self matches JsonValue::Array(all) && all == items,
                        items_model(copies@) == items_model(items@.take(i as int)),
                {
                    let item = items[i].clone();
                    proof {
                        assert(items_model(copies@.push(item)) =~= items_model(copies@).push(item@));
                        assert(items_model(items@.take(i + 1)) =~= items_model(
                            items@.take(i as int),
                        ).push(items@[i as int]@));
                    }
                    copies.push(item);
                }
                let copy = JsonValue::Array(copies);
                proof {
                    lemma_model(copy);
                    assert(items@.take(items@.len() as int) == items@);
                }
                copy
            },
            JsonValue::Object(entries) => {
                let mut copies: Vec<(String, JsonValue)> = Vec::new();
                for i in 0..entries.len()
                    invariant
                        self matches JsonValue::Object(all) && all == entries,
                        entries_model(copies@) == entries_model(entries@.take(i as int)),
                {
                    let entry = (entries[i].0.clone(), entries[i].1.clone());
                    proof {
                        assert(entries_model(copies@.push(entry)) =~= entries_model(copies@).push(
                            (entry.0@, entry.1@),
                        ));
                        assert(entries_model(entries@.take(i + 1)) =~= entries_model(
                            entries@.take(i as int),
                        ).push((entries@[i as int].0@, entries@[i as int].1@)));
                    }
                    copies.push(entry);
                }
                let copy = JsonValue::Object(copies);
                proof {
                    lemma_model(copy);
                    assert(entries@.take(entries@.len() as int) == entries@);
                }
                copy
            },
        }
    }
}

// ---------------------------------------------------------------------------
// Fields
// ---------------------------------------------------------------------------

/// The names of an object's fields are pairwise different.
pub open spec fn distinct_names(entries: Seq<(Seq<char>, Json)>) -> bool {
    forall|i: int, j: int|
        0 <= i < j < entries.len() ==> (#[trigger] entries[i]).0 != (#[trigger] entries[j]).0
}

/// No object in the value, at any depth, names a field twice.
pub open spec fn distinct_fields(json: Json) -> bool
    decreases json,
{
    match json {
        Json::Array(items) => forall|i: int|
            0 <= i < items.len() ==> distinct_fields(#[trigger] items[i]),
        Json::Object(entries) => distinct_names(entries) && forall|i: int|
            0 <= i < entries.len() ==> distinct_fields((#[trigger] entries[i]).1),
        _ => true,
    }
}

/// Whether no object in `value`, at any depth, names a field twice.
pub fn has_distinct_fields(value: &JsonValue) -> (distinct: bool)
    ensures
        distinct == distinct_fields(value@),
    decreases value,
{
    proof {
        lemma_model(*value);
    }
    match value {
        JsonValue::Array(items) => {
            for i in 0..items.len()
                invariant
                    *value matches JsonValue::Array(all) && all == items,
                    value@ == Json::Array(items_model(items@)),
                    forall|k: int| 0 <= k < i ==> distinct_fields(#[trigger] items_model(items@)[k]),
            {
                if !has_distinct_fields(&items[i]) {
                    proof {
                        let modelled = items_model(items@);
                        assert(modelled[i as int] == items@[i as int]@);
                        assert(!distinct_fields(modelled[i as int]));
                        assert(value@->Array_0[i as int] == modelled[i as int]);
                    }
                    return false;
                }
            }
            true
        },
        JsonValue::Object(entries) => {
            let ghost all_entries = entries_model(entries@);
            for i in 0..entries.len()
                invariant
                    *value matches JsonValue::Object(all) && all == entries,
                    all_entries == entries_model(entries@),
                    value@ == Json::Object(all_entries),
                    forall|k: int| 0 <= k < i ==> distinct_fields((#[trigger] all_entries[k]).1),
                    forall|k: int, j: int|
                        0 <= k < j < i ==> (#[trigger] all_entries[k]).0 != (
                        #[trigger] all_entries[j]).0,
            {
                for k in 0..i
                    invariant
                        0 <= i < entries@.len(),
                        all_entries == entries_model(entries@),
                        value@ == Json::Object(all_entries),
                        forall|j: int|
                            0 <= j < k ==> (#[trigger] all_entries[j]).0
                                != all_entries[i as int].0,
                {
                    if same_text(entries[k].0.as_str(), entries[i].0.as_str()) {
                        assert(all_entries[k as int].0 == all_entries[i as int].0);
                        return false;
                    }
                }
                if !has_distinct_fields(&entries[i].1) {
                    assert(!distinct_fields(all_entries[i as int].1));
                    return false;
                }
            }
            true
        },
        _ => true,
    }
}

/// The value of the first field named `name`.
pub open spec fn field(entries: Seq<(Seq<char>, Json)>, name: Seq<char>) -> Option<Json>
    decreases entries.len(),
{
    if entries.len() == 0 {
        None
    } else if entries[0].0 == name {
        Some(entries[0].1)
    } else {
        field(entries.drop_first(), name)
    }
}

/// Where names are pairwise different, a field is found wherever it stands.
pub proof fn lemma_field_at(entries: Seq<(Seq<char>, Json)>, i: int)
    requires
        distinct_names(entries),
        0 <= i < entries.len(),
    ensures
        field(entries, entries[i].0) == Some(entries[i].1),
    decreases i,
{
    if i > 0 {
        let rest = entries.drop_first();
        assert(entries[0].0 != entries[i].0);
        assert forall|a: int, b: int| 0 <= a < b < rest.len() implies (#[trigger] rest[a]).0 != (
        #[trigger] rest[b]).0 by {
            assert(rest[a] == entries[a + 1]);
            assert(rest[b] == entries[b + 1]);
        }
        lemma_field_at(rest, i - 1);
    }
}

/// A name that no field has is not found.
pub proof fn lemma_no_field(entries: Seq<(Seq<char>, Json)>, name: Seq<char>)
    requires
        forall|i: int| 0 <= i < entries.len() ==> (#[trigger] entries[i]).0 != name,
    ensures
        field(entries, name) is None,
    decreases entries.len(),
{
    if entries.len() > 0 {
        let rest = entries.drop_first();
        assert forall|i: int| 0 <= i < rest.len() implies (#[trigger] rest[i]).0 != name by {
            assert(rest[i] == entries[i + 1]);
        }
        lemma_no_field(rest, name);
    }
}

/// Looks up a field by its name.
pub fn get<'a>(entries: &'a [(String, JsonValue)], name: &str) -> (value: Option<&'a JsonValue>)
    ensures
        match value {
            Some(value) => field(entries_model(entries@), name@) == Some(value@),
            None => field(entries_model(entries@), name@) is None,
        },
{
    let ghost all = entries_model(entries@);
    assert(all.skip(0) =~= all);
    for i in 0..entries.len()
        invariant
            all == entries_model(entries@),
            field(all, name@) == field(all.skip(i as int), name@),
    {
        if same_text(entries[i].0.as_str(), name) {
            assert(all.skip(i as int)[0] == (entries@[i as int].0@, entries@[i as int].1@));
            return Some(&entries[i].1);
        }
        assert(all.skip(i as int)[0].0 == entries@[i as int].0@);
        assert(all.skip(i as int).drop_first() =~= all.skip(i + 1));
    }
    None
}

} // verus!
