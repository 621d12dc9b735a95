//! Text that has the shape of a secret. What has that shape is for a detector
//! to say, which callers hand in; this module looks everywhere that text stands.

use crate::json;
use crate::json::{Json, JsonValue};
use vstd::prelude::*;

verus! {

/// A detector answers for every text, and always the same for one text.
pub open spec fn detector<F: Fn(&str) -> bool>(secret: F) -> bool {
    &&& forall|text: &str| #[trigger] call_requires(secret, (text,))
    &&& forall|a: &str, b: &str, u: bool, v: bool|
        a@ == b@ && #[trigger] call_ensures(secret, (a,), u) && #[trigger] call_ensures(
            secret,
            (b,),
            v,
        ) ==> u == v
}

/// Whether the detector finds that `text` has the shape of a secret.
pub open spec fn detects<F: Fn(&str) -> bool>(secret: F, text: Seq<char>) -> bool {
    exists|asked: &str| asked@ == text && #[trigger] call_ensures(secret, (asked,), true)
}

/// Asks the detector.
pub fn ask<F: Fn(&str) -> bool>(secret: &F, text: &str) -> (found: bool)
    requires
        detector(*secret),
    ensures
        found == detects(*secret, text@),
{
    let found = secret(text);
    assert(call_ensures(*secret, (text,), found));
    found
}

/// What a field and its text look like on one line.
pub open spec fn labelled(name: Seq<char>, text: Seq<char>) -> Seq<char> {
    name + ": "@ + text
}

/// Whether a field of an object has the shape of a secret: its name, its text
/// behind its name, or anything in its value.
pub open spec fn field_holds_secret<F: Fn(&str) -> bool>(
    secret: F,
    name: Seq<char>,
    value: Json,
) -> bool
    decreases value, 1int,
{
    ||| detects(secret, name)
    ||| value matches Json::Text(text) && detects(secret, labelled(name, text))
    ||| holds_secret(secret, value)
}

/// Whether anything in a value has the shape of a secret.
pub open spec fn holds_secret<F: Fn(&str) -> bool>(secret: F, value: Json) -> bool
    decreases value, 0int,
{
    match value {
        Json::Object(entries) => exists|i: int|
            0 <= i < entries.len() && field_holds_secret(
                secret,
                (#[trigger] entries[i]).0,
                entries[i].1,
            ),
        Json::Array(items) => exists|i: int|
            0 <= i < items.len() && holds_secret(secret, #[trigger] items[i]),
        Json::Text(text) => detects(secret, text),
        _ => false,
    }
}

/// Whether anything in `value` has the shape of a secret.
pub fn remote_value_contains_secret<F: Fn(&str) -> bool>(value: &JsonValue, secret: &F) -> (found:
    bool)
    requires
        detector(*secret),
    ensures
        found == holds_secret(*secret, value@),
    decreases value,
{
    proof {
        json::lemma_model(*value);
    }
    match value {
        JsonValue::Object(entries) => {
            let ghost modelled = json::entries_model(entries@);
            for i in 0..entries.len()
                invariant
                    *value matches JsonValue::Object(all) && all == entries,
                    detector(*secret),
                    modelled == json::entries_model(entries@),
                    value@ == Json::Object(modelled),
                    forall|k: int|
                        0 <= k < i ==> !field_holds_secret(
                            *secret,
                            (#[trigger] modelled[k]).0,
                            modelled[k].1,
                        ),
            {
                let name = entries[i].0.as_str();
                let item = &entries[i].1;
                assert(modelled[i as int] == (name@, item@));
                let labelled_secret = match item {
                    JsonValue::Text(text) => {
                        let line = name.to_owned().concat(": ").concat(text.as_str());
                        ask(secret, line.as_str())
                    },
                    _ => false,
                };
                if ask(secret, name) || labelled_secret || remote_value_contains_secret(
                    item,
                    secret,
                ) {
                    assert(field_holds_secret(*secret, modelled[i as int].0, modelled[i as int].1));
                    assert(value@->Object_0[i as int] == modelled[i as int]);
                    return true;
                }
                assert(!field_holds_secret(*secret, modelled[i as int].0, modelled[i as int].1));
            }
            false
        },
        JsonValue::Array(items) => {
            let ghost modelled = json::items_model(items@);
            for i in 0..items.len()
                invariant
                    *value matches JsonValue::Array(all) && all == items,
                    detector(*secret),
                    modelled == json::items_model(items@),
                    value@ == Json::Array(modelled),
                    forall|k: int| 0 <= k < i ==> !holds_secret(*secret, #[trigger] modelled[k]),
            {
                assert(modelled[i as int] == items@[i as int]@);
                if remote_value_contains_secret(&items[i], secret) {
                    assert(holds_secret(*secret, modelled[i as int]));
                    assert(value@->Array_0[i as int] == modelled[i as int]);
                    return true;
                }
            }
            false
        },
        JsonValue::Text(text) => ask(secret, text.as_str()),
        _ => false,
    }
}

} // verus!
