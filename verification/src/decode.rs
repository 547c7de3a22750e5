//! Reading the members of a JSON object as the types that a schema calls for.
//!
//! Each reader has a specification over [`JsonValue`] that says what it
//! returns: the member's value, or the reason why the object does not fit.

use vstd::prelude::*;
use crate::json::Json;
use crate::json::JsonValue;
use crate::text::join2;
use crate::text::join3;
use crate::text::texts;

verus! {

/// The reason given for an object without the member `key`.
pub open spec fn missing_field(key: Seq<char>) -> Seq<char> {
    "missing field `"@ + key + "`"@
}

/// The reason given for a member `key` that is not `expected`.
pub open spec fn wrong_type(key: Seq<char>, expected: Seq<char>) -> Seq<char> {
    "invalid type for field `"@ + key + "`, expected "@ + expected
}

/// Every element of `items` is a string.
pub open spec fn all_text(items: Seq<JsonValue>) -> bool {
    forall|i: int| 0 <= i < items.len() ==> (#[trigger] items[i]) is Text
}

/// Every element of `items` is an index.
pub open spec fn all_index(items: Seq<JsonValue>) -> bool {
    forall|i: int| 0 <= i < items.len() ==> (#[trigger] items[i]).index() is Some
}

/// The member `key` of `obj` as a string.
pub open spec fn spec_text_field(obj: JsonValue, key: Seq<char>) -> Result<Seq<char>, Seq<char>> {
    match obj.member(key) {
        None => Err(missing_field(key)),
        Some(JsonValue::Text(s)) => Ok(s),
        Some(_) => Err(wrong_type(key, "a string"@)),
    }
}

/// The member `key` of `obj` as a string that may be absent: a member that
/// is missing or `null` gives `None`.
pub open spec fn spec_optional_text_field(obj: JsonValue, key: Seq<char>) -> Result<
    Option<Seq<char>>,
    Seq<char>,
> {
    match obj.member(key) {
        None => Ok(None),
        Some(JsonValue::Null) => Ok(None),
        Some(JsonValue::Text(s)) => Ok(Some(s)),
        Some(_) => Err(wrong_type(key, "a string or null"@)),
    }
}

/// The member `key` of `obj` as a list of strings.
pub open spec fn spec_texts_field(obj: JsonValue, key: Seq<char>) -> Result<
    Seq<Seq<char>>,
    Seq<char>,
> {
    match obj.member(key) {
        None => Err(missing_field(key)),
        Some(JsonValue::Array(items)) => if all_text(items) {
            Ok(Seq::new(items.len(), |i: int| items[i]->Text_0))
        } else {
            Err(wrong_type(key, "a list of strings"@))
        },
        Some(_) => Err(wrong_type(key, "a list of strings"@)),
    }
}

/// The member `key` of `obj` as a list of indices.
pub open spec fn spec_indices_field(obj: JsonValue, key: Seq<char>) -> Result<
    Seq<usize>,
    Seq<char>,
> {
    match obj.member(key) {
        None => Err(missing_field(key)),
        Some(JsonValue::Array(items)) => if all_index(items) {
            Ok(Seq::new(items.len(), |i: int| items[i].index()->Some_0))
        } else {
            Err(wrong_type(key, "a list of indices"@))
        },
        Some(_) => Err(wrong_type(key, "a list of indices"@)),
    }
}

fn missing(key: &str) -> (reason: String)
    ensures
        reason@ == missing_field(key@),
{
    join3("missing field `", key, "`")
}

fn mistyped(key: &str, expected: &str) -> (reason: String)
    ensures
        reason@ == wrong_type(key@, expected@),
{
    let head = join3("invalid type for field `", key, "`, expected ");
    join2(head.as_str(), expected)
}

/// The member `key` of `obj` as a string.
pub fn text_field(obj: &Json, key: &str) -> (r: Result<String, String>)
    ensures
        match r {
            Ok(s) => spec_text_field(obj@, key@) == Ok::<Seq<char>, Seq<char>>(s@),
            Err(reason) => spec_text_field(obj@, key@) == Err::<Seq<char>, Seq<char>>(reason@),
        },
{
    let owned = key.to_owned();
    match obj.member(&owned) {
        None => Err(missing(key)),
        Some(value) => match value.as_text() {
            Some(s) => Ok(s.clone()),
            None => Err(mistyped(key, "a string")),
        },
    }
}

/// The member `key` of `obj` as a string that may be absent.
pub fn optional_text_field(obj: &Json, key: &str) -> (r: Result<Option<String>, String>)
    ensures
        match r {
            Ok(Some(s)) => spec_optional_text_field(obj@, key@) == Ok::<
                Option<Seq<char>>,
                Seq<char>,
            >(Some(s@)),
            Ok(None) => spec_optional_text_field(obj@, key@) == Ok::<Option<Seq<char>>, Seq<char>>(
                None,
            ),
            Err(reason) => spec_optional_text_field(obj@, key@) == Err::<
                Option<Seq<char>>,
                Seq<char>,
            >(reason@),
        },
{
    let owned = key.to_owned();
    match obj.member(&owned) {
        None => Ok(None),
        Some(Json::Null) => Ok(None),
        Some(Json::Text(s)) => Ok(Some(s.clone())),
        Some(_) => Err(mistyped(key, "a string or null")),
    }
}

/// The member `key` of `obj` as a list of strings.
pub fn texts_field(obj: &Json, key: &str) -> (r: Result<Vec<String>, String>)
    ensures
        match r {
            Ok(list) => spec_texts_field(obj@, key@) == Ok::<Seq<Seq<char>>, Seq<char>>(
                texts(list@),
            ),
            Err(reason) => spec_texts_field(obj@, key@) == Err::<Seq<Seq<char>>, Seq<char>>(
                reason@,
            ),
        },
{
    let owned = key.to_owned();
    match obj.member(&owned) {
        None => Err(missing(key)),
        Some(value) => match value.as_items() {
            None => Err(mistyped(key, "a list of strings")),
            Some(items) => {
                let ghost values = value@->Array_0;
                let mut list: Vec<String> = Vec::new();
                let mut i: usize = 0;
                while i < items.len()
                    invariant
                        i <= items.len(),
                        values == items@.map_values(|j: Json| j@),
                        obj@.member(key@) == Some(JsonValue::Array(values)),
                        list@.len() == i,
                        forall|k: int| 0 <= k < i ==> (#[trigger] values[k]) is Text,
                        forall|k: int|
                            0 <= k < i ==> (#[trigger] list@[k])@ == values[k]->Text_0,
                    decreases items.len() - i,
                {
                    match items[i].as_text() {
                        None => {
                            assert(!(values[i as int] is Text));
                            return Err(mistyped(key, "a list of strings"));
                        },
                        Some(s) => {
                            list.push(s.clone());
                        },
                    }
                    i += 1;
                }
                assert(texts(list@) =~= Seq::new(values.len(), |i: int| values[i]->Text_0));
                Ok(list)
            },
        },
    }
}

/// The member `key` of `obj` as a list of indices.
pub fn indices_field(obj: &Json, key: &str) -> (r: Result<Vec<usize>, String>)
    ensures
        match r {
            Ok(list) => spec_indices_field(obj@, key@) == Ok::<Seq<usize>, Seq<char>>(list@),
            Err(reason) => spec_indices_field(obj@, key@) == Err::<Seq<usize>, Seq<char>>(
                reason@,
            ),
        },
{
    let owned = key.to_owned();
    match obj.member(&owned) {
        None => Err(missing(key)),
        Some(value) => match value.as_items() {
            None => Err(mistyped(key, "a list of indices")),
            Some(items) => {
                let ghost values = value@->Array_0;
                let mut list: Vec<usize> = Vec::new();
                let mut i: usize = 0;
                while i < items.len()
                    invariant
                        i <= items.len(),
                        values == items@.map_values(|j: Json| j@),
                        obj@.member(key@) == Some(JsonValue::Array(values)),
                        list@.len() == i,
                        forall|k: int| 0 <= k < i ==> (#[trigger] values[k]).index() is Some,
                        forall|k: int|
                            0 <= k < i ==> (#[trigger] list@[k]) == values[k].index()->Some_0,
                    decreases items.len() - i,
                {
                    match items[i].as_index() {
                        None => {
                            assert(values[i as int].index() is None);
                            return Err(mistyped(key, "a list of indices"));
                        },
                        Some(n) => {
                            list.push(n);
                        },
                    }
                    i += 1;
                }
                assert(list@ =~= Seq::new(values.len(), |i: int| values[i].index()->Some_0));
                Ok(list)
            },
        },
    }
}

} // verus!
