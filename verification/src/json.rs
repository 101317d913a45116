//! JSON documents, as `serde_json` holds them, and what this library reads in them.
//!
//! A `serde_json::Value` is opaque to the verifier. What it holds is named by
//! `json_tree`, and the few calls into `serde_json` and `serde_aux` that the
//! library makes are stated over that name. Everything else in this module is
//! proved from those statements.

use crate::error::Error;
use crate::text::{digit_value, is_digit};
use vstd::prelude::*;

verus! {

/// A number of a JSON document.
pub enum JsonNumber {
    /// An integer that is not negative.
    Unsigned(u64),
    /// An integer below zero.
    Negative(i64),
    /// A number written with a fraction or an exponent, or too large for 64 bits.
    Float,
}

/// A JSON document, as a value of mathematics.
pub enum Json {
    /// `null`.
    Null,
    /// `true` or `false`.
    Bool(bool),
    /// A number.
    Number(JsonNumber),
    /// A string, by its characters.
    Text(Seq<char>),
    /// An array, by its elements in their order.
    List(Seq<Json>),
    /// An object, by the member under each of its keys.
    Object(Map<Seq<char>, Json>),
}

#[verifier::external_type_specification]
#[verifier::external_body]
pub struct ExValue(serde_json::Value);

/// The document that a `serde_json::Value` holds.
pub uninterp spec fn json_tree(v: serde_json::Value) -> Json;

/// What `serde_json::from_str` makes of a text: the document, or nothing
/// where the text is not JSON.
pub uninterp spec fn parsed_json(text: Seq<char>) -> Option<Json>;

/// The member of an object under a key.
pub open spec fn member_of(j: Json, key: Seq<char>) -> Option<Json> {
    match j {
        Json::Object(fields) => if fields.contains_key(key) {
            Some(fields[key])
        } else {
            None
        },
        _ => None,
    }
}

/// The characters of a string.
pub open spec fn text_of(j: Json) -> Option<Seq<char>> {
    match j {
        Json::Text(s) => Some(s),
        _ => None,
    }
}

/// The elements of an array.
pub open spec fn items_of(j: Json) -> Option<Seq<Json>> {
    match j {
        Json::List(items) => Some(items),
        _ => None,
    }
}

/// The documents that a vector of values holds.
pub open spec fn json_trees(values: Seq<serde_json::Value>) -> Seq<Json> {
    values.map_values(|v: serde_json::Value| json_tree(v))
}

/// The number that a run of decimal digits stands for.
pub open spec fn decimal_value(digits: Seq<char>) -> nat
    decreases digits.len(),
{
    if digits.len() == 0 {
        0
    } else {
        (decimal_value(digits.drop_last()) * 10 + digit_value(digits.last())) as nat
    }
}

/// Whether every character is a decimal digit.
pub open spec fn all_digits(s: Seq<char>) -> bool {
    forall|i: int| 0 <= i < s.len() ==> is_digit(#[trigger] s[i])
}

/// The number that a text stands for: decimal digits, at least one, with or
/// without a `+` before them, and a value that 32 bits hold.
pub open spec fn unsigned_of_text(s: Seq<char>) -> Option<u32> {
    let digits = if s.len() > 0 && s[0] == '+' {
        s.drop_first()
    } else {
        s
    };
    if digits.len() > 0 && all_digits(digits) && decimal_value(digits) <= u32::MAX {
        Some(decimal_value(digits) as u32)
    } else {
        None
    }
}

/// The number that a member stands for, whether the document holds it as a
/// string of digits or as a number.
pub open spec fn number_of(j: Json) -> Option<u32> {
    match j {
        Json::Text(s) => unsigned_of_text(s),
        Json::Number(JsonNumber::Unsigned(n)) => if n <= u32::MAX {
            Some(n as u32)
        } else {
            None
        },
        _ => None,
    }
}

/// `serde_json::from_str`, read as a `Value`. The result depends on the text
/// alone: it is the document that `parsed_json` names, and there is none
/// exactly where `parsed_json` has none.
#[verifier::external_body]
pub(crate) fn parse_value(text: &str) -> (r: Option<serde_json::Value>)
    ensures
        match r {
            Some(v) => parsed_json(text@) == Some(json_tree(v)),
            None => parsed_json(text@) is None,
        },
{
    serde_json::from_str::<serde_json::Value>(text).ok()
}

/// `Value::get` with a string key: the member of an object under that key,
/// and nothing where the value is no object or the object has no such key.
#[verifier::external_body]
pub(crate) fn member<'a>(v: &'a serde_json::Value, key: &str) -> (r: Option<&'a serde_json::Value>)
    ensures
        match r {
            Some(child) => member_of(json_tree(*v), key@) == Some(json_tree(*child)),
            None => member_of(json_tree(*v), key@) is None,
        },
{
    v.get(key)
}

/// `Value::as_str`: the characters of a string, and nothing for any other value.
#[verifier::external_body]
pub(crate) fn as_text<'a>(v: &'a serde_json::Value) -> (r: Option<&'a str>)
    ensures
        match r {
            Some(s) => text_of(json_tree(*v)) == Some(s@),
            None => text_of(json_tree(*v)) is None,
        },
{
    v.as_str()
}

/// `Value::as_array`: the elements of an array in their order, and nothing
/// for any other value.
#[verifier::external_body]
pub(crate) fn as_list<'a>(v: &'a serde_json::Value) -> (r: Option<&'a Vec<serde_json::Value>>)
    ensures
        match r {
            Some(items) => items_of(json_tree(*v)) == Some(json_trees(items@)),
            None => items_of(json_tree(*v)) is None,
        },
{
    v.as_array()
}

/// `serde_aux::field_attributes::deserialize_number_from_string` for `u32`,
/// with the value as the deserializer. A string is read with `u32::from_str`:
/// decimal digits with or without a `+` before them. A number is taken where
/// it is an integer from 0 to `u32::MAX`. Anything else is an error, which
/// comes back as `None`.
#[verifier::external_body]
pub(crate) fn coerce_number(v: &serde_json::Value) -> (r: Option<u32>)
    ensures
        r == number_of(json_tree(*v)),
{
    serde_aux::field_attributes::deserialize_number_from_string::<u32, _>(v).ok()
}

/// The text under a key of an object.
pub open spec fn text_at(j: Json, key: Seq<char>) -> Option<Seq<char>> {
    match member_of(j, key) {
        Some(found) => text_of(found),
        None => None,
    }
}

/// The number under a key of an object.
pub open spec fn number_at(j: Json, key: Seq<char>) -> Option<u32> {
    match member_of(j, key) {
        Some(found) => number_of(found),
        None => None,
    }
}

/// The values of a sequence in which none is missing; nothing if one is.
pub open spec fn collect<T>(found: Seq<Option<T>>) -> Option<Seq<T>> {
    if forall|i: int| 0 <= i < found.len() ==> (#[trigger] found[i]) is Some {
        Some(found.map_values(|x: Option<T>| x->0))
    } else {
        None
    }
}

/// The characters of each element, where it is a string.
pub open spec fn texts_in(items: Seq<Json>) -> Seq<Option<Seq<char>>> {
    items.map_values(|item: Json| text_of(item))
}

/// The texts of an array of strings.
pub open spec fn texts_of(j: Json) -> Option<Seq<Seq<char>>> {
    match j {
        Json::List(items) => collect(texts_in(items)),
        _ => None,
    }
}

/// The texts under a key of an object.
pub open spec fn texts_at(j: Json, key: Seq<char>) -> Option<Seq<Seq<char>>> {
    match member_of(j, key) {
        Some(found) => texts_of(found),
        None => None,
    }
}

/// What a vector of strings holds.
pub open spec fn string_views(v: Seq<String>) -> Seq<Seq<char>> {
    v.map_values(|s: String| s@)
}

/// Reads a JSON document from a text.
pub fn parse_document(text: &str) -> (r: Result<serde_json::Value, Error>)
    ensures
        match r {
            Ok(v) => parsed_json(text@) == Some(json_tree(v)),
            Err(e) => e == Error::MalformedPayload && parsed_json(text@) is None,
        },
{
    match parse_value(text) {
        Some(v) => Ok(v),
        None => Err(Error::MalformedPayload),
    }
}

/// The string under a key of an object, unchanged.
pub fn text_field(v: &serde_json::Value, key: &str) -> (r: Result<String, Error>)
    ensures
        match r {
            Ok(s) => text_at(json_tree(*v), key@) == Some(s@),
            Err(e) => e == Error::MalformedPayload && text_at(json_tree(*v), key@) is None,
        },
{
    match member(v, key) {
        Some(found) => match as_text(found) {
            Some(s) => Ok(s.to_owned()),
            None => Err(Error::MalformedPayload),
        },
        None => Err(Error::MalformedPayload),
    }
}

/// The number under a key of an object, written there as a string of digits
/// or as a number.
pub fn number_field(v: &serde_json::Value, key: &str) -> (r: Result<u32, Error>)
    ensures
        match r {
            Ok(n) => number_at(json_tree(*v), key@) == Some(n),
            Err(e) => e == Error::MalformedPayload && number_at(json_tree(*v), key@) is None,
        },
{
    match member(v, key) {
        Some(found) => match coerce_number(found) {
            Some(n) => Ok(n),
            None => Err(Error::MalformedPayload),
        },
        None => Err(Error::MalformedPayload),
    }
}

/// The strings of the array under a key of an object, in their order.
pub fn text_list_field(v: &serde_json::Value, key: &str) -> (r: Result<Vec<String>, Error>)
    ensures
        match r {
            Ok(list) => texts_at(json_tree(*v), key@) == Some(string_views(list@)),
            Err(e) => e == Error::MalformedPayload && texts_at(json_tree(*v), key@) is None,
        },
{
    let found = match member(v, key) {
        Some(found) => found,
        None => {
            return Err(Error::MalformedPayload);
        },
    };
    let items = match as_list(found) {
        Some(items) => items,
        None => {
            return Err(Error::MalformedPayload);
        },
    };
    let ghost rows = json_trees(items@);
    let ghost found = texts_in(rows);
    let mut out: Vec<String> = Vec::new();
    let mut i: usize = 0;
    while i < items.len()
        invariant
            i <= items.len(),
            rows == json_trees(items@),
            found == texts_in(rows),
            texts_at(json_tree(*v), key@) == collect(found),
            out@.len() == i,
            forall|k: int| 0 <= k < i ==> text_of(rows[k]) == Some(#[trigger] out@[k]@),
        decreases items.len() - i,
    {
        match as_text(&items[i]) {
            Some(s) => {
                out.push(s.to_owned());
            },
            None => {
                proof {
                    assert(found[i as int] is None);
                }
                return Err(Error::MalformedPayload);
            },
        }
        i += 1;
    }
    proof {
        assert forall|k: int| 0 <= k < found.len() implies (#[trigger] found[k]) is Some by {
            assert(text_of(rows[k]) == Some(out@[k]@));
        }
        assert(string_views(out@) =~= found.map_values(|x: Option<Seq<char>>| x->0)) by {
            assert forall|k: int| 0 <= k < out@.len() implies string_views(out@)[k]
                == found[k]->0 by {
                assert(text_of(rows[k]) == Some(out@[k]@));
            }
        }
    }
    Ok(out)
}

/// A text that holds anything but decimal digits, a `+` at its start apart,
/// stands for no number.
pub proof fn lemma_non_numeric_text(s: Seq<char>, at: int)
    requires
        0 <= at < s.len(),
        !is_digit(s[at]),
        !(at == 0 && s[0] == '+'),
    ensures
        unsigned_of_text(s) is None,
        number_of(Json::Text(s)) is None,
{
    if s[0] == '+' {
        let digits = s.drop_first();
        assert(digits[at - 1] == s[at]);
    }
}

/// An empty text, and a `+` alone, stand for no number.
pub proof fn lemma_no_digits(s: Seq<char>)
    requires
        s.len() == 0 || s == seq!['+'],
    ensures
        unsigned_of_text(s) is None,
{
}

/// Only a string and a number stand for a number: `null`, a truth value, an
/// array and an object do not, and neither does a number that is negative,
/// has a fraction or is above `u32::MAX`.
pub proof fn lemma_number_kinds(j: Json)
    ensures
        number_of(j) is Some ==> (j is Text || (j matches Json::Number(JsonNumber::Unsigned(n)) && n
            <= u32::MAX)),
{
}

/// Under a key that an object lacks there is no text, no number and no list,
/// and a value that is no object has no keys.
pub proof fn lemma_missing_member(j: Json, key: Seq<char>)
    requires
        member_of(j, key) is None,
    ensures
        text_at(j, key) is None,
        number_at(j, key) is None,
        texts_at(j, key) is None,
{
}

/// Where every value is there, `collect` keeps them all, each in its place;
/// where one is missing, it gives nothing.
pub proof fn lemma_collect<T>(found: Seq<Option<T>>)
    ensures
        match collect(found) {
            Some(all) => all.len() == found.len() && forall|i: int|
                0 <= i < found.len() ==> found[i] == Some(#[trigger] all[i]),
            None => exists|i: int| 0 <= i < found.len() && (#[trigger] found[i]) is None,
        },
{
}

} // verus!
