//! TOML values: what they hold, and how they are read and changed.

use crate::text::{after_dot, before_dot, lemma_first_dot_bounds, split_at_dot};
use vstd::prelude::*;
use vstd::string::*;

verus! {

/// `toml::Value`: a TOML value, of which nothing is known but what the
/// functions below say.
#[verifier::external_type_specification]
#[verifier::external_body]
pub struct ExValue(toml::Value);

/// `toml::de::Error`: why a text is no TOML document.
#[verifier::external_type_specification]
#[verifier::external_body]
pub struct ExDeError(toml::de::Error);

/// `toml::ser::Error`: why a value cannot be written as a TOML document.
#[verifier::external_type_specification]
#[verifier::external_body]
pub struct ExSerError(toml::ser::Error);

/// `toml::map::Map`: a TOML table, of which nothing is known but what the
/// functions below say.
#[verifier::external_type_specification]
#[verifier::external_body]
#[verifier::reject_recursive_types(K)]
#[verifier::reject_recursive_types(V)]
pub struct ExMap<K, V>(toml::map::Map<K, V>);

/// What a TOML value holds. A float is kept as its bits, and a date as it is
/// written.
pub enum Toml {
    String(Seq<char>),
    Integer(i64),
    Float(u64),
    Boolean(bool),
    Datetime(Seq<char>),
    Array(Seq<Toml>),
    Table(Map<Seq<char>, Toml>),
}

/// What a value of the `toml` crate holds.
pub uninterp spec fn toml_of(value: &toml::Value) -> Toml;

/// What a table of the `toml` crate holds: its values by their keys.
pub uninterp spec fn table_of(table: &toml::map::Map<String, toml::Value>) -> Map<Seq<char>, Toml>;

/// What each value of a list holds.
pub open spec fn tomls_of(values: Seq<toml::Value>) -> Seq<Toml> {
    values.map_values(|v: toml::Value| toml_of(&v))
}

/// The name of the kind of a value.
pub open spec fn kind_name(value: Toml) -> Seq<char> {
    match value {
        Toml::String(_) => "string"@,
        Toml::Integer(_) => "integer"@,
        Toml::Float(_) => "float"@,
        Toml::Boolean(_) => "boolean"@,
        Toml::Datetime(_) => "datetime"@,
        Toml::Array(_) => "array"@,
        Toml::Table(_) => "table"@,
    }
}

/// `toml::Value::as_str`: the text of a value that is a string, and nothing
/// of any other value.
#[verifier::external_body]
pub(crate) fn value_as_str(value: &toml::Value) -> (text: Option<&str>)
    ensures
        match text {
            Some(s) => toml_of(value) == Toml::String(s@),
            None => !(toml_of(value) is String),
        },
{
    value.as_str()
}

/// `toml::Value::as_bool`: the truth value of a value that is one, and
/// nothing of any other value.
#[verifier::external_body]
pub(crate) fn value_as_bool(value: &toml::Value) -> (flag: Option<bool>)
    ensures
        match flag {
            Some(b) => toml_of(value) == Toml::Boolean(b),
            None => !(toml_of(value) is Boolean),
        },
{
    value.as_bool()
}

/// `toml::Value::as_array`: the values of a value that is an array, and
/// nothing of any other value.
#[verifier::external_body]
pub(crate) fn value_as_array(value: &toml::Value) -> (items: Option<&Vec<toml::Value>>)
    ensures
        match items {
            Some(a) => toml_of(value) == Toml::Array(tomls_of(a@)),
            None => !(toml_of(value) is Array),
        },
{
    value.as_array()
}

/// `toml::Value::as_table`: the table of a value that is a table, and
/// nothing of any other value.
#[verifier::external_body]
pub(crate) fn value_as_table(value: &toml::Value) -> (table: Option<
    &toml::map::Map<String, toml::Value>,
>)
    ensures
        match table {
            Some(t) => toml_of(value) == Toml::Table(table_of(t)),
            None => !(toml_of(value) is Table),
        },
{
    value.as_table()
}

/// `toml::Value::type_str`: the name of the kind of a value.
#[verifier::external_body]
pub(crate) fn value_type_str(value: &toml::Value) -> (name: &'static str)
    ensures
        name@ == kind_name(toml_of(value)),
{
    value.type_str()
}

/// `toml::map::Map::get`: the value that a table holds under a key, if it
/// holds one.
#[verifier::external_body]
pub(crate) fn table_get<'a>(table: &'a toml::map::Map<String, toml::Value>, key: &str) -> (found:
    Option<&'a toml::Value>)
    ensures
        match found {
            Some(v) => table_of(table).contains_key(key@) && table_of(table)[key@] == toml_of(v),
            None => !table_of(table).contains_key(key@),
        },
{
    table.get(key)
}

/// `toml::map::Map::iter`: the entries of a table, each key with its value.
/// Every key of the table comes with the value that the table holds under
/// it, and nothing else comes.
#[verifier::external_body]
pub(crate) fn table_entries<'a>(table: &'a toml::map::Map<String, toml::Value>) -> (entries: Vec<
    (&'a String, &'a toml::Value),
>)
    ensures
        forall|i: int|
            0 <= i < entries@.len() ==> table_of(table).contains_key((#[trigger] entries@[i]).0@)
                && table_of(table)[entries@[i].0@] == toml_of(entries@[i].1),
        forall|key: Seq<char>| #[trigger]
            table_of(table).contains_key(key) ==> exists|i: int|
                0 <= i < entries@.len() && (#[trigger] entries@[i]).0@ == key,
{
    table.iter().collect()
}

/// What stands in a value at the end of a path of keys, which dots keep
/// apart: each key but the last leads from a table to a value that it holds
/// under that key, and the last to the value sought. Nothing stands there
/// where a key is missing or a value on the way is no table.
pub open spec fn lookup_path(value: Toml, option: Seq<char>) -> Option<Toml>
    decreases option.len(),
    via lookup_path_ends
{
    match value {
        Toml::Table(entries) => if entries.contains_key(before_dot(option)) {
            match after_dot(option) {
                Some(rest) => lookup_path(entries[before_dot(option)], rest),
                None => Some(entries[before_dot(option)]),
            }
        } else {
            None
        },
        _ => None,
    }
}

#[via_fn]
proof fn lookup_path_ends(value: Toml, option: Seq<char>) {
    lemma_first_dot_bounds(option);
}

/// Looks up what stands in a value at the end of a path of keys.
pub fn lookup<'a>(value: &'a toml::Value, option: &str) -> (found: Option<&'a toml::Value>)
    ensures
        match found {
            Some(v) => lookup_path(toml_of(value), option@) == Some(toml_of(v)),
            None => lookup_path(toml_of(value), option@) is None,
        },
    decreases option@.len(),
{
    proof {
        lemma_first_dot_bounds(option@);
    }
    let (key, rest) = split_at_dot(option);
    let table = match value_as_table(value) {
        Some(table) => table,
        None => {
            return None;
        },
    };
    let next = match table_get(table, key) {
        Some(next) => next,
        None => {
            return None;
        },
    };
    match rest {
        Some(rest) => lookup(next, rest),
        None => Some(next),
    }
}

/// What is said of a value that is not of the kind that an option asks for.
pub open spec fn invalid_value(option: Seq<char>, expected: Seq<char>, found: Toml) -> Seq<char> {
    "Invalid `"@ + option + "` value, expected "@ + expected + ", found "@ + kind_name(found)
}

fn invalid_value_message(option: &str, expected: &str, value: &toml::Value) -> (message: String)
    ensures
        message@ == invalid_value(option@, expected@, toml_of(value)),
{
    let mut message = "Invalid `".to_owned();
    message.append(option);
    message.append("` value, expected ");
    message.append(expected);
    message.append(", found ");
    message.append(value_type_str(value));
    message
}

/// The text of a value that is a string, or what is wrong with the value.
pub fn as_result_str<'a>(value: &'a toml::Value, option: &str) -> (text: Result<&'a str, String>)
    ensures
        match text {
            Ok(s) => toml_of(value) == Toml::String(s@),
            Err(e) => !(toml_of(value) is String) && e@ == invalid_value(
                option@,
                "a string"@,
                toml_of(value),
            ),
        },
{
    match value_as_str(value) {
        Some(s) => Ok(s),
        None => Err(invalid_value_message(option, "a string", value)),
    }
}

/// The values of a value that is an array, or what is wrong with the value.
pub fn as_result_vec<'a>(value: &'a toml::Value, option: &str) -> (items: Result<
    &'a Vec<toml::Value>,
    String,
>)
    ensures
        match items {
            Ok(a) => toml_of(value) == Toml::Array(tomls_of(a@)),
            Err(e) => !(toml_of(value) is Array) && e@ == invalid_value(
                option@,
                "a array"@,
                toml_of(value),
            ),
        },
{
    match value_as_array(value) {
        Some(a) => Ok(a),
        None => Err(invalid_value_message(option, "a array", value)),
    }
}

/// The truth value of a value that is one, or what is wrong with the value.
pub fn as_result_bool(value: &toml::Value, option: &str) -> (flag: Result<bool, String>)
    ensures
        match flag {
            Ok(b) => toml_of(value) == Toml::Boolean(b),
            Err(e) => !(toml_of(value) is Boolean) && e@ == invalid_value(
                option@,
                "a boolean"@,
                toml_of(value),
            ),
        },
{
    match value_as_bool(value) {
        Some(b) => Ok(b),
        None => Err(invalid_value_message(option, "a boolean", value)),
    }
}

/// The text at the end of a path of keys. Where nothing stands there, the
/// error is the message given; where something else than a string does, it
/// says so.
pub fn lookup_str<'a>(value: &'a toml::Value, option: &str, err: &str) -> (text: Result<
    &'a str,
    String,
>)
    ensures
        match text {
            Ok(s) => lookup_path(toml_of(value), option@) == Some(Toml::String(s@)),
            Err(e) => match lookup_path(toml_of(value), option@) {
                Some(found) => !(found is String) && e@ == invalid_value(
                    option@,
                    "a string"@,
                    found,
                ),
                None => e@ == err@,
            },
        },
{
    match lookup(value, option) {
        Some(found) => as_result_str(found, option),
        None => Err(err.to_owned()),
    }
}

/// The values at the end of a path of keys. Where nothing stands there, the
/// error is the message given; where something else than an array does, it
/// says so.
pub fn lookup_vec<'a>(value: &'a toml::Value, option: &str, err: &str) -> (items: Result<
    &'a Vec<toml::Value>,
    String,
>)
    ensures
        match items {
            Ok(a) => lookup_path(toml_of(value), option@) == Some(Toml::Array(tomls_of(a@))),
            Err(e) => match lookup_path(toml_of(value), option@) {
                Some(found) => !(found is Array) && e@ == invalid_value(
                    option@,
                    "a array"@,
                    found,
                ),
                None => e@ == err@,
            },
        },
{
    match lookup(value, option) {
        Some(found) => as_result_vec(found, option),
        None => Err(err.to_owned()),
    }
}

/// What a table without entries holds.
pub open spec fn empty_table() -> Map<Seq<char>, Toml> {
    Map::empty()
}

/// `toml::map::Map::new`: a table that holds nothing.
#[verifier::external_body]
pub(crate) fn table_new() -> (table: toml::map::Map<String, toml::Value>)
    ensures
        table_of(&table) == empty_table(),
{
    toml::map::Map::new()
}

/// `toml::map::Map::contains_key`: whether a table holds a value under a
/// key.
#[verifier::external_body]
pub(crate) fn table_contains_key(table: &toml::map::Map<String, toml::Value>, key: &str) -> (found:
    bool)
    ensures
        found == table_of(table).contains_key(key@),
{
    table.contains_key(key)
}

/// `toml::map::Map::insert`: puts a value under a key, in place of the one
/// that the table held there, which is returned.
#[verifier::external_body]
pub(crate) fn table_insert(
    table: &mut toml::map::Map<String, toml::Value>,
    key: String,
    value: toml::Value,
) -> (before: Option<toml::Value>)
    ensures
        table_of(final(table)) == table_of(old(table)).insert(key@, toml_of(&value)),
        match before {
            Some(v) => table_of(old(table)).contains_key(key@) && table_of(old(table))[key@]
                == toml_of(&v),
            None => !table_of(old(table)).contains_key(key@),
        },
{
    table.insert(key, value)
}

/// `toml::map::Map::remove`: takes out the value under a key, if the table
/// holds one, and returns it.
#[verifier::external_body]
pub(crate) fn table_remove(table: &mut toml::map::Map<String, toml::Value>, key: &str) -> (before:
    Option<toml::Value>)
    ensures
        table_of(final(table)) == table_of(old(table)).remove(key@),
        match before {
            Some(v) => table_of(old(table)).contains_key(key@) && table_of(old(table))[key@]
                == toml_of(&v),
            None => !table_of(old(table)).contains_key(key@),
        },
{
    table.remove(key)
}

/// `toml::map::Map::get_mut`: the value that a table holds under a key, to
/// be changed in place. What the value is changed to is what the table holds
/// under the key afterwards; nothing else in the table changes.
#[verifier::external_body]
pub(crate) fn table_get_mut<'a>(
    table: &'a mut toml::map::Map<String, toml::Value>,
    key: &str,
) -> (found: Option<&'a mut toml::Value>)
    ensures
        match found {
            Some(v) => table_of(old(table)).contains_key(key@) && table_of(old(table))[key@]
                == toml_of(v) && table_of(final(table)) == table_of(old(table)).insert(
                key@,
                toml_of(final(v)),
            ),
            None => !table_of(old(table)).contains_key(key@) && table_of(final(table)) == table_of(
                old(table),
            ),
        },
{
    table.get_mut(key)
}

/// `toml::Value::as_table_mut`: the table of a value that is a table, to be
/// changed in place, and nothing of any other value. What the table is changed
/// to is what the value holds afterwards.
#[verifier::external_body]
pub(crate) fn value_as_table_mut<'a>(value: &'a mut toml::Value) -> (table: Option<
    &'a mut toml::map::Map<String, toml::Value>,
>)
    ensures
        match table {
            Some(t) => toml_of(old(value)) == Toml::Table(table_of(t)) && toml_of(final(value))
                == Toml::Table(table_of(final(t))),
            None => !(toml_of(old(value)) is Table) && toml_of(final(value)) == toml_of(
                old(value),
            ),
        },
{
    value.as_table_mut()
}

/// `toml::Value::String`: the value that is a string of the given text.
#[verifier::external_body]
pub(crate) fn string_value(text: String) -> (value: toml::Value)
    ensures
        toml_of(&value) == Toml::String(text@),
{
    toml::Value::String(text)
}

/// `toml::Value::Array`: the value that is an array of the given values.
#[verifier::external_body]
pub(crate) fn array_value(items: Vec<toml::Value>) -> (value: toml::Value)
    ensures
        toml_of(&value) == Toml::Array(tomls_of(items@)),
{
    toml::Value::Array(items)
}

/// `toml::Value::Table`: the value that is the given table.
#[verifier::external_body]
pub(crate) fn table_value(table: toml::map::Map<String, toml::Value>) -> (value: toml::Value)
    ensures
        toml_of(&value) == Toml::Table(table_of(&table)),
{
    toml::Value::Table(table)
}

/// What is said of a text that is no TOML document.
pub uninterp spec fn de_error_text(error: &toml::de::Error) -> Seq<char>;

/// The document that bytes are when read as TOML, or what is said of bytes
/// that are none.
pub uninterp spec fn parsed_document(bytes: Seq<u8>) -> Result<Toml, Seq<char>>;

/// The table that a text is when read as a TOML document, if it is one.
pub uninterp spec fn parsed_table(text: Seq<char>) -> Option<Map<Seq<char>, Toml>>;

/// A table written as a TOML document, where it can be written as one.
pub uninterp spec fn printed_table(table: Map<Seq<char>, Toml>) -> Option<Seq<char>>;

/// `toml::from_slice`, for a value: reads bytes as a TOML document.
#[verifier::external_body]
pub(crate) fn value_from_slice(bytes: &[u8]) -> (document: Result<toml::Value, toml::de::Error>)
    ensures
        match document {
            Ok(v) => parsed_document(bytes@) == Ok::<Toml, Seq<char>>(toml_of(&v)),
            Err(e) => parsed_document(bytes@) == Err::<Toml, Seq<char>>(de_error_text(&e)),
        },
{
    toml::from_slice(bytes)
}

/// `toml::de::Error::to_string`: what an error says.
#[verifier::external_body]
pub(crate) fn de_error_to_string(error: &toml::de::Error) -> (text: String)
    ensures
        text@ == de_error_text(error),
{
    error.to_string()
}

/// `toml::from_str`, for a table: reads a text as a TOML document.
#[verifier::external_body]
pub(crate) fn table_from_str(text: &str) -> (document: Result<
    toml::map::Map<String, toml::Value>,
    toml::de::Error,
>)
    ensures
        match document {
            Ok(t) => parsed_table(text@) == Some(table_of(&t)),
            Err(_) => parsed_table(text@) is None,
        },
{
    toml::from_str(text)
}

/// `toml::to_string`, for a table: writes a table as a TOML document.
#[verifier::external_body]
pub(crate) fn table_to_string(table: &toml::map::Map<String, toml::Value>) -> (document: Result<
    String,
    toml::ser::Error,
>)
    ensures
        match document {
            Ok(text) => printed_table(table_of(table)) == Some(text@),
            Err(_) => printed_table(table_of(table)) is None,
        },
{
    toml::to_string(table)
}

} // verus!
