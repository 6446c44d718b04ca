//! The YAML values that signature files and settings are read from. The
//! values are those of `serde_yaml`; this module states what the library
//! relies on when it parses a text and reads a value.

use std::collections::HashMap;
use vstd::prelude::*;

verus! {

/// `serde_yaml::Value`, a YAML value of any kind; known only by what the
/// functions below say of it.
#[verifier::external_type_specification]
#[verifier::external_body]
pub struct ExValue(serde_yaml::Value);

/// `serde_yaml::Mapping`, a YAML mapping from values to values.
#[verifier::external_type_specification]
#[verifier::external_body]
pub struct ExMapping(serde_yaml::Mapping);

/// `serde_yaml::Error`, the error of a failed parse.
#[verifier::external_type_specification]
#[verifier::external_body]
pub struct ExError(serde_yaml::Error);

/// What a YAML value holds. A number is known by the unsigned integer it
/// stands for, if it stands for one; a tagged value by the value under the
/// tag. A mapping is known by its entries, in the order in which it keeps
/// them.
pub enum Yaml {
    Null,
    Bool(bool),
    Number(Option<u64>),
    Text(Seq<char>),
    Sequence(Seq<Yaml>),
    Mapping(Seq<(Yaml, Yaml)>),
    Tagged(Box<Yaml>),
}

/// The content of a YAML value.
pub uninterp spec fn yaml_of(value: serde_yaml::Value) -> Yaml;

/// The entries of a YAML mapping, in the order in which the mapping keeps
/// them: for a parsed mapping, that of the document. No two entries have
/// equal keys.
pub uninterp spec fn entries_of(mapping: serde_yaml::Mapping) -> Seq<(Yaml, Yaml)>;

/// What parsing `text` as one YAML document gives: its content, or the
/// message of the parse error.
pub uninterp spec fn document(text: Seq<char>) -> Result<Yaml, Seq<char>>;

/// What parsing `text` as a mapping from strings to strings gives: the
/// mapping, or nothing where the text is no such mapping.
pub uninterp spec fn string_table(text: Seq<char>) -> Option<Map<Seq<char>, Seq<char>>>;

/// What parsing `text` as a mapping from strings to values of any kind
/// gives: the mapping, or the message of the parse error.
pub uninterp spec fn value_table(text: Seq<char>) -> Result<Map<Seq<char>, Yaml>, Seq<char>>;

/// The message of a parse error.
pub uninterp spec fn error_message(error: serde_yaml::Error) -> Seq<char>;

/// The value under all the tags of `content`.
pub open spec fn untagged(content: Yaml) -> Yaml
    decreases content,
{
    match content {
        Yaml::Tagged(inner) => untagged(*inner),
        _ => content,
    }
}

/// The contents of a run of values, in order.
pub open spec fn contents(values: Seq<serde_yaml::Value>) -> Seq<Yaml> {
    values.map_values(|value: serde_yaml::Value| yaml_of(value))
}

/// The contents of a run of borrowed entries, in order.
pub open spec fn entry_contents(entries: Seq<(&serde_yaml::Value, &serde_yaml::Value)>) -> Seq<
    (Yaml, Yaml),
> {
    entries.map_values(
        |entry: (&serde_yaml::Value, &serde_yaml::Value)| (yaml_of(*entry.0), yaml_of(*entry.1)),
    )
}

/// The value of the first entry of `entries` whose key is the plain string
/// `key`.
pub open spec fn lookup(entries: Seq<(Yaml, Yaml)>, key: Seq<char>) -> Option<Yaml>
    decreases entries.len(),
{
    if entries.len() == 0 {
        None
    } else if entries[0].0 == Yaml::Text(key) {
        Some(entries[0].1)
    } else {
        lookup(entries.drop_first(), key)
    }
}

/// The content of an optional borrowed value.
pub open spec fn found_content(found: Option<&serde_yaml::Value>) -> Option<Yaml> {
    match found {
        Some(value) => Some(yaml_of(*value)),
        None => None,
    }
}

/// A value as the top level of a document shows it: a mapping, a sequence,
/// or anything else. Tags are not looked through.
pub enum Shape<'a> {
    Mapping(&'a serde_yaml::Mapping),
    Sequence(&'a Vec<serde_yaml::Value>),
    Other,
}

/// Parses `text` as one YAML document.
///
/// Trusted: calls `serde_yaml::from_str` for a `Value`. The result depends on
/// the text alone; `document` names it.
#[verifier::external_body]
pub(crate) fn parse(text: &str) -> (parsed: Result<serde_yaml::Value, serde_yaml::Error>)
    ensures
        match parsed {
            Ok(value) => document(text@) == Ok::<Yaml, Seq<char>>(yaml_of(value)),
            Err(error) => document(text@) == Err::<Yaml, Seq<char>>(error_message(error)),
        },
{
    serde_yaml::from_str::<serde_yaml::Value>(text)
}

/// The message of a parse error.
///
/// Trusted: formats a `serde_yaml::Error` through its `Display` impl, which
/// depends on the error alone; `error_message` names the text.
#[verifier::external_body]
pub(crate) fn message_of(error: &serde_yaml::Error) -> (message: String)
    ensures
        message@ == error_message(*error),
{
    error.to_string()
}

/// Tells a mapping and a sequence from any other value.
///
/// Trusted: matches on the variants of `serde_yaml::Value` and hands out
/// what the `Mapping` and the `Sequence` variant hold.
#[verifier::external_body]
pub(crate) fn shape_of(value: &serde_yaml::Value) -> (shape: Shape<'_>)
    ensures
        match shape {
            Shape::Mapping(mapping) => yaml_of(*value) == Yaml::Mapping(entries_of(*mapping)),
            Shape::Sequence(items) => yaml_of(*value) == Yaml::Sequence(contents(items@)),
            Shape::Other => !(yaml_of(*value) is Mapping) && !(yaml_of(*value) is Sequence),
        },
{
    match value {
        serde_yaml::Value::Mapping(mapping) => Shape::Mapping(mapping),
        serde_yaml::Value::Sequence(items) => Shape::Sequence(items),
        _ => Shape::Other,
    }
}

/// The text of a string value, looking through tags.
///
/// Trusted: calls `Value::as_str`, which returns the string of a `String`
/// variant under any number of tags, and `None` for every other value.
#[verifier::external_body]
pub(crate) fn as_str(value: &serde_yaml::Value) -> (text: Option<&str>)
    ensures
        match text {
            Some(t) => untagged(yaml_of(*value)) == Yaml::Text(t@),
            None => !(untagged(yaml_of(*value)) is Text),
        },
{
    value.as_str()
}

/// The unsigned integer of a number value, looking through tags.
///
/// Trusted: calls `Value::as_u64`, which returns the integer of a `Number`
/// variant that holds a non-negative integer, under any number of tags, and
/// `None` for every other value.
#[verifier::external_body]
pub(crate) fn as_u64(value: &serde_yaml::Value) -> (number: Option<u64>)
    ensures
        number == match untagged(yaml_of(*value)) {
            Yaml::Number(n) => n,
            _ => None,
        },
{
    value.as_u64()
}

/// The items of a sequence value, looking through tags.
///
/// Trusted: calls `Value::as_sequence`, which returns the items of a
/// `Sequence` variant under any number of tags, and `None` for every other
/// value.
#[verifier::external_body]
pub(crate) fn as_sequence(value: &serde_yaml::Value) -> (items: Option<&Vec<serde_yaml::Value>>)
    ensures
        match items {
            Some(list) => untagged(yaml_of(*value)) == Yaml::Sequence(contents(list@)),
            None => !(untagged(yaml_of(*value)) is Sequence),
        },
{
    value.as_sequence()
}

/// The mapping of a mapping value, looking through tags.
///
/// Trusted: calls `Value::as_mapping`, which returns the mapping of a
/// `Mapping` variant under any number of tags, and `None` for every other
/// value.
#[verifier::external_body]
pub(crate) fn as_mapping(value: &serde_yaml::Value) -> (mapping: Option<&serde_yaml::Mapping>)
    ensures
        match mapping {
            Some(m) => untagged(yaml_of(*value)) == Yaml::Mapping(entries_of(*m)),
            None => !(untagged(yaml_of(*value)) is Mapping),
        },
{
    value.as_mapping()
}

/// The value that `mapping` holds under the plain string `key`.
///
/// Trusted: calls `Mapping::get` with a string index, which finds the entry
/// whose key is a `String` variant equal to `key`. Keys are unique, so that
/// entry is the first such entry.
#[verifier::external_body]
pub(crate) fn get<'a>(mapping: &'a serde_yaml::Mapping, key: &str) -> (found: Option<
    &'a serde_yaml::Value,
>)
    ensures
        found_content(found) == lookup(entries_of(*mapping), key@),
{
    mapping.get(key)
}

/// The entries of `mapping`, in the order in which it keeps them.
///
/// Trusted: calls `Mapping::iter`, which visits all entries in order of
/// insertion, and collects what it yields.
#[verifier::external_body]
pub(crate) fn entries(mapping: &serde_yaml::Mapping) -> (all: Vec<
    (&serde_yaml::Value, &serde_yaml::Value),
>)
    ensures
        entry_contents(all@) == entries_of(*mapping),
{
    mapping.iter().collect()
}

/// `pairs` lists the entries of `table`: each pair is an entry, and each
/// key of the table stands in a pair.
pub open spec fn lists(pairs: Seq<(String, String)>, table: Map<Seq<char>, Seq<char>>) -> bool {
    &&& forall|i: int|
        0 <= i < pairs.len() ==> table.contains_key(#[trigger] pairs[i].0@) && table[pairs[i].0@]
            == pairs[i].1@
    &&& forall|key: Seq<char>| #[trigger]
        table.contains_key(key) ==> exists|i: int| 0 <= i < pairs.len() && #[trigger] pairs[i].0@
            == key
}

/// Parses `text` as a mapping from strings to strings and lists its
/// entries, in no particular order.
///
/// Trusted: calls `serde_yaml::from_str` for a `HashMap<String, String>` and
/// collects the map's entries. Which mapping comes out depends on the text
/// alone; `string_table` names it. The order of the list is left open.
#[verifier::external_body]
pub(crate) fn parse_string_table(text: &str) -> (parsed: Option<Vec<(String, String)>>)
    ensures
        match parsed {
            Some(pairs) => string_table(text@) matches Some(table) && lists(pairs@, table),
            None => string_table(text@) is None,
        },
{
    serde_yaml::from_str::<HashMap<String, String>>(text).ok().map(
        |table| table.into_iter().collect(),
    )
}

/// `pairs` lists the entries of `table`: each pair is an entry, and each
/// key of the table stands in a pair.
pub open spec fn lists_values(
    pairs: Seq<(String, serde_yaml::Value)>,
    table: Map<Seq<char>, Yaml>,
) -> bool {
    &&& forall|i: int|
        0 <= i < pairs.len() ==> table.contains_key(#[trigger] pairs[i].0@) && table[pairs[i].0@]
            == yaml_of(pairs[i].1)
    &&& forall|key: Seq<char>| #[trigger]
        table.contains_key(key) ==> exists|i: int| 0 <= i < pairs.len() && #[trigger] pairs[i].0@
            == key
}

/// Parses `text` as a mapping from strings to values of any kind and lists
/// its entries, in no particular order.
///
/// Trusted: calls `serde_yaml::from_str` for a `HashMap<String, Value>` and
/// collects the map's entries. Which mapping or which error comes out
/// depends on the text alone; `value_table` names it. The order of the list
/// is left open.
#[verifier::external_body]
pub(crate) fn parse_value_table(text: &str) -> (parsed: Result<
    Vec<(String, serde_yaml::Value)>,
    serde_yaml::Error,
>)
    ensures
        match parsed {
            Ok(pairs) => value_table(text@) matches Ok(table) && lists_values(pairs@, table),
            Err(error) => value_table(text@) == Err::<Map<Seq<char>, Yaml>, Seq<char>>(
                error_message(error),
            ),
        },
{
    serde_yaml::from_str::<HashMap<String, serde_yaml::Value>>(text).map(
        |table| table.into_iter().collect(),
    )
}

} // verus!
