use crate::util::value::{member_trees, names_apart, trees, JsonTree, JsonValue};
use vstd::prelude::*;

verus! {

#[verifier::external_type_specification]
#[verifier::external_body]
pub struct ExValue(serde_json::Value);

#[verifier::external_type_specification]
#[verifier::external_body]
pub struct ExError(serde_json::Error);

/// The document that strict JSON text holds, where the bytes are such text.
pub uninterp spec fn strict_json(bytes: Seq<u8>) -> Option<JsonTree>;

/// The compact JSON text of a document that can be written.
pub uninterp spec fn json_text(tree: JsonTree) -> Seq<char>;

/// The document that a `serde_json::Value` holds.
pub uninterp spec fn value_tree(value: serde_json::Value) -> JsonTree;

/// The documents that some values hold.
pub open spec fn value_trees(values: Seq<serde_json::Value>) -> Seq<JsonTree> {
    Seq::new(values.len(), |i: int| value_tree(values[i]))
}

/// The members that some names with their values are.
pub open spec fn value_member_trees(members: Seq<(String, serde_json::Value)>) -> Seq<
    (Seq<char>, JsonTree),
> {
    Seq::new(members.len(), |i: int| (members[i].0@, value_tree(members[i].1)))
}

/// The members that some borrowed names with their values are.
pub open spec fn borrowed_member_trees(members: Seq<(&String, &serde_json::Value)>) -> Seq<
    (Seq<char>, JsonTree),
> {
    Seq::new(members.len(), |i: int| (members[i].0@, value_tree(*members[i].1)))
}

/// Trusted: `serde_json::from_slice`, asked for a `serde_json::Value`. The
/// contract names what it returns: the same bytes always give the same document,
/// or are always refused.
#[verifier::external_body]
fn value_from_slice(bytes: &[u8]) -> (r: Result<serde_json::Value, serde_json::Error>)
    ensures
        match r {
            Ok(value) => strict_json(bytes@) == Some(value_tree(value)),
            Err(_) => strict_json(bytes@) is None,
        },
{
    serde_json::from_slice::<serde_json::Value>(bytes)
}

/// Trusted: `Value::is_null` tells whether the value is the null of JSON.
#[verifier::external_body]
fn value_is_null(value: &serde_json::Value) -> (b: bool)
    ensures
        b == (value_tree(*value) is Null),
{
    value.is_null()
}

/// Trusted: `Value::as_bool` gives the boolean that the value is, if it is one.
#[verifier::external_body]
fn value_as_bool(value: &serde_json::Value) -> (r: Option<bool>)
    ensures
        r == (match value_tree(*value) {
            JsonTree::Bool(b) => Some(b),
            _ => None,
        }),
{
    value.as_bool()
}

/// Trusted: `Value::as_i64` gives the integer that the value is, if it is a
/// number that an `i64` holds. Such numbers are the integers of a document, and
/// all others its other numbers.
#[verifier::external_body]
fn value_as_i64(value: &serde_json::Value) -> (r: Option<i64>)
    ensures
        r == (match value_tree(*value) {
            JsonTree::Int(i) => Some(i),
            _ => None,
        }),
{
    value.as_i64()
}

/// Trusted: `Value::as_str` gives the text that the value is, if it is a string.
#[verifier::external_body]
fn value_as_str(value: &serde_json::Value) -> (r: Option<&str>)
    ensures
        match r {
            Some(text) => value_tree(*value) == JsonTree::Text(text@),
            None => !(value_tree(*value) is Text),
        },
{
    value.as_str()
}

/// Trusted: `Value::as_array` gives the items of the value, in order, if it is
/// an array.
#[verifier::external_body]
fn value_as_array(value: &serde_json::Value) -> (r: Option<&Vec<serde_json::Value>>)
    ensures
        match r {
            Some(items) => value_tree(*value) == JsonTree::Array(value_trees(items@)),
            None => !(value_tree(*value) is Array),
        },
{
    value.as_array()
}

/// Trusted: `Value::as_object` gives the map of the value, if it is an object,
/// and `Map::iter` hands out its members, each name with its value. The order in
/// which it does is the order of the members of the document.
#[verifier::external_body]
fn value_members<'a>(value: &'a serde_json::Value) -> (r: Option<
    Vec<(&'a String, &'a serde_json::Value)>,
>)
    ensures
        match r {
            Some(members) => value_tree(*value) == JsonTree::Object(
                borrowed_member_trees(members@),
            ),
            None => !(value_tree(*value) is Object),
        },
{
    value.as_object().map(|map| map.iter().collect())
}

/// Trusted: `Value::Null` is the null of JSON.
#[verifier::external_body]
fn value_null() -> (value: serde_json::Value)
    ensures
        value_tree(value) == JsonTree::Null,
{
    serde_json::Value::Null
}

/// Trusted: `Value::Bool` holds the boolean it is made of.
#[verifier::external_body]
fn value_of_bool(b: bool) -> (value: serde_json::Value)
    ensures
        value_tree(value) == JsonTree::Bool(b),
{
    serde_json::Value::Bool(b)
}

/// Trusted: `Value::from` makes of an `i64` the number that `as_i64` gives back.
#[verifier::external_body]
fn value_of_i64(i: i64) -> (value: serde_json::Value)
    ensures
        value_tree(value) == JsonTree::Int(i),
{
    serde_json::Value::from(i)
}

/// Trusted: `Value::String` holds the text it is made of.
#[verifier::external_body]
fn value_of_text(text: String) -> (value: serde_json::Value)
    ensures
        value_tree(value) == JsonTree::Text(text@),
{
    serde_json::Value::String(text)
}

/// Trusted: `Value::Array` holds the items it is made of, in order.
#[verifier::external_body]
fn value_of_items(items: Vec<serde_json::Value>) -> (value: serde_json::Value)
    ensures
        value_tree(value) == JsonTree::Array(value_trees(items@)),
{
    serde_json::Value::Array(items)
}

/// Trusted: a `serde_json::Map` collected from members of which no two have the
/// same name holds those members, and hands them out in the order in which they
/// came. The crate is built to keep that order.
#[verifier::external_body]
fn value_of_members(members: Vec<(String, serde_json::Value)>) -> (value: serde_json::Value)
    requires
        names_apart(value_member_trees(members@)),
    ensures
        value_tree(value) == JsonTree::Object(value_member_trees(members@)),
{
    serde_json::Value::Object(members.into_iter().collect())
}

/// Trusted: the `Display` of `serde_json::Value`, which writes the compact form.
/// The contract names what it returns, for a value whose document can be
/// written: such a document has no number but integers, each of which has one
/// decimal text, so that the same document always gives the same text. Of a
/// value with another number nothing is said: two such numbers are the same in
/// the document and differ in the text.
#[verifier::external_body]
fn value_to_string(value: &serde_json::Value) -> (text: String)
    requires
        value_tree(*value).printable(),
    ensures
        text@ == json_text(value_tree(*value)),
{
    value.to_string()
}

/// The document of this library that a value of `serde_json` holds.
fn document_of_value(value: &serde_json::Value) -> (json: JsonValue)
    ensures
        json@ == value_tree(*value),
    decreases value_tree(*value),
{
    if value_is_null(value) {
        return JsonValue::Null;
    }
    if let Some(b) = value_as_bool(value) {
        return JsonValue::Bool(b);
    }
    if let Some(i) = value_as_i64(value) {
        return JsonValue::Int(i);
    }
    if let Some(text) = value_as_str(value) {
        return JsonValue::Text(text.to_owned());
    }
    if let Some(items) = value_as_array(value) {
        let ghost all = value_trees(items@);
        let mut out: Vec<JsonValue> = Vec::new();
        let mut i: usize = 0;
        while i < items.len()
            invariant
                i <= items.len(),
                all == value_trees(items@),
                value_tree(*value) == JsonTree::Array(all),
                out@.len() == i,
                forall|j: int| 0 <= j < i ==> (#[trigger] out@[j])@ == all[j],
            decreases items.len() - i,
        {
            proof {
                assert(all[i as int] == value_tree(items@[i as int]));
                let tree = value_tree(*value);
                assert(decreases_to!(tree => tree->Array_0));
                assert(decreases_to!(tree->Array_0 => tree->Array_0[i as int]));
            }
            let item = document_of_value(&items[i]);
            out.push(item);
            i = i + 1;
        }
        let json = JsonValue::Array(out);
        assert(json@->Array_0 =~= all);
        return json;
    }
    if let Some(members) = value_members(value) {
        let ghost all = borrowed_member_trees(members@);
        let mut out: Vec<(String, JsonValue)> = Vec::new();
        let mut i: usize = 0;
        while i < members.len()
            invariant
                i <= members.len(),
                all == borrowed_member_trees(members@),
                value_tree(*value) == JsonTree::Object(all),
                out@.len() == i,
                forall|j: int|
                    0 <= j < i ==> (#[trigger] out@[j]).0@ == all[j].0 && out@[j].1@ == all[j].1,
            decreases members.len() - i,
        {
            proof {
                assert(all[i as int] == (members@[i as int].0@, value_tree(*members@[i as int].1)));
                let tree = value_tree(*value);
                assert(decreases_to!(tree => tree->Object_0));
                assert(decreases_to!(tree->Object_0 => tree->Object_0[i as int]));
                assert(decreases_to!(tree->Object_0[i as int] => tree->Object_0[i as int].1));
            }
            let member = document_of_value(members[i].1);
            out.push((members[i].0.clone(), member));
            i = i + 1;
        }
        let json = JsonValue::Object(out);
        assert(json@->Object_0 =~= all);
        return json;
    }
    JsonValue::OtherNumber
}

/// The value of `serde_json` that holds a document of this library.
fn value_of_document(json: &JsonValue) -> (value: serde_json::Value)
    requires
        json@.printable(),
    ensures
        value_tree(value) == json@,
    decreases json,
{
    match json {
        JsonValue::Null => value_null(),
        JsonValue::Bool(b) => value_of_bool(*b),
        JsonValue::Int(i) => value_of_i64(*i),
        // Not reached: a document with such a number is not printable.
        JsonValue::OtherNumber => value_null(),
        JsonValue::Text(text) => value_of_text(text.clone()),
        JsonValue::Array(items) => {
            let ghost all = trees(items@);
            assert(json@->Array_0 =~= all);
            let mut out: Vec<serde_json::Value> = Vec::new();
            let mut i: usize = 0;
            while i < items.len()
                invariant
                    i <= items.len(),
                    all == trees(items@),
                    json@ == JsonTree::Array(all),
                    *json == JsonValue::Array(*items),
                    json@.printable(),
                    out@.len() == i,
                    forall|j: int| 0 <= j < i ==> value_tree(#[trigger] out@[j]) == all[j],
                decreases items.len() - i,
            {
                assert(all[i as int] == items@[i as int]@);
                assert(json@->Array_0[i as int].printable());
                let item = value_of_document(&items[i]);
                out.push(item);
                i = i + 1;
            }
            assert(value_trees(out@) =~= all);
            value_of_items(out)
        },
        JsonValue::Object(members) => {
            let ghost all = member_trees(members@);
            assert(json@->Object_0 =~= all);
            let mut out: Vec<(String, serde_json::Value)> = Vec::new();
            let mut i: usize = 0;
            while i < members.len()
                invariant
                    i <= members.len(),
                    all == member_trees(members@),
                    json@ == JsonTree::Object(all),
                    *json == JsonValue::Object(*members),
                    json@.printable(),
                    out@.len() == i,
                    forall|j: int|
                        0 <= j < i ==> (#[trigger] out@[j]).0@ == all[j].0 && value_tree(out@[j].1)
                            == all[j].1,
                decreases members.len() - i,
            {
                assert(all[i as int] == (members@[i as int].0@, members@[i as int].1@));
                assert(json@->Object_0[i as int].1.printable());
                let member = value_of_document(&members[i].1);
                out.push((members[i].0.clone(), member));
                i = i + 1;
            }
            assert(value_member_trees(out@) =~= all);
            value_of_members(out)
        },
    }
}

/// Reads strict JSON text. The document is the one that `serde_json` reads.
pub fn parse_json(bytes: &[u8]) -> (r: Option<JsonValue>)
    ensures
        match r {
            Some(json) => strict_json(bytes@) == Some(json@),
            None => strict_json(bytes@) is None,
        },
{
    match value_from_slice(bytes) {
        Ok(value) => Some(document_of_value(&value)),
        Err(_) => None,
    }
}

/// Writes a document as compact JSON text. The text is the one that `serde_json`
/// writes. The document is to be one that can be written, which `is_printable`
/// tells; `try_print_json` asks it first.
pub fn print_json(json: &JsonValue) -> (text: String)
    requires
        json@.printable(),
    ensures
        text@ == json_text(json@),
{
    let value = value_of_document(json);
    value_to_string(&value)
}

/// Writes a document as compact JSON text, if it can be written.
pub fn try_print_json(json: &JsonValue) -> (r: Option<String>)
    ensures
        match r {
            Some(text) => json@.printable() && text@ == json_text(json@),
            None => !json@.printable(),
        },
{
    if json.is_printable() {
        Some(print_json(json))
    } else {
        None
    }
}

} // verus!
