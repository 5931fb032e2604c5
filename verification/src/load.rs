//! Decoding a record collection from a JSON document.
//!
//! The document is an array; each element is an object with the seven fields
//! of a record under their names. Fields beyond these seven are ignored. A
//! document of another shape, an element that lacks a field, or a field of the
//! wrong type makes the whole load fail: no partial collection is returned.

use vstd::prelude::*;
use crate::error::BenchError;
use crate::json::{Json, contents, parse_value, parsed, value_member, value_number_bits};
use crate::record::{Measure, Record, RecordView, views_of};

verus! {

/// What was found in a JSON value under each of the seven field names: `None`
/// where the field is missing or holds a value of the wrong type. The two
/// integer fields are held as read, before their range is checked.
#[derive(Debug)]
pub struct Readings {
    pub id: Option<i64>,
    pub name: Option<String>,
    pub age: Option<i64>,
    pub city: Option<String>,
    pub born: Option<String>,
    pub height: Option<Measure>,
    pub weight: Option<Measure>,
}

/// The mathematical value of [`Readings`].
pub ghost struct ReadingsView {
    pub id: Option<i64>,
    pub name: Option<Seq<char>>,
    pub age: Option<i64>,
    pub city: Option<Seq<char>>,
    pub born: Option<Seq<char>>,
    pub height: Option<Measure>,
    pub weight: Option<Measure>,
}

/// The text that an optional string holds.
pub open spec fn text_view(s: Option<String>) -> Option<Seq<char>> {
    match s {
        Some(t) => Some(t@),
        None => None,
    }
}

impl View for Readings {
    type V = ReadingsView;

    open spec fn view(&self) -> ReadingsView {
        ReadingsView {
            id: self.id,
            name: text_view(self.name),
            age: self.age,
            city: text_view(self.city),
            born: text_view(self.born),
            height: self.height,
            weight: self.weight,
        }
    }
}

/// An integer that was read fits the 32-bit field of a record.
pub open spec fn fits_field(n: i64) -> bool {
    i32::MIN <= n <= i32::MAX
}

impl ReadingsView {
    /// All seven fields were found and both integers fit their field.
    pub open spec fn complete(self) -> bool {
        &&& self.id matches Some(id) && fits_field(id)
        &&& self.name is Some
        &&& self.age matches Some(age) && fits_field(age)
        &&& self.city is Some
        &&& self.born is Some
        &&& self.height is Some
        &&& self.weight is Some
    }

    /// The record that complete readings make.
    pub open spec fn record(self) -> RecordView
        recommends
            self.complete(),
    {
        RecordView {
            id: self.id->0 as int,
            name: self.name->0,
            age: self.age->0 as int,
            city: self.city->0,
            born: self.born->0,
            height: self.height->0,
            weight: self.weight->0,
        }
    }
}

/// The member of `element` under `key`: `None` where `element` is no object
/// or has no such key.
pub open spec fn member(element: Json, key: Seq<char>) -> Option<Json> {
    match element {
        Json::Object(members) => if members.contains_key(key) {
            Some(members[key])
        } else {
            None
        },
        _ => None,
    }
}

/// The integer that `value` is, if it is one.
pub open spec fn as_integer(value: Json) -> Option<i64> {
    match value {
        Json::Number { integer, .. } => integer,
        _ => None,
    }
}

/// The text that `value` is, if it is a string.
pub open spec fn as_text(value: Json) -> Option<Seq<char>> {
    match value {
        Json::Text(s) => Some(s),
        _ => None,
    }
}

/// The measurement that `value` is, if it is a number.
pub open spec fn as_measure(value: Json) -> Option<Measure> {
    match value {
        Json::Number { bits, .. } => Some(Measure { bits }),
        _ => None,
    }
}

/// The integer field of `element` under `key`, if it has one.
pub open spec fn integer_field(element: Json, key: Seq<char>) -> Option<i64> {
    match member(element, key) {
        Some(found) => as_integer(found),
        None => None,
    }
}

/// The text field of `element` under `key`, if it has one.
pub open spec fn text_field(element: Json, key: Seq<char>) -> Option<Seq<char>> {
    match member(element, key) {
        Some(found) => as_text(found),
        None => None,
    }
}

/// The measurement field of `element` under `key`, if it has one.
pub open spec fn measure_field(element: Json, key: Seq<char>) -> Option<Measure> {
    match member(element, key) {
        Some(found) => as_measure(found),
        None => None,
    }
}

/// What `element` holds under the seven field names.
pub open spec fn readings_of(element: Json) -> ReadingsView {
    ReadingsView {
        id: integer_field(element, "id"@),
        name: text_field(element, "name"@),
        age: integer_field(element, "age"@),
        city: text_field(element, "city"@),
        born: text_field(element, "born"@),
        height: measure_field(element, "height"@),
        weight: measure_field(element, "weight"@),
    }
}

/// The records that the elements of an array decode to, in order: `None`
/// where one element falls short of a record.
pub open spec fn records_of_elements(items: Seq<Json>) -> Option<Seq<RecordView>> {
    if forall|i: int| 0 <= i < items.len() ==> readings_of(#[trigger] items[i]).complete() {
        Some(Seq::new(items.len(), |i: int| readings_of(items[i]).record()))
    } else {
        None
    }
}

/// The record collection that a document decodes to: `None` where it is no
/// array or one of its elements falls short of a record.
pub open spec fn records_of_document(document: Json) -> Option<Seq<RecordView>> {
    match document {
        Json::Array(items) => records_of_elements(items),
        _ => None,
    }
}

/// The record collection that a file's bytes decode to: `None` where they are
/// not one JSON document, or the document is not a record collection.
pub open spec fn records_of_bytes(bytes: Seq<u8>) -> Option<Seq<RecordView>> {
    match parsed(bytes) {
        Some(document) => records_of_document(document),
        None => None,
    }
}

/// The outcome of a load whose input decodes to `decoded`: the collection, or
/// a format failure.
pub open spec fn load_outcome(
    out: Result<Vec<Record>, BenchError>,
    decoded: Option<Seq<RecordView>>,
) -> bool {
    match out {
        Ok(records) => decoded == Some(views_of(records@)),
        Err(e) => e == BenchError::Format && decoded is None,
    }
}

/// An array without elements is a valid document: it decodes to the empty
/// collection.
pub proof fn empty_array_decodes()
    ensures
        records_of_document(Json::Array(Seq::empty())) == Some(Seq::<RecordView>::empty()),
{
    assert(records_of_elements(Seq::<Json>::empty())->0 =~= Seq::<RecordView>::empty());
}

/// A collection has as many records as the array has elements, the record at
/// each position made from the element at that position.
pub proof fn decoding_keeps_order(items: Seq<Json>)
    requires
        records_of_document(Json::Array(items)) is Some,
    ensures
        records_of_document(Json::Array(items))->0.len() == items.len(),
        forall|i: int|
            0 <= i < items.len() ==> readings_of(items[i]).complete()
                && #[trigger] records_of_document(Json::Array(items))->0[i] == readings_of(
                items[i],
            ).record(),
{
}

/// One element that falls short of a record fails the whole document, and
/// only an array of records is a collection.
pub proof fn decoding_is_all_or_nothing(document: Json)
    ensures
        records_of_document(document) is Some <==> document is Array && forall|i: int|
            0 <= i < document->Array_0.len() ==> readings_of(
                #[trigger] document->Array_0[i],
            ).complete(),
{
}

/// A member under a name that is none of the seven changes nothing: a record
/// with it decodes as the record without it.
pub proof fn other_fields_are_ignored(members: Map<Seq<char>, Json>, key: Seq<char>, value: Json)
    requires
        key != "id"@,
        key != "name"@,
        key != "age"@,
        key != "city"@,
        key != "born"@,
        key != "height"@,
        key != "weight"@,
    ensures
        readings_of(Json::Object(members.insert(key, value))) == readings_of(Json::Object(members)),
{
}

/// A record needs all seven fields: an object without a member under one of
/// the seven names is no record.
pub proof fn every_field_is_required(members: Map<Seq<char>, Json>)
    requires
        !members.contains_key("id"@) || !members.contains_key("name"@) || !members.contains_key(
            "age"@,
        ) || !members.contains_key("city"@) || !members.contains_key("born"@)
            || !members.contains_key("height"@) || !members.contains_key("weight"@),
    ensures
        !readings_of(Json::Object(members)).complete(),
{
}

impl Record {
    /// The record that the readings make, or `Format` where a field is
    /// missing or an integer does not fit its 32-bit field.
    pub fn from_readings(readings: Readings) -> (out: Result<Record, BenchError>)
        ensures
            match out {
                Ok(record) => readings@.complete() && record@ == readings@.record(),
                Err(e) => e == BenchError::Format && !readings@.complete(),
            },
    {
        let Readings { id, name, age, city, born, height, weight } = readings;
        match (id, name, age, city, born, height, weight) {
            (Some(id), Some(name), Some(age), Some(city), Some(born), Some(height), Some(weight)) => {
                if id < -0x8000_0000 || id > 0x7FFF_FFFF || age < -0x8000_0000 || age > 0x7FFF_FFFF {
                    Err(BenchError::Format)
                } else {
                    Ok(Record::new(id as i32, name, age as i32, city, born, height, weight))
                }
            },
            _ => Err(BenchError::Format),
        }
    }
}

/// Reads the integer field of `v` under `key`.
fn read_integer(v: &serde_json::Value, key: &str) -> (out: Option<i64>)
    ensures
        out == integer_field(contents(*v), key@),
{
    match value_member(v, key) {
        Some(found) => found.as_i64(),
        None => None,
    }
}

/// Reads the text field of `v` under `key`.
fn read_text(v: &serde_json::Value, key: &str) -> (out: Option<String>)
    ensures
        text_view(out) == text_field(contents(*v), key@),
{
    match value_member(v, key) {
        Some(found) => match found.as_str() {
            Some(s) => Some(s.to_owned()),
            None => None,
        },
        None => None,
    }
}

/// Reads the measurement field of `v` under `key`.
fn read_measure(v: &serde_json::Value, key: &str) -> (out: Option<Measure>)
    ensures
        out == measure_field(contents(*v), key@),
{
    match value_member(v, key) {
        Some(found) => match value_number_bits(found) {
            Some(bits) => Some(Measure { bits }),
            None => None,
        },
        None => None,
    }
}

/// Reads the seven fields of a record from a JSON value.
pub fn read_fields(v: &serde_json::Value) -> (out: Readings)
    ensures
        out@ == readings_of(contents(*v)),
{
    Readings {
        id: read_integer(v, "id"),
        name: read_text(v, "name"),
        age: read_integer(v, "age"),
        city: read_text(v, "city"),
        born: read_text(v, "born"),
        height: read_measure(v, "height"),
        weight: read_measure(v, "weight"),
    }
}

/// Decodes a parsed document into the record collection, in document order.
/// Fails with `Format` where the document is no array, or an element lacks
/// one of the seven fields or holds a value of the wrong type in one.
pub fn decode_records(document: &serde_json::Value) -> (out: Result<Vec<Record>, BenchError>)
    ensures
        load_outcome(out, records_of_document(contents(*document))),
{
    let found = match document.as_array() {
        Some(found) => found,
        None => {
            return Err(BenchError::Format);
        },
    };
    let ghost items = contents(*document)->Array_0;
    let mut records: Vec<Record> = Vec::new();
    let mut i: usize = 0;
    while i < found.len()
        invariant
            i <= found.len(),
            contents(*document) == Json::Array(items),
            found@.len() == items.len(),
            forall|k: int| 0 <= k < items.len() ==> contents(#[trigger] found@[k]) == items[k],
            records@.len() == i,
            forall|k: int| 0 <= k < i ==> readings_of(#[trigger] items[k]).complete(),
            forall|k: int| 0 <= k < i ==> (#[trigger] records@[k])@ == readings_of(items[k]).record(),
        decreases found.len() - i,
    {
        match Record::from_readings(read_fields(&found[i])) {
            Ok(record) => {
                records.push(record);
            },
            Err(e) => {
                proof {
                    assert(!readings_of(items[i as int]).complete());
                }
                return Err(e);
            },
        }
        i = i + 1;
    }
    proof {
        assert(views_of(records@) =~= records_of_elements(items)->0);
    }
    Ok(records)
}

/// Loads the record collection from the bytes of a file. An empty array is a
/// valid file and gives an empty collection. Fails with `Format` where the
/// bytes are not one JSON document, or the document is not a record
/// collection.
pub fn parse_records(bytes: &[u8]) -> (out: Result<Vec<Record>, BenchError>)
    ensures
        load_outcome(out, records_of_bytes(bytes@)),
{
    match parse_value(bytes) {
        Ok(document) => decode_records(&document),
        Err(_) => Err(BenchError::Format),
    }
}

} // verus!
