//! The record, and the projections over a record collection that the passes
//! are stated in.

use vstd::prelude::*;

verus! {

/// A measurement held as the bit pattern of an IEEE 754 binary64 number.
///
/// The library orders and selects measurements and does no arithmetic on them
/// itself, so it keeps the 64 bits and reads sign, magnitude and order from
/// them (see the `measures` module). A caller converts with `f64::to_bits`
/// and `f64::from_bits`.
#[derive(Clone, Copy, Debug, PartialEq, Eq, Structural)]
pub struct Measure {
    pub bits: u64,
}

/// One data row. All seven fields are present in every record; `born` is
/// opaque text and is never read as a date. A record does not change once it
/// is made: its fields are read through the methods of their names.
#[derive(Debug)]
pub struct Record {
    id: i32,
    name: String,
    age: i32,
    city: String,
    born: String,
    height: Measure,
    weight: Measure,
}

/// The mathematical value of a [`Record`].
pub ghost struct RecordView {
    pub id: int,
    pub name: Seq<char>,
    pub age: int,
    pub city: Seq<char>,
    pub born: Seq<char>,
    pub height: Measure,
    pub weight: Measure,
}

impl View for Record {
    type V = RecordView;

    closed spec fn view(&self) -> RecordView {
        RecordView {
            id: self.id as int,
            name: self.name@,
            age: self.age as int,
            city: self.city@,
            born: self.born@,
            height: self.height,
            weight: self.weight,
        }
    }
}

impl Record {
    /// A record with the given seven fields.
    pub fn new(
        id: i32,
        name: String,
        age: i32,
        city: String,
        born: String,
        height: Measure,
        weight: Measure,
    ) -> (out: Record)
        ensures
            out@ == (RecordView {
                id: id as int,
                name: name@,
                age: age as int,
                city: city@,
                born: born@,
                height,
                weight,
            }),
    {
        Record { id, name, age, city, born, height, weight }
    }

    /// Identifier and age of every record lie within the 32-bit signed range.
    pub proof fn integers_fit(self)
        ensures
            i32::MIN <= self@.id <= i32::MAX,
            i32::MIN <= self@.age <= i32::MAX,
    {
    }

    /// The identifier.
    pub fn id(&self) -> (out: i32)
        ensures
            out == self@.id,
    {
        self.id
    }

    /// The name.
    pub fn name(&self) -> (out: &str)
        ensures
            out@ == self@.name,
    {
        self.name.as_str()
    }

    /// The age.
    pub fn age(&self) -> (out: i32)
        ensures
            out == self@.age,
    {
        self.age
    }

    /// The city.
    pub fn city(&self) -> (out: &str)
        ensures
            out@ == self@.city,
    {
        self.city.as_str()
    }

    /// The date or label of birth, as the text it was given as.
    pub fn born(&self) -> (out: &str)
        ensures
            out@ == self@.born,
    {
        self.born.as_str()
    }

    /// The height.
    pub fn height(&self) -> (out: Measure)
        ensures
            out == self@.height,
    {
        self.height
    }

    /// The weight.
    pub fn weight(&self) -> (out: Measure)
        ensures
            out == self@.weight,
    {
        self.weight
    }
}

/// The views of the records of a collection, in collection order.
pub open spec fn views_of(records: Seq<Record>) -> Seq<RecordView> {
    Seq::new(records.len(), |i: int| records[i]@)
}

/// The names of a collection, in collection order.
pub open spec fn names_of(records: Seq<Record>) -> Seq<Seq<char>> {
    Seq::new(records.len(), |i: int| records[i]@.name)
}

/// The cities of a collection, in collection order.
pub open spec fn cities_of(records: Seq<Record>) -> Seq<Seq<char>> {
    Seq::new(records.len(), |i: int| records[i]@.city)
}

/// The ages of a collection, in collection order.
pub open spec fn ages_of(records: Seq<Record>) -> Seq<int> {
    Seq::new(records.len(), |i: int| records[i]@.age)
}

/// The heights of a collection, in collection order.
pub open spec fn heights_of(records: Seq<Record>) -> Seq<Measure> {
    Seq::new(records.len(), |i: int| records[i]@.height)
}

/// The weights of a collection, in collection order.
pub open spec fn weights_of(records: Seq<Record>) -> Seq<Measure> {
    Seq::new(records.len(), |i: int| records[i]@.weight)
}

} // verus!
