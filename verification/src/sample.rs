//! A small generated-style schema used to exercise the runtime model: a
//! record with scalar fields, a tagged-choice field, and a variable-length
//! list of child records.
//!
//! The shapes mirror what the pipeline produces for such a schema once the
//! headers are patched: every tagged choice is a plain aggregate holding all
//! alternatives next to a discriminant, and every aggregate embeds the base
//! context with the injected ownership field.

use vstd::prelude::*;

use crate::codec::Context;
use crate::codec::OCTET_STRING;

verus! {

/// The discriminant of the food choice.
#[derive(Clone, Copy, Debug, Default, PartialEq, Eq, Structural)]
pub enum Food_PR {
    /// No alternative present.
    #[default]
    NOTHING,
    wet,
    dry,
}

/// The breed enumeration.
#[derive(Clone, Copy, Debug, PartialEq, Eq, Structural)]
pub enum Breed {
    mongrel,
    labrador,
    retriever,
}

/// The wet-food alternative.
#[derive(Clone, Debug, Default, PartialEq, Eq)]
pub struct Food_wet {
    pub brand: OCTET_STRING,
    pub moisturePercentage: i64,
    pub priceKg: i64,
}

/// The dry-food alternative.
#[derive(Clone, Debug, Default, PartialEq, Eq)]
pub struct Food_dry {
    pub brand: OCTET_STRING,
    pub mineralsPercentage: i64,
    pub priceKg: i64,
}

/// The alternatives of the food choice, all present as plain fields: the
/// union-to-struct rewrite trades space for safe field access, and the
/// discriminant says which field is meaningful.
#[derive(Clone, Debug, Default, PartialEq, Eq)]
pub struct Food_choice {
    pub wet: Food_wet,
    pub dry: Food_dry,
}

/// A tagged choice: a discriminant next to the rewritten union.
#[derive(Clone, Debug, Default, PartialEq, Eq)]
pub struct Food {
    pub present: Food_PR,
    pub choice: Food_choice,
}

/// One history record.
#[derive(Clone, Debug, Default, PartialEq, Eq)]
pub struct Record {
    pub description: OCTET_STRING,
    pub date: OCTET_STRING,
}

/// The variable-length list of records, with the stored element count and
/// allocated capacity the generated layout carries.
#[derive(Clone, Debug, Default, PartialEq, Eq)]
pub struct Record_list {
    pub array: Vec<Record>,
    pub count: i32,
    pub size: i32,
}

/// The list member as the generated layout wraps it.
#[derive(Clone, Debug, Default, PartialEq, Eq)]
pub struct Dog_records {
    pub list: Record_list,
}

/// The top-level record of the sample schema.
#[derive(Clone, Debug, Default, PartialEq, Eq)]
pub struct Dog {
    pub _asn_ctx: Context,
    pub name: OCTET_STRING,
    pub canSwim: i32,
    pub age: i64,
    pub breed: i64,
    pub favouriteFood: Food,
    pub records: Dog_records,
}

/// Observable equality of octet strings: same bytes, same stored size.
pub open spec fn octets_like(a: OCTET_STRING, b: OCTET_STRING) -> bool {
    a.buf@ == b.buf@ && a.size == b.size
}

/// Observable equality of records.
pub open spec fn record_like(a: Record, b: Record) -> bool {
    octets_like(a.description, b.description) && octets_like(a.date, b.date)
}

/// Observable equality of food choices: same discriminant, same fields of
/// every alternative.
pub open spec fn food_like(a: Food, b: Food) -> bool {
    &&& a.present == b.present
    &&& octets_like(a.choice.wet.brand, b.choice.wet.brand)
    &&& a.choice.wet.moisturePercentage == b.choice.wet.moisturePercentage
    &&& a.choice.wet.priceKg == b.choice.wet.priceKg
    &&& octets_like(a.choice.dry.brand, b.choice.dry.brand)
    &&& a.choice.dry.mineralsPercentage == b.choice.dry.mineralsPercentage
    &&& a.choice.dry.priceKg == b.choice.dry.priceKg
}

/// Observable equality of the record lists: same counts and the same
/// records, element by element.
pub open spec fn records_like(a: Dog_records, b: Dog_records) -> bool {
    &&& a.list.count == b.list.count
    &&& a.list.size == b.list.size
    &&& a.list.array@.len() == b.list.array@.len()
    &&& forall|i: int|
        0 <= i < a.list.array@.len() ==> record_like(
            #[trigger] a.list.array@[i],
            b.list.array@[i],
        )
}

/// Observable equality of the whole record: every scalar, discriminant,
/// octet-string and list field agrees.
pub open spec fn dog_like(a: Dog, b: Dog) -> bool {
    &&& a._asn_ctx == b._asn_ctx
    &&& octets_like(a.name, b.name)
    &&& a.canSwim == b.canSwim
    &&& a.age == b.age
    &&& a.breed == b.breed
    &&& food_like(a.favouriteFood, b.favouriteFood)
    &&& records_like(a.records, b.records)
}

impl Record {
    /// A deep, independent copy.
    pub fn duplicate(&self) -> (r: Self)
        ensures
            record_like(r, *self),
    {
        Record { description: self.description.duplicate(), date: self.date.duplicate() }
    }
}

impl Food {
    /// A deep, independent copy.
    pub fn duplicate(&self) -> (r: Self)
        ensures
            food_like(r, *self),
    {
        Food {
            present: self.present,
            choice: Food_choice {
                wet: Food_wet {
                    brand: self.choice.wet.brand.duplicate(),
                    moisturePercentage: self.choice.wet.moisturePercentage,
                    priceKg: self.choice.wet.priceKg,
                },
                dry: Food_dry {
                    brand: self.choice.dry.brand.duplicate(),
                    mineralsPercentage: self.choice.dry.mineralsPercentage,
                    priceKg: self.choice.dry.priceKg,
                },
            },
        }
    }
}

impl Dog_records {
    /// A deep, independent copy of the list and its stored counts.
    pub fn duplicate(&self) -> (r: Self)
        ensures
            records_like(r, *self),
    {
        let mut array: Vec<Record> = Vec::new();
        let mut i: usize = 0;
        while i < self.list.array.len()
            invariant
                i <= self.list.array@.len(),
                array@.len() == i as int,
                forall|j: int|
                    0 <= j < i ==> record_like(#[trigger] array@[j], self.list.array@[j]),
            decreases self.list.array@.len() - i,
        {
            let rec = self.list.array[i].duplicate();
            array.push(rec);
            i += 1;
        }
        Dog_records {
            list: Record_list { array, count: self.list.count, size: self.list.size },
        }
    }
}

impl Dog {
    /// Duplication: the result is an owned value, independent of the
    /// original by construction, that agrees with it on every scalar,
    /// discriminant, octet-string and list field. The generated bindings
    /// obtain the same copy by round-tripping through the canonical
    /// encoding, because their members are raw pointers; here every member
    /// is an owned value, so a structural deep copy yields the same
    /// observable result without the intermediate buffer.
    pub fn duplicate(&self) -> (r: Self)
        ensures
            dog_like(r, *self),
    {
        Dog {
            _asn_ctx: self._asn_ctx,
            name: self.name.duplicate(),
            canSwim: self.canSwim,
            age: self.age,
            breed: self.breed,
            favouriteFood: self.favouriteFood.duplicate(),
            records: self.records.duplicate(),
        }
    }
}

} // verus!
