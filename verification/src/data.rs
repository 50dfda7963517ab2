//! The document model: the decoded form of the data being validated, and
//! its mathematical image.

use vstd::prelude::*;

use crate::decimal::{DecV, DecValue};

verus! {

/// One decoded document value: the canonical in-memory form of the data that
/// is being validated.  Objects keep their fields in the order in which the
/// document listed them.
#[derive(Debug, PartialEq)]
pub enum AS3Data {
    Object(Vec<(String, AS3Data)>),
    String(String),
    Boolean(bool),
    Integer(i64),
    Decimal(DecValue),
    List(Vec<AS3Data>),
    Null,
}

/// The mathematical image of an [`AS3Data`] tree.
pub enum DataV {
    Object(Seq<(Seq<char>, DataV)>),
    String(Seq<char>),
    Boolean(bool),
    Integer(i64),
    Decimal(DecV),
    List(Seq<DataV>),
    Null,
}

impl AS3Data {
    pub open spec fn model(self) -> DataV
        decreases self
        via Self::model_decreases
    {
        match self {
            AS3Data::Object(fields) => DataV::Object(model_fields(fields@)),
            AS3Data::String(s) => DataV::String(s@),
            AS3Data::Boolean(b) => DataV::Boolean(b),
            AS3Data::Integer(n) => DataV::Integer(n),
            AS3Data::Decimal(d) => DataV::Decimal(d@),
            AS3Data::List(items) => DataV::List(model_items(items@)),
            AS3Data::Null => DataV::Null,
        }
    }

    #[via_fn]
    proof fn model_decreases(self) {
        match self {
            AS3Data::Object(fields) => {
                assert(decreases_to!(fields => fields@));
            },
            AS3Data::List(items) => {
                assert(decreases_to!(items => items@));
            },
            _ => {},
        }
    }
}

/// The images of a field list, names viewed as character sequences.
pub open spec fn model_fields(fields: Seq<(String, AS3Data)>) -> Seq<(Seq<char>, DataV)>
    decreases fields
    via model_fields_decreases
{
    if fields.len() == 0 {
        Seq::empty()
    } else {
        seq![(fields[0].0@, fields[0].1.model())] + model_fields(fields.drop_first())
    }
}

#[via_fn]
proof fn model_fields_decreases(fields: Seq<(String, AS3Data)>) {
    if fields.len() > 0 {
        assert(decreases_to!(fields => fields[0]));
        assert(fields.drop_first() =~= fields.subrange(1, fields.len() as int));
        assert(decreases_to!(fields => fields.subrange(1, fields.len() as int)));
    }
}

/// The images of a list of elements.
pub open spec fn model_items(items: Seq<AS3Data>) -> Seq<DataV>
    decreases items
    via model_items_decreases
{
    if items.len() == 0 {
        Seq::empty()
    } else {
        seq![items[0].model()] + model_items(items.drop_first())
    }
}

#[via_fn]
proof fn model_items_decreases(items: Seq<AS3Data>) {
    if items.len() > 0 {
        assert(decreases_to!(items => items[0]));
        assert(items.drop_first() =~= items.subrange(1, items.len() as int));
        assert(decreases_to!(items => items.subrange(1, items.len() as int)));
    }
}

impl View for AS3Data {
    type V = DataV;

    open spec fn view(&self) -> DataV {
        self.model()
    }
}

/// `model_fields` maps the field list pointwise.
pub proof fn lemma_model_fields(fields: Seq<(String, AS3Data)>)
    ensures
        model_fields(fields).len() == fields.len(),
        forall|i: int|
            0 <= i < fields.len() ==> model_fields(fields)[i] == (
                fields[i].0@,
                fields[i].1.model(),
            ),
    decreases fields.len(),
{
    if fields.len() > 0 {
        lemma_model_fields(fields.drop_first());
    }
}

/// `model_items` maps the element list pointwise.
pub proof fn lemma_model_items(items: Seq<AS3Data>)
    ensures
        model_items(items).len() == items.len(),
        forall|i: int| 0 <= i < items.len() ==> model_items(items)[i] == items[i].model(),
    decreases items.len(),
{
    if items.len() > 0 {
        lemma_model_items(items.drop_first());
    }
}

/// A deep copy of a field list, with the same image.
fn duplicate_fields(fields: &Vec<(String, AS3Data)>) -> (r: Vec<(String, AS3Data)>)
    ensures
        model_fields(r@) == model_fields(fields@),
    decreases fields,
{
    let mut out: Vec<(String, AS3Data)> = Vec::new();
    let mut i: usize = 0;
    proof {
        lemma_model_fields(fields@);
    }
    while i < fields.len()
        invariant
            0 <= i <= fields.len(),
            out@.len() == i,
            forall|j: int|
                #![all_triggers]
                0 <= j < i ==> out@[j].0@ == fields@[j].0@ && out@[j].1.model()
                    == fields@[j].1.model(),
        decreases fields@.len() - i,
    {
        proof {
            assert(decreases_to!((*fields) => (*fields)[i as int]));
        }
        let name = fields[i].0.clone();
        let value = fields[i].1.duplicate();
        out.push((name, value));
        i += 1;
    }
    proof {
        lemma_model_fields(out@);
        assert(model_fields(out@) =~= model_fields(fields@));
    }
    out
}

/// A deep copy of an element list, with the same image.
fn duplicate_items(items: &Vec<AS3Data>) -> (r: Vec<AS3Data>)
    ensures
        model_items(r@) == model_items(items@),
    decreases items,
{
    let mut out: Vec<AS3Data> = Vec::new();
    let mut i: usize = 0;
    proof {
        lemma_model_items(items@);
    }
    while i < items.len()
        invariant
            0 <= i <= items.len(),
            out@.len() == i,
            forall|j: int| #![all_triggers] 0 <= j < i ==> out@[j].model() == items@[j].model(),
        decreases items@.len() - i,
    {
        proof {
            assert(decreases_to!((*items) => (*items)[i as int]));
        }
        let value = items[i].duplicate();
        out.push(value);
        i += 1;
    }
    proof {
        lemma_model_items(out@);
        assert(model_items(out@) =~= model_items(items@));
    }
    out
}

impl AS3Data {
    /// A deep copy whose image equals this tree's image.
    pub fn duplicate(&self) -> (r: AS3Data)
        ensures
            r@ == self@,
        decreases self,
    {
        match self {
            AS3Data::Object(fields) => AS3Data::Object(duplicate_fields(fields)),
            AS3Data::String(s) => AS3Data::String(s.clone()),
            AS3Data::Boolean(b) => AS3Data::Boolean(*b),
            AS3Data::Integer(n) => AS3Data::Integer(*n),
            AS3Data::Decimal(d) => AS3Data::Decimal(
                DecValue { key: d.key, text: d.text.clone() },
            ),
            AS3Data::List(items) => AS3Data::List(duplicate_items(items)),
            AS3Data::Null => AS3Data::Null,
        }
    }
}

/// The value under the first binding of `key` among `fields`, if any.
pub open spec fn lookup_spec(fields: Seq<(Seq<char>, DataV)>, key: Seq<char>) -> Option<DataV>
    decreases fields.len(),
{
    if fields.len() == 0 {
        None
    } else if fields[0].0 == key {
        Some(fields[0].1)
    } else {
        lookup_spec(fields.drop_first(), key)
    }
}

/// Looks a field up by name, returning a borrow of its value.
pub fn lookup<'a>(fields: &'a Vec<(String, AS3Data)>, key: &String) -> (r: Option<&'a AS3Data>)
    ensures
        match r {
            Some(v) => lookup_spec(model_fields(fields@), key@) == Some(v@),
            None => lookup_spec(model_fields(fields@), key@) is None,
        },
{
    proof {
        lemma_model_fields(fields@);
    }
    let ghost m = model_fields(fields@);
    let mut i: usize = 0;
    assert(m.skip(0) =~= m);
    while i < fields.len()
        invariant
            0 <= i <= fields.len(),
            m == model_fields(fields@),
            m.len() == fields@.len(),
            forall|j: int| 0 <= j < fields@.len() ==> m[j] == (fields@[j].0@, fields@[j].1.model()),
            lookup_spec(m, key@) == lookup_spec(m.skip(i as int), key@),
        decreases fields@.len() - i,
    {
        assert(m.skip(i as int)[0] == m[i as int]);
        if fields[i].0 == *key {
            return Some(&fields[i].1);
        }
        assert(m.skip(i as int).drop_first() =~= m.skip(i + 1));
        i += 1;
    }
    None
}

} // verus!
