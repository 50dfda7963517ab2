//! The schema-definition tree handed to the compiler, and its mathematical
//! image.

use vstd::prelude::*;

use crate::decimal::{DecV, DecValue};
use crate::validator::{view_opt_dec, view_opt_string};

verus! {

/// A number as it appears in a schema definition: the two standard projections
/// of a YAML number, computed at the boundary.  `as_int` is present exactly
/// when the number was written as an integer; `as_dec` carries its value as a
/// decimal surrogate.
#[derive(Debug, PartialEq)]
pub struct SchemaNum {
    pub as_int: Option<i64>,
    pub as_dec: Option<DecValue>,
}

/// The mathematical image of a [`SchemaNum`].
pub struct NumV {
    pub as_int: Option<i64>,
    pub as_dec: Option<DecV>,
}

impl View for SchemaNum {
    type V = NumV;

    open spec fn view(&self) -> NumV {
        NumV { as_int: self.as_int, as_dec: view_opt_dec(self.as_dec) }
    }
}

/// A schema definition tree, as handed to the compiler: the library's own form
/// of a parsed YAML document.  Mappings keep their entries in document order.
#[derive(Debug, PartialEq)]
pub enum SchemaValue {
    Mapping(Vec<(String, SchemaValue)>),
    String(String),
    Number(SchemaNum),
    Bool(bool),
    Sequence(Vec<SchemaValue>),
    Null,
}

/// The mathematical image of a [`SchemaValue`] tree.
pub enum YamlV {
    Mapping(Seq<(Seq<char>, YamlV)>),
    String(Seq<char>),
    Number(NumV),
    Bool(bool),
    Sequence(Seq<YamlV>),
    Null,
}

impl SchemaValue {
    pub open spec fn model(self) -> YamlV
        decreases self
        via Self::model_decreases
    {
        match self {
            SchemaValue::Mapping(entries) => YamlV::Mapping(model_entries(entries@)),
            SchemaValue::String(s) => YamlV::String(s@),
            SchemaValue::Number(n) => YamlV::Number(n@),
            SchemaValue::Bool(b) => YamlV::Bool(b),
            SchemaValue::Sequence(items) => YamlV::Sequence(model_elems(items@)),
            SchemaValue::Null => YamlV::Null,
        }
    }

    #[via_fn]
    proof fn model_decreases(self) {
        match self {
            SchemaValue::Mapping(entries) => {
                assert(decreases_to!(entries => entries@));
            },
            SchemaValue::Sequence(items) => {
                assert(decreases_to!(items => items@));
            },
            _ => {},
        }
    }
}

/// The images of a mapping's entry list, keys viewed as character sequences.
pub open spec fn model_entries(entries: Seq<(String, SchemaValue)>) -> Seq<(Seq<char>, YamlV)>
    decreases entries
    via model_entries_decreases
{
    if entries.len() == 0 {
        Seq::empty()
    } else {
        seq![(entries[0].0@, entries[0].1.model())] + model_entries(entries.drop_first())
    }
}

#[via_fn]
proof fn model_entries_decreases(entries: Seq<(String, SchemaValue)>) {
    if entries.len() > 0 {
        assert(decreases_to!(entries => entries[0]));
        assert(entries.drop_first() =~= entries.subrange(1, entries.len() as int));
        assert(decreases_to!(entries => entries.subrange(1, entries.len() as int)));
    }
}

/// The images of a sequence's elements.
pub open spec fn model_elems(items: Seq<SchemaValue>) -> Seq<YamlV>
    decreases items
    via model_elems_decreases
{
    if items.len() == 0 {
        Seq::empty()
    } else {
        seq![items[0].model()] + model_elems(items.drop_first())
    }
}

#[via_fn]
proof fn model_elems_decreases(items: Seq<SchemaValue>) {
    if items.len() > 0 {
        assert(decreases_to!(items => items[0]));
        assert(items.drop_first() =~= items.subrange(1, items.len() as int));
        assert(decreases_to!(items => items.subrange(1, items.len() as int)));
    }
}

impl View for SchemaValue {
    type V = YamlV;

    open spec fn view(&self) -> YamlV {
        self.model()
    }
}

/// `model_entries` maps the entry list pointwise.
pub proof fn lemma_model_entries(entries: Seq<(String, SchemaValue)>)
    ensures
        model_entries(entries).len() == entries.len(),
        forall|i: int|
            0 <= i < entries.len() ==> model_entries(entries)[i] == (
                entries[i].0@,
                entries[i].1.model(),
            ),
    decreases entries.len(),
{
    if entries.len() > 0 {
        lemma_model_entries(entries.drop_first());
    }
}

/// The value under the first binding of `key` in a mapping, if any.
pub open spec fn mapping_get_spec(entries: Seq<(Seq<char>, YamlV)>, key: Seq<char>) -> Option<
    YamlV,
>
    decreases entries.len(),
{
    if entries.len() == 0 {
        None
    } else if entries[0].0 == key {
        Some(entries[0].1)
    } else {
        mapping_get_spec(entries.drop_first(), key)
    }
}

/// Looks a mapping entry up by key, returning a borrow of its value.
pub fn mapping_get<'a>(entries: &'a Vec<(String, SchemaValue)>, key: &str) -> (r: Option<
    &'a SchemaValue,
>)
    ensures
        match r {
            Some(v) => mapping_get_spec(model_entries(entries@), key@) == Some(v@),
            None => mapping_get_spec(model_entries(entries@), key@) is None,
        },
{
    proof {
        lemma_model_entries(entries@);
    }
    let ghost m = model_entries(entries@);
    let mut i: usize = 0;
    assert(m.skip(0) =~= m);
    while i < entries.len()
        invariant
            0 <= i <= entries.len(),
            m == model_entries(entries@),
            m.len() == entries@.len(),
            forall|j: int|
                0 <= j < entries@.len() ==> m[j] == (entries@[j].0@, entries@[j].1.model()),
            mapping_get_spec(m, key@) == mapping_get_spec(m.skip(i as int), key@),
        decreases entries@.len() - i,
    {
        assert(m.skip(i as int)[0] == m[i as int]);
        if crate::text::str_eq(entries[i].0.as_str(), key) {
            return Some(&entries[i].1);
        }
        assert(m.skip(i as int).drop_first() =~= m.skip(i + 1));
        i += 1;
    }
    None
}

/// True when the mapping has an entry under `key`.
pub fn mapping_has(entries: &Vec<(String, SchemaValue)>, key: &str) -> (r: bool)
    ensures
        r == (mapping_get_spec(model_entries(entries@), key@) is Some),
{
    mapping_get(entries, key).is_some()
}

} // verus!
