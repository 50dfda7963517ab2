//! The validator model: one compiled schema node, and its mathematical
//! image.

use vstd::prelude::*;

use crate::decimal::{DecV, DecValue};

verus! {

/// One compiled schema node.  A validator tree is built once by the schema
/// compiler and then only read during validation.
#[derive(Debug, PartialEq)]
pub enum AS3Validator {
    /// Required fields, in the order the schema declared them.
    Object(Vec<(String, AS3Validator)>),
    String { regex: Option<String>, max_length: Option<i64>, min_length: Option<i64> },
    Integer { minimum: Option<i64>, maximum: Option<i64> },
    Decimal { minimum: Option<DecValue>, maximum: Option<DecValue> },
    List(Box<AS3Validator>),
    /// The keyed-container schema type (spelled `Map` in the schema text).
    Dict { key_type: Box<AS3Validator>, value_type: Box<AS3Validator> },
    Boolean,
    Date,
    Nullable(Box<AS3Validator>),
}

/// The mathematical image of an [`AS3Validator`] tree.
pub enum NodeV {
    Object(Seq<(Seq<char>, NodeV)>),
    String { regex: Option<Seq<char>>, max_length: Option<i64>, min_length: Option<i64> },
    Integer { minimum: Option<i64>, maximum: Option<i64> },
    Decimal { minimum: Option<DecV>, maximum: Option<DecV> },
    List(Box<NodeV>),
    Dict { key_type: Box<NodeV>, value_type: Box<NodeV> },
    Boolean,
    Date,
    Nullable(Box<NodeV>),
}

pub open spec fn view_opt_string(s: Option<String>) -> Option<Seq<char>> {
    match s {
        Some(r) => Some(r@),
        None => None,
    }
}

pub open spec fn view_opt_dec(d: Option<DecValue>) -> Option<DecV> {
    match d {
        Some(v) => Some(v@),
        None => None,
    }
}

impl AS3Validator {
    pub open spec fn model(self) -> NodeV
        decreases self
        via Self::model_decreases
    {
        match self {
            AS3Validator::Object(fields) => NodeV::Object(model_vfields(fields@)),
            AS3Validator::String { regex, max_length, min_length } => NodeV::String {
                regex: view_opt_string(regex),
                max_length,
                min_length,
            },
            AS3Validator::Integer { minimum, maximum } => NodeV::Integer { minimum, maximum },
            AS3Validator::Decimal { minimum, maximum } => NodeV::Decimal {
                minimum: view_opt_dec(minimum),
                maximum: view_opt_dec(maximum),
            },
            AS3Validator::List(elem) => NodeV::List(Box::new(elem.model())),
            AS3Validator::Dict { key_type, value_type } => NodeV::Dict {
                key_type: Box::new(key_type.model()),
                value_type: Box::new(value_type.model()),
            },
            AS3Validator::Boolean => NodeV::Boolean,
            AS3Validator::Date => NodeV::Date,
            AS3Validator::Nullable(inner) => NodeV::Nullable(Box::new(inner.model())),
        }
    }

    #[via_fn]
    proof fn model_decreases(self) {
        if let AS3Validator::Object(fields) = self {
            assert(decreases_to!(fields => fields@));
        }
    }
}

/// The images of a schema field list, names viewed as character sequences.
pub open spec fn model_vfields(fields: Seq<(String, AS3Validator)>) -> Seq<(Seq<char>, NodeV)>
    decreases fields
    via model_vfields_decreases
{
    if fields.len() == 0 {
        Seq::empty()
    } else {
        seq![(fields[0].0@, fields[0].1.model())] + model_vfields(fields.drop_first())
    }
}

#[via_fn]
proof fn model_vfields_decreases(fields: Seq<(String, AS3Validator)>) {
    if fields.len() > 0 {
        assert(decreases_to!(fields => fields[0]));
        assert(fields.drop_first() =~= fields.subrange(1, fields.len() as int));
        assert(decreases_to!(fields => fields.subrange(1, fields.len() as int)));
    }
}

impl View for AS3Validator {
    type V = NodeV;

    open spec fn view(&self) -> NodeV {
        self.model()
    }
}

/// `model_vfields` maps the schema field list pointwise.
pub proof fn lemma_model_vfields(fields: Seq<(String, AS3Validator)>)
    ensures
        model_vfields(fields).len() == fields.len(),
        forall|i: int|
            0 <= i < fields.len() ==> model_vfields(fields)[i] == (
                fields[i].0@,
                fields[i].1.model(),
            ),
    decreases fields.len(),
{
    if fields.len() > 0 {
        lemma_model_vfields(fields.drop_first());
    }
}

fn duplicate_opt_string(s: &Option<String>) -> (r: Option<String>)
    ensures
        view_opt_string(r) == view_opt_string(*s),
        r is Some <==> *s is Some,
{
    match s {
        Some(v) => Some(v.clone()),
        None => None,
    }
}

fn duplicate_opt_dec(d: &Option<DecValue>) -> (r: Option<DecValue>)
    ensures
        view_opt_dec(r) == view_opt_dec(*d),
{
    match d {
        Some(v) => Some(DecValue { key: v.key, text: v.text.clone() }),
        None => None,
    }
}

/// A deep copy of a schema field list, with the same image.
fn duplicate_vfields(fields: &Vec<(String, AS3Validator)>) -> (r: Vec<(String, AS3Validator)>)
    ensures
        model_vfields(r@) == model_vfields(fields@),
    decreases fields,
{
    let mut out: Vec<(String, AS3Validator)> = Vec::new();
    let mut i: usize = 0;
    proof {
        lemma_model_vfields(fields@);
    }
    while i < fields.len()
        invariant
            0 <= i <= fields.len(),
            out@.len() == i,
            forall|j: int|
                #![all_triggers]
                0 <= j < i ==> out@[j].0@ == fields@[j].0@ && out@[j].1.model()
                    == fields@[j].1.model(),
        decreases fields@.len() - i,
    {
        proof {
            assert(decreases_to!((*fields) => (*fields)[i as int]));
        }
        let name = fields[i].0.clone();
        let node = fields[i].1.duplicate();
        out.push((name, node));
        i += 1;
    }
    proof {
        lemma_model_vfields(out@);
        assert(model_vfields(out@) =~= model_vfields(fields@));
    }
    out
}

impl AS3Validator {
    /// A deep copy whose image equals this tree's image.
    pub fn duplicate(&self) -> (r: AS3Validator)
        ensures
            r@ == self@,
        decreases self,
    {
        match self {
            AS3Validator::Object(fields) => AS3Validator::Object(duplicate_vfields(fields)),
            AS3Validator::String { regex, max_length, min_length } => AS3Validator::String {
                regex: duplicate_opt_string(regex),
                max_length: *max_length,
                min_length: *min_length,
            },
            AS3Validator::Integer { minimum, maximum } => AS3Validator::Integer {
                minimum: *minimum,
                maximum: *maximum,
            },
            AS3Validator::Decimal { minimum, maximum } => AS3Validator::Decimal {
                minimum: duplicate_opt_dec(minimum),
                maximum: duplicate_opt_dec(maximum),
            },
            AS3Validator::List(elem) => AS3Validator::List(Box::new(elem.duplicate())),
            AS3Validator::Dict { key_type, value_type } => AS3Validator::Dict {
                key_type: Box::new(key_type.duplicate()),
                value_type: Box::new(value_type.duplicate()),
            },
            AS3Validator::Boolean => AS3Validator::Boolean,
            AS3Validator::Date => AS3Validator::Date,
            AS3Validator::Nullable(inner) => AS3Validator::Nullable(Box::new(inner.duplicate())),
        }
    }
}

} // verus!
