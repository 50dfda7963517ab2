//! The failure taxonomy, the breadcrumb-path wrapper around it, and how
//! each failure renders as a message.

use vstd::prelude::*;

use crate::data::{AS3Data, DataV};
use crate::decimal::{DecV, DecValue};
use crate::text::{dec_digits, int_digits, i64_to_string, u64_to_string};
use crate::validator::{AS3Validator, NodeV};

verus! {

/// A numeric error payload: the offending number and the bound it violated,
/// kept in the width they had in the document or the schema.
#[derive(Debug, PartialEq)]
pub enum Number {
    Integer(i64),
    Decimal(DecValue),
}

/// The mathematical image of a [`Number`].
pub enum NumberV {
    Integer(i64),
    Decimal(DecV),
}

impl View for Number {
    type V = NumberV;

    open spec fn view(&self) -> NumberV {
        match self {
            Number::Integer(n) => NumberV::Integer(*n),
            Number::Decimal(d) => NumberV::Decimal(d@),
        }
    }
}

/// One validation failure, with the data it concerns.
#[derive(Debug, PartialEq)]
pub enum AS3ValidationError {
    /// The data's kind does not match the schema node's kind.
    TypeError { expected: AS3Validator, got: AS3Data },
    /// A field the schema requires is absent.
    MissingKey { key: String },
    /// A string failed its pattern.
    RegexError { word: String, regex: String },
    /// A number fell below the schema's `minimum`.
    Minimum { number: Number, minimum: Number },
    /// A number exceeded the schema's `maximum`.
    Maximum { number: Number, maximum: Number },
    /// A date-format or map-key-coercion failure, carried as a message.
    Generic(String),
    /// A string is longer than the schema allows.
    MaximumString { string: String, current_length: u64, max_length: i64 },
    /// A string is shorter than the schema demands.
    MinimumString { string: String, current_length: u64, min_length: i64 },
    /// A null appeared where the schema node is not `Nullable`.
    NotNullableNull,
}

/// The mathematical image of an [`AS3ValidationError`].
pub enum ErrV {
    TypeError { expected: NodeV, got: DataV },
    MissingKey { key: Seq<char> },
    RegexError { word: Seq<char>, regex: Seq<char> },
    Minimum { number: NumberV, minimum: NumberV },
    Maximum { number: NumberV, maximum: NumberV },
    Generic(Seq<char>),
    MaximumString { string: Seq<char>, current_length: u64, max_length: i64 },
    MinimumString { string: Seq<char>, current_length: u64, min_length: i64 },
    NotNullableNull,
}

impl View for AS3ValidationError {
    type V = ErrV;

    open spec fn view(&self) -> ErrV {
        match self {
            AS3ValidationError::TypeError { expected, got } => ErrV::TypeError {
                expected: expected@,
                got: got@,
            },
            AS3ValidationError::MissingKey { key } => ErrV::MissingKey { key: key@ },
            AS3ValidationError::RegexError { word, regex } => ErrV::RegexError {
                word: word@,
                regex: regex@,
            },
            AS3ValidationError::Minimum { number, minimum } => ErrV::Minimum {
                number: number@,
                minimum: minimum@,
            },
            AS3ValidationError::Maximum { number, maximum } => ErrV::Maximum {
                number: number@,
                maximum: maximum@,
            },
            AS3ValidationError::Generic(m) => ErrV::Generic(m@),
            AS3ValidationError::MaximumString { string, current_length, max_length } => {
                ErrV::MaximumString {
                    string: string@,
                    current_length: *current_length,
                    max_length: *max_length,
                }
            },
            AS3ValidationError::MinimumString { string, current_length, min_length } => {
                ErrV::MinimumString {
                    string: string@,
                    current_length: *current_length,
                    min_length: *min_length,
                }
            },
            AS3ValidationError::NotNullableNull => ErrV::NotNullableNull,
        }
    }
}

/// A validation failure together with the breadcrumb path from the document
/// root down to where it occurred.
#[derive(Debug, PartialEq)]
pub struct As3JsonPath(pub String, pub AS3ValidationError);

/// The mathematical image of an [`As3JsonPath`].
pub struct PathErrV {
    pub path: Seq<char>,
    pub err: ErrV,
}

impl View for As3JsonPath {
    type V = PathErrV;

    open spec fn view(&self) -> PathErrV {
        PathErrV { path: self.0@, err: self.1@ }
    }
}

/// The image of a whole validation outcome.
pub open spec fn res_model(r: Result<(), As3JsonPath>) -> Result<(), PathErrV> {
    match r {
        Ok(_) => Ok(()),
        Err(e) => Err(e@),
    }
}

// ---------------------------------------------------------------------------
// Rendering
// ---------------------------------------------------------------------------
/// The schema-tag name of a node's kind.
pub open spec fn node_kind_name(n: NodeV) -> Seq<char> {
    match n {
        NodeV::Object(..) => "Object"@,
        NodeV::String { .. } => "String"@,
        NodeV::Integer { .. } => "Integer"@,
        NodeV::Decimal { .. } => "Decimal"@,
        NodeV::List(..) => "List"@,
        NodeV::Dict { .. } => "Map"@,
        NodeV::Boolean => "Bool"@,
        NodeV::Date => "Date"@,
        NodeV::Nullable(..) => "Nullable"@,
    }
}

/// The name of a data value's kind.
pub open spec fn data_kind_name(d: DataV) -> Seq<char> {
    match d {
        DataV::Object(..) => "Object"@,
        DataV::String(..) => "String"@,
        DataV::Boolean(..) => "Boolean"@,
        DataV::Integer(..) => "Integer"@,
        DataV::Decimal(..) => "Decimal"@,
        DataV::List(..) => "List"@,
        DataV::Null => "Null"@,
    }
}

/// The decimal rendering of a numeric payload.
pub open spec fn number_text(n: NumberV) -> Seq<char> {
    match n {
        NumberV::Integer(i) => int_digits(i as int),
        NumberV::Decimal(d) => d.text,
    }
}

/// The message a failure renders to.
pub open spec fn err_message_spec(e: ErrV) -> Seq<char> {
    match e {
        ErrV::TypeError { expected, got } => "Mismatched types. Expected `"@ + node_kind_name(
            expected,
        ) + "` got `"@ + data_kind_name(got) + "` ."@,
        ErrV::MissingKey { key } => "Key "@ + key + " is not in "@,
        ErrV::RegexError { word, regex } => "Word "@ + word + " is not following the `"@ + regex
            + "` regex  ."@,
        ErrV::Minimum { number, minimum } => " `"@ + number_text(number)
            + "` is under the minumum of `"@ + number_text(minimum) + "`  ."@,
        ErrV::Maximum { number, maximum } => " `"@ + number_text(number)
            + "` is above the maximum of `"@ + number_text(maximum) + "` ."@,
        ErrV::Generic(m) => " Error during validation: "@ + m + " "@,
        ErrV::MaximumString { string, current_length, max_length } => " "@ + string + " is "@
            + dec_digits(current_length as nat) + " charcters long, above the max lenght allowed of "@
            + int_digits(max_length as int) + " ."@,
        ErrV::MinimumString { string, current_length, min_length } => " "@ + string + " is "@
            + dec_digits(current_length as nat) + " charcters long, above the max lenght allowed of "@
            + int_digits(min_length as int) + "."@,
        ErrV::NotNullableNull => "field not set as not nullable but is a null"@,
    }
}

/// The message a path-qualified failure renders to.
pub open spec fn path_message_spec(p: PathErrV) -> Seq<char> {
    err_message_spec(p.err) + " in ["@ + p.path + "]. "@
}

fn node_kind_str(n: &AS3Validator) -> (r: &'static str)
    ensures
        r@ == node_kind_name(n@),
{
    match n {
        AS3Validator::Object(..) => "Object",
        AS3Validator::String { .. } => "String",
        AS3Validator::Integer { .. } => "Integer",
        AS3Validator::Decimal { .. } => "Decimal",
        AS3Validator::List(..) => "List",
        AS3Validator::Dict { .. } => "Map",
        AS3Validator::Boolean => "Bool",
        AS3Validator::Date => "Date",
        AS3Validator::Nullable(..) => "Nullable",
    }
}

fn data_kind_str(d: &AS3Data) -> (r: &'static str)
    ensures
        r@ == data_kind_name(d@),
{
    match d {
        AS3Data::Object(..) => "Object",
        AS3Data::String(..) => "String",
        AS3Data::Boolean(..) => "Boolean",
        AS3Data::Integer(..) => "Integer",
        AS3Data::Decimal(..) => "Decimal",
        AS3Data::List(..) => "List",
        AS3Data::Null => "Null",
    }
}

fn number_to_string(n: &Number) -> (r: String)
    ensures
        r@ == number_text(n@),
{
    match n {
        Number::Integer(i) => i64_to_string(*i),
        Number::Decimal(d) => d.text.clone(),
    }
}

impl AS3ValidationError {
    /// Renders this failure as its display message.
    pub fn to_message(&self) -> (r: String)
        ensures
            r@ == err_message_spec(self@),
    {
        match self {
            AS3ValidationError::TypeError { expected, got } => {
                let mut m = String::new();
                m.append("Mismatched types. Expected `");
                m.append(node_kind_str(expected));
                m.append("` got `");
                m.append(data_kind_str(got));
                m.append("` .");
                m
            },
            AS3ValidationError::MissingKey { key } => {
                let mut m = String::new();
                m.append("Key ");
                m.append(key.as_str());
                m.append(" is not in ");
                m
            },
            AS3ValidationError::RegexError { word, regex } => {
                let mut m = String::new();
                m.append("Word ");
                m.append(word.as_str());
                m.append(" is not following the `");
                m.append(regex.as_str());
                m.append("` regex  .");
                m
            },
            AS3ValidationError::Minimum { number, minimum } => {
                let mut m = String::new();
                m.append(" `");
                m.append(number_to_string(number).as_str());
                m.append("` is under the minumum of `");
                m.append(number_to_string(minimum).as_str());
                m.append("`  .");
                m
            },
            AS3ValidationError::Maximum { number, maximum } => {
                let mut m = String::new();
                m.append(" `");
                m.append(number_to_string(number).as_str());
                m.append("` is above the maximum of `");
                m.append(number_to_string(maximum).as_str());
                m.append("` .");
                m
            },
            AS3ValidationError::Generic(msg) => {
                let mut m = String::new();
                m.append(" Error during validation: ");
                m.append(msg.as_str());
                m.append(" ");
                m
            },
            AS3ValidationError::MaximumString { string, current_length, max_length } => {
                let mut m = String::new();
                m.append(" ");
                m.append(string.as_str());
                m.append(" is ");
                m.append(u64_to_string(*current_length).as_str());
                m.append(" charcters long, above the max lenght allowed of ");
                m.append(i64_to_string(*max_length).as_str());
                m.append(" .");
                m
            },
            AS3ValidationError::MinimumString { string, current_length, min_length } => {
                let mut m = String::new();
                m.append(" ");
                m.append(string.as_str());
                m.append(" is ");
                m.append(u64_to_string(*current_length).as_str());
                m.append(" charcters long, above the max lenght allowed of ");
                m.append(i64_to_string(*min_length).as_str());
                m.append(".");
                m
            },
            AS3ValidationError::NotNullableNull => {
                let mut m = String::new();
                m.append("field not set as not nullable but is a null");
                m
            },
        }
    }
}

impl As3JsonPath {
    /// Renders the failure with its breadcrumb path, as `<error> in [<path>]. `.
    pub fn to_message(&self) -> (r: String)
        ensures
            r@ == path_message_spec(self@),
    {
        let mut m = self.1.to_message();
        m.append(" in [");
        m.append(self.0.as_str());
        m.append("]. ");
        m
    }
}

} // verus!
