//! The validation engine: what validating data against a schema node means,
//! and the executable checker proved to return exactly that.

use vstd::prelude::*;

use crate::data::{lookup, lookup_spec, model_fields, model_items, AS3Data, DataV};
use crate::error::{
    err_message_spec, path_message_spec, res_model, AS3ValidationError, As3JsonPath, ErrV, Number,
    NumberV, PathErrV,
};
use crate::regex_link::{regex_found, regex_is_valid, regex_search};
use crate::text::{date_ok, eq_fold_ascii, is_date, lower_ascii, parse_i64, parse_i64_spec};
use crate::validator::{lemma_model_vfields, model_vfields, AS3Validator, NodeV};

verus! {

// ---------------------------------------------------------------------------
// What validation means
// ---------------------------------------------------------------------------
/// `pattern`, anchored to both ends of the text it is searched in.  The
/// schema's pattern must match the whole string, not just find a substring,
/// so the engine searches with this form of it.
pub open spec fn anchored_spec(pattern: Seq<char>) -> Seq<char> {
    "^(?:"@ + pattern + ")$"@
}

/// Builds the anchored form of a pattern.
fn anchored(pattern: &str) -> (r: String)
    ensures
        r@ == anchored_spec(pattern@),
{
    let mut s = String::new();
    s.append("^(?:");
    s.append(pattern);
    s.append(")$");
    s
}

/// The outcome of validating `data` against `node`, with `path` the breadcrumb
/// accumulated so far.  This is the engine's whole meaning: the executable
/// `check` is proved to return exactly this.
pub open spec fn check_spec(node: NodeV, data: DataV, path: Seq<char>) -> Result<(), PathErrV>
    decreases node, 1int, 0int,
{
    if data is Null {
        if node is Nullable {
            Ok(())
        } else {
            Err(PathErrV { path, err: ErrV::NotNullableNull })
        }
    } else {
        match (node, data) {
            (NodeV::Object(vfields), DataV::Object(dfields)) => check_fields_spec(
                vfields,
                dfields,
                path,
            ),
            (NodeV::Dict { .. }, DataV::Object(dfields)) => check_entries_spec(
                node,
                dfields,
                path,
            ),
            (NodeV::Integer { minimum, maximum }, DataV::Integer(n)) => {
                if minimum matches Some(m) && n < m {
                    Err(
                        PathErrV {
                            path,
                            err: ErrV::Minimum {
                                number: NumberV::Integer(n),
                                minimum: NumberV::Integer(minimum->0),
                            },
                        },
                    )
                } else if maximum matches Some(m) && n > m {
                    Err(
                        PathErrV {
                            path,
                            err: ErrV::Maximum {
                                number: NumberV::Integer(n),
                                maximum: NumberV::Integer(maximum->0),
                            },
                        },
                    )
                } else {
                    Ok(())
                }
            },
            (NodeV::Decimal { minimum, maximum }, DataV::Decimal(d)) => {
                if minimum matches Some(m) && d.key < m.key {
                    Err(
                        PathErrV {
                            path,
                            err: ErrV::Minimum {
                                number: NumberV::Decimal(d),
                                minimum: NumberV::Decimal(minimum->0),
                            },
                        },
                    )
                } else if maximum matches Some(m) && d.key > m.key {
                    Err(
                        PathErrV {
                            path,
                            err: ErrV::Maximum {
                                number: NumberV::Decimal(d),
                                maximum: NumberV::Decimal(maximum->0),
                            },
                        },
                    )
                } else {
                    Ok(())
                }
            },
            (NodeV::String { regex, max_length, min_length }, DataV::String(s)) => {
                if regex matches Some(r) && !regex_is_valid(anchored_spec(r)) {
                    Err(
                        PathErrV {
                            path,
                            err: ErrV::Generic(
                                "The regex `"@ + regex->0 + "` in the schema is not valid"@,
                            ),
                        },
                    )
                } else if regex matches Some(r) && !regex_found(anchored_spec(r), s) {
                    Err(PathErrV { path, err: ErrV::RegexError { word: s, regex: regex->0 } })
                } else if min_length matches Some(m) && (s.len() as int) < m {
                    Err(
                        PathErrV {
                            path,
                            err: ErrV::MinimumString {
                                string: s,
                                current_length: s.len() as u64,
                                min_length: min_length->0,
                            },
                        },
                    )
                } else if max_length matches Some(m) && (s.len() as int) > m {
                    Err(
                        PathErrV {
                            path,
                            err: ErrV::MaximumString {
                                string: s,
                                current_length: s.len() as u64,
                                max_length: max_length->0,
                            },
                        },
                    )
                } else {
                    Ok(())
                }
            },
            (NodeV::List(..), DataV::List(items)) => check_list_spec(node, items, path),
            (NodeV::Date, DataV::String(s)) => {
                if date_ok(s) {
                    Ok(())
                } else {
                    Err(
                        PathErrV {
                            path,
                            err: ErrV::Generic(
                                " `"@ + s + "` can't be converted to a valid date. [Supported YYYY-MM-DD] "@,
                            ),
                        },
                    )
                }
            },
            (NodeV::Boolean, DataV::Boolean(..)) => Ok(()),
            _ => Err(PathErrV { path, err: ErrV::TypeError { expected: node, got: data } }),
        }
    }
}

/// Validates every declared object field, in declaration order, against the
/// data's fields; the first failure wins.
pub open spec fn check_fields_spec(
    vfields: Seq<(Seq<char>, NodeV)>,
    dfields: Seq<(Seq<char>, DataV)>,
    path: Seq<char>,
) -> Result<(), PathErrV>
    decreases vfields, 0int, 0int,
    via check_fields_spec_decreases
{
    if vfields.len() == 0 {
        Ok(())
    } else {
        let name = vfields[0].0;
        match lookup_spec(dfields, name) {
            None => Err(
                PathErrV { path: path + " -> "@ + name, err: ErrV::MissingKey { key: name } },
            ),
            Some(dv) => match check_spec(vfields[0].1, dv, path + " -> "@ + name) {
                Err(e) => Err(e),
                Ok(_) => check_fields_spec(vfields.drop_first(), dfields, path),
            },
        }
    }
}

#[via_fn]
proof fn check_fields_spec_decreases(
    vfields: Seq<(Seq<char>, NodeV)>,
    dfields: Seq<(Seq<char>, DataV)>,
    path: Seq<char>,
) {
    if vfields.len() > 0 {
        assert(decreases_to!(vfields => vfields[0]));
        assert(vfields.drop_first() =~= vfields.subrange(1, vfields.len() as int));
        assert(decreases_to!(vfields => vfields.subrange(1, vfields.len() as int)));
    }
}

/// Validates every entry of a keyed container: first the value against the
/// value type, then the key, coerced, against the key type.
pub open spec fn check_entries_spec(
    dict: NodeV,
    entries: Seq<(Seq<char>, DataV)>,
    path: Seq<char>,
) -> Result<(), PathErrV>
    decreases dict, 0int, entries.len(),
{
    match dict {
        NodeV::Dict { key_type, value_type } => {
            if entries.len() == 0 {
                Ok(())
            } else {
                let key = entries[0].0;
                let entry_path = path + " -> "@ + key;
                match check_spec(*value_type, entries[0].1, entry_path) {
                    Err(e) => Err(e),
                    Ok(_) => match key_coercion_spec(*key_type, key, entry_path) {
                        Err(msg) => Err(
                            PathErrV { path: entry_path, err: ErrV::Generic(msg) },
                        ),
                        Ok(_) => check_entries_spec(dict, entries.drop_first(), path),
                    },
                }
            }
        },
        _ => Ok(()),
    }
}

/// Coercion of a keyed container's key (always a string in the document) to
/// the declared key type, as a precondition of validating it.
pub open spec fn key_coercion_spec(key_type: NodeV, key: Seq<char>, path: Seq<char>) -> Result<
    (),
    Seq<char>,
>
    decreases key_type, 2int, 0int,
{
    match key_type {
        NodeV::String { .. } => match check_spec(key_type, DataV::String(key), path) {
            Ok(_) => Ok(()),
            Err(e) => Err(path_message_spec(e)),
        },
        NodeV::Integer { .. } => match parse_i64_spec(key) {
            None => Err("The Key `"@ + key + "` can't be converted to an Integer"@),
            Some(n) => match check_spec(key_type, DataV::Integer(n), path) {
                Ok(_) => Ok(()),
                Err(e) => Err(path_message_spec(e)),
            },
        },
        NodeV::Boolean => {
            if lower_ascii(key) == "true"@ || lower_ascii(key) == "false"@ || lower_ascii(key)
                == "1"@ || lower_ascii(key) == "0"@ {
                Ok(())
            } else {
                Err("The Key `"@ + key + "` can't be converted to a Boolean"@)
            }
        },
        NodeV::Date => {
            if date_ok(key) {
                Ok(())
            } else {
                Err("The Key `"@ + key + "` can't be converted to a Date"@)
            }
        },
        _ => Err(
            "Usupported Map's KeyValue conversion. [Supported types : String, Integer, Bool, Date(YYYY-MM-DD) ]"@,
        ),
    }
}

/// Validates every list element, in order, against the element type; the path
/// is not extended with an index.
pub open spec fn check_list_spec(list: NodeV, items: Seq<DataV>, path: Seq<char>) -> Result<
    (),
    PathErrV,
>
    decreases list, 0int, items.len(),
{
    match list {
        NodeV::List(elem) => {
            if items.len() == 0 {
                Ok(())
            } else {
                match check_spec(*elem, items[0], path) {
                    Err(e) => Err(e),
                    Ok(_) => check_list_spec(list, items.drop_first(), path),
                }
            }
        },
        _ => Ok(()),
    }
}

// ---------------------------------------------------------------------------
// The engine
// ---------------------------------------------------------------------------
/// Validates the declared fields one after the other, helper of `check`.
fn check_fields(
    vfields: &Vec<(String, AS3Validator)>,
    dfields: &Vec<(String, AS3Data)>,
    path: &String,
) -> (r: Result<(), As3JsonPath>)
    ensures
        res_model(r) == check_fields_spec(model_vfields(vfields@), model_fields(dfields@), path@),
    decreases vfields, 0int, 0int,
{
    let ghost mv = model_vfields(vfields@);
    let ghost md = model_fields(dfields@);
    proof {
        lemma_model_vfields(vfields@);
    }
    let mut i: usize = 0;
    assert(mv.skip(0) =~= mv);
    while i < vfields.len()
        invariant
            0 <= i <= vfields.len(),
            mv == model_vfields(vfields@),
            md == model_fields(dfields@),
            mv.len() == vfields@.len(),
            forall|j: int|
                0 <= j < vfields@.len() ==> mv[j] == (vfields@[j].0@, vfields@[j].1.model()),
            check_fields_spec(mv, md, path@) == check_fields_spec(mv.skip(i as int), md, path@),
        decreases vfields@.len() - i,
    {
        proof {
            assert(decreases_to!((*vfields) => (*vfields)[i as int]));
            assert(mv.skip(i as int)[0] == mv[i as int]);
        }
        let name = &vfields[i].0;
        let mut entry_path = path.clone();
        entry_path.append(" -> ");
        entry_path.append(name.as_str());
        match lookup(dfields, name) {
            None => {
                return Err(
                    As3JsonPath(
                        entry_path,
                        AS3ValidationError::MissingKey { key: name.clone() },
                    ),
                );
            },
            Some(dv) => {
                let res = vfields[i].1.check(dv, &entry_path);
                if res.is_err() {
                    return res;
                }
            },
        }
        proof {
            assert(mv.skip(i as int).drop_first() =~= mv.skip(i + 1));
        }
        i += 1;
    }
    assert(mv.skip(i as int) =~= Seq::<(Seq<char>, NodeV)>::empty());
    Ok(())
}

impl AS3Validator {
    /// Validates `data` against this schema tree, reporting the first
    /// violation together with the breadcrumb path from `ROOT` down to it.
    pub fn validate(&self, data: &AS3Data) -> (r: Result<(), As3JsonPath>)
        ensures
            res_model(r) == check_spec(self@, data@, "ROOT"@),
    {
        let path = "ROOT".to_owned();
        self.check(data, &path)
    }

    /// Validates `data` against this node, at breadcrumb `path`.
    fn check(&self, data: &AS3Data, path: &String) -> (r: Result<(), As3JsonPath>)
        ensures
            res_model(r) == check_spec(self@, data@, path@),
        decreases self, 1int, 0int,
    {
        if let AS3Data::Null = data {
            return match self {
                AS3Validator::Nullable(..) => Ok(()),
                _ => Err(As3JsonPath(path.clone(), AS3ValidationError::NotNullableNull)),
            };
        }
        match (self, data) {
            (AS3Validator::Object(vfields), AS3Data::Object(dfields)) => check_fields(
                vfields,
                dfields,
                path,
            ),
            (AS3Validator::Dict { key_type, value_type }, AS3Data::Object(dfields)) => {
                let ghost md = model_fields(dfields@);
                proof {
                    crate::data::lemma_model_fields(dfields@);
                }
                let mut i: usize = 0;
                assert(md.skip(0) =~= md);
                while i < dfields.len()
                    invariant
                        0 <= i <= dfields.len(),
                        md == model_fields(dfields@),
                        md.len() == dfields@.len(),
                        self@ matches NodeV::Dict { key_type: kt, value_type: vt } && *kt
                            == key_type@ && *vt == value_type@,
                        (decreases_to!(self => key_type)),
                        (decreases_to!(self => value_type)),
                        check_spec(self@, data@, path@) == check_entries_spec(self@, md, path@),
                        forall|j: int|
                            0 <= j < dfields@.len() ==> md[j] == (
                                dfields@[j].0@,
                                dfields@[j].1.model(),
                            ),
                        check_entries_spec(self@, md, path@) == check_entries_spec(
                            self@,
                            md.skip(i as int),
                            path@,
                        ),
                    decreases dfields@.len() - i,
                {
                    proof {
                        assert(md.skip(i as int)[0] == md[i as int]);
                    }
                    let key = &dfields[i].0;
                    let mut entry_path = path.clone();
                    entry_path.append(" -> ");
                    entry_path.append(key.as_str());
                    match value_type.check(&dfields[i].1, &entry_path) {
                        Err(e) => {
                            return Err(e);
                        },
                        Ok(_) => {
                            match AS3Validator::check_map_key_value(key, key_type, &entry_path) {
                                Err(msg) => {
                                    return Err(
                                        As3JsonPath(entry_path, AS3ValidationError::Generic(msg)),
                                    );
                                },
                                Ok(_) => {},
                            }
                        },
                    }
                    proof {
                        assert(md.skip(i as int).drop_first() =~= md.skip(i + 1));
                    }
                    i += 1;
                }
                assert(md.skip(i as int) =~= Seq::<(Seq<char>, DataV)>::empty());
                Ok(())
            },
            (AS3Validator::Integer { minimum, maximum }, AS3Data::Integer(number)) => {
                if let Some(m) = minimum {
                    if number < m {
                        return Err(
                            As3JsonPath(
                                path.clone(),
                                AS3ValidationError::Minimum {
                                    number: Number::Integer(*number),
                                    minimum: Number::Integer(*m),
                                },
                            ),
                        );
                    }
                }
                if let Some(m) = maximum {
                    if number > m {
                        return Err(
                            As3JsonPath(
                                path.clone(),
                                AS3ValidationError::Maximum {
                                    number: Number::Integer(*number),
                                    maximum: Number::Integer(*m),
                                },
                            ),
                        );
                    }
                }
                Ok(())
            },
            (AS3Validator::Decimal { minimum, maximum }, AS3Data::Decimal(number)) => {
                if let Some(m) = minimum {
                    if number.key < m.key {
                        return Err(
                            As3JsonPath(
                                path.clone(),
                                AS3ValidationError::Minimum {
                                    number: Number::Decimal(number.duplicate()),
                                    minimum: Number::Decimal(m.duplicate()),
                                },
                            ),
                        );
                    }
                }
                if let Some(m) = maximum {
                    if number.key > m.key {
                        return Err(
                            As3JsonPath(
                                path.clone(),
                                AS3ValidationError::Maximum {
                                    number: Number::Decimal(number.duplicate()),
                                    maximum: Number::Decimal(m.duplicate()),
                                },
                            ),
                        );
                    }
                }
                Ok(())
            },
            (AS3Validator::String { regex, max_length, min_length }, AS3Data::String(string)) => {
                if let Some(re) = regex {
                    let full = anchored(re.as_str());
                    match regex_search(full.as_str(), string.as_str()) {
                        None => {
                            let mut msg = String::new();
                            msg.append("The regex `");
                            msg.append(re.as_str());
                            msg.append("` in the schema is not valid");
                            return Err(
                                As3JsonPath(path.clone(), AS3ValidationError::Generic(msg)),
                            );
                        },
                        Some(false) => {
                            return Err(
                                As3JsonPath(
                                    path.clone(),
                                    AS3ValidationError::RegexError {
                                        word: string.clone(),
                                        regex: re.clone(),
                                    },
                                ),
                            );
                        },
                        Some(true) => {},
                    }
                }
                let len = string.as_str().unicode_len();
                if let Some(m) = min_length {
                    if *m >= 0 && (len as u64) < (*m as u64) {
                        return Err(
                            As3JsonPath(
                                path.clone(),
                                AS3ValidationError::MinimumString {
                                    string: string.clone(),
                                    current_length: len as u64,
                                    min_length: *m,
                                },
                            ),
                        );
                    }
                }
                if let Some(m) = max_length {
                    if *m < 0 || (len as u64) > (*m as u64) {
                        return Err(
                            As3JsonPath(
                                path.clone(),
                                AS3ValidationError::MaximumString {
                                    string: string.clone(),
                                    current_length: len as u64,
                                    max_length: *m,
                                },
                            ),
                        );
                    }
                }
                Ok(())
            },
            (AS3Validator::List(elem), AS3Data::List(items)) => {
                let ghost mi = model_items(items@);
                proof {
                    crate::data::lemma_model_items(items@);
                }
                let mut i: usize = 0;
                assert(mi.skip(0) =~= mi);
                while i < items.len()
                    invariant
                        0 <= i <= items.len(),
                        mi == model_items(items@),
                        mi.len() == items@.len(),
                        self@ matches NodeV::List(e) && *e == elem@,
                        (decreases_to!(self => elem)),
                        check_spec(self@, data@, path@) == check_list_spec(self@, mi, path@),
                        forall|j: int| 0 <= j < items@.len() ==> mi[j] == items@[j].model(),
                        check_list_spec(self@, mi, path@) == check_list_spec(
                            self@,
                            mi.skip(i as int),
                            path@,
                        ),
                    decreases items@.len() - i,
                {
                    proof {
                        assert(mi.skip(i as int)[0] == mi[i as int]);
                    }
                    let res = elem.check(&items[i], path);
                    if res.is_err() {
                        return res;
                    }
                    proof {
                        assert(mi.skip(i as int).drop_first() =~= mi.skip(i + 1));
                    }
                    i += 1;
                }
                assert(mi.skip(i as int) =~= Seq::<DataV>::empty());
                Ok(())
            },
            (AS3Validator::Date, AS3Data::String(string)) => {
                if is_date(string.as_str()) {
                    Ok(())
                } else {
                    let mut msg = String::new();
                    msg.append(" `");
                    msg.append(string.as_str());
                    msg.append("` can't be converted to a valid date. [Supported YYYY-MM-DD] ");
                    Err(As3JsonPath(path.clone(), AS3ValidationError::Generic(msg)))
                }
            },
            (AS3Validator::Boolean, AS3Data::Boolean(..)) => Ok(()),
            _ => Err(
                As3JsonPath(
                    path.clone(),
                    AS3ValidationError::TypeError {
                        expected: self.duplicate(),
                        got: data.duplicate(),
                    },
                ),
            ),
        }
    }

    /// Coerces a keyed container's key to `wanted_type` and validates it,
    /// returning the coercion message on failure.
    fn check_map_key_value(key: &String, wanted_type: &AS3Validator, path: &String) -> (r: Result<
        (),
        String,
    >)
        ensures
            match r {
                Ok(_) => key_coercion_spec(wanted_type@, key@, path@) is Ok,
                Err(m) => key_coercion_spec(wanted_type@, key@, path@) == Err::<(), Seq<char>>(m@),
            },
        decreases wanted_type, 2int, 0int,
    {
        match wanted_type {
            AS3Validator::String { .. } => {
                let synthetic = AS3Data::String(key.clone());
                match wanted_type.check(&synthetic, path) {
                    Ok(_) => Ok(()),
                    Err(e) => Err(e.to_message()),
                }
            },
            AS3Validator::Integer { .. } => {
                match parse_i64(key.as_str()) {
                    None => {
                        let mut msg = String::new();
                        msg.append("The Key `");
                        msg.append(key.as_str());
                        msg.append("` can't be converted to an Integer");
                        Err(msg)
                    },
                    Some(n) => {
                        let synthetic = AS3Data::Integer(n);
                        match wanted_type.check(&synthetic, path) {
                            Ok(_) => Ok(()),
                            Err(e) => Err(e.to_message()),
                        }
                    },
                }
            },
            AS3Validator::Boolean => {
                if eq_fold_ascii(key.as_str(), "true") || eq_fold_ascii(key.as_str(), "false")
                    || eq_fold_ascii(key.as_str(), "1") || eq_fold_ascii(key.as_str(), "0") {
                    Ok(())
                } else {
                    let mut msg = String::new();
                    msg.append("The Key `");
                    msg.append(key.as_str());
                    msg.append("` can't be converted to a Boolean");
                    Err(msg)
                }
            },
            AS3Validator::Date => {
                if is_date(key.as_str()) {
                    Ok(())
                } else {
                    let mut msg = String::new();
                    msg.append("The Key `");
                    msg.append(key.as_str());
                    msg.append("` can't be converted to a Date");
                    Err(msg)
                }
            },
            _ => {
                Err(
                    "Usupported Map's KeyValue conversion. [Supported types : String, Integer, Bool, Date(YYYY-MM-DD) ]".to_owned(),
                )
            },
        }
    }
}

} // verus!

