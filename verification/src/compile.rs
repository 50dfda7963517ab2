//! The schema compiler: what compiling a definition tree means, and the
//! executable compiler proved to return exactly that.

use vstd::prelude::*;

use crate::decimal::DecV;
use crate::schema::{
    lemma_model_entries, mapping_get, mapping_get_spec, mapping_has, model_entries, SchemaValue,
    YamlV,
};
use crate::text::str_eq;
use crate::validator::{lemma_model_vfields, model_vfields, AS3Validator, NodeV};

verus! {

// ---------------------------------------------------------------------------
// What compilation means
// ---------------------------------------------------------------------------
/// The image of a compilation outcome.
pub open spec fn compile_res_model(r: Result<AS3Validator, String>) -> Result<NodeV, Seq<char>> {
    match r {
        Ok(v) => Ok(v@),
        Err(m) => Err(m@),
    }
}

/// The type tag of a schema node: an explicit `+type` string, or, for a bare
/// scalar, the scalar itself.
pub open spec fn tag_of(y: YamlV) -> Option<Seq<char>> {
    match y {
        YamlV::Mapping(es) => match mapping_get_spec(es, "+type"@) {
            Some(YamlV::String(t)) => Some(t),
            _ => None,
        },
        YamlV::String(t) => Some(t),
        _ => None,
    }
}

/// An integer read from the mapping entry `key`, where present and integral.
pub open spec fn int_bound_at(es: Seq<(Seq<char>, YamlV)>, key: Seq<char>) -> Option<i64> {
    match mapping_get_spec(es, key) {
        Some(YamlV::Number(n)) => n.as_int,
        _ => None,
    }
}

/// A decimal read from the mapping entry `key`, where present.
pub open spec fn dec_bound_at(es: Seq<(Seq<char>, YamlV)>, key: Seq<char>) -> Option<DecV> {
    match mapping_get_spec(es, key) {
        Some(YamlV::Number(n)) => n.as_dec,
        _ => None,
    }
}

/// The present maximum-length aliases, joined with commas (meaningful only
/// when at least two are present).
pub open spec fn max_aliases_text(a1: bool, a2: bool, a3: bool) -> Seq<char> {
    if a1 && a2 && a3 {
        "+MaxLength,+maxLength,+max_length"@
    } else if a1 && a2 {
        "+MaxLength,+maxLength"@
    } else if a1 && a3 {
        "+MaxLength,+max_length"@
    } else {
        "+maxLength,+max_length"@
    }
}

/// The present minimum-length aliases, joined with commas.
pub open spec fn min_aliases_text(a1: bool, a2: bool, a3: bool) -> Seq<char> {
    if a1 && a2 && a3 {
        "+MinLength,+minLength,+min_length"@
    } else if a1 && a2 {
        "+MinLength,+minLength"@
    } else if a1 && a3 {
        "+MinLength,+min_length"@
    } else {
        "+minLength,+min_length"@
    }
}

/// Compilation of a `String` schema node from its mapping: an optional
/// `+regex`, and length bounds each given by exactly one of three aliases.
pub open spec fn compile_string_spec(es: Seq<(Seq<char>, YamlV)>) -> Result<NodeV, Seq<char>> {
    let regex = match mapping_get_spec(es, "+regex"@) {
        Some(YamlV::String(r)) => Some(r),
        _ => None,
    };
    let a1 = mapping_get_spec(es, "+MaxLength"@) is Some;
    let a2 = mapping_get_spec(es, "+maxLength"@) is Some;
    let a3 = mapping_get_spec(es, "+max_length"@) is Some;
    let i1 = mapping_get_spec(es, "+MinLength"@) is Some;
    let i2 = mapping_get_spec(es, "+minLength"@) is Some;
    let i3 = mapping_get_spec(es, "+min_length"@) is Some;
    if count3(a1, a2, a3) > 1 {
        Err(
            "Multiple field indicating the maximum length of a String have been passed : ("@
                + max_aliases_text(a1, a2, a3) + ")"@,
        )
    } else if count3(i1, i2, i3) > 1 {
        Err(
            "Multiple field indicating the minimum length of a String have been passed : ("@
                + min_aliases_text(i1, i2, i3) + ")"@,
        )
    } else {
        let max_length = if a1 {
            int_bound_at(es, "+MaxLength"@)
        } else if a2 {
            int_bound_at(es, "+maxLength"@)
        } else if a3 {
            int_bound_at(es, "+max_length"@)
        } else {
            None
        };
        let min_length = if i1 {
            int_bound_at(es, "+MinLength"@)
        } else if i2 {
            int_bound_at(es, "+minLength"@)
        } else if i3 {
            int_bound_at(es, "+min_length"@)
        } else {
            None
        };
        Ok(NodeV::String { regex, max_length, min_length })
    }
}

/// How many of the three flags are set.
pub open spec fn count3(a: bool, b: bool, c: bool) -> int {
    (if a {
        1int
    } else {
        0int
    }) + (if b {
        1int
    } else {
        0int
    }) + (if c {
        1int
    } else {
        0int
    })
}

/// Compilation of one node, given its (possibly `?`-suffixed) tag.
pub open spec fn compile_dispatch_spec(
    y: YamlV,
    tag: Seq<char>,
    bare: Seq<char>,
    path: Seq<char>,
) -> Result<NodeV, Seq<char>>
    decreases y, 0int,
{
    match y {
        YamlV::Mapping(es) => {
            if bare == "Object"@ {
                match compile_fields_spec(es, path) {
                    Err(e) => Err(e),
                    Ok(fs) => Ok(NodeV::Object(fs)),
                }
            } else if bare == "String"@ {
                compile_string_spec(es)
            } else if bare == "Date"@ {
                Ok(NodeV::Date)
            } else if bare == "Integer"@ {
                Ok(
                    NodeV::Integer {
                        minimum: int_bound_at(es, "+min"@),
                        maximum: int_bound_at(es, "+max"@),
                    },
                )
            } else if bare == "Decimal"@ || bare == "Float"@ {
                Ok(
                    NodeV::Decimal {
                        minimum: dec_bound_at(es, "+min"@),
                        maximum: dec_bound_at(es, "+max"@),
                    },
                )
            } else if bare == "List"@ {
                match compile_at_key_spec(es, "+ValueType"@, path) {
                    None => Err("List defined without the required `+ValueType` property"@),
                    Some(Err(e)) => Err(e),
                    Some(Ok(n)) => Ok(NodeV::List(Box::new(n))),
                }
            } else if bare == "Map"@ {
                match (
                    compile_at_key_spec(es, "+KeyType"@, path + " -> +KeyType"@),
                    compile_at_key_spec(es, "+ValueType"@, path + " -> +ValueType"@),
                ) {
                    (Some(kr), Some(vr)) => match kr {
                        Err(e) => Err(e),
                        Ok(k) => match vr {
                            Err(e) => Err(e),
                            Ok(v) => Ok(
                                NodeV::Dict { key_type: Box::new(k), value_type: Box::new(v) },
                            ),
                        },
                    },
                    _ => Err(
                        "Map MUST have the `+KeyType` and `+ValueType` fields [ "@ + path + " ] "@,
                    ),
                }
            } else if bare == "Bool"@ || bare == "Boolean"@ {
                Ok(NodeV::Boolean)
            } else {
                Err(" "@ + tag + " is an unsupported type"@)
            }
        },
        YamlV::String(..) => {
            if bare == "String"@ {
                Ok(NodeV::String { regex: None, max_length: None, min_length: None })
            } else if bare == "Integer"@ {
                Ok(NodeV::Integer { minimum: None, maximum: None })
            } else if bare == "Decimal"@ {
                Ok(NodeV::Decimal { minimum: None, maximum: None })
            } else if bare == "Date"@ {
                Ok(NodeV::Date)
            } else if bare == "Bool"@ {
                Ok(NodeV::Boolean)
            } else {
                Err(" "@ + tag + " can't be used without the `+type` property"@)
            }
        },
        _ => Err(" "@ + tag + " is an unsupported type"@),
    }
}

/// The whole compilation of one node: read the tag, honour a `?` suffix,
/// dispatch, and wrap in `Nullable` where the suffix asked for it.
pub open spec fn compile_spec(y: YamlV, path: Seq<char>) -> Result<NodeV, Seq<char>>
    decreases y, 1int,
{
    match tag_of(y) {
        None => Err("Type definition missing for "@ + path + " "@),
        Some(tag) => {
            let nullable = tag.len() > 0 && tag.last() == '?';
            let bare = if nullable {
                tag.drop_last()
            } else {
                tag
            };
            match compile_dispatch_spec(y, tag, bare, path) {
                Err(e) => Err(e),
                Ok(node) => if nullable {
                    Ok(NodeV::Nullable(Box::new(node)))
                } else {
                    Ok(node)
                },
            }
        },
    }
}

/// Compilation of an `Object`'s field list: every entry but `+type`, in
/// order, becomes a required field; the first failure wins.
pub open spec fn compile_fields_spec(entries: Seq<(Seq<char>, YamlV)>, path: Seq<char>) -> Result<
    Seq<(Seq<char>, NodeV)>,
    Seq<char>,
>
    decreases entries, 0int,
    via compile_fields_spec_decreases
{
    if entries.len() == 0 {
        Ok(Seq::empty())
    } else if entries[0].0 == "+type"@ {
        compile_fields_spec(entries.drop_first(), path)
    } else {
        match compile_spec(entries[0].1, path + " -> "@ + entries[0].0) {
            Err(e) => Err(e),
            Ok(node) => match compile_fields_spec(entries.drop_first(), path) {
                Err(e) => Err(e),
                Ok(rest) => Ok(seq![(entries[0].0, node)] + rest),
            },
        }
    }
}

#[via_fn]
proof fn compile_fields_spec_decreases(entries: Seq<(Seq<char>, YamlV)>, path: Seq<char>) {
    if entries.len() > 0 {
        assert(decreases_to!(entries => entries[0]));
        assert(entries.drop_first() =~= entries.subrange(1, entries.len() as int));
        assert(decreases_to!(entries => entries.subrange(1, entries.len() as int)));
    }
}

/// Compilation of the value under `key`, if the mapping has one.
pub open spec fn compile_at_key_spec(
    entries: Seq<(Seq<char>, YamlV)>,
    key: Seq<char>,
    path: Seq<char>,
) -> Option<Result<NodeV, Seq<char>>>
    decreases entries, 0int,
    via compile_at_key_spec_decreases
{
    if entries.len() == 0 {
        None
    } else if entries[0].0 == key {
        Some(compile_spec(entries[0].1, path))
    } else {
        compile_at_key_spec(entries.drop_first(), key, path)
    }
}

#[via_fn]
proof fn compile_at_key_spec_decreases(
    entries: Seq<(Seq<char>, YamlV)>,
    key: Seq<char>,
    path: Seq<char>,
) {
    if entries.len() > 0 {
        assert(decreases_to!(entries => entries[0]));
        assert(entries.drop_first() =~= entries.subrange(1, entries.len() as int));
        assert(decreases_to!(entries => entries.subrange(1, entries.len() as int)));
    }
}

/// Compilation of a whole definition: a mapping with the reserved key `Root`,
/// whose value compiles at path `Root`.
pub open spec fn compile_top_spec(y: YamlV) -> Result<NodeV, Seq<char>> {
    match y {
        YamlV::Mapping(es) => match mapping_get_spec(es, "Root"@) {
            Some(root) => compile_spec(root, "Root"@),
            None => Err("Missing root word `Root` from definition"@),
        },
        _ => Err("Definition must start with a Yaml Mapping"@),
    }
}

/// `Ok` results are prefixed with already-compiled fields; errors pass.
pub open spec fn merge_fields(
    prefix: Seq<(Seq<char>, NodeV)>,
    r: Result<Seq<(Seq<char>, NodeV)>, Seq<char>>,
) -> Result<Seq<(Seq<char>, NodeV)>, Seq<char>> {
    match r {
        Ok(rest) => Ok(prefix + rest),
        Err(e) => Err(e),
    }
}

// ---------------------------------------------------------------------------
// The compiler
// ---------------------------------------------------------------------------
fn int_bound(entries: &Vec<(String, SchemaValue)>, key: &str) -> (r: Option<i64>)
    ensures
        r == int_bound_at(model_entries(entries@), key@),
{
    match mapping_get(entries, key) {
        Some(SchemaValue::Number(n)) => n.as_int,
        _ => None,
    }
}

fn dec_bound(entries: &Vec<(String, SchemaValue)>, key: &str) -> (r: Option<
    crate::decimal::DecValue,
>)
    ensures
        crate::validator::view_opt_dec(r) == dec_bound_at(model_entries(entries@), key@),
{
    match mapping_get(entries, key) {
        Some(SchemaValue::Number(n)) => match &n.as_dec {
            Some(d) => Some(d.duplicate()),
            None => None,
        },
        _ => None,
    }
}

/// Reads the `String` node's options from its mapping.
fn compile_string_node(entries: &Vec<(String, SchemaValue)>) -> (r: Result<AS3Validator, String>)
    ensures
        compile_res_model(r) == compile_string_spec(model_entries(entries@)),
{
    let regex: Option<String> = match mapping_get(entries, "+regex") {
        Some(SchemaValue::String(re)) => Some(re.clone()),
        _ => None,
    };
    let a1 = mapping_has(entries, "+MaxLength");
    let a2 = mapping_has(entries, "+maxLength");
    let a3 = mapping_has(entries, "+max_length");
    let i1 = mapping_has(entries, "+MinLength");
    let i2 = mapping_has(entries, "+minLength");
    let i3 = mapping_has(entries, "+min_length");
    let n_max: u32 = (if a1 {
        1
    } else {
        0
    }) + (if a2 {
        1
    } else {
        0
    }) + (if a3 {
        1
    } else {
        0
    });
    let n_min: u32 = (if i1 {
        1
    } else {
        0
    }) + (if i2 {
        1
    } else {
        0
    }) + (if i3 {
        1
    } else {
        0
    });
    if n_max > 1 {
        let joined: &str = if a1 && a2 && a3 {
            "+MaxLength,+maxLength,+max_length"
        } else if a1 && a2 {
            "+MaxLength,+maxLength"
        } else if a1 && a3 {
            "+MaxLength,+max_length"
        } else {
            "+maxLength,+max_length"
        };
        let mut msg = String::new();
        msg.append("Multiple field indicating the maximum length of a String have been passed : (");
        msg.append(joined);
        msg.append(")");
        return Err(msg);
    }
    if n_min > 1 {
        let joined: &str = if i1 && i2 && i3 {
            "+MinLength,+minLength,+min_length"
        } else if i1 && i2 {
            "+MinLength,+minLength"
        } else if i1 && i3 {
            "+MinLength,+min_length"
        } else {
            "+minLength,+min_length"
        };
        let mut msg = String::new();
        msg.append("Multiple field indicating the minimum length of a String have been passed : (");
        msg.append(joined);
        msg.append(")");
        return Err(msg);
    }
    let max_length = if a1 {
        int_bound(entries, "+MaxLength")
    } else if a2 {
        int_bound(entries, "+maxLength")
    } else if a3 {
        int_bound(entries, "+max_length")
    } else {
        None
    };
    let min_length = if i1 {
        int_bound(entries, "+MinLength")
    } else if i2 {
        int_bound(entries, "+minLength")
    } else if i3 {
        int_bound(entries, "+min_length")
    } else {
        None
    };
    Ok(AS3Validator::String { regex, max_length, min_length })
}

impl AS3Validator {
    /// Compiles a whole schema definition: the mapping must hold the reserved
    /// key `Root`, whose value becomes the validator tree.
    pub fn from(yaml_config: &SchemaValue) -> (r: Result<AS3Validator, String>)
        ensures
            compile_res_model(r) == compile_top_spec(yaml_config@),
    {
        match yaml_config {
            SchemaValue::Mapping(entries) => match mapping_get(entries, "Root") {
                Some(root) => {
                    let path = "Root".to_owned();
                    AS3Validator::build_from_yaml(root, &path)
                },
                None => {
                    let mut msg = String::new();
                    msg.append("Missing root word `Root` from definition");
                    Err(msg)
                },
            },
            _ => {
                let mut msg = String::new();
                msg.append("Definition must start with a Yaml Mapping");
                Err(msg)
            },
        }
    }

    /// Compiles one schema node at diagnostic path `path`.
    fn build_from_yaml(yaml_config: &SchemaValue, path: &String) -> (r: Result<
        AS3Validator,
        String,
    >)
        ensures
            compile_res_model(r) == compile_spec(yaml_config@, path@),
        decreases yaml_config, 1int,
    {
        let tag: String = match yaml_config {
            SchemaValue::Mapping(entries) => match mapping_get(entries, "+type") {
                Some(SchemaValue::String(t)) => t.clone(),
                _ => {
                    let mut msg = String::new();
                    msg.append("Type definition missing for ");
                    msg.append(path.as_str());
                    msg.append(" ");
                    return Err(msg);
                },
            },
            SchemaValue::String(t) => t.clone(),
            _ => {
                let mut msg = String::new();
                msg.append("Type definition missing for ");
                msg.append(path.as_str());
                msg.append(" ");
                return Err(msg);
            },
        };
        let tlen = tag.as_str().unicode_len();
        let nullable = tlen > 0 && tag.as_str().get_char(tlen - 1) == '?';
        let bare: String = if nullable {
            tag.as_str().substring_char(0, tlen - 1).to_owned()
        } else {
            tag.clone()
        };
        proof {
            if nullable {
                assert(bare@ =~= tag@.drop_last());
            }
        }
        match AS3Validator::build_dispatch(yaml_config, &tag, &bare, path) {
            Err(e) => Err(e),
            Ok(node) => {
                if nullable {
                    Ok(AS3Validator::Nullable(Box::new(node)))
                } else {
                    Ok(node)
                }
            },
        }
    }

    /// Dispatches on the bare tag and the node's shape.
    fn build_dispatch(
        yaml_config: &SchemaValue,
        tag: &String,
        bare: &String,
        path: &String,
    ) -> (r: Result<AS3Validator, String>)
        ensures
            compile_res_model(r) == compile_dispatch_spec(yaml_config@, tag@, bare@, path@),
        decreases yaml_config, 0int,
    {
        match yaml_config {
            SchemaValue::Mapping(entries) => {
                if str_eq(bare.as_str(), "Object") {
                    match AS3Validator::compile_object_fields(entries, path) {
                        Err(e) => Err(e),
                        Ok(fields) => Ok(AS3Validator::Object(fields)),
                    }
                } else if str_eq(bare.as_str(), "String") {
                    compile_string_node(entries)
                } else if str_eq(bare.as_str(), "Date") {
                    Ok(AS3Validator::Date)
                } else if str_eq(bare.as_str(), "Integer") {
                    Ok(
                        AS3Validator::Integer {
                            minimum: int_bound(entries, "+min"),
                            maximum: int_bound(entries, "+max"),
                        },
                    )
                } else if str_eq(bare.as_str(), "Decimal") || str_eq(bare.as_str(), "Float") {
                    Ok(
                        AS3Validator::Decimal {
                            minimum: dec_bound(entries, "+min"),
                            maximum: dec_bound(entries, "+max"),
                        },
                    )
                } else if str_eq(bare.as_str(), "List") {
                    match AS3Validator::compile_at_key(entries, "+ValueType", path) {
                        None => {
                            let mut msg = String::new();
                            msg.append("List defined without the required `+ValueType` property");
                            Err(msg)
                        },
                        Some(Err(e)) => Err(e),
                        Some(Ok(node)) => Ok(AS3Validator::List(Box::new(node))),
                    }
                } else if str_eq(bare.as_str(), "Map") {
                    let mut key_path = path.clone();
                    key_path.append(" -> +KeyType");
                    let mut value_path = path.clone();
                    value_path.append(" -> +ValueType");
                    let key_res = AS3Validator::compile_at_key(entries, "+KeyType", &key_path);
                    let value_res = AS3Validator::compile_at_key(
                        entries,
                        "+ValueType",
                        &value_path,
                    );
                    match (key_res, value_res) {
                        (Some(kr), Some(vr)) => match kr {
                            Err(e) => Err(e),
                            Ok(k) => match vr {
                                Err(e) => Err(e),
                                Ok(v) => Ok(
                                    AS3Validator::Dict {
                                        key_type: Box::new(k),
                                        value_type: Box::new(v),
                                    },
                                ),
                            },
                        },
                        _ => {
                            let mut msg = String::new();
                            msg.append("Map MUST have the `+KeyType` and `+ValueType` fields [ ");
                            msg.append(path.as_str());
                            msg.append(" ] ");
                            Err(msg)
                        },
                    }
                } else if str_eq(bare.as_str(), "Bool") || str_eq(bare.as_str(), "Boolean") {
                    Ok(AS3Validator::Boolean)
                } else {
                    let mut msg = String::new();
                    msg.append(" ");
                    msg.append(tag.as_str());
                    msg.append(" is an unsupported type");
                    Err(msg)
                }
            },
            SchemaValue::String(..) => {
                if str_eq(bare.as_str(), "String") {
                    Ok(AS3Validator::String { regex: None, max_length: None, min_length: None })
                } else if str_eq(bare.as_str(), "Integer") {
                    Ok(AS3Validator::Integer { minimum: None, maximum: None })
                } else if str_eq(bare.as_str(), "Decimal") {
                    Ok(AS3Validator::Decimal { minimum: None, maximum: None })
                } else if str_eq(bare.as_str(), "Date") {
                    Ok(AS3Validator::Date)
                } else if str_eq(bare.as_str(), "Bool") {
                    Ok(AS3Validator::Boolean)
                } else {
                    let mut msg = String::new();
                    msg.append(" ");
                    msg.append(tag.as_str());
                    msg.append(" can't be used without the `+type` property");
                    Err(msg)
                }
            },
            _ => {
                let mut msg = String::new();
                msg.append(" ");
                msg.append(tag.as_str());
                msg.append(" is an unsupported type");
                Err(msg)
            },
        }
    }

    /// Compiles an `Object`'s fields, in declaration order.
    fn compile_object_fields(entries: &Vec<(String, SchemaValue)>, path: &String) -> (r: Result<
        Vec<(String, AS3Validator)>,
        String,
    >)
        ensures
            match r {
                Ok(fields) => compile_fields_spec(model_entries(entries@), path@) == Ok::<
                    _,
                    Seq<char>,
                >(model_vfields(fields@)),
                Err(m) => compile_fields_spec(model_entries(entries@), path@) == Err::<
                    Seq<(Seq<char>, NodeV)>,
                    _,
                >(m@),
            },
        decreases entries, 0int,
    {
        let ghost me = model_entries(entries@);
        proof {
            lemma_model_entries(entries@);
        }
        let mut out: Vec<(String, AS3Validator)> = Vec::new();
        let mut i: usize = 0;
        assert(me.skip(0) =~= me);
        proof {
            let r0 = compile_fields_spec(me, path@);
            if r0 is Ok {
                assert(Seq::<(Seq<char>, NodeV)>::empty() + r0->Ok_0 =~= r0->Ok_0);
            }
        }
        while i < entries.len()
            invariant
                0 <= i <= entries.len(),
                me == model_entries(entries@),
                me.len() == entries@.len(),
                forall|j: int|
                    0 <= j < entries@.len() ==> me[j] == (entries@[j].0@, entries@[j].1.model()),
                compile_fields_spec(me, path@) == merge_fields(
                    model_vfields(out@),
                    compile_fields_spec(me.skip(i as int), path@),
                ),
            decreases entries@.len() - i,
        {
            proof {
                assert(decreases_to!((*entries) => (*entries)[i as int]));
                assert(me.skip(i as int)[0] == me[i as int]);
                assert(me.skip(i as int).drop_first() =~= me.skip(i + 1));
            }
            let name = &entries[i].0;
            if str_eq(name.as_str(), "+type") {
                i += 1;
                continue ;
            }
            let mut entry_path = path.clone();
            entry_path.append(" -> ");
            entry_path.append(name.as_str());
            match AS3Validator::build_from_yaml(&entries[i].1, &entry_path) {
                Err(e) => {
                    return Err(e);
                },
                Ok(node) => {
                    let ghost old_out = out@;
                    out.push((name.clone(), node));
                    proof {
                        lemma_model_vfields(old_out);
                        lemma_model_vfields(out@);
                        assert(model_vfields(out@) =~= model_vfields(old_out) + seq![
                            (name@, node@),
                        ]);
                        assert(model_vfields(old_out) + (seq![(name@, node@)] + compile_fields_spec(
                            me.skip(i + 1),
                            path@,
                        )->Ok_0) =~= model_vfields(out@) + compile_fields_spec(
                            me.skip(i + 1),
                            path@,
                        )->Ok_0);
                    }
                },
            }
            i += 1;
        }
        proof {
            assert(me.skip(i as int) =~= Seq::<(Seq<char>, YamlV)>::empty());
            assert(model_vfields(out@) + Seq::<(Seq<char>, NodeV)>::empty() =~= model_vfields(
                out@,
            ));
        }
        Ok(out)
    }

    /// Compiles the value under `key`, if the mapping has one.
    fn compile_at_key(entries: &Vec<(String, SchemaValue)>, key: &str, path: &String) -> (r:
        Option<Result<AS3Validator, String>>)
        ensures
            match r {
                None => compile_at_key_spec(model_entries(entries@), key@, path@) is None,
                Some(res) => compile_at_key_spec(model_entries(entries@), key@, path@) == Some(
                    compile_res_model(res),
                ),
            },
        decreases entries, 0int,
    {
        let ghost me = model_entries(entries@);
        proof {
            lemma_model_entries(entries@);
        }
        let mut i: usize = 0;
        assert(me.skip(0) =~= me);
        while i < entries.len()
            invariant
                0 <= i <= entries.len(),
                me == model_entries(entries@),
                me.len() == entries@.len(),
                forall|j: int|
                    0 <= j < entries@.len() ==> me[j] == (entries@[j].0@, entries@[j].1.model()),
                compile_at_key_spec(me, key@, path@) == compile_at_key_spec(
                    me.skip(i as int),
                    key@,
                    path@,
                ),
            decreases entries@.len() - i,
        {
            proof {
                assert(decreases_to!((*entries) => (*entries)[i as int]));
                assert(me.skip(i as int)[0] == me[i as int]);
                assert(me.skip(i as int).drop_first() =~= me.skip(i + 1));
            }
            if str_eq(entries[i].0.as_str(), key) {
                return Some(AS3Validator::build_from_yaml(&entries[i].1, path));
            }
            i += 1;
        }
        assert(me.skip(i as int) =~= Seq::<(Seq<char>, YamlV)>::empty());
        None
    }
}

} // verus!
