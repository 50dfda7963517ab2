//! The canonical, non-abbreviated spelling of a compiled schema, and the
//! proof that recompiling it yields the same tree.

use vstd::prelude::*;

use crate::compile::{
    compile_at_key_spec, compile_dispatch_spec, compile_fields_spec, compile_spec,
    compile_string_spec, tag_of,
};
use crate::schema::{lemma_model_entries, mapping_get_spec, model_entries, SchemaNum, SchemaValue, YamlV};
use crate::validator::{lemma_model_vfields, model_vfields, AS3Validator, NodeV};

verus! {

// ---------------------------------------------------------------------------
// The canonical (non-abbreviated) spelling of a compiled schema
// ---------------------------------------------------------------------------
/// The type tag the canonical form writes for a node (`?`-suffixed under
/// `Nullable`).
pub open spec fn tag_text(v: NodeV) -> Seq<char>
    decreases v, 0int,
{
    match v {
        NodeV::Object(..) => "Object"@,
        NodeV::String { .. } => "String"@,
        NodeV::Integer { .. } => "Integer"@,
        NodeV::Decimal { .. } => "Decimal"@,
        NodeV::List(..) => "List"@,
        NodeV::Dict { .. } => "Map"@,
        NodeV::Boolean => "Bool"@,
        NodeV::Date => "Date"@,
        NodeV::Nullable(inner) => tag_text(*inner) + "?"@,
    }
}

/// No entry, or one entry under `key`, as `val` says.
pub open spec fn opt_entry(key: Seq<char>, val: Option<YamlV>) -> Seq<(Seq<char>, YamlV)> {
    match val {
        Some(v) => seq![(key, v)],
        None => Seq::empty(),
    }
}

/// An integer option as a canonical number value.
pub open spec fn int_opt_val(m: Option<i64>) -> Option<YamlV> {
    match m {
        Some(n) => Some(YamlV::Number(crate::schema::NumV { as_int: Some(n), as_dec: None })),
        None => None,
    }
}

/// A decimal option as a canonical number value.
pub open spec fn dec_opt_val(d: Option<crate::decimal::DecV>) -> Option<YamlV> {
    match d {
        Some(x) => Some(YamlV::Number(crate::schema::NumV { as_int: None, as_dec: Some(x) })),
        None => None,
    }
}

/// A pattern option as a canonical string value.
pub open spec fn str_opt_val(r: Option<Seq<char>>) -> Option<YamlV> {
    match r {
        Some(x) => Some(YamlV::String(x)),
        None => None,
    }
}

/// The canonical mapping entries that follow the `+type` entry.
pub open spec fn canonical_body(v: NodeV) -> Seq<(Seq<char>, YamlV)>
    decreases v, 0int,
{
    match v {
        NodeV::Object(fields) => canonical_fields(fields),
        NodeV::String { regex, max_length, min_length } => opt_entry(
            "+regex"@,
            str_opt_val(regex),
        ) + opt_entry("+MaxLength"@, int_opt_val(max_length)) + opt_entry(
            "+MinLength"@,
            int_opt_val(min_length),
        ),
        NodeV::Integer { minimum, maximum } => opt_entry("+min"@, int_opt_val(minimum)) + opt_entry(
            "+max"@,
            int_opt_val(maximum),
        ),
        NodeV::Decimal { minimum, maximum } => opt_entry("+min"@, dec_opt_val(minimum)) + opt_entry(
            "+max"@,
            dec_opt_val(maximum),
        ),
        NodeV::List(elem) => seq![("+ValueType"@, canonical_spec(*elem))],
        NodeV::Dict { key_type, value_type } => seq![
            ("+KeyType"@, canonical_spec(*key_type)),
            ("+ValueType"@, canonical_spec(*value_type)),
        ],
        NodeV::Boolean => Seq::empty(),
        NodeV::Date => Seq::empty(),
        NodeV::Nullable(inner) => canonical_body(*inner),
    }
}

/// The canonical entries of an `Object`'s fields, in order.
pub open spec fn canonical_fields(fields: Seq<(Seq<char>, NodeV)>) -> Seq<(Seq<char>, YamlV)>
    decreases fields, 0int,
    via canonical_fields_decreases
{
    if fields.len() == 0 {
        Seq::empty()
    } else {
        seq![(fields[0].0, canonical_spec(fields[0].1))] + canonical_fields(fields.drop_first())
    }
}

#[via_fn]
proof fn canonical_fields_decreases(fields: Seq<(Seq<char>, NodeV)>) {
    if fields.len() > 0 {
        assert(decreases_to!(fields => fields[0]));
        assert(fields.drop_first() =~= fields.subrange(1, fields.len() as int));
        assert(decreases_to!(fields => fields.subrange(1, fields.len() as int)));
    }
}

/// The canonical, non-abbreviated spelling of a compiled node: a mapping that
/// opens with its `+type` tag.
pub open spec fn canonical_spec(v: NodeV) -> YamlV
    decreases v, 1int,
{
    YamlV::Mapping(seq![("+type"@, YamlV::String(tag_text(v)))] + canonical_body(v))
}

/// `canonical_fields` maps the field list pointwise.
pub proof fn lemma_canonical_fields(fields: Seq<(Seq<char>, NodeV)>)
    ensures
        canonical_fields(fields).len() == fields.len(),
        forall|i: int|
            0 <= i < fields.len() ==> canonical_fields(fields)[i] == (
                fields[i].0,
                canonical_spec(fields[i].1),
            ),
    decreases fields.len(),
{
    if fields.len() > 0 {
        lemma_canonical_fields(fields.drop_first());
    }
}

// ---------------------------------------------------------------------------
// Well-formedness: what the compiler can ever produce
// ---------------------------------------------------------------------------
/// A validator tree as the compiler shapes it: no `Object` field is named
/// `+type`, and `Nullable` is never directly nested.
pub open spec fn wf_node(v: NodeV) -> bool
    decreases v, 1int,
{
    match v {
        NodeV::Object(fields) => wf_fields(fields),
        NodeV::List(elem) => wf_node(*elem),
        NodeV::Dict { key_type, value_type } => wf_node(*key_type) && wf_node(*value_type),
        NodeV::Nullable(inner) => !(*inner is Nullable) && wf_node(*inner),
        _ => true,
    }
}

pub open spec fn wf_fields(fields: Seq<(Seq<char>, NodeV)>) -> bool
    decreases fields, 0int,
    via wf_fields_decreases
{
    if fields.len() == 0 {
        true
    } else {
        fields[0].0 != "+type"@ && wf_node(fields[0].1) && wf_fields(fields.drop_first())
    }
}

#[via_fn]
proof fn wf_fields_decreases(fields: Seq<(Seq<char>, NodeV)>) {
    if fields.len() > 0 {
        assert(decreases_to!(fields => fields[0]));
        assert(fields.drop_first() =~= fields.subrange(1, fields.len() as int));
        assert(decreases_to!(fields => fields.subrange(1, fields.len() as int)));
    }
}

// ---------------------------------------------------------------------------
// Small algebra of mapping lookups
// ---------------------------------------------------------------------------
proof fn lemma_get_append(
    es1: Seq<(Seq<char>, YamlV)>,
    es2: Seq<(Seq<char>, YamlV)>,
    key: Seq<char>,
)
    ensures
        mapping_get_spec(es1 + es2, key) == (match mapping_get_spec(es1, key) {
            Some(x) => Some(x),
            None => mapping_get_spec(es2, key),
        }),
    decreases es1.len(),
{
    if es1.len() == 0 {
        assert(es1 + es2 =~= es2);
    } else {
        assert((es1 + es2)[0] == es1[0]);
        assert((es1 + es2).len() > 0);
        if es1[0].0 == key {
        } else {
            assert((es1 + es2).drop_first() =~= es1.drop_first() + es2);
            lemma_get_append(es1.drop_first(), es2, key);
        }
    }
}

proof fn lemma_get_single(entry: (Seq<char>, YamlV), key: Seq<char>)
    ensures
        mapping_get_spec(seq![entry], key) == (if entry.0 == key {
            Some(entry.1)
        } else {
            None::<YamlV>
        }),
{
    let es = seq![entry];
    assert(es[0] == entry);
    if entry.0 != key {
        assert(es.drop_first() =~= Seq::<(Seq<char>, YamlV)>::empty());
        assert(mapping_get_spec(Seq::<(Seq<char>, YamlV)>::empty(), key) is None);
    }
}

/// Lookup in an optional singleton: the entry answers for its own key.
proof fn lemma_get_opt_entry(ekey: Seq<char>, val: Option<YamlV>, key: Seq<char>)
    ensures
        mapping_get_spec(opt_entry(ekey, val), key) == (if key == ekey {
            val
        } else {
            None::<YamlV>
        }),
{
    match val {
        Some(v) => {
            lemma_get_single((ekey, v), key);
        },
        None => {
            assert(mapping_get_spec(Seq::<(Seq<char>, YamlV)>::empty(), key) is None);
        },
    }
}

proof fn lemma_at_key_append(
    es1: Seq<(Seq<char>, YamlV)>,
    es2: Seq<(Seq<char>, YamlV)>,
    key: Seq<char>,
    path: Seq<char>,
)
    ensures
        compile_at_key_spec(es1 + es2, key, path) == (match compile_at_key_spec(es1, key, path) {
            Some(x) => Some(x),
            None => compile_at_key_spec(es2, key, path),
        }),
    decreases es1.len(),
{
    if es1.len() == 0 {
        assert(es1 + es2 =~= es2);
    } else {
        assert((es1 + es2)[0] == es1[0]);
        if es1[0].0 == key {
        } else {
            assert((es1 + es2).drop_first() =~= es1.drop_first() + es2);
            lemma_at_key_append(es1.drop_first(), es2, key, path);
        }
    }
}

proof fn lemma_at_key_single(entry: (Seq<char>, YamlV), key: Seq<char>, path: Seq<char>)
    ensures
        compile_at_key_spec(seq![entry], key, path) == (if entry.0 == key {
            Some(compile_spec(entry.1, path))
        } else {
            None::<Result<NodeV, Seq<char>>>
        }),
{
    let es = seq![entry];
    assert(es[0] == entry);
    if entry.0 != key {
        assert(es.drop_first() =~= Seq::<(Seq<char>, YamlV)>::empty());
        assert(compile_at_key_spec(Seq::<(Seq<char>, YamlV)>::empty(), key, path) is None);
    }
}

/// A lookup in a canonical node's mapping: the `+type` entry answers for
/// `+type`, everything else is answered by the body.
proof fn lemma_get_canonical(tagv: Seq<char>, body: Seq<(Seq<char>, YamlV)>, key: Seq<char>)
    ensures
        mapping_get_spec(seq![("+type"@, YamlV::String(tagv))] + body, key) == (if key == "+type"@ {
            Some(YamlV::String(tagv))
        } else {
            mapping_get_spec(body, key)
        }),
{
    lemma_get_append(seq![("+type"@, YamlV::String(tagv))], body, key);
    lemma_get_single(("+type"@, YamlV::String(tagv)), key);
}

// ---------------------------------------------------------------------------
// The round trip: canonical form recompiles to the same tree
// ---------------------------------------------------------------------------
/// Concrete lengths and distinguishing characters of the schema's reserved
/// words, so that their disequalities are available to the round-trip proofs.
proof fn lemma_schema_words()
    ensures
        "Object"@.len() == 6,
        "Object"@[0] == 'O',
        "Object"@[5] == 't',
        "String"@.len() == 6,
        "String"@[0] == 'S',
        "String"@[5] == 'g',
        "Integer"@.len() == 7,
        "Integer"@[0] == 'I',
        "Integer"@[6] == 'r',
        "Decimal"@.len() == 7,
        "Decimal"@[0] == 'D',
        "Decimal"@[6] == 'l',
        "Float"@.len() == 5,
        "Float"@[4] == 't',
        "List"@.len() == 4,
        "List"@[0] == 'L',
        "List"@[3] == 't',
        "Map"@.len() == 3,
        "Map"@[2] == 'p',
        "Bool"@.len() == 4,
        "Bool"@[0] == 'B',
        "Bool"@[3] == 'l',
        "Boolean"@.len() == 7,
        "Boolean"@[0] == 'B',
        "Boolean"@[6] == 'n',
        "Date"@.len() == 4,
        "Date"@[0] == 'D',
        "Date"@[3] == 'e',
        "?"@.len() == 1,
        "?"@[0] == '?',
        "+type"@.len() == 5,
        "+regex"@.len() == 6,
        "+MaxLength"@.len() == 10,
        "+MaxLength"@[1] == 'M',
        "+MaxLength"@[2] == 'a',
        "+maxLength"@.len() == 10,
        "+maxLength"@[1] == 'm',
        "+maxLength"@[2] == 'a',
        "+max_length"@.len() == 11,
        "+max_length"@[2] == 'a',
        "+MinLength"@.len() == 10,
        "+MinLength"@[1] == 'M',
        "+MinLength"@[2] == 'i',
        "+minLength"@.len() == 10,
        "+minLength"@[1] == 'm',
        "+minLength"@[2] == 'i',
        "+min_length"@.len() == 11,
        "+min_length"@[2] == 'i',
        "+min"@.len() == 4,
        "+min"@[2] == 'i',
        "+max"@.len() == 4,
        "+max"@[2] == 'a',
        "+KeyType"@.len() == 8,
        "+ValueType"@.len() == 10,
        "+ValueType"@[1] == 'V',
{
    reveal_strlit("Object");
    reveal_strlit("String");
    reveal_strlit("Integer");
    reveal_strlit("Decimal");
    reveal_strlit("Float");
    reveal_strlit("List");
    reveal_strlit("Map");
    reveal_strlit("Bool");
    reveal_strlit("Boolean");
    reveal_strlit("Date");
    reveal_strlit("?");
    reveal_strlit("+type");
    reveal_strlit("+regex");
    reveal_strlit("+MaxLength");
    reveal_strlit("+maxLength");
    reveal_strlit("+max_length");
    reveal_strlit("+MinLength");
    reveal_strlit("+minLength");
    reveal_strlit("+min_length");
    reveal_strlit("+min");
    reveal_strlit("+max");
    reveal_strlit("+KeyType");
    reveal_strlit("+ValueType");
}

/// Dispatch on a canonical node's mapping rebuilds exactly that node,
/// whatever string sits in the `+type` slot and whatever tag is reported in
/// diagnostics.
#[verifier::rlimit(100)]
proof fn lemma_dispatch_round(v: NodeV, tagv: Seq<char>, tagm: Seq<char>, path: Seq<char>)
    requires
        wf_node(v),
        !(v is Nullable),
    ensures
        compile_dispatch_spec(
            YamlV::Mapping(seq![("+type"@, YamlV::String(tagv))] + canonical_body(v)),
            tagm,
            tag_text(v),
            path,
        ) == Ok::<NodeV, Seq<char>>(v),
    decreases v, 1int,
{
    lemma_schema_words();
    let body = canonical_body(v);
    let te = ("+type"@, YamlV::String(tagv));
    let es = seq![te] + body;
    match v {
        NodeV::Object(fields) => {
            assert(es.len() > 0 && es[0] == te);
            assert(es.drop_first() =~= canonical_fields(fields));
            lemma_fields_round(fields, path);
        },
        NodeV::String { regex, max_length, min_length } => {
            let rs = opt_entry("+regex"@, str_opt_val(regex));
            let ms = opt_entry("+MaxLength"@, int_opt_val(max_length));
            let is_ = opt_entry("+MinLength"@, int_opt_val(min_length));
            assert(body == (rs + ms) + is_);
            lemma_get_canonical(tagv, body, "+regex"@);
            lemma_get_canonical(tagv, body, "+MaxLength"@);
            lemma_get_canonical(tagv, body, "+maxLength"@);
            lemma_get_canonical(tagv, body, "+max_length"@);
            lemma_get_canonical(tagv, body, "+MinLength"@);
            lemma_get_canonical(tagv, body, "+minLength"@);
            lemma_get_canonical(tagv, body, "+min_length"@);
            lemma_get_append(rs + ms, is_, "+regex"@);
            lemma_get_append(rs + ms, is_, "+MaxLength"@);
            lemma_get_append(rs + ms, is_, "+maxLength"@);
            lemma_get_append(rs + ms, is_, "+max_length"@);
            lemma_get_append(rs + ms, is_, "+MinLength"@);
            lemma_get_append(rs + ms, is_, "+minLength"@);
            lemma_get_append(rs + ms, is_, "+min_length"@);
            lemma_get_append(rs, ms, "+regex"@);
            lemma_get_append(rs, ms, "+MaxLength"@);
            lemma_get_append(rs, ms, "+maxLength"@);
            lemma_get_append(rs, ms, "+max_length"@);
            lemma_get_append(rs, ms, "+MinLength"@);
            lemma_get_append(rs, ms, "+minLength"@);
            lemma_get_append(rs, ms, "+min_length"@);
            lemma_get_opt_entry("+regex"@, str_opt_val(regex), "+regex"@);
            lemma_get_opt_entry("+regex"@, str_opt_val(regex), "+MaxLength"@);
            lemma_get_opt_entry("+regex"@, str_opt_val(regex), "+maxLength"@);
            lemma_get_opt_entry("+regex"@, str_opt_val(regex), "+max_length"@);
            lemma_get_opt_entry("+regex"@, str_opt_val(regex), "+MinLength"@);
            lemma_get_opt_entry("+regex"@, str_opt_val(regex), "+minLength"@);
            lemma_get_opt_entry("+regex"@, str_opt_val(regex), "+min_length"@);
            lemma_get_opt_entry("+MaxLength"@, int_opt_val(max_length), "+regex"@);
            lemma_get_opt_entry("+MaxLength"@, int_opt_val(max_length), "+MaxLength"@);
            lemma_get_opt_entry("+MaxLength"@, int_opt_val(max_length), "+maxLength"@);
            lemma_get_opt_entry("+MaxLength"@, int_opt_val(max_length), "+max_length"@);
            lemma_get_opt_entry("+MaxLength"@, int_opt_val(max_length), "+MinLength"@);
            lemma_get_opt_entry("+MaxLength"@, int_opt_val(max_length), "+minLength"@);
            lemma_get_opt_entry("+MaxLength"@, int_opt_val(max_length), "+min_length"@);
            lemma_get_opt_entry("+MinLength"@, int_opt_val(min_length), "+regex"@);
            lemma_get_opt_entry("+MinLength"@, int_opt_val(min_length), "+MaxLength"@);
            lemma_get_opt_entry("+MinLength"@, int_opt_val(min_length), "+maxLength"@);
            lemma_get_opt_entry("+MinLength"@, int_opt_val(min_length), "+max_length"@);
            lemma_get_opt_entry("+MinLength"@, int_opt_val(min_length), "+MinLength"@);
            lemma_get_opt_entry("+MinLength"@, int_opt_val(min_length), "+minLength"@);
            lemma_get_opt_entry("+MinLength"@, int_opt_val(min_length), "+min_length"@);
            assert(mapping_get_spec(es, "+regex"@) == str_opt_val(regex));
            assert(mapping_get_spec(es, "+MaxLength"@) == int_opt_val(max_length));
            assert(mapping_get_spec(es, "+maxLength"@) is None);
            assert(mapping_get_spec(es, "+max_length"@) is None);
            assert(mapping_get_spec(es, "+MinLength"@) == int_opt_val(min_length));
            assert(mapping_get_spec(es, "+minLength"@) is None);
            assert(mapping_get_spec(es, "+min_length"@) is None);
            assert(crate::compile::int_bound_at(es, "+MaxLength"@) == max_length);
            assert(crate::compile::int_bound_at(es, "+MinLength"@) == min_length);
            assert((match mapping_get_spec(es, "+regex"@) {
                Some(YamlV::String(r)) => Some(r),
                _ => None::<Seq<char>>,
            }) == regex);
            assert(compile_string_spec(es) == Ok::<NodeV, Seq<char>>(v));
        },
        NodeV::Integer { minimum, maximum } => {
            let mi = opt_entry("+min"@, int_opt_val(minimum));
            let ma = opt_entry("+max"@, int_opt_val(maximum));
            assert(body == mi + ma);
            lemma_get_canonical(tagv, body, "+min"@);
            lemma_get_canonical(tagv, body, "+max"@);
            lemma_get_append(mi, ma, "+min"@);
            lemma_get_append(mi, ma, "+max"@);
            lemma_get_opt_entry("+min"@, int_opt_val(minimum), "+min"@);
            lemma_get_opt_entry("+min"@, int_opt_val(minimum), "+max"@);
            lemma_get_opt_entry("+max"@, int_opt_val(maximum), "+min"@);
            lemma_get_opt_entry("+max"@, int_opt_val(maximum), "+max"@);
        },
        NodeV::Decimal { minimum, maximum } => {
            let mi = opt_entry("+min"@, dec_opt_val(minimum));
            let ma = opt_entry("+max"@, dec_opt_val(maximum));
            assert(body == mi + ma);
            lemma_get_canonical(tagv, body, "+min"@);
            lemma_get_canonical(tagv, body, "+max"@);
            lemma_get_append(mi, ma, "+min"@);
            lemma_get_append(mi, ma, "+max"@);
            lemma_get_opt_entry("+min"@, dec_opt_val(minimum), "+min"@);
            lemma_get_opt_entry("+min"@, dec_opt_val(minimum), "+max"@);
            lemma_get_opt_entry("+max"@, dec_opt_val(maximum), "+min"@);
            lemma_get_opt_entry("+max"@, dec_opt_val(maximum), "+max"@);
        },
        NodeV::List(elem) => {
            let ve = ("+ValueType"@, canonical_spec(*elem));
            assert(body == seq![ve]);
            lemma_at_key_append(seq![te], body, "+ValueType"@, path);
            lemma_at_key_single(te, "+ValueType"@, path);
            lemma_at_key_single(ve, "+ValueType"@, path);
            lemma_canonical_ok(*elem, path);
        },
        NodeV::Dict { key_type, value_type } => {
            let ke = ("+KeyType"@, canonical_spec(*key_type));
            let ve = ("+ValueType"@, canonical_spec(*value_type));
            assert(body =~= seq![ke] + seq![ve]);
            let kp = path + " -> +KeyType"@;
            let vp = path + " -> +ValueType"@;
            lemma_at_key_append(seq![te], body, "+KeyType"@, kp);
            lemma_at_key_append(seq![ke], seq![ve], "+KeyType"@, kp);
            lemma_at_key_single(te, "+KeyType"@, kp);
            lemma_at_key_single(ke, "+KeyType"@, kp);
            lemma_at_key_append(seq![te], body, "+ValueType"@, vp);
            lemma_at_key_append(seq![ke], seq![ve], "+ValueType"@, vp);
            lemma_at_key_single(te, "+ValueType"@, vp);
            lemma_at_key_single(ke, "+ValueType"@, vp);
            lemma_at_key_single(ve, "+ValueType"@, vp);
            lemma_canonical_ok(*key_type, kp);
            lemma_canonical_ok(*value_type, vp);
        },
        NodeV::Boolean => {},
        NodeV::Date => {},
        NodeV::Nullable(..) => {},
    }
}

/// The canonical spelling of an `Object`'s fields recompiles to those fields.
proof fn lemma_fields_round(fields: Seq<(Seq<char>, NodeV)>, path: Seq<char>)
    requires
        wf_fields(fields),
    ensures
        compile_fields_spec(canonical_fields(fields), path) == Ok::<
            Seq<(Seq<char>, NodeV)>,
            Seq<char>,
        >(fields),
    decreases fields, 0int,
{
    let cf = canonical_fields(fields);
    if fields.len() == 0 {
        assert(fields =~= Seq::<(Seq<char>, NodeV)>::empty());
    } else {
        let name = fields[0].0;
        let child = fields[0].1;
        assert(cf[0] == (name, canonical_spec(child)));
        assert(cf.len() > 0);
        assert(cf.drop_first() =~= canonical_fields(fields.drop_first()));
        assert(decreases_to!(fields => fields[0]));
        lemma_canonical_ok(child, path + " -> "@ + name);
        assert(fields.drop_first() =~= fields.subrange(1, fields.len() as int));
        assert(decreases_to!(fields => fields.subrange(1, fields.len() as int)));
        lemma_fields_round(fields.drop_first(), path);
        assert(seq![(name, child)] + fields.drop_first() =~= fields);
    }
}

/// The canonical spelling of any well-formed node recompiles to that node.
pub proof fn lemma_canonical_ok(v: NodeV, path: Seq<char>)
    requires
        wf_node(v),
    ensures
        compile_spec(canonical_spec(v), path) == Ok::<NodeV, Seq<char>>(v),
    decreases v, 2int,
{
    lemma_schema_words();
    let tag = tag_text(v);
    lemma_get_canonical(tag, canonical_body(v), "+type"@);
    assert(tag_of(canonical_spec(v)) == Some(tag));
    match v {
        NodeV::Nullable(inner) => {
            assert(tag == tag_text(*inner) + "?"@);
            assert("?"@ =~= seq!['?']);
            assert(tag.len() > 0);
            assert(tag.last() == '?');
            assert(tag.drop_last() =~= tag_text(*inner));
            lemma_dispatch_round(*inner, tag, tag, path);
        },
        _ => {
            assert(tag.len() > 0);
            assert(tag.last() != '?');
            lemma_dispatch_round(v, tag, tag, path);
        },
    }
}

// ---------------------------------------------------------------------------
// Everything the compiler returns is well-formed
// ---------------------------------------------------------------------------
proof fn lemma_dispatch_wf(y: YamlV, tag: Seq<char>, bare: Seq<char>, path: Seq<char>)
    ensures
        compile_dispatch_spec(y, tag, bare, path) matches Ok(n) ==> wf_node(n) && !(n is Nullable),
    decreases y, 1int,
{
    match y {
        YamlV::Mapping(es) => {
            lemma_fields_wf(es, path);
            lemma_at_key_wf(es, "+ValueType"@, path);
            lemma_at_key_wf(es, "+KeyType"@, path + " -> +KeyType"@);
            lemma_at_key_wf(es, "+ValueType"@, path + " -> +ValueType"@);
        },
        _ => {},
    }
}

proof fn lemma_fields_wf(entries: Seq<(Seq<char>, YamlV)>, path: Seq<char>)
    ensures
        compile_fields_spec(entries, path) matches Ok(fs) ==> wf_fields(fs),
    decreases entries, 0int,
{
    if entries.len() > 0 {
        assert(decreases_to!(entries => entries[0]));
        lemma_compile_wf_node(entries[0].1, path + " -> "@ + entries[0].0);
        assert(entries.drop_first() =~= entries.subrange(1, entries.len() as int));
        assert(decreases_to!(entries => entries.subrange(1, entries.len() as int)));
        lemma_fields_wf(entries.drop_first(), path);
        if entries[0].0 != "+type"@ && compile_fields_spec(entries, path) is Ok {
            let fs = compile_fields_spec(entries, path)->Ok_0;
            let node = compile_spec(entries[0].1, path + " -> "@ + entries[0].0)->Ok_0;
            let rest = compile_fields_spec(entries.drop_first(), path)->Ok_0;
            assert(fs == seq![(entries[0].0, node)] + rest);
            assert(fs.len() > 0);
            assert(fs[0] == (entries[0].0, node));
            assert(fs.drop_first() =~= rest);
        }
    }
}

proof fn lemma_at_key_wf(entries: Seq<(Seq<char>, YamlV)>, key: Seq<char>, path: Seq<char>)
    ensures
        compile_at_key_spec(entries, key, path) matches Some(r) ==> (r matches Ok(n) ==> wf_node(
            n,
        )),
    decreases entries, 0int,
{
    if entries.len() > 0 {
        if entries[0].0 == key {
            assert(decreases_to!(entries => entries[0]));
            lemma_compile_wf_node(entries[0].1, path);
        } else {
            assert(entries.drop_first() =~= entries.subrange(1, entries.len() as int));
            assert(decreases_to!(entries => entries.subrange(1, entries.len() as int)));
            lemma_at_key_wf(entries.drop_first(), key, path);
        }
    }
}

/// Whatever the compiler accepts, it builds a well-formed tree.
pub proof fn lemma_compile_wf_node(y: YamlV, path: Seq<char>)
    ensures
        compile_spec(y, path) matches Ok(v) ==> wf_node(v),
    decreases y, 2int,
{
    if let Some(tag) = tag_of(y) {
        let nullable = tag.len() > 0 && tag.last() == '?';
        let bare = if nullable {
            tag.drop_last()
        } else {
            tag
        };
        lemma_dispatch_wf(y, tag, bare, path);
    }
}

/// Any schema that compiles successfully, re-serialized to the canonical
/// (non-abbreviated) form, recompiles to an equal validator tree.
pub proof fn lemma_canonical_round_trip(y: YamlV, path: Seq<char>, path2: Seq<char>)
    ensures
        compile_spec(y, path) matches Ok(v) ==> compile_spec(canonical_spec(v), path2) == Ok::<
            NodeV,
            Seq<char>,
        >(v),
{
    if compile_spec(y, path) is Ok {
        let v = compile_spec(y, path)->Ok_0;
        lemma_compile_wf_node(y, path);
        lemma_canonical_ok(v, path2);
    }
}



// ---------------------------------------------------------------------------
// The canonical writer
// ---------------------------------------------------------------------------
/// The canonical entries of an `Object`'s fields, built in order.
fn canonical_fields_vec(fields: &Vec<(String, AS3Validator)>) -> (r: Vec<(String, SchemaValue)>)
    ensures
        model_entries(r@) == canonical_fields(model_vfields(fields@)),
    decreases fields, 0int,
{
    proof {
        lemma_model_vfields(fields@);
        lemma_canonical_fields(model_vfields(fields@));
    }
    let mut out: Vec<(String, SchemaValue)> = Vec::new();
    let mut i: usize = 0;
    while i < fields.len()
        invariant
            0 <= i <= fields.len(),
            out@.len() == i,
            forall|j: int|
                #![all_triggers]
                0 <= j < i ==> out@[j].0@ == fields@[j].0@ && out@[j].1@ == canonical_spec(
                    fields@[j].1@,
                ),
        decreases fields@.len() - i,
    {
        proof {
            assert(decreases_to!((*fields) => (*fields)[i as int]));
        }
        let name = fields[i].0.clone();
        let node = fields[i].1.to_canonical();
        out.push((name, node));
        i += 1;
    }
    proof {
        lemma_model_entries(out@);
        lemma_model_vfields(fields@);
        lemma_canonical_fields(model_vfields(fields@));
        assert(model_entries(out@) =~= canonical_fields(model_vfields(fields@)));
    }
    out
}

impl AS3Validator {
    /// The canonical tag of this node, `?`-suffixed under `Nullable`.
    fn tag_string(&self) -> (r: String)
        ensures
            r@ == tag_text(self@),
        decreases self, 0int,
    {
        match self {
            AS3Validator::Object(..) => "Object".to_owned(),
            AS3Validator::String { .. } => "String".to_owned(),
            AS3Validator::Integer { .. } => "Integer".to_owned(),
            AS3Validator::Decimal { .. } => "Decimal".to_owned(),
            AS3Validator::List(..) => "List".to_owned(),
            AS3Validator::Dict { .. } => "Map".to_owned(),
            AS3Validator::Boolean => "Bool".to_owned(),
            AS3Validator::Date => "Date".to_owned(),
            AS3Validator::Nullable(inner) => {
                let mut t = inner.tag_string();
                t.append("?");
                t
            },
        }
    }

    /// The canonical entries that follow the `+type` entry.
    fn body_entries(&self) -> (r: Vec<(String, SchemaValue)>)
        ensures
            model_entries(r@) == canonical_body(self@),
        decreases self, 0int,
    {
        match self {
            AS3Validator::Object(fields) => canonical_fields_vec(fields),
            AS3Validator::String { regex, max_length, min_length } => {
                let mut out: Vec<(String, SchemaValue)> = Vec::new();
                if let Some(re) = regex {
                    out.push(("+regex".to_owned(), SchemaValue::String(re.clone())));
                }
                if let Some(m) = max_length {
                    out.push(
                        (
                            "+MaxLength".to_owned(),
                            SchemaValue::Number(SchemaNum { as_int: Some(*m), as_dec: None }),
                        ),
                    );
                }
                if let Some(m) = min_length {
                    out.push(
                        (
                            "+MinLength".to_owned(),
                            SchemaValue::Number(SchemaNum { as_int: Some(*m), as_dec: None }),
                        ),
                    );
                }
                proof {
                    lemma_model_entries(out@);
                    assert(model_entries(out@) =~= opt_entry(
                        "+regex"@,
                        str_opt_val(crate::validator::view_opt_string(*regex)),
                    ) + opt_entry("+MaxLength"@, int_opt_val(*max_length)) + opt_entry(
                        "+MinLength"@,
                        int_opt_val(*min_length),
                    ));
                }
                out
            },
            AS3Validator::Integer { minimum, maximum } => {
                let mut out: Vec<(String, SchemaValue)> = Vec::new();
                if let Some(m) = minimum {
                    out.push(
                        (
                            "+min".to_owned(),
                            SchemaValue::Number(SchemaNum { as_int: Some(*m), as_dec: None }),
                        ),
                    );
                }
                if let Some(m) = maximum {
                    out.push(
                        (
                            "+max".to_owned(),
                            SchemaValue::Number(SchemaNum { as_int: Some(*m), as_dec: None }),
                        ),
                    );
                }
                proof {
                    lemma_model_entries(out@);
                    assert(model_entries(out@) =~= opt_entry("+min"@, int_opt_val(*minimum))
                        + opt_entry("+max"@, int_opt_val(*maximum)));
                }
                out
            },
            AS3Validator::Decimal { minimum, maximum } => {
                let mut out: Vec<(String, SchemaValue)> = Vec::new();
                if let Some(d) = minimum {
                    out.push(
                        (
                            "+min".to_owned(),
                            SchemaValue::Number(
                                SchemaNum { as_int: None, as_dec: Some(d.duplicate()) },
                            ),
                        ),
                    );
                }
                if let Some(d) = maximum {
                    out.push(
                        (
                            "+max".to_owned(),
                            SchemaValue::Number(
                                SchemaNum { as_int: None, as_dec: Some(d.duplicate()) },
                            ),
                        ),
                    );
                }
                proof {
                    lemma_model_entries(out@);
                    assert(model_entries(out@) =~= opt_entry(
                        "+min"@,
                        dec_opt_val(crate::validator::view_opt_dec(*minimum)),
                    ) + opt_entry("+max"@, dec_opt_val(crate::validator::view_opt_dec(*maximum))));
                }
                out
            },
            AS3Validator::List(elem) => {
                let mut out: Vec<(String, SchemaValue)> = Vec::new();
                out.push(("+ValueType".to_owned(), elem.to_canonical()));
                proof {
                    lemma_model_entries(out@);
                    assert(model_entries(out@) =~= canonical_body(self@));
                }
                out
            },
            AS3Validator::Dict { key_type, value_type } => {
                let mut out: Vec<(String, SchemaValue)> = Vec::new();
                out.push(("+KeyType".to_owned(), key_type.to_canonical()));
                out.push(("+ValueType".to_owned(), value_type.to_canonical()));
                proof {
                    lemma_model_entries(out@);
                    assert(model_entries(out@) =~= canonical_body(self@));
                }
                out
            },
            AS3Validator::Boolean => Vec::new(),
            AS3Validator::Date => Vec::new(),
            AS3Validator::Nullable(inner) => inner.body_entries(),
        }
    }

    /// Writes this compiled node back in the canonical, non-abbreviated form
    /// of the definition language.
    pub fn to_canonical(&self) -> (r: SchemaValue)
        ensures
            r@ == canonical_spec(self@),
        decreases self, 1int,
    {
        let tag = self.tag_string();
        let mut entries: Vec<(String, SchemaValue)> = Vec::new();
        entries.push(("+type".to_owned(), SchemaValue::String(tag)));
        let mut body = self.body_entries();
        let ghost b0 = body@;
        entries.append(&mut body);
        proof {
            lemma_model_entries(entries@);
            lemma_model_entries(b0);
            assert(model_entries(entries@) =~= seq![
                ("+type"@, YamlV::String(tag_text(self@))),
            ] + model_entries(b0));
        }
        SchemaValue::Mapping(entries)
    }
}

} // verus!
