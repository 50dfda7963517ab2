//! Laws of the engine, stated over its specification: determinism, the
//! treatment of null, inclusive bounds, and key coercion.

use vstd::prelude::*;

use crate::data::{AS3Data, DataV};
use crate::decimal::DecV;
use crate::engine::{check_spec, key_coercion_spec};
use crate::error::{path_message_spec, res_model, As3JsonPath, ErrV, NumberV, PathErrV};
use crate::text::parse_i64_spec;
use crate::validator::{AS3Validator, NodeV};

verus! {

/// Validation is deterministic: any two outcomes that meet `validate`'s
/// contract for the same node and data are the same outcome.
pub proof fn lemma_validate_deterministic(
    node: &AS3Validator,
    data: &AS3Data,
    r1: Result<(), As3JsonPath>,
    r2: Result<(), As3JsonPath>,
)
    requires
        res_model(r1) == check_spec(node@, data@, "ROOT"@),
        res_model(r2) == check_spec(node@, data@, "ROOT"@),
    ensures
        res_model(r1) == res_model(r2),
{
}

/// Null against `Nullable(node)` always passes; null against any node that is
/// not itself `Nullable` always fails with `NotNullableNull` at that path.
pub proof fn lemma_nullable_null(node: NodeV, path: Seq<char>)
    ensures
        check_spec(NodeV::Nullable(Box::new(node)), DataV::Null, path) == Ok::<(), PathErrV>(()),
        !(node is Nullable) ==> check_spec(node, DataV::Null, path) == Err::<(), PathErrV>(
            PathErrV { path, err: ErrV::NotNullableNull },
        ),
{
}

/// Integer bounds are inclusive: a value passes exactly when it is at least
/// any declared minimum and at most any declared maximum, each bound counting
/// its own value in; below the minimum the failure is `Minimum`, above the
/// maximum `Maximum`, both carrying the value and the bound.
pub proof fn lemma_integer_bounds_inclusive(
    minimum: Option<i64>,
    maximum: Option<i64>,
    n: i64,
    path: Seq<char>,
)
    ensures
        check_spec(NodeV::Integer { minimum, maximum }, DataV::Integer(n), path) == (
        if minimum matches Some(m) && n < m {
            Err::<(), PathErrV>(
                PathErrV {
                    path,
                    err: ErrV::Minimum {
                        number: NumberV::Integer(n),
                        minimum: NumberV::Integer(minimum->0),
                    },
                },
            )
        } else if maximum matches Some(m) && n > m {
            Err::<(), PathErrV>(
                PathErrV {
                    path,
                    err: ErrV::Maximum {
                        number: NumberV::Integer(n),
                        maximum: NumberV::Integer(maximum->0),
                    },
                },
            )
        } else {
            Ok(())
        }),
        check_spec(NodeV::Integer { minimum, maximum }, DataV::Integer(n), path) is Ok <==> ((
        minimum matches Some(m) ==> m <= n) && (maximum matches Some(m) ==> n <= m)),
{
}

/// Decimal bounds are inclusive in the encoded order: a value passes exactly
/// when its key is at least any declared minimum's and at most any declared
/// maximum's; below the minimum the failure is `Minimum`, above the maximum
/// `Maximum`.
pub proof fn lemma_decimal_bounds_inclusive(
    minimum: Option<DecV>,
    maximum: Option<DecV>,
    d: DecV,
    path: Seq<char>,
)
    ensures
        check_spec(NodeV::Decimal { minimum, maximum }, DataV::Decimal(d), path) == (
        if minimum matches Some(m) && d.key < m.key {
            Err::<(), PathErrV>(
                PathErrV {
                    path,
                    err: ErrV::Minimum {
                        number: NumberV::Decimal(d),
                        minimum: NumberV::Decimal(minimum->0),
                    },
                },
            )
        } else if maximum matches Some(m) && d.key > m.key {
            Err::<(), PathErrV>(
                PathErrV {
                    path,
                    err: ErrV::Maximum {
                        number: NumberV::Decimal(d),
                        maximum: NumberV::Decimal(maximum->0),
                    },
                },
            )
        } else {
            Ok(())
        }),
        check_spec(NodeV::Decimal { minimum, maximum }, DataV::Decimal(d), path) is Ok <==> ((
        minimum matches Some(m) ==> m.key <= d.key) && (maximum matches Some(m) ==> d.key
            <= m.key)),
{
}

/// Coercion of a keyed container's key to an `Integer` key type: a key that
/// does not parse as a signed 64-bit integer is always rejected with the
/// coercion message, whatever the bounds; one that parses round-trips into
/// ordinary integer validation, so it is accepted exactly when the parsed
/// value satisfies the inclusive bounds, and a bound violation is rejected
/// with the rendered `Minimum`/`Maximum` message.
pub proof fn lemma_integer_key_coercion(
    minimum: Option<i64>,
    maximum: Option<i64>,
    key: Seq<char>,
    path: Seq<char>,
)
    ensures
        parse_i64_spec(key) is None ==> key_coercion_spec(
            NodeV::Integer { minimum, maximum },
            key,
            path,
        ) == Err::<(), Seq<char>>("The Key `"@ + key + "` can't be converted to an Integer"@),
        parse_i64_spec(key) matches Some(n) ==> key_coercion_spec(
            NodeV::Integer { minimum, maximum },
            key,
            path,
        ) == (match check_spec(NodeV::Integer { minimum, maximum }, DataV::Integer(n), path) {
            Ok(_) => Ok::<(), Seq<char>>(()),
            Err(e) => Err(path_message_spec(e)),
        }),
        (parse_i64_spec(key) matches Some(n) && (minimum matches Some(m) ==> n >= m) && (
        maximum matches Some(m) ==> n <= m)) ==> key_coercion_spec(
            NodeV::Integer { minimum, maximum },
            key,
            path,
        ) is Ok,
{
}

} // verus!

