use as3::cli::check_file_path;
use as3::data::AS3Data;
use as3::decimal::DecValue;
use as3::error::{AS3ValidationError, As3JsonPath, Number};
use as3::schema::{SchemaNum, SchemaValue};
use as3::validator::AS3Validator;

fn dec_key(x: f64) -> u64 {
    let x = if x == 0.0 { 0.0 } else { x };
    let bits = x.to_bits();
    if bits & 0x8000_0000_0000_0000 != 0 {
        !bits
    } else {
        bits | 0x8000_0000_0000_0000
    }
}

fn dec_value(x: f64) -> DecValue {
    DecValue {
        key: dec_key(x),
        text: format!("{}", x),
    }
}

fn json_to_data(v: &serde_json::Value) -> AS3Data {
    match v {
        serde_json::Value::Object(map) => AS3Data::Object(
            map.iter()
                .map(|(k, val)| (k.clone(), json_to_data(val)))
                .collect(),
        ),
        serde_json::Value::Array(items) => AS3Data::List(items.iter().map(json_to_data).collect()),
        serde_json::Value::String(s) => AS3Data::String(s.clone()),
        serde_json::Value::Number(n) => match n.as_i64() {
            Some(i) => AS3Data::Integer(i),
            None => AS3Data::Decimal(dec_value(n.as_f64().unwrap())),
        },
        serde_json::Value::Bool(b) => AS3Data::Boolean(*b),
        serde_json::Value::Null => AS3Data::Null,
    }
}

fn yaml_to_schema(v: &serde_yaml::Value) -> SchemaValue {
    match v {
        serde_yaml::Value::Mapping(m) => SchemaValue::Mapping(
            m.iter()
                .map(|(k, val)| (k.as_str().unwrap().to_string(), yaml_to_schema(val)))
                .collect(),
        ),
        serde_yaml::Value::String(s) => SchemaValue::String(s.clone()),
        serde_yaml::Value::Number(n) => SchemaValue::Number(SchemaNum {
            as_int: n.as_i64(),
            as_dec: n.as_f64().map(dec_value),
        }),
        serde_yaml::Value::Bool(b) => SchemaValue::Bool(*b),
        serde_yaml::Value::Sequence(items) => {
            SchemaValue::Sequence(items.iter().map(yaml_to_schema).collect())
        }
        serde_yaml::Value::Null => SchemaValue::Null,
        // A tagged node has no place in a definition; hand it on as a value
        // the compiler refuses ("Type definition missing").
        serde_yaml::Value::Tagged(..) => SchemaValue::Null,
    }
}

fn compile(yaml: &str) -> Result<AS3Validator, String> {
    let parsed: serde_yaml::Value = serde_yaml::from_str(yaml).unwrap();
    AS3Validator::from(&yaml_to_schema(&parsed))
}

fn data(json: &str) -> AS3Data {
    json_to_data(&serde_json::from_str(json).unwrap())
}

#[test]
fn scenario_minimum_with_path() {
    let v = compile(
        r#"
        Root:
            +type: Object
            age:
                +type: Integer
                +min: 20
    "#,
    )
    .unwrap();
    assert_eq!(
        v.validate(&data(r#"{"age": 18}"#)),
        Err(As3JsonPath(
            "ROOT -> age".to_owned(),
            AS3ValidationError::Minimum {
                number: Number::Integer(18),
                minimum: Number::Integer(20),
            }
        ))
    );
}

#[test]
fn scenario_regex_error_with_path() {
    let v = compile(
        r#"
        Root:
            +type: Object
            name:
                +type: String
                +regex: "^[A-Z][a-z]"
    "#,
    )
    .unwrap();
    assert_eq!(
        v.validate(&data(r#"{"name": "bob"}"#)),
        Err(As3JsonPath(
            "ROOT -> name".to_owned(),
            AS3ValidationError::RegexError {
                word: "bob".to_owned(),
                regex: "^[A-Z][a-z]".to_owned(),
            }
        ))
    );
}

#[test]
fn scenario_date_key_coercion() {
    let v = compile(
        r#"
        Root:
            +type: Map
            +KeyType:
                +type: Date
            +ValueType: String
    "#,
    )
    .unwrap();
    assert_eq!(
        v.validate(&data(r#"{"2020/10/15": "x"}"#)),
        Err(As3JsonPath(
            "ROOT -> 2020/10/15".to_owned(),
            AS3ValidationError::Generic(
                "The Key `2020/10/15` can't be converted to a Date".to_owned()
            )
        ))
    );
}

#[test]
fn scenario_list_missing_field() {
    let v = compile(
        r#"
        Root:
            +type: List
            +ValueType:
                +type: Object
                year: Integer
    "#,
    )
    .unwrap();
    let d = data(r#"[{"year": 2001}, {"anno": 2002}]"#);
    // The path names the missing field but carries no element index.
    assert_eq!(
        v.validate(&d),
        Err(As3JsonPath(
            "ROOT -> year".to_owned(),
            AS3ValidationError::MissingKey {
                key: "year".to_owned()
            }
        ))
    );
}

#[test]
fn scenario_abbreviated_schema() {
    let v = compile(
        r#"
        Root:
            +type: Object
            name: String
            age: Integer
    "#,
    )
    .unwrap();
    assert_eq!(v.validate(&data(r#"{"name": "Ada", "age": 36}"#)), Ok(()));
}

#[test]
fn canonical_form_recompiles_to_same_tree() {
    let v = compile(
        r#"
        Root:
            +type: Object
            name:
                +type: String
                +regex: "^[A-Z]"
                +MaxLength: 12
                +MinLength: 2
            age:
                +type: Integer
                +min: 0
                +max: 150
            height:
                +type: Decimal
                +min: 0.3
                +max: 2.8
            nickname: "String?"
            birth: Date
            tags:
                +type: List
                +ValueType: String
            relatives:
                +type: Map
                +KeyType: String
                +ValueType:
                    +type: Object
                    age: Integer
            active: Bool
            address:
                +type: "Object?"
                street: String
                number:
                    +type: "Integer?"
                    +min: 1
    "#,
    )
    .unwrap();
    let reparsed =
        AS3Validator::from(&SchemaValue::Mapping(vec![("Root".to_owned(), v.to_canonical())]))
            .unwrap();
    assert_eq!(v, reparsed);
}

#[test]
fn nullable_accepts_null_others_refuse_it() {
    let nullable = AS3Validator::Nullable(Box::new(AS3Validator::Integer {
        minimum: None,
        maximum: None,
    }));
    assert_eq!(nullable.validate(&AS3Data::Null), Ok(()));

    let plain = AS3Validator::Integer {
        minimum: None,
        maximum: None,
    };
    assert_eq!(
        plain.validate(&AS3Data::Null),
        Err(As3JsonPath(
            "ROOT".to_owned(),
            AS3ValidationError::NotNullableNull
        ))
    );
}

#[test]
fn nullable_suffix_compiles_to_wrapper() {
    let v = compile(
        r#"
        Root:
            +type: Object
            age: "Integer?"
    "#,
    )
    .unwrap();
    assert_eq!(
        v,
        AS3Validator::Object(vec![(
            "age".to_owned(),
            AS3Validator::Nullable(Box::new(AS3Validator::Integer {
                minimum: None,
                maximum: None,
            }))
        )])
    );
    assert_eq!(v.validate(&data(r#"{"age": null}"#)), Ok(()));
}

#[test]
fn integer_bounds_are_inclusive() {
    let v = compile(
        r#"
        Root:
            +type: Object
            age:
                +type: Integer
                +min: 20
                +max: 30
    "#,
    )
    .unwrap();
    assert_eq!(v.validate(&data(r#"{"age": 20}"#)), Ok(()));
    assert_eq!(v.validate(&data(r#"{"age": 30}"#)), Ok(()));
    assert_eq!(
        v.validate(&data(r#"{"age": 19}"#)).map_err(|e| e.1),
        Err(AS3ValidationError::Minimum {
            number: Number::Integer(19),
            minimum: Number::Integer(20),
        })
    );
    assert_eq!(
        v.validate(&data(r#"{"age": 31}"#)).map_err(|e| e.1),
        Err(AS3ValidationError::Maximum {
            number: Number::Integer(31),
            maximum: Number::Integer(30),
        })
    );
}

#[test]
fn decimal_bounds_are_inclusive() {
    let v = compile(
        r#"
        Root:
            +type: Object
            height:
                +type: Decimal
                +min: 1.5
                +max: 2.5
    "#,
    )
    .unwrap();
    assert_eq!(v.validate(&data(r#"{"height": 1.5}"#)), Ok(()));
    assert_eq!(v.validate(&data(r#"{"height": 2.5}"#)), Ok(()));
    assert_eq!(
        v.validate(&data(r#"{"height": 1.25}"#)).map_err(|e| e.1),
        Err(AS3ValidationError::Minimum {
            number: Number::Decimal(dec_value(1.25)),
            minimum: Number::Decimal(dec_value(1.5)),
        })
    );
    assert_eq!(
        v.validate(&data(r#"{"height": 2.75}"#)).map_err(|e| e.1),
        Err(AS3ValidationError::Maximum {
            number: Number::Decimal(dec_value(2.75)),
            maximum: Number::Decimal(dec_value(2.5)),
        })
    );
}

#[test]
fn decimal_bounds_accept_integer_spellings() {
    let v = compile(
        r#"
        Root:
            +type: Object
            height:
                +type: Decimal
                +min: 2
    "#,
    )
    .unwrap();
    assert_eq!(v.validate(&data(r#"{"height": 2.25}"#)), Ok(()));
    assert_eq!(
        v.validate(&data(r#"{"height": 1.9}"#)).map_err(|e| e.1),
        Err(AS3ValidationError::Minimum {
            number: Number::Decimal(dec_value(1.9)),
            minimum: Number::Decimal(dec_value(2.0)),
        })
    );
}

#[test]
fn integer_key_coercion_round_trips() {
    let v = compile(
        r#"
        Root:
            +type: Map
            +KeyType:
                +type: Integer
                +min: 0
            +ValueType: String
    "#,
    )
    .unwrap();
    assert_eq!(v.validate(&data(r#"{"3": "x", "+7": "y"}"#)), Ok(()));
    assert_eq!(
        v.validate(&data(r#"{"abc": "x"}"#)).map_err(|e| e.1),
        Err(AS3ValidationError::Generic(
            "The Key `abc` can't be converted to an Integer".to_owned()
        ))
    );
    assert_eq!(
        v.validate(&data(r#"{"-5": "x"}"#)).map_err(|e| e.1),
        Err(AS3ValidationError::Generic(
            " `-5` is under the minumum of `0`  . in [ROOT -> -5]. ".to_owned()
        ))
    );
}

#[test]
fn integer_keys_at_the_width_limits() {
    let v = compile(
        r#"
        Root:
            +type: Map
            +KeyType:
                +type: Integer
            +ValueType: String
    "#,
    )
    .unwrap();
    assert_eq!(
        v.validate(&data(
            r#"{"9223372036854775807": "a", "-9223372036854775808": "b"}"#
        )),
        Ok(())
    );
    assert_eq!(
        v.validate(&data(r#"{"9223372036854775808": "a"}"#))
            .map_err(|e| e.1),
        Err(AS3ValidationError::Generic(
            "The Key `9223372036854775808` can't be converted to an Integer".to_owned()
        ))
    );
}

#[test]
fn boolean_key_coercion() {
    let v = compile(
        r#"
        Root:
            +type: Map
            +KeyType: Bool
            +ValueType: String
    "#,
    )
    .unwrap();
    assert_eq!(
        v.validate(&data(r#"{"TRUE": "a", "false": "b", "1": "c", "0": "d"}"#)),
        Ok(())
    );
    assert_eq!(
        v.validate(&data(r#"{"yes": "a"}"#)).map_err(|e| e.1),
        Err(AS3ValidationError::Generic(
            "The Key `yes` can't be converted to a Boolean".to_owned()
        ))
    );
}

#[test]
fn unsupported_map_key_type() {
    let v = compile(
        r#"
        Root:
            +type: Map
            +KeyType:
                +type: Object
            +ValueType: String
    "#,
    )
    .unwrap();
    assert_eq!(
        v.validate(&data(r#"{"k": "x"}"#)).map_err(|e| e.1),
        Err(AS3ValidationError::Generic(
            "Usupported Map's KeyValue conversion. [Supported types : String, Integer, Bool, Date(YYYY-MM-DD) ]"
                .to_owned()
        ))
    );
}

#[test]
fn date_format_checks() {
    let v = compile(
        r#"
        Root:
            +type: Object
            birth: Date
    "#,
    )
    .unwrap();
    assert_eq!(v.validate(&data(r#"{"birth": "2021-02-30"}"#)), Ok(()));
    assert_eq!(v.validate(&data(r#"{"birth": "1999-12-31"}"#)), Ok(()));
    assert_eq!(
        v.validate(&data(r#"{"birth": "2020/10/15"}"#)).map_err(|e| e.1),
        Err(AS3ValidationError::Generic(
            " `2020/10/15` can't be converted to a valid date. [Supported YYYY-MM-DD] ".to_owned()
        ))
    );
    for bad in [
        "2021-13-01",
        "2021-00-10",
        "2021-01-00",
        "2021-01-32",
        "2021-1-01",
        "21-01-01",
        "2021-01-013",
    ] {
        assert!(
            v.validate(&data(&format!(r#"{{"birth": "{}"}}"#, bad))).is_err(),
            "{} should not be a valid date",
            bad
        );
    }
}

#[test]
fn string_length_bounds_count_characters() {
    let v = compile(
        r#"
        Root:
            +type: Object
            name:
                +type: String
                +MinLength: 3
                +MaxLength: 4
    "#,
    )
    .unwrap();
    assert_eq!(v.validate(&data(r#"{"name": "abc"}"#)), Ok(()));
    assert_eq!(v.validate(&data(r#"{"name": "éééé"}"#)), Ok(()));
    assert_eq!(
        v.validate(&data(r#"{"name": "ab"}"#)).map_err(|e| e.1),
        Err(AS3ValidationError::MinimumString {
            string: "ab".to_owned(),
            current_length: 2,
            min_length: 3,
        })
    );
    assert_eq!(
        v.validate(&data(r#"{"name": "abcde"}"#)).map_err(|e| e.1),
        Err(AS3ValidationError::MaximumString {
            string: "abcde".to_owned(),
            current_length: 5,
            max_length: 4,
        })
    );
}

#[test]
fn length_alias_conflicts_fail_compilation() {
    let err = compile(
        r#"
        Root:
            +type: String
            +MaxLength: 3
            +maxLength: 4
    "#,
    )
    .unwrap_err();
    assert_eq!(
        err,
        "Multiple field indicating the maximum length of a String have been passed : (+MaxLength,+maxLength)"
    );
    let err = compile(
        r#"
        Root:
            +type: String
            +minLength: 3
            +min_length: 4
    "#,
    )
    .unwrap_err();
    assert_eq!(
        err,
        "Multiple field indicating the minimum length of a String have been passed : (+minLength,+min_length)"
    );
}

#[test]
fn compile_rejects_malformed_definitions() {
    assert_eq!(
        compile("42").unwrap_err(),
        "Definition must start with a Yaml Mapping"
    );
    assert_eq!(
        compile("Other: String").unwrap_err(),
        "Missing root word `Root` from definition"
    );
    assert_eq!(
        compile(
            r#"
        Root:
            +type: List
    "#
        )
        .unwrap_err(),
        "List defined without the required `+ValueType` property"
    );
    assert_eq!(
        compile(
            r#"
        Root:
            +type: Map
            +KeyType: String
    "#
        )
        .unwrap_err(),
        "Map MUST have the `+KeyType` and `+ValueType` fields [ Root ] "
    );
    assert_eq!(
        compile(
            r#"
        Root:
            +type: Wibble
    "#
        )
        .unwrap_err(),
        " Wibble is an unsupported type"
    );
    assert_eq!(
        compile("Root: Object").unwrap_err(),
        " Object can't be used without the `+type` property"
    );
    assert_eq!(
        compile(
            r#"
        Root:
            age: Integer
    "#
        )
        .unwrap_err(),
        "Type definition missing for Root "
    );
}

#[test]
fn invalid_regex_is_reported_at_validation_time() {
    let v = compile(
        r#"
        Root:
            +type: Object
            name:
                +type: String
                +regex: "["
    "#,
    )
    .unwrap();
    assert_eq!(
        v.validate(&data(r#"{"name": "x"}"#)),
        Err(As3JsonPath(
            "ROOT -> name".to_owned(),
            AS3ValidationError::Generic("The regex `[` in the schema is not valid".to_owned())
        ))
    );
}

#[test]
fn messages_render_like_the_taxonomy() {
    let e = As3JsonPath(
        "ROOT".to_owned(),
        AS3ValidationError::Minimum {
            number: Number::Integer(18),
            minimum: Number::Integer(20),
        },
    );
    assert_eq!(e.to_message(), " `18` is under the minumum of `20`  . in [ROOT]. ");

    let e = AS3ValidationError::NotNullableNull;
    assert_eq!(e.to_message(), "field not set as not nullable but is a null");

    let e = AS3ValidationError::MaximumString {
        string: "abcde".to_owned(),
        current_length: 5,
        max_length: 4,
    };
    assert_eq!(
        e.to_message(),
        " abcde is 5 charcters long, above the max lenght allowed of 4 ."
    );

    let e = AS3ValidationError::Maximum {
        number: Number::Integer(-3),
        maximum: Number::Decimal(dec_value(-3.5)),
    };
    assert_eq!(e.to_message(), " `-3` is above the maximum of `-3.5` .");
}

#[test]
fn check_file_path_decides_from_the_answers() {
    assert_eq!(check_file_path("a.json", true, true), Ok("a.json".to_owned()));
    assert_eq!(
        check_file_path("dir", true, false),
        Err("The specified path \"dir\" is a folder and not a file".to_owned())
    );
    assert_eq!(
        check_file_path("gone", false, true),
        Err("The specified path \"gone\" doesn't exists".to_owned())
    );
    assert_eq!(
        check_file_path("gone", false, false),
        Err("The specified path \"gone\" is a folder and not a file".to_owned())
    );
}

#[test]
fn map_value_failure_wins_over_key_failure() {
    let v = compile(
        r#"
        Root:
            +type: Map
            +KeyType:
                +type: Integer
            +ValueType: Integer
    "#,
    )
    .unwrap();
    // The key would fail coercion too, but the value is checked first.
    assert_eq!(
        v.validate(&data(r#"{"abc": "x"}"#)).map_err(|e| e.1),
        Err(AS3ValidationError::TypeError {
            expected: AS3Validator::Integer {
                minimum: None,
                maximum: None,
            },
            got: AS3Data::String("x".to_owned()),
        })
    );
}

#[test]
fn first_failing_field_in_declared_order_is_reported() {
    let v = compile(
        r#"
        Root:
            +type: Object
            first: Integer
            second: Integer
    "#,
    )
    .unwrap();
    let d = data(r#"{"first": "a", "second": "b"}"#);
    assert_eq!(
        v.validate(&d).unwrap_err().0,
        "ROOT -> first".to_owned()
    );
}

#[test]
fn repeated_validation_gives_the_same_result() {
    let v = compile(
        r#"
        Root:
            +type: Object
            age:
                +type: Integer
                +min: 20
    "#,
    )
    .unwrap();
    let d = data(r#"{"age": 18}"#);
    assert_eq!(v.validate(&d), v.validate(&d));
    let ok = data(r#"{"age": 22}"#);
    assert_eq!(v.validate(&ok), v.validate(&ok));
}

#[test]
fn nullable_wrapper_only_admits_null() {
    // The dispatch table has no arm for a `Nullable` node with non-null data,
    // so such a pairing falls to the type-mismatch error.
    let v = AS3Validator::Nullable(Box::new(AS3Validator::Integer {
        minimum: None,
        maximum: None,
    }));
    assert_eq!(
        v.validate(&AS3Data::Integer(5)).map_err(|e| e.1),
        Err(AS3ValidationError::TypeError {
            expected: AS3Validator::Nullable(Box::new(AS3Validator::Integer {
                minimum: None,
                maximum: None,
            })),
            got: AS3Data::Integer(5),
        })
    );
}

#[test]
fn empty_containers_validate() {
    let v = compile(
        r#"
        Root:
            +type: Object
            items:
                +type: List
                +ValueType: Integer
            index:
                +type: Map
                +KeyType: String
                +ValueType: Integer
    "#,
    )
    .unwrap();
    assert_eq!(v.validate(&data(r#"{"items": [], "index": {}}"#)), Ok(()));
}

#[test]
fn only_the_exact_regex_key_is_honoured() {
    // `+Regex` is not a reserved key; the pattern below it is ignored.
    let v = compile(
        r#"
        Root:
            +type: Object
            name:
                +type: String
                +Regex: "^x"
    "#,
    )
    .unwrap();
    assert_eq!(v.validate(&data(r#"{"name": "Dilec"}"#)), Ok(()));
}

#[test]
fn missing_field_path_names_the_field() {
    let v = compile(
        r#"
        Root:
            +type: Object
            car:
                +type: Object
                maker: String
    "#,
    )
    .unwrap();
    assert_eq!(
        v.validate(&data(r#"{"car": {}}"#)),
        Err(As3JsonPath(
            "ROOT -> car -> maker".to_owned(),
            AS3ValidationError::MissingKey {
                key: "maker".to_owned()
            }
        ))
    );
}

#[test]
fn regex_must_match_the_whole_string() {
    let v = compile(
        r#"
        Root:
            +type: Object
            name:
                +type: String
                +regex: "[a-z]+"
    "#,
    )
    .unwrap();
    assert_eq!(v.validate(&data(r#"{"name": "abc"}"#)), Ok(()));
    // A substring match is not enough.
    assert_eq!(
        v.validate(&data(r#"{"name": "abc1"}"#)).map_err(|e| e.1),
        Err(AS3ValidationError::RegexError {
            word: "abc1".to_owned(),
            regex: "[a-z]+".to_owned(),
        })
    );
}

#[test]
fn tagged_schema_nodes_are_refused() {
    assert_eq!(
        compile(
            r#"
        Root: !Tag value
    "#
        )
        .unwrap_err(),
        "Type definition missing for Root "
    );
}
