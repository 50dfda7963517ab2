use as3::data::AS3Data;
use as3::decimal::DecValue;
use as3::error::{AS3ValidationError, Number};
use as3::schema::{SchemaNum, SchemaValue};
use as3::validator::AS3Validator;

/// An order-preserving encoding of a binary64 number (negative zero folded
/// into zero), as the library's decimal surrogate expects it.
fn dec_key(x: f64) -> u64 {
    let x = if x == 0.0 { 0.0 } else { x };
    let bits = x.to_bits();
    if bits & 0x8000_0000_0000_0000 != 0 {
        !bits
    } else {
        bits | 0x8000_0000_0000_0000
    }
}

fn dec_value(x: f64) -> DecValue {
    DecValue {
        key: dec_key(x),
        text: format!("{}", x),
    }
}

fn json_to_data(v: &serde_json::Value) -> AS3Data {
    match v {
        serde_json::Value::Object(map) => AS3Data::Object(
            map.iter()
                .map(|(k, val)| (k.clone(), json_to_data(val)))
                .collect(),
        ),
        serde_json::Value::Array(items) => AS3Data::List(items.iter().map(json_to_data).collect()),
        serde_json::Value::String(s) => AS3Data::String(s.clone()),
        serde_json::Value::Number(n) => match n.as_i64() {
            Some(i) => AS3Data::Integer(i),
            None => AS3Data::Decimal(dec_value(n.as_f64().unwrap())),
        },
        serde_json::Value::Bool(b) => AS3Data::Boolean(*b),
        serde_json::Value::Null => AS3Data::Null,
    }
}

fn yaml_to_schema(v: &serde_yaml::Value) -> SchemaValue {
    match v {
        serde_yaml::Value::Mapping(m) => SchemaValue::Mapping(
            m.iter()
                .map(|(k, val)| (k.as_str().unwrap().to_string(), yaml_to_schema(val)))
                .collect(),
        ),
        serde_yaml::Value::String(s) => SchemaValue::String(s.clone()),
        serde_yaml::Value::Number(n) => SchemaValue::Number(SchemaNum {
            as_int: n.as_i64(),
            as_dec: n.as_f64().map(dec_value),
        }),
        serde_yaml::Value::Bool(b) => SchemaValue::Bool(*b),
        serde_yaml::Value::Sequence(items) => {
            SchemaValue::Sequence(items.iter().map(yaml_to_schema).collect())
        }
        serde_yaml::Value::Null => SchemaValue::Null,
        // A tagged node has no place in a definition; hand it on as a value
        // the compiler refuses ("Type definition missing").
        serde_yaml::Value::Tagged(..) => SchemaValue::Null,
    }
}

fn verify(
    data: &serde_json::Value,
    validator_config: &serde_yaml::Value,
    expected: Result<(), AS3ValidationError>,
) {
    let data = json_to_data(data);
    let validator = AS3Validator::from(&yaml_to_schema(validator_config)).unwrap();
    assert_eq!(validator.validate(&data).map_err(|e| e.1), expected);
}

#[test]
fn should_run() {
    let data: serde_json::Value = serde_json::from_str(
        r#"{
      "age": 25,
      "children": 5,
      "name": "Dilec",
      "vehicles": {
        "list": [
          { "name": "model3", "maker": "Tesla", "year": 2018 },
          { "name": "Raptor", "maker": "Ford", "year": 2018 }
        ]
      }
    }"#,
    )
    .unwrap();

    let validator: serde_yaml::Value = serde_yaml::from_str(
        r#"
        Root:
            +type: Object
            age:
                +type: Integer
            children:
                +type: Integer
            name:
                +type: String
                +Regex: "^[A-Z][a-z]"
            vehicles:
                +type: Object
                list:
                    +type : List
                    +ValueType:
                        +type : Object
                        name:
                            +type: String
                        maker:
                            +type: String
                        year:
                            +type: Integer
                        "#,
    )
    .unwrap();

    verify(&data, &validator, Ok(()))
}

#[test]
fn with_decimal_error() {
    let data: serde_json::Value = serde_json::from_str(
        r#"{
      "vehicles": {
        "list": [
          { "name": "Raptor", "maker": "Ford", "year": 20.18 }
        ]
      }
    }"#,
    )
    .unwrap();

    let validator: serde_yaml::Value = serde_yaml::from_str(
        r#"
        Root:
            +type: Object
            vehicles:
                +type: Object
                list:
                    +type : List
                    +ValueType:
                        +type : Object
                        name:
                            +type: String
                        maker:
                            +type: String
                        year:
                            +type: Integer
                    "#,
    )
    .unwrap();

    verify(
        &data,
        &validator,
        Err(AS3ValidationError::TypeError {
            expected: AS3Validator::Integer {
                minimum: None,
                maximum: None,
            },
            got: AS3Data::Decimal(dec_value(20.18)),
        }),
    );
}

#[test]
fn with_string_error() {
    let data: serde_json::Value = serde_json::from_str(
        r#"{
      "vehicles": {
        "list": [
          { "name": "model3", "maker": "Tesla", "year": 2018 },
          { "name": "Raptor", "maker": "Ford", "year": "2018" }
        ]
      }
    }"#,
    )
    .unwrap();

    let validator: serde_yaml::Value = serde_yaml::from_str(
        r#"
        Root:
            +type: Object
            vehicles:
                +type: Object
                list:
                    +type : List
                    +ValueType:
                        +type : Object
                        name:
                            +type: String
                        maker:
                            +type: String
                        year:
                            +type: Integer
                    "#,
    )
    .unwrap();

    verify(
        &data,
        &validator,
        Err(AS3ValidationError::TypeError {
            expected: AS3Validator::Integer {
                minimum: None,
                maximum: None,
            },
            got: AS3Data::String("2018".to_string()),
        }),
    );
}

#[test]
fn with_regex_error() {
    let data: serde_json::Value = serde_json::from_str(
        r#"{
      "vehicles": {
        "list": [
          { "name": "model3", "maker": "Tesla", "year": 2018},
          { "name": "Raptor", "maker": "ford", "year": 2018 }
        ]
      }
    }"#,
    )
    .unwrap();

    let validator: serde_yaml::Value = serde_yaml::from_str(
        r#"
        Root:
            +type: Object
            vehicles:
                +type: Object
                list:
                    +type : List
                    +ValueType:
                        +type : Object
                        name:
                            +type: String
                        maker:
                            +type: String
                            +regex: "^[A-Z][a-z]"
                        year:
                            +type: Integer
                    "#,
    )
    .unwrap();
    // The pattern must match the whole string, so the first maker in
    // declaration order, "Tesla", is the one reported.
    verify(
        &data,
        &validator,
        Err(AS3ValidationError::RegexError {
            word: "Tesla".to_string(),
            regex: "^[A-Z][a-z]".to_string(),
        }),
    );
}

#[test]
fn with_minimum_error() {
    let json: serde_json::Value = serde_json::from_str(
        r#"{
      "age": 18,
      "children": 5
    }"#,
    )
    .unwrap();

    let validator = AS3Validator::Object(vec![
        (
            "age".to_owned(),
            AS3Validator::Integer {
                minimum: Some(20),
                maximum: None,
            },
        ),
        (
            "children".to_owned(),
            AS3Validator::Integer {
                minimum: Some(2),
                maximum: None,
            },
        ),
    ]);

    assert_eq!(
        validator.validate(&json_to_data(&json)).map_err(|e| e.1),
        Err(AS3ValidationError::Minimum {
            number: Number::Integer(18),
            minimum: Number::Integer(20),
        })
    );

    let json: serde_json::Value = serde_json::from_str(
        r#"{
      "age": 20,
      "children": 0
    }"#,
    )
    .unwrap();

    assert_eq!(
        validator.validate(&json_to_data(&json)).map_err(|e| e.1),
        Err(AS3ValidationError::Minimum {
            number: Number::Integer(0),
            minimum: Number::Integer(2),
        })
    );

    let json: serde_json::Value = serde_json::from_str(
        r#"{
      "age": 20,
      "children": 20
    }"#,
    )
    .unwrap();

    assert_eq!(validator.validate(&json_to_data(&json)), Ok(()))
}

#[test]
fn with_missing_field_error_validator_derive() {
    let mut data: serde_json::Value = serde_json::from_str(
        r#"{
      "vehicles": {
        "name": "raptor",
        "year": 2018
      },
      "Truks": {
        "name": "hummer",
        "maker": "ford",
        "year": 2019
      }
    }"#,
    )
    .unwrap();

    let validator: serde_yaml::Value = serde_yaml::from_str(
        r#"
        Root:
            +type: Object
            vehicles:
                +type: Object
                name:
                    +type: String
                maker:
                    +type: String
                year:
                    +type: Integer
            Truks:
                +type: Object
                name:
                    +type: String
                maker:
                    +type: String
                year:
                    +type: Integer
                    "#,
    )
    .unwrap();

    verify(
        &data,
        &validator,
        Err(AS3ValidationError::MissingKey {
            key: "maker".to_string(),
        }),
    );

    data["vehicles"]["maker"] = serde_json::Value::String("tesla".to_string());

    verify(&data, &validator, Ok(()));
}

#[test]
fn with_list() {
    let data: serde_json::Value = serde_json::from_str(
        r#"{
        "students": [
          {
            "surname": "Bob",
            "year": 2020,
            "grade": "A"
          },
          {
            "surname": "Bob",
            "gg": 2020,
            "grade": "A"
          }
        ]
      }"#,
    )
    .unwrap();

    let validator: serde_yaml::Value = serde_yaml::from_str(
        r#"
            Root:
                +type: Object
                students:
                  +type: List
                  +ValueType:
                    +type: Object
                    surname:
                      +type: String
                    year:
                      +type: Integer
                    grade:
                      +type: String
                        "#,
    )
    .unwrap();

    verify(
        &data,
        &validator,
        Err(AS3ValidationError::MissingKey {
            key: "year".to_string(),
        }),
    );

    let data2: serde_json::Value = serde_json::from_str(
        r#"{
        "students": [
          {
            "surname": "Bob",
            "year": 2020,
            "grade": 20
          }
        ]
      }"#,
    )
    .unwrap();

    verify(
        &data2,
        &validator,
        Err(AS3ValidationError::TypeError {
            expected: AS3Validator::String {
                regex: None,
                max_length: None,
                min_length: None,
            },
            got: AS3Data::Integer(20),
        }),
    );
}

#[test]
fn with_map() {
    let data: serde_json::Value = serde_json::from_str(
        r#"{
        "People": {
          "NY": {
            "name": "casei neistat",
            "age": 48
          },
          "LA": {
            "name": "odhfeo",
            "age": 48
          }
        }
      }"#,
    )
    .unwrap();

    let validator: serde_yaml::Value = serde_yaml::from_str(
        r#"
        Root:
            +type: Object
            People:
                +type: Map
                +KeyType:
                    +type: String
                +ValueType:
                    +type: Object
                    name:
                        +type: String
                    age:
                        +type: Integer
                    "#,
    )
    .unwrap();

    verify(&data, &validator, Ok(()));
}

#[test]
fn with_bool_and_map() {
    let data: serde_json::Value = serde_json::from_str(
        r#"{
          "false": {
            "name": "odhfeo",
            "age": true
          }
      }"#,
    )
    .unwrap();

    let validator: serde_yaml::Value = serde_yaml::from_str(
        r#"
        Root:
            +type: Map
            +KeyType:
                +type: Bool
            +ValueType:
                +type: Object
                name:
                    +type: String
                age:
                    +type: Bool
                    "#,
    )
    .unwrap();
    verify(&data, &validator, Ok(()));
}

#[test]
fn with_date_and_map() {
    let data: serde_json::Value = serde_json::from_str(
        r#"{
          "2020-10-15": {
            "name": "odhfeo",
            "age": "2020-10-15"
          }
      }"#,
    )
    .unwrap();

    let validator: serde_yaml::Value = serde_yaml::from_str(
        r#"
        Root:
            +type: Map
            +KeyType:
                +type: Date
            +ValueType:
                +type: Object
                name:
                    +type: String
                age:
                    +type: Date
                    "#,
    )
    .unwrap();

    verify(&data, &validator, Ok(()));

    let data: serde_json::Value = serde_json::from_str(
        r#"{
          "2020/10/15": {
            "name": "odhfeo",
            "age": "2020-10-15"
          }
      }"#,
    )
    .unwrap();

    let validator_config: serde_yaml::Value = serde_yaml::from_str(
        r#"
            Root:
                +type: Map
                +KeyType:
                    +type: Date
                +ValueType:
                    +type: Object
                    name:
                        +type: String
                    age:
                        +type: Date
                        "#,
    )
    .unwrap();

    verify(
        &data,
        &validator_config,
        Err(AS3ValidationError::Generic(
            "The Key `2020/10/15` can't be converted to a Date".to_string(),
        )),
    );
}

#[test]
fn with_abbreviation_types() {
    let data: serde_json::Value = serde_json::from_str(
        r#"{
        "name": "Dilec",
        "birth": "2022-04-01",
        "age": 21,
        "height" : 1.75,
        "male" : true
    }"#,
    )
    .unwrap();

    let validator: serde_yaml::Value = serde_yaml::from_str(
        r#"
        Root:
            +type: Object
            name: String
            age: Integer
            birth : Date
            height : Decimal
            male : Bool
                    "#,
    )
    .unwrap();

    verify(&data, &validator, Ok(()));
}
