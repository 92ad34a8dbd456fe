use caf_format::{
    CafArray, CafBool, CafError, CafFill, CafNumber, CafNumberValue, CafString, CafValue, Expected,
    JsonMember, JsonValue, NumberValue, TypeInfo, TypeKind, TypeRegistry,
};

// A registry with `bool` at 0, `Vec<bool>` at 1, `[Vec<bool>; 2]` at 2 and a
// struct at 3.
fn registry() -> TypeRegistry {
    let mut registry = TypeRegistry::new();
    assert_eq!(registry.register(TypeInfo::new("bool", TypeKind::Opaque)), 0);
    assert_eq!(registry.register(TypeInfo::new("Vec<bool>", TypeKind::List { item: 0 })), 1);
    assert_eq!(registry.register(TypeInfo::new("[Vec<bool>; 2]", TypeKind::Array { item: 1 })), 2);
    assert_eq!(registry.register(TypeInfo::new("my::Struct", TypeKind::Struct)), 3);
    assert!(registry.check_complete());
    registry
}

fn bools(values: &[bool]) -> JsonValue {
    JsonValue::Array(values.iter().map(|value| JsonValue::Bool(*value)).collect())
}

fn json_object_a_1() -> JsonValue {
    JsonValue::Object(vec![JsonMember {
        key: "a".to_string(),
        value: JsonValue::Number(CafNumberValue::from_u64(1)),
    }])
}

#[test]
fn list_of_bools_round_trips_through_json() {
    let registry = registry();
    let list = registry.get(1).unwrap();
    let json = bools(&[true, false, true]);

    let array = CafArray::from_json(&json, list, &registry).unwrap();
    assert_eq!(array.entries.len(), 3);
    assert_eq!(array.start_fill, CafFill::default());
    assert_eq!(array.end_fill, CafFill::default());
    assert_eq!(
        array.entries,
        vec![
            CafValue::Bool(CafBool { fill: CafFill::default(), value: true }),
            CafValue::Bool(CafBool { fill: CafFill::default(), value: false }),
            CafValue::Bool(CafBool { fill: CafFill::default(), value: true }),
        ]
    );
    assert_eq!(array.to_json(), Ok(bools(&[true, false, true])));
}

#[test]
fn object_against_a_list_is_a_shape_mismatch() {
    let registry = registry();
    let list = registry.get(1).unwrap();
    let json = json_object_a_1();
    assert_eq!(
        CafArray::from_json(&json, list, &registry),
        Err(CafError::ShapeMismatch {
            type_path: "Vec<bool>".to_string(),
            json: json_object_a_1(),
            expected: Expected::JsonArray,
        })
    );
}

#[test]
fn json_array_against_a_struct_is_a_shape_mismatch() {
    let registry = registry();
    let info = registry.get(3).unwrap();
    assert_eq!(
        CafArray::from_json(&bools(&[true]), info, &registry),
        Err(CafError::ShapeMismatch {
            type_path: "my::Struct".to_string(),
            json: bools(&[true]),
            expected: Expected::ListOrArray,
        })
    );
}

#[test]
fn json_kind_is_tested_before_the_type() {
    let registry = registry();
    let info = registry.get(3).unwrap();
    match CafArray::from_json(&JsonValue::Null, info, &registry) {
        Err(CafError::ShapeMismatch { expected, .. }) => assert_eq!(expected, Expected::JsonArray),
        other => panic!("expected a shape mismatch, got {:?}", other),
    }
}

#[test]
fn fixed_size_array_type_converts_like_a_list() {
    let registry = registry();
    let info = registry.get(2).unwrap();
    let json = JsonValue::Array(vec![bools(&[true]), bools(&[])]);
    let array = CafArray::from_json(&json, info, &registry).unwrap();
    let mut out = Vec::new();
    array.write_to(&mut out);
    assert_eq!(out, b"[[true] []]".to_vec());
    assert_eq!(array.to_json(), Ok(JsonValue::Array(vec![bools(&[true]), bools(&[])])));
}

#[test]
fn first_failing_item_fails_the_array() {
    let registry = registry();
    let info = registry.get(2).unwrap();
    // The second item is no array, the third would fail too.
    let json = JsonValue::Array(vec![
        bools(&[true]),
        JsonValue::Array(vec![JsonValue::Null]),
        json_object_a_1(),
    ]);
    assert_eq!(
        CafArray::from_json(&json, info, &registry),
        Err(CafError::ShapeMismatch {
            type_path: "bool".to_string(),
            json: JsonValue::Null,
            expected: Expected::Value,
        })
    );
}

#[test]
fn empty_json_array_gives_an_empty_array() {
    let registry = registry();
    let array = CafArray::from_json(&bools(&[]), registry.get(1).unwrap(), &registry).unwrap();
    assert_eq!(array, CafArray::from(Vec::new()));
    assert_eq!(array.to_json(), Ok(JsonValue::Array(Vec::new())));
}

#[test]
fn scalars_convert_whatever_the_type() {
    let registry = registry();
    let info = registry.get(3).unwrap();
    assert_eq!(
        CafValue::from_json(&JsonValue::Bool(true), info, &registry),
        Ok(CafValue::Bool(CafBool::from(true)))
    );
    assert_eq!(
        CafValue::from_json(&JsonValue::String("s\n".to_string()), info, &registry),
        Ok(CafValue::String(CafString::from("s\n")))
    );
    assert_eq!(
        CafValue::from_json(&JsonValue::Number(CafNumberValue::from_i64(-4)), info, &registry),
        Ok(CafValue::Number(CafNumber::from(-4i64)))
    );
}

#[test]
fn null_and_object_stand_for_no_value() {
    let registry = registry();
    let info = registry.get(0).unwrap();
    assert_eq!(
        CafValue::from_json(&JsonValue::Null, info, &registry),
        Err(CafError::ShapeMismatch {
            type_path: "bool".to_string(),
            json: JsonValue::Null,
            expected: Expected::Value,
        })
    );
    assert_eq!(
        CafValue::from_json(&json_object_a_1(), info, &registry),
        Err(CafError::ShapeMismatch {
            type_path: "bool".to_string(),
            json: json_object_a_1(),
            expected: Expected::Value,
        })
    );
}

#[test]
fn value_array_against_a_scalar_type_is_a_shape_mismatch() {
    let registry = registry();
    let info = registry.get(0).unwrap();
    assert_eq!(
        CafValue::from_json(&bools(&[true]), info, &registry),
        Err(CafError::ShapeMismatch {
            type_path: "bool".to_string(),
            json: bools(&[true]),
            expected: Expected::ListOrArray,
        })
    );
}

#[test]
fn number_keeps_its_kind_and_literal_through_json() {
    let float = CafNumberValue::from_float_bits(7.0f64.to_bits(), "7.0");
    let unsigned = CafNumberValue::from_u64(7);
    let registry = registry();
    let info = registry.get(0).unwrap();

    let node = CafValue::from_json(&JsonValue::Number(float.duplicate()), info, &registry).unwrap();
    assert_eq!(node.to_json(), Ok(JsonValue::Number(float)));

    let node = CafValue::from_json(&JsonValue::Number(unsigned.duplicate()), info, &registry).unwrap();
    assert_eq!(node.to_json(), Ok(JsonValue::Number(unsigned)));
    match node {
        CafValue::Number(number) => {
            assert_eq!(number.number.deserialized, NumberValue::Unsigned(7));
            assert_eq!(number.fill, CafFill::default());
        }
        other => panic!("expected a number, got {:?}", other),
    }
}

#[test]
fn non_finite_float_has_no_json() {
    let bits = f64::INFINITY.to_bits();
    let number = CafNumber::from_float_bits(bits, "inf");
    assert_eq!(number.to_json(), Err(CafError::NonFiniteNumber { bits }));

    let nan = f64::NAN.to_bits();
    let array = CafArray::from(vec![
        CafValue::Bool(CafBool::from(true)),
        CafValue::Number(CafNumber::from_float_bits(nan, "nan")),
        CafValue::Number(CafNumber::from_float_bits(bits, "inf")),
    ]);
    assert_eq!(array.to_json(), Err(CafError::NonFiniteNumber { bits: nan }));
    assert_eq!(CafValue::Array(array).to_json(), Err(CafError::NonFiniteNumber { bits: nan }));
}

#[test]
fn non_finite_float_is_no_json_number() {
    let bits = f64::NEG_INFINITY.to_bits();
    let json = JsonValue::Number(CafNumberValue::from_float_bits(bits, "-inf"));
    let registry = registry();
    assert_eq!(
        CafValue::from_json(&json, registry.get(0).unwrap(), &registry),
        Err(CafError::NonFiniteNumber { bits })
    );
    assert_eq!(
        CafNumber::from_json(&CafNumberValue::from_float_bits(bits, "-inf")),
        Err(CafError::NonFiniteNumber { bits })
    );
}

#[test]
fn to_json_does_not_depend_on_fill() {
    let plain = CafArray::from(vec![CafValue::Bool(CafBool::from(true))]);
    let filled = CafArray {
        start_fill: CafFill::new("\n"),
        entries: vec![CafValue::Bool(CafBool { fill: CafFill::new(" "), value: true })],
        end_fill: CafFill::new(" "),
    };
    assert_eq!(plain.to_json(), filled.to_json());
    assert_eq!(plain.to_json(), Ok(bools(&[true])));
}

#[test]
fn scalars_to_json() {
    assert_eq!(CafBool::from(false).to_json(), JsonValue::Bool(false));
    assert_eq!(CafString::from("a\"b").to_json(), JsonValue::String("a\"b".to_string()));
    assert_eq!(
        CafNumber::from(3u64).to_json(),
        Ok(JsonValue::Number(CafNumberValue::from_u64(3)))
    );
}

#[test]
fn json_duplicate_is_equal() {
    let json = JsonValue::Array(vec![
        JsonValue::Null,
        json_object_a_1(),
        JsonValue::String("x".to_string()),
        bools(&[true, false]),
    ]);
    assert_eq!(json.duplicate(), json);
}
