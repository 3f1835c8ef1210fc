use endpoint_gen::json::JsonValue;
use endpoint_gen::schema::{EndpointSchema, Field, Type};
use endpoint_gen::validate::validate_params;

fn field(name: &str, ty: Type) -> Field {
    Field {
        name: name.to_string(),
        ty,
        description: String::new(),
    }
}

fn schema(parameters: Vec<Field>) -> EndpointSchema {
    EndpointSchema {
        name: "T".to_string(),
        code: 1,
        parameters,
        returns: vec![],
        stream_response: None,
        description: String::new(),
        roles: vec![],
    }
}

fn obj(fields: Vec<(&str, JsonValue)>) -> JsonValue {
    JsonValue::Obj(
        fields
            .into_iter()
            .map(|(k, v)| (k.to_string(), v))
            .collect(),
    )
}

#[test]
fn optional_field_may_be_absent_or_null() {
    let s = schema(vec![field("note", Type::Optional(Box::new(Type::Text)))]);
    assert!(validate_params(&s, &obj(vec![])).is_ok());
    assert!(validate_params(&s, &obj(vec![("note", JsonValue::Null)])).is_ok());
    assert!(validate_params(&s, &obj(vec![("note", JsonValue::Str("x".to_string()))])).is_ok());
    assert_eq!(
        validate_params(&s, &obj(vec![("note", JsonValue::Int(1))])).unwrap_err(),
        "note"
    );
}

#[test]
fn required_field_must_be_present() {
    let s = schema(vec![field("device_id", Type::Text)]);
    assert_eq!(validate_params(&s, &obj(vec![])).unwrap_err(), "deviceId");
}

#[test]
fn int_fields_check_machine_ranges() {
    let s = schema(vec![field("n", Type::Int)]);
    assert!(validate_params(&s, &obj(vec![("n", JsonValue::Int(2147483647))])).is_ok());
    assert_eq!(
        validate_params(&s, &obj(vec![("n", JsonValue::Int(2147483648))])).unwrap_err(),
        "n"
    );
    let d = schema(vec![field("day", Type::Date)]);
    assert_eq!(
        validate_params(&d, &obj(vec![("day", JsonValue::Int(-1))])).unwrap_err(),
        "day"
    );
    let b = schema(vec![field("t", Type::BigInt)]);
    assert!(validate_params(&b, &obj(vec![("t", JsonValue::Int(-1))])).is_ok());
}

#[test]
fn byte_arrays_are_integer_lists_in_range() {
    let s = schema(vec![field("blob", Type::Bytea)]);
    let good = obj(vec![(
        "blob",
        JsonValue::Arr(vec![JsonValue::Int(0), JsonValue::Int(255)]),
    )]);
    assert!(validate_params(&s, &good).is_ok());
    let bad = obj(vec![(
        "blob",
        JsonValue::Arr(vec![JsonValue::Int(0), JsonValue::Int(256)]),
    )]);
    assert_eq!(validate_params(&s, &bad).unwrap_err(), "blob[1]");
}

#[test]
fn data_table_rows_are_validated_with_indexed_paths() {
    let s = schema(vec![field(
        "rows",
        Type::DataTable {
            name: "Row".to_string(),
            fields: vec![field("id", Type::BigInt)],
        },
    )]);
    let good = obj(vec![(
        "rows",
        JsonValue::Arr(vec![obj(vec![("id", JsonValue::Int(1))])]),
    )]);
    assert!(validate_params(&s, &good).is_ok());
    let bad = obj(vec![(
        "rows",
        JsonValue::Arr(vec![
            obj(vec![("id", JsonValue::Int(1))]),
            obj(vec![("id", JsonValue::Str("x".to_string()))]),
        ]),
    )]);
    assert_eq!(validate_params(&s, &bad).unwrap_err(), "rows[1].id");
    let not_a_row = obj(vec![("rows", JsonValue::Arr(vec![JsonValue::Int(3)]))]);
    assert_eq!(validate_params(&s, &not_a_row).unwrap_err(), "rows[0]");
}

#[test]
fn non_object_body_is_rejected_at_the_body() {
    let s = schema(vec![field("n", Type::Int)]);
    assert_eq!(
        validate_params(&s, &JsonValue::Arr(vec![])).unwrap_err(),
        ""
    );
}

#[test]
fn open_shapes_accept_anything() {
    let s = schema(vec![
        field("o", Type::Object),
        field("r", Type::StructRef("X".to_string())),
        field("u", Type::Unit),
    ]);
    let body = obj(vec![
        ("o", JsonValue::Arr(vec![JsonValue::Null])),
        ("r", JsonValue::Int(1)),
        ("u", JsonValue::Null),
    ]);
    assert!(validate_params(&s, &body).is_ok());
}
