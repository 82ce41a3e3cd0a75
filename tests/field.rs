use fust::field::FieldType;

#[test]
fn test_string() {
    let field_type = FieldType::String;
    assert_eq!(field_type.string(), "string");

    let field_type = FieldType::Number;
    assert_eq!(field_type.string(), "number");

    let field_type = FieldType::Boolean;
    assert_eq!(field_type.string(), "boolean");

    let field_type = FieldType::Date;
    assert_eq!(field_type.string(), "date");

    let field_type = FieldType::Object;
    assert_eq!(field_type.string(), "object");

    let field_type = FieldType::Array;
    assert_eq!(field_type.string(), "array");
}

#[test]
fn test_of() {
    assert_eq!(FieldType::of("String".to_string()), Some(FieldType::String));
    assert_eq!(FieldType::of("Number".to_string()), Some(FieldType::Number));
    assert_eq!(FieldType::of("Boolean".to_string()), Some(FieldType::Boolean));
    assert_eq!(FieldType::of("Date".to_string()), Some(FieldType::Date));
    assert_eq!(FieldType::of("Object".to_string()), Some(FieldType::Object));
    assert_eq!(FieldType::of("Array".to_string()), Some(FieldType::Array));
}

#[test]
fn of_rejects_unknown_token() {
    assert_eq!(FieldType::of("Invalid".to_string()), None);
    assert_eq!(FieldType::of("".to_string()), None);
}

#[test]
fn of_ignores_case_in_every_position() {
    assert_eq!(FieldType::of("bOoLeAn".to_string()), Some(FieldType::Boolean));
    assert_eq!(FieldType::of("ARRAY".to_string()), Some(FieldType::Array));
    assert_eq!(FieldType::of("date".to_string()), Some(FieldType::Date));
}

#[test]
fn token_round_trip_is_canonical() {
    for token in ["STRING", "Number", "boolean", "DaTe", "OBJECT", "array"] {
        let parsed = FieldType::of(token.to_string()).unwrap();
        assert_eq!(parsed.string(), token.to_lowercase());
    }
}

#[test]
fn from_token_is_case_sensitive() {
    assert_eq!(FieldType::from_token("number"), Some(FieldType::Number));
    assert_eq!(FieldType::from_token("Number"), None);
}
