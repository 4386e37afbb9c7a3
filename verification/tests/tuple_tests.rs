use linal::tuple::{Field, Schema, Tuple};
use linal::value::{Value, ValueType};
use std::cmp::Ordering;
use std::sync::Arc;

fn create_test_schema() -> Schema {
    Schema::new(vec![
        Field::new("id", ValueType::Int),
        Field::new("name", ValueType::String),
        Field::new("score", ValueType::Float),
        Field::new("active", ValueType::Bool),
    ])
}

fn float(x: f32) -> Value {
    Value::Float(x.to_bits())
}

#[test]
fn test_schema_creation() {
    let schema = create_test_schema();
    assert_eq!(schema.len(), 4);
    assert_eq!(schema.get_field("id").unwrap().value_type, ValueType::Int);
    assert_eq!(
        schema.get_field("name").unwrap().value_type,
        ValueType::String
    );
    assert_eq!(schema.get_field_index("score"), Some(2));
}

#[test]
fn test_schema_validation() {
    let schema = create_test_schema();

    let valid_values = vec![
        Value::Int(1),
        Value::String("Alice".to_string()),
        float(0.95),
        Value::Bool(true),
    ];
    assert!(schema.validate(&valid_values).is_ok());

    let wrong_count = vec![Value::Int(1), Value::String("Alice".to_string())];
    assert!(schema.validate(&wrong_count).is_err());

    let wrong_type = vec![
        Value::String("not an int".to_string()),
        Value::String("Alice".to_string()),
        float(0.95),
        Value::Bool(true),
    ];
    assert!(schema.validate(&wrong_type).is_err());
}

#[test]
fn test_tuple_creation() {
    let schema = Arc::new(create_test_schema());
    let values = vec![
        Value::Int(1),
        Value::String("Alice".to_string()),
        float(0.95),
        Value::Bool(true),
    ];

    let tuple = Tuple::new(schema, values).unwrap();
    assert_eq!(tuple.len(), 4);
}

#[test]
fn test_tuple_field_access() {
    let schema = Arc::new(create_test_schema());
    let values = vec![
        Value::Int(42),
        Value::String("Bob".to_string()),
        float(0.85),
        Value::Bool(false),
    ];

    let tuple = Tuple::new(schema, values).unwrap();

    assert_eq!(tuple.get("id"), Some(&Value::Int(42)));
    assert_eq!(tuple.get("name"), Some(&Value::String("Bob".to_string())));
    assert_eq!(tuple.get("score"), Some(&float(0.85)));
    assert_eq!(tuple.get("active"), Some(&Value::Bool(false)));
    assert_eq!(tuple.get("nonexistent"), None);
}

#[test]
fn test_tuple_set_value() {
    let schema = Arc::new(create_test_schema());
    let values = vec![
        Value::Int(1),
        Value::String("Alice".to_string()),
        float(0.95),
        Value::Bool(true),
    ];

    let mut tuple = Tuple::new(schema, values).unwrap();

    assert!(tuple.set("score", float(0.99)).is_ok());
    assert_eq!(tuple.get("score"), Some(&float(0.99)));

    assert!(tuple
        .set("score", Value::String("invalid".to_string()))
        .is_err());
    assert_eq!(tuple.get("score"), Some(&float(0.99)));

    assert!(tuple.set("nonexistent", Value::Int(5)).is_err());
    assert_eq!(tuple.len(), 4);
    assert_eq!(tuple.get("id"), Some(&Value::Int(1)));
}

#[test]
fn test_nullable_fields() {
    let schema = Schema::new(vec![
        Field::new("id", ValueType::Int),
        Field::new("optional_name", ValueType::String).nullable(),
    ]);

    let schema = Arc::new(schema);

    let values = vec![Value::Int(1), Value::Null];
    assert!(Tuple::new(schema.clone(), values).is_ok());

    let invalid_values = vec![Value::Null, Value::String("test".to_string())];
    assert!(Tuple::new(schema, invalid_values).is_err());
}

#[test]
fn test_vector_field() {
    let schema = Arc::new(Schema::new(vec![
        Field::new("id", ValueType::Int),
        Field::new("embedding", ValueType::Vector(3)),
    ]));

    let values = vec![
        Value::Int(1),
        Value::Vector(vec![0.1f32.to_bits(), 0.2f32.to_bits(), 0.3f32.to_bits()]),
    ];
    assert!(Tuple::new(schema.clone(), values).is_ok());

    let wrong_dim = vec![
        Value::Int(1),
        Value::Vector(vec![0.1f32.to_bits(), 0.2f32.to_bits()]),
    ];
    assert!(Tuple::new(schema, wrong_dim).is_err());
}

#[test]
fn test_value_types() {
    assert_eq!(float(1.5).value_type(), ValueType::Float);
    assert_eq!(Value::Int(42).value_type(), ValueType::Int);
    assert_eq!(
        Value::String("hello".to_string()).value_type(),
        ValueType::String
    );
    assert_eq!(Value::Bool(true).value_type(), ValueType::Bool);
    assert_eq!(
        Value::Vector(vec![1.0f32.to_bits(), 2.0f32.to_bits(), 3.0f32.to_bits()]).value_type(),
        ValueType::Vector(3)
    );
    assert_eq!(Value::Null.value_type(), ValueType::Null);
}

#[test]
fn test_schema_lookup_takes_last_of_equal_names() {
    let schema = Schema::new(vec![
        Field::new("a", ValueType::Int),
        Field::new("b", ValueType::Int),
        Field::new("a", ValueType::String),
    ]);
    assert_eq!(schema.get_field_index("a"), Some(2));
    assert_eq!(schema.get_field("a").unwrap().value_type, ValueType::String);
    assert_eq!(schema.get_field_index("c"), None);
    assert!(!schema.is_empty());
    assert!(Schema::new(vec![]).is_empty());
}

#[test]
fn test_matrix_type_and_match() {
    let m = Value::Matrix(vec![
        vec![1.0f32.to_bits(), 2.0f32.to_bits()],
        vec![3.0f32.to_bits(), 4.0f32.to_bits()],
        vec![5.0f32.to_bits(), 6.0f32.to_bits()],
    ]);
    assert_eq!(m.value_type(), ValueType::Matrix(3, 2));
    assert!(m.matches_type(&ValueType::Matrix(3, 2)));
    assert!(!m.matches_type(&ValueType::Matrix(2, 3)));
    assert_eq!(Value::Matrix(vec![]).value_type(), ValueType::Matrix(0, 0));
    assert!(Value::Null.matches_type(&ValueType::Int));
    assert!(!Value::Int(1).matches_type(&ValueType::Float));
}

#[test]
fn test_value_equality_is_bit_exact() {
    let nan = f32::NAN.to_bits();
    assert_eq!(Value::Float(nan), Value::Float(nan));
    assert_ne!(Value::Float(0.0f32.to_bits()), Value::Float((-0.0f32).to_bits()));
    assert_ne!(Value::Int(1), float(1.0));
    assert_eq!(
        Value::Vector(vec![1.0f32.to_bits(), nan]),
        Value::Vector(vec![1.0f32.to_bits(), nan])
    );
    assert_ne!(
        Value::Vector(vec![1.0f32.to_bits()]),
        Value::Vector(vec![1.0f32.to_bits(), 2.0f32.to_bits()])
    );
    assert_eq!(Value::Null, Value::Null);
    assert_eq!(float(2.5).clone(), float(2.5));
}

#[test]
fn test_value_compare() {
    assert_eq!(Value::Int(1).compare(&Value::Int(2)), Some(Ordering::Less));
    assert_eq!(Value::Int(2).compare(&Value::Int(2)), Some(Ordering::Equal));
    assert_eq!(float(2.5).compare(&float(-1.0)), Some(Ordering::Greater));
    assert_eq!(float(-2.5).compare(&float(-1.0)), Some(Ordering::Less));
    assert_eq!(
        float(0.0).compare(&Value::Float((-0.0f32).to_bits())),
        Some(Ordering::Equal)
    );
    assert_eq!(float(f32::NAN).compare(&float(1.0)), None);
    assert_eq!(float(f32::INFINITY).compare(&float(1.0e30)), Some(Ordering::Greater));
    assert_eq!(Value::Int(3).compare(&float(2.5)), Some(Ordering::Greater));
    assert_eq!(float(2.5).compare(&Value::Int(3)), Some(Ordering::Less));
    assert_eq!(Value::Int(16777217).compare(&float(16777216.0)), Some(Ordering::Equal));
    assert_eq!(
        Value::String("abc".to_string()).compare(&Value::String("abd".to_string())),
        Some(Ordering::Less)
    );
    assert_eq!(
        Value::String("ab".to_string()).compare(&Value::String("abc".to_string())),
        Some(Ordering::Less)
    );
    assert_eq!(
        Value::String("é".to_string()).compare(&Value::String("z".to_string())),
        Some(Ordering::Greater)
    );
    assert_eq!(Value::Bool(false).compare(&Value::Bool(true)), Some(Ordering::Less));
    assert_eq!(Value::Null.compare(&Value::Int(0)), Some(Ordering::Less));
    assert_eq!(Value::Int(0).compare(&Value::Null), Some(Ordering::Greater));
    assert_eq!(Value::Null.compare(&Value::Null), Some(Ordering::Equal));
    assert_eq!(Value::Vector(vec![]).compare(&Value::Vector(vec![])), None);
    assert_eq!(Value::Int(1).compare(&Value::Bool(true)), None);
}

#[test]
fn test_value_conversions() {
    assert_eq!(Value::Int(3).as_float(), Some(3.0f32.to_bits()));
    assert_eq!(Value::Int(-7).as_float(), Some((-7.0f32).to_bits()));
    assert_eq!(Value::Int(16777217).as_float(), Some((16777217i64 as f32).to_bits()));
    assert_eq!(Value::Int(i64::MAX).as_float(), Some((i64::MAX as f32).to_bits()));
    assert_eq!(Value::Int(i64::MIN).as_float(), Some((i64::MIN as f32).to_bits()));
    assert_eq!(float(2.9).as_int(), Some(2));
    assert_eq!(float(-2.9).as_int(), Some(-2));
    assert_eq!(float(f32::NAN).as_int(), Some(0));
    assert_eq!(float(1.0e30).as_int(), Some(i64::MAX));
    assert_eq!(float(-1.0e30).as_int(), Some(i64::MIN));
    assert_eq!(Value::Bool(true).as_float(), None);
    assert_eq!(Value::String("x".to_string()).as_str(), Some("x"));
    assert_eq!(Value::Bool(true).as_bool(), Some(true));
    assert_eq!(Value::Int(1).as_bool(), None);
    let v = Value::Vector(vec![1.0f32.to_bits()]);
    assert_eq!(v.as_vector().unwrap().len(), 1);
    assert!(Value::Null.is_null());
}
