use linal::text::{decimal_text, decimal_text_long, dims_text, type_text};
use linal::{
    add, cosine_similarity_1d, distance_1d, divide, dot_1d, l2_norm_1d, normalize_1d, Dataset,
    DatasetId, DatasetStoreError, EngineError, Field, Schema, Shape, StoreError, Tensor, TensorId,
    Tuple, Value, ValueType,
};
use linal::dsl::DslError;
use std::sync::Arc;

fn tensor(dims: Vec<usize>, data: Vec<f32>) -> Tensor {
    Tensor::new(TensorId(1), Shape::new(dims), data.iter().map(|x| x.to_bits()).collect()).unwrap()
}

#[test]
fn test_decimal_text_writes_numbers_as_the_machine_does() {
    for n in [0usize, 1, 9, 10, 11, 99, 100, 101, 12345, 1_000_000, usize::MAX] {
        assert_eq!(decimal_text(n), n.to_string());
    }
    for n in [0u64, 7, 10, 18446744073709551615] {
        assert_eq!(decimal_text_long(n), n.to_string());
    }
}

#[test]
fn test_dims_and_types_are_written_in_brackets() {
    assert_eq!(dims_text(&vec![]), "[]");
    assert_eq!(dims_text(&vec![3]), "[3]");
    assert_eq!(dims_text(&vec![2, 30, 4]), "[2, 30, 4]");
    assert_eq!(type_text(&ValueType::Int), "INT");
    assert_eq!(type_text(&ValueType::Float), "FLOAT");
    assert_eq!(type_text(&ValueType::String), "STRING");
    assert_eq!(type_text(&ValueType::Bool), "BOOL");
    assert_eq!(type_text(&ValueType::Vector(128)), "VECTOR[128]");
    assert_eq!(type_text(&ValueType::Matrix(2, 3)), "MATRIX[2, 3]");
    assert_eq!(type_text(&ValueType::Null), "NULL");
}

#[test]
fn test_shape_mismatch_cites_both_shapes() {
    let a = tensor(vec![2, 3], vec![0.0; 6]);
    let b = tensor(vec![3, 2], vec![0.0; 6]);
    assert_eq!(add(&a, &b, TensorId(9)).unwrap_err(), "Shape mismatch: [2, 3] vs [3, 2]");
    let u = tensor(vec![2], vec![1.0, 2.0]);
    let v = tensor(vec![3], vec![1.0, 2.0, 3.0]);
    assert_eq!(dot_1d(&u, &v).unwrap_err(), "Shape mismatch: [2] vs [3]");
    assert_eq!(distance_1d(&u, &v).unwrap_err(), "Shape mismatch: [2] vs [3]");
    assert_eq!(dot_1d(&a, &v).unwrap_err(), "dot_1d expects rank-1 tensors");
    assert_eq!(distance_1d(&a, &v).unwrap_err(), "distance_1d expects rank-1 tensors");
    assert_eq!(l2_norm_1d(&a).unwrap_err(), "l2_norm_1d expects rank-1 tensor");
}

#[test]
fn test_division_by_zero_and_zero_norm_are_said_apart() {
    let a = tensor(vec![2], vec![1.0, 2.0]);
    let z = tensor(vec![2], vec![0.0, -0.0]);
    assert_eq!(divide(&a, &z, TensorId(9)).unwrap_err(), "Division by zero in element-wise divide");
    assert_eq!(normalize_1d(&z, TensorId(9)).unwrap_err(), "Cannot normalize a zero vector");
    assert_eq!(
        cosine_similarity_1d(&a, &z).unwrap_err(),
        "Cannot compute cosine similarity with zero-norm vector"
    );
    let m = tensor(vec![1, 2], vec![1.0, 2.0]);
    assert_eq!(normalize_1d(&m, TensorId(9)).unwrap_err(), "l2_norm_1d expects rank-1 tensor");
    assert_eq!(cosine_similarity_1d(&m, &a).unwrap_err(), "dot_1d expects rank-1 tensors");
}

#[test]
fn test_type_mismatch_cites_both_types() {
    let schema = Arc::new(Schema::new(vec![
        Field::new("id", ValueType::Int),
        Field::new("emb", ValueType::Vector(3)),
    ]));
    assert_eq!(
        Tuple::new(schema.clone(), vec![Value::Int(1)]).unwrap_err(),
        "Value count mismatch: expected 2, got 1"
    );
    assert_eq!(
        Tuple::new(schema.clone(), vec![Value::String("x".to_string()), Value::Null]).unwrap_err(),
        "Type mismatch at field 'id' (index 0): expected INT, got STRING"
    );
    assert_eq!(
        Tuple::new(schema.clone(), vec![Value::Int(1), Value::Vector(vec![0, 0])]).unwrap_err(),
        "Type mismatch at field 'emb' (index 1): expected VECTOR[3], got VECTOR[2]"
    );
    assert_eq!(
        schema.validate(&[Value::Int(1), Value::Null]).unwrap_err(),
        "Type mismatch at field 'emb' (index 1): expected VECTOR[3], got NULL"
    );
}

#[test]
fn test_missing_column_cites_the_name() {
    let schema = Arc::new(Schema::new(vec![Field::new("a", ValueType::Int)]));
    let ds = Dataset::new(DatasetId(1), schema, None);
    assert_eq!(ds.get_column("b").unwrap_err(), "Column 'b' not found");
    assert_eq!(ds.sort_by("c", true).unwrap_err(), "Column 'c' not found");
    assert_eq!(ds.select(&["a", "d", "e"]).unwrap_err(), "Column 'd' not found");
}

#[test]
fn test_errors_are_written_with_their_kind() {
    assert_eq!(StoreError::TensorNotFound(TensorId(7)).message(), "Tensor not found: TensorId(7)");
    assert_eq!(StoreError::ShapeMismatch("x".to_string()).message(), "Shape mismatch: x");
    assert_eq!(StoreError::InvalidTensor("x".to_string()).message(), "Invalid tensor: x");
    assert_eq!(
        DatasetStoreError::DatasetNotFound(DatasetId(12)).message(),
        "Dataset not found: DatasetId(12)"
    );
    assert_eq!(
        DatasetStoreError::NameAlreadyExists("t".to_string()).message(),
        "Dataset name already exists: t"
    );
    assert_eq!(DatasetStoreError::InvalidDataset("x".to_string()).message(), "Invalid dataset: x");
    assert_eq!(
        EngineError::Store(StoreError::TensorNotFound(TensorId(7))).message(),
        "Store error: Tensor not found: TensorId(7)"
    );
    assert_eq!(EngineError::NameNotFound("v".to_string()).message(), "Tensor name not found: v");
    assert_eq!(EngineError::InvalidOp("no".to_string()).message(), "Invalid operation: no");
    assert_eq!(
        EngineError::DatasetError(DatasetStoreError::NameAlreadyExists("t".to_string())).message(),
        "Dataset error: Dataset name already exists: t"
    );
    assert_eq!(EngineError::DatasetNotFound("t".to_string()).message(), "Dataset not found: t");
    assert_eq!(
        DslError::Parse { line: 12, msg: "bad".to_string() }.message(),
        "[line 12] Parse error: bad"
    );
    assert_eq!(
        DslError::Engine { line: 3, source: EngineError::DatasetNotFound("t".to_string()) }.message(),
        "[line 3] Engine error: Dataset not found: t"
    );
    assert_eq!(DslError::Parse { line: 12, msg: String::new() }.line(), 12);
}

#[test]
fn test_length_mismatch_cites_the_length_and_the_shape() {
    assert_eq!(
        Tensor::new(TensorId(1), Shape::new(vec![2, 3]), vec![0, 0, 0, 0, 0]).unwrap_err(),
        "Data length 5 does not match shape [2, 3]"
    );
    assert_eq!(
        Tensor::from_shared(TensorId(1), Shape::new(vec![4]), Arc::new(vec![0])).unwrap_err(),
        "Data length 1 does not match shape [4]"
    );
    assert_eq!(
        Tensor::new(TensorId(1), Shape::new(vec![]), vec![]).unwrap_err(),
        "Data length 0 does not match shape []"
    );
}

#[test]
fn test_unknown_dataset_name_is_cited() {
    let mut store = linal::DatasetStore::new();
    match store.get_by_name("ghost") {
        Err(DatasetStoreError::InvalidDataset(text)) => assert_eq!(text, "Dataset 'ghost' not found"),
        other => panic!("{:?}", other.map(|d| d.len())),
    }
    match store.get_mut_by_name("ghost") {
        Err(DatasetStoreError::InvalidDataset(text)) => assert_eq!(text, "Dataset 'ghost' not found"),
        other => panic!("{:?}", other.map(|d| d.len())),
    }
    match store.remove_by_name("ghost") {
        Err(DatasetStoreError::InvalidDataset(text)) => assert_eq!(text, "Dataset 'ghost' not found"),
        other => panic!("{:?}", other.map(|d| d.len())),
    }
}

#[test]
fn test_with_rows_takes_no_rows_and_refuses_another_schema() {
    let schema = Arc::new(Schema::new(vec![Field::new("a", ValueType::Int)]));
    let empty = Dataset::with_rows(DatasetId(3), schema.clone(), Vec::new(), Some("t".to_string())).unwrap();
    assert_eq!(empty.len(), 0);
    assert_eq!(empty.id(), DatasetId(3));
    assert_eq!(empty.metadata().name.as_deref(), Some("t"));
    let row = Tuple::new(schema.clone(), vec![Value::Int(1)]).unwrap();
    let one = Dataset::with_rows(DatasetId(4), schema.clone(), vec![row], None).unwrap();
    assert_eq!(one.len(), 1);
    let other = Arc::new(Schema::new(vec![Field::new("b", ValueType::Int)]));
    let stranger = Tuple::new(other, vec![Value::Int(1)]).unwrap();
    assert!(Dataset::with_rows(DatasetId(5), schema.clone(), vec![stranger], None).is_err());
    // An equal schema behind another handle is refused as well.
    let twin = Arc::new(Schema::new(vec![Field::new("a", ValueType::Int)]));
    let alike = Tuple::new(twin, vec![Value::Int(1)]).unwrap();
    assert!(Dataset::with_rows(DatasetId(6), schema, vec![alike], None).is_err());
}
