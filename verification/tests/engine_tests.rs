use linal::engine::context::ExecutionContext;
use linal::engine::kernels::SliceSpec;
use linal::engine::{BinaryOp, EngineError, TensorDb, TensorKind, UnaryOp};
use linal::dataset::DatasetId;
use linal::tensor::{Shape, Tensor, TensorId};
use linal::tuple::{Field, Schema, Tuple};
use linal::value::{Value, ValueType};
use std::sync::Arc;

fn bits(values: Vec<f32>) -> Vec<u32> {
    values.iter().map(|x| x.to_bits()).collect()
}

fn floats(tensor: &Tensor) -> Vec<f32> {
    tensor.data_ref().iter().map(|b| f32::from_bits(*b)).collect()
}


#[test]
fn basic_scenario() {
    let mut db = TensorDb::new();

    let shape_vec3 = Shape::new(vec![3]);

    db.insert_named("a", shape_vec3.clone(), bits(vec![1.0, 0.0, 0.0])).unwrap();
    db.insert_named("b", shape_vec3.clone(), bits(vec![0.0, 1.0, 0.0])).unwrap();
    db.insert_named("c", shape_vec3.clone(), bits(vec![1.0, 1.0, 0.0])).unwrap();

    db.eval_binary("c1", "a", "b", BinaryOp::Add).unwrap();
    db.eval_binary("corr_ac", "a", "c", BinaryOp::Correlate).unwrap();
    db.eval_binary("sim_ac", "a", "c", BinaryOp::Similarity).unwrap();
    db.eval_unary("a_half", "a", UnaryOp::Scale((0.5_f32).to_bits())).unwrap();

    let c1 = db.get("c1").unwrap();
    let corr_ac = db.get("corr_ac").unwrap();
    let sim_ac = db.get("sim_ac").unwrap();
    let a_half = db.get("a_half").unwrap();

    assert_eq!(c1.shape().dims, vec![3]);
    assert_eq!(floats(c1), vec![1.0, 1.0, 0.0]);

    assert_eq!(corr_ac.shape().rank(), 0);
    assert!((floats(corr_ac)[0] - 1.0).abs() < 1e-6);

    let expected = 1.0 / 2f32.sqrt();
    assert!((floats(sim_ac)[0] - expected).abs() < 1e-6);

    assert_eq!(floats(a_half), vec![0.5, 0.0, 0.0]);
}

// tests/engine_matrix_ops.rs


#[test]
fn test_engine_matmul() {
    let mut db = TensorDb::new();

    // Create two matrices: A (2x3) and B (3x2)
    db.insert_named(
        "A",
        Shape::new(vec![2, 3]),
        bits(vec![1.0, 2.0, 3.0, 4.0, 5.0, 6.0]),
    )
    .unwrap();

    db.insert_named(
        "B",
        Shape::new(vec![3, 2]),
        bits(vec![7.0, 8.0, 9.0, 10.0, 11.0, 12.0]),
    )
    .unwrap();

    // Perform matrix multiplication: C = A * B
    db.eval_matmul("C", "A", "B").unwrap();

    // Verify result
    let c = db.get("C").unwrap();
    assert_eq!(c.shape().dims, vec![2, 2]);

    // Expected: [[58, 64], [139, 154]]
    assert_eq!(floats(c), vec![58.0, 64.0, 139.0, 154.0]);
}

#[test]
fn test_engine_matmul_identity() {
    let mut db = TensorDb::new();

    // Create a 2x2 matrix
    db.insert_named("A", Shape::new(vec![2, 2]), bits(vec![1.0, 2.0, 3.0, 4.0]))
        .unwrap();

    // Create identity matrix
    db.insert_named("I", Shape::new(vec![2, 2]), bits(vec![1.0, 0.0, 0.0, 1.0]))
        .unwrap();

    // A * I should equal A
    db.eval_matmul("result", "A", "I").unwrap();

    let result = db.get("result").unwrap();
    let original = db.get("A").unwrap();

    assert_eq!(floats(result), floats(original));
}

#[test]
fn test_engine_matmul_dimension_mismatch() {
    let mut db = TensorDb::new();

    // Create incompatible matrices
    db.insert_named(
        "A",
        Shape::new(vec![2, 3]),
        bits(vec![1.0, 2.0, 3.0, 4.0, 5.0, 6.0]),
    )
    .unwrap();
    db.insert_named("B", Shape::new(vec![2, 2]), bits(vec![1.0, 2.0, 3.0, 4.0]))
        .unwrap();

    // This should fail - dimensions don't match
    let result = db.eval_matmul("C", "A", "B");
    assert!(result.is_err());
}

#[test]
fn test_engine_reshape_basic() {
    let mut db = TensorDb::new();

    // Create a 2x3 matrix
    db.insert_named(
        "A",
        Shape::new(vec![2, 3]),
        bits(vec![1.0, 2.0, 3.0, 4.0, 5.0, 6.0]),
    )
    .unwrap();

    // Reshape to 3x2
    db.eval_reshape("B", "A", Shape::new(vec![3, 2])).unwrap();

    let b = db.get("B").unwrap();
    assert_eq!(b.shape().dims, vec![3, 2]);
    assert_eq!(floats(b), vec![1.0, 2.0, 3.0, 4.0, 5.0, 6.0]);
}

#[test]
fn test_engine_reshape_to_vector() {
    let mut db = TensorDb::new();

    // Create a 2x3 matrix
    db.insert_named(
        "M",
        Shape::new(vec![2, 3]),
        bits(vec![1.0, 2.0, 3.0, 4.0, 5.0, 6.0]),
    )
    .unwrap();

    // Reshape to 1D vector
    db.eval_reshape("V", "M", Shape::new(vec![6])).unwrap();

    let v = db.get("V").unwrap();
    assert_eq!(v.shape().dims, vec![6]);
    assert_eq!(v.shape().rank(), 1);
    assert_eq!(floats(v), vec![1.0, 2.0, 3.0, 4.0, 5.0, 6.0]);
}

#[test]
fn test_engine_reshape_invalid_size() {
    let mut db = TensorDb::new();

    // Create a 2x3 matrix (6 elements)
    db.insert_named(
        "A",
        Shape::new(vec![2, 3]),
        bits(vec![1.0, 2.0, 3.0, 4.0, 5.0, 6.0]),
    )
    .unwrap();

    // Try to reshape to incompatible size (2x2 = 4 elements)
    let result = db.eval_reshape("B", "A", Shape::new(vec![2, 2]));
    assert!(result.is_err());
}

#[test]
fn test_engine_matmul_chain() {
    let mut db = TensorDb::new();

    // Create three matrices for chained multiplication
    db.insert_named("A", Shape::new(vec![2, 2]), bits(vec![1.0, 2.0, 3.0, 4.0]))
        .unwrap();

    db.insert_named("B", Shape::new(vec![2, 2]), bits(vec![5.0, 6.0, 7.0, 8.0]))
        .unwrap();

    db.insert_named("C", Shape::new(vec![2, 2]), bits(vec![1.0, 0.0, 0.0, 1.0]))
        .unwrap();

    // Compute A * B
    db.eval_matmul("AB", "A", "B").unwrap();

    // Compute (A * B) * C
    db.eval_matmul("ABC", "AB", "C").unwrap();

    let abc = db.get("ABC").unwrap();
    assert_eq!(abc.shape().dims, vec![2, 2]);

    // (A * B) * I = A * B
    let ab = db.get("AB").unwrap();
    assert_eq!(floats(abc), floats(ab));
}

#[test]
fn test_engine_reshape_then_matmul() {
    let mut db = TensorDb::new();

    // Create a vector
    db.insert_named("V", Shape::new(vec![6]), bits(vec![1.0, 2.0, 3.0, 4.0, 5.0, 6.0]))
        .unwrap();

    // Reshape to 2x3 matrix
    db.eval_reshape("A", "V", Shape::new(vec![2, 3])).unwrap();

    // Create another matrix 3x2
    db.insert_named(
        "B",
        Shape::new(vec![3, 2]),
        bits(vec![1.0, 0.0, 0.0, 1.0, 1.0, 1.0]),
    )
    .unwrap();

    // Multiply reshaped matrix
    db.eval_matmul("C", "A", "B").unwrap();

    let c = db.get("C").unwrap();
    assert_eq!(c.shape().dims, vec![2, 2]);
}

#[test]
fn test_engine_strict_mode_matmul() {
    let mut db = TensorDb::new();

    // Create matrices in STRICT mode
    db.insert_named_with_kind(
        "A",
        Shape::new(vec![2, 2]),
        bits(vec![1.0, 2.0, 3.0, 4.0]),
        linal::TensorKind::Strict,
    )
    .unwrap();

    db.insert_named_with_kind(
        "B",
        Shape::new(vec![2, 2]),
        bits(vec![5.0, 6.0, 7.0, 8.0]),
        linal::TensorKind::Strict,
    )
    .unwrap();

    // Matmul should work in strict mode
    db.eval_matmul("C", "A", "B").unwrap();

    let c = db.get("C").unwrap();
    assert_eq!(c.shape().dims, vec![2, 2]);
    // Expected: [[19, 22], [43, 50]]
    assert_eq!(floats(c), vec![19.0, 22.0, 43.0, 50.0]);
}

#[test]
fn test_engine_multiple_reshapes() {
    let mut db = TensorDb::new();

    // Start with a vector
    db.insert_named(
        "V",
        Shape::new(vec![12]),
        bits(vec![
            1.0, 2.0, 3.0, 4.0, 5.0, 6.0, 7.0, 8.0, 9.0, 10.0, 11.0, 12.0,
        ]),
    )
    .unwrap();

    // Reshape to 3x4
    db.eval_reshape("M1", "V", Shape::new(vec![3, 4])).unwrap();
    let m1 = db.get("M1").unwrap();
    assert_eq!(m1.shape().dims, vec![3, 4]);

    // Reshape to 4x3
    db.eval_reshape("M2", "M1", Shape::new(vec![4, 3])).unwrap();
    let m2 = db.get("M2").unwrap();
    assert_eq!(m2.shape().dims, vec![4, 3]);

    // Reshape to 2x6
    db.eval_reshape("M3", "M2", Shape::new(vec![2, 6])).unwrap();
    let m3 = db.get("M3").unwrap();
    assert_eq!(m3.shape().dims, vec![2, 6]);

    // Reshape back to vector
    db.eval_reshape("V2", "M3", Shape::new(vec![12])).unwrap();
    let v2 = db.get("V2").unwrap();

    // Data should be preserved through all reshapes
    let original = db.get("V").unwrap();
    assert_eq!(floats(v2), floats(original));
}


#[test]
fn test_dataset_column_access_direct() {
    let mut db = TensorDb::new();

    // Create schema
    let schema = Arc::new(Schema::new(vec![
        Field::new("id", ValueType::Int),
        Field::new("name", ValueType::String),
        Field::new("age", ValueType::Int),
    ]));

    // Create dataset
    db.create_dataset("users".to_string(), schema.clone())
        .unwrap();

    // Insert rows
    let row1 = Tuple::new(
        schema.clone(),
        vec![
            Value::Int(1),
            Value::String("Alice".to_string()),
            Value::Int(30),
        ],
    )
    .unwrap();
    let row2 = Tuple::new(
        schema.clone(),
        vec![
            Value::Int(2),
            Value::String("Bob".to_string()),
            Value::Int(25),
        ],
    )
    .unwrap();

    db.insert_row("users", row1).unwrap();
    db.insert_row("users", row2).unwrap();

    // Extract age column using dot notation
    db.eval_column_access("ages", "users", "age").unwrap();

    // Verify
    let tensor = db.get("ages").unwrap();
    println!("Ages tensor shape: {:?}", tensor.shape().dims);
    println!("Ages tensor data: {:?}", floats(tensor));

    assert_eq!(tensor.shape().dims, vec![2]);
    assert_eq!(floats(tensor), vec![30.0, 25.0]);
}

#[test]
fn test_tuple_field_access_direct() {
    let mut db = TensorDb::new();

    // Create schema
    let schema = Arc::new(Schema::new(vec![
        Field::new("id", ValueType::Int),
        Field::new("score", ValueType::Float),
    ]));

    // Create dataset with one row (treating as tuple)
    db.create_dataset("user".to_string(), schema.clone())
        .unwrap();

    // Insert one row
    let row = Tuple::new(schema.clone(), vec![Value::Int(1), Value::Float((95.5_f32).to_bits())]).unwrap();

    db.insert_row("user", row).unwrap();

    // Access field using dot notation
    db.eval_field_access("user_score", "user", "score").unwrap();

    // Verify
    let tensor = db.get("user_score").unwrap();
    println!("Score tensor shape: {:?}", tensor.shape().dims);
    println!("Score tensor data: {:?}", floats(tensor));

    assert_eq!(tensor.shape().dims, Vec::<usize>::new()); // Scalar
    assert_eq!(floats(tensor), vec![95.5]);
}

#[test]
fn test_invalid_column() {
    let mut db = TensorDb::new();

    let schema = Arc::new(Schema::new(vec![Field::new("id", ValueType::Int)]));

    db.create_dataset("test".to_string(), schema).unwrap();

    // Try to access non-existent column
    let result = db.eval_column_access("x", "test", "nonexistent");

    assert!(result.is_err());
    println!("Error (expected): {:?}", result.unwrap_err());
}

#[test]
fn test_multiple_columns() {
    let mut db = TensorDb::new();

    let schema = Arc::new(Schema::new(vec![
        Field::new("x", ValueType::Int),
        Field::new("y", ValueType::Int),
        Field::new("z", ValueType::Int),
    ]));

    db.create_dataset("points".to_string(), schema.clone())
        .unwrap();

    // Insert points
    let p1 = Tuple::new(
        schema.clone(),
        vec![Value::Int(1), Value::Int(2), Value::Int(3)],
    )
    .unwrap();
    let p2 = Tuple::new(
        schema.clone(),
        vec![Value::Int(4), Value::Int(5), Value::Int(6)],
    )
    .unwrap();

    db.insert_row("points", p1).unwrap();
    db.insert_row("points", p2).unwrap();

    // Extract each column
    db.eval_column_access("x_vals", "points", "x").unwrap();
    db.eval_column_access("y_vals", "points", "y").unwrap();
    db.eval_column_access("z_vals", "points", "z").unwrap();

    // Verify
    let x = db.get("x_vals").unwrap();
    let y = db.get("y_vals").unwrap();
    let z = db.get("z_vals").unwrap();

    assert_eq!(floats(x), vec![1.0, 4.0]);
    assert_eq!(floats(y), vec![2.0, 5.0]);
    assert_eq!(floats(z), vec![3.0, 6.0]);
}




#[test]
fn test_context_creation() {
    let ctx = ExecutionContext::new();
    assert_eq!(ctx.arena_stats().allocated_bytes, 0);
}

#[test]
fn test_arena_allocation() {
    let ctx = ExecutionContext::new();

    let val = ctx.alloc_temp(42);
    assert_eq!(*val, 42);

    let slice = ctx.alloc_slice(&[1, 2, 3]);
    assert_eq!(slice, &[1, 2, 3]);
}

#[test]
fn test_tracking() {
    let mut ctx = ExecutionContext::new();

    ctx.track_tensor(TensorId(1));
    ctx.track_dataset(DatasetId(2));

    assert_eq!(ctx.temp_tensors().len(), 1);
    assert_eq!(ctx.temp_datasets().len(), 1);

    ctx.clear_tracked();
    assert_eq!(ctx.temp_tensors().len(), 0);
    assert_eq!(ctx.temp_datasets().len(), 0);
}

fn users_schema() -> Arc<Schema> {
    Arc::new(Schema::new(vec![
        Field::new("id", ValueType::Int),
        Field::new("email", ValueType::String),
    ]))
}

#[test]
fn test_relaxed_and_strict_kinds() {
    let mut db = TensorDb::new();
    db.insert_named("v1", Shape::new(vec![3]), bits(vec![1.0, 2.0, 3.0])).unwrap();
    db.insert_named("v2", Shape::new(vec![4]), bits(vec![10.0, 20.0, 30.0, 40.0])).unwrap();
    db.insert_named("s", Shape::new(vec![]), bits(vec![2.0])).unwrap();
    db.insert_named_with_kind("strict", Shape::new(vec![3]), bits(vec![1.0, 1.0, 1.0]), TensorKind::Strict)
        .unwrap();

    db.eval_binary("sum", "v1", "v2", BinaryOp::Add).unwrap();
    assert_eq!(floats(db.get("sum").unwrap()), vec![11.0, 22.0, 33.0, 40.0]);
    db.eval_binary("scaled", "s", "v2", BinaryOp::Multiply).unwrap();
    assert_eq!(floats(db.get("scaled").unwrap()), vec![20.0, 40.0, 60.0, 80.0]);

    assert!(db.eval_binary("bad", "strict", "v2", BinaryOp::Add).is_err());
    assert!(db.eval_binary("bad", "v2", "strict", BinaryOp::Add).is_err());
    assert!(db.get("bad").is_err());
    db.eval_binary("ok", "strict", "v1", BinaryOp::Add).unwrap();
    assert_eq!(floats(db.get("ok").unwrap()), vec![2.0, 3.0, 4.0]);
    assert_eq!(db.get_with_kind("ok").unwrap().1, TensorKind::Strict);
    assert_eq!(db.get_with_kind("sum").unwrap().1, TensorKind::Normal);
    assert!(db.eval_binary("d", "v1", "v2", BinaryOp::Distance).is_err());
    db.eval_binary("dist", "v1", "strict", BinaryOp::Distance).unwrap();
    let d = floats(db.get("dist").unwrap())[0];
    assert!((d - 5.0f32.sqrt()).abs() < 1e-6);
    db.eval_binary("quot", "v2", "s", BinaryOp::Divide).unwrap();
    assert_eq!(floats(db.get("quot").unwrap()), vec![5.0, 10.0, 15.0, 20.0]);
    db.eval_binary("diff", "v2", "v1", BinaryOp::Subtract).unwrap();
    assert_eq!(floats(db.get("diff").unwrap()), vec![9.0, 18.0, 27.0, 40.0]);
}

#[test]
fn test_missing_names_and_refused_operations() {
    let mut db = TensorDb::new();
    db.insert_named("a", Shape::new(vec![2]), bits(vec![3.0, 4.0])).unwrap();
    assert!(matches!(db.get("nope"), Err(EngineError::NameNotFound(_))));
    assert!(matches!(
        db.eval_unary("x", "nope", UnaryOp::Flatten),
        Err(EngineError::NameNotFound(_))
    ));
    assert!(matches!(
        db.eval_unary("x", "a", UnaryOp::Transpose),
        Err(EngineError::InvalidOp(_))
    ));
    assert!(matches!(
        db.insert_named("b", Shape::new(vec![3]), bits(vec![1.0])),
        Err(EngineError::Store(_))
    ));
    db.eval_unary("n", "a", UnaryOp::Normalize).unwrap();
    let n = floats(db.get("n").unwrap());
    assert!((n[0] - 0.6).abs() < 1e-6 && (n[1] - 0.8).abs() < 1e-6);
    db.eval_unary("f", "a", UnaryOp::Flatten).unwrap();
    assert_eq!(floats(db.get("f").unwrap()), vec![3.0, 4.0]);
    let mut names = db.list_names();
    names.sort();
    assert_eq!(names, vec!["a".to_string(), "f".to_string(), "n".to_string()]);
    assert!(!EngineError::NameNotFound("q".to_string()).message().is_empty());
}

#[test]
fn test_stack_index_and_slice_through_the_engine() {
    let mut db = TensorDb::new();
    db.insert_named("r1", Shape::new(vec![2]), bits(vec![1.0, 2.0])).unwrap();
    db.insert_named("r2", Shape::new(vec![2]), bits(vec![3.0, 4.0])).unwrap();
    db.eval_stack("m", vec!["r1", "r2"], 0).unwrap();
    let m = db.get("m").unwrap();
    assert_eq!(m.shape().dims, vec![2, 2]);
    assert_eq!(floats(m), vec![1.0, 2.0, 3.0, 4.0]);
    assert!(db.eval_stack("m2", vec!["r1", "missing"], 0).is_err());
    assert!(db.eval_stack("m2", vec!["r1", "r2"], 1).is_err());
    db.eval_index("cell", "m", vec![1, 0]).unwrap();
    assert_eq!(floats(db.get("cell").unwrap()), vec![3.0]);
    assert!(db.eval_index("cell2", "m", vec![2, 0]).is_err());
    db.eval_slice("col", "m", vec![SliceSpec::All, SliceSpec::Index(1)]).unwrap();
    assert_eq!(floats(db.get("col").unwrap()), vec![2.0, 4.0]);
    db.eval_matmul("mm", "m", "m").unwrap();
    assert_eq!(floats(db.get("mm").unwrap()), vec![7.0, 10.0, 15.0, 22.0]);
}

#[test]
fn test_same_dataset_name_in_one_database_fails() {
    let mut db = TensorDb::new();
    assert!(db.create_dataset("users".to_string(), users_schema()).is_ok());
    let second = db.create_dataset("users".to_string(), users_schema());
    assert!(matches!(second, Err(EngineError::DatasetError(_))));
    assert_eq!(db.list_dataset_names(), vec!["users".to_string()]);
}

#[test]
fn test_same_dataset_name_in_two_databases_succeeds() {
    let mut db = TensorDb::new();
    db.create_database("a".to_string()).unwrap();
    db.create_database("b".to_string()).unwrap();
    db.use_database("a").unwrap();
    db.create_dataset("users".to_string(), users_schema()).unwrap();
    let row = Tuple::new(
        db.get_dataset("users").unwrap().schema().clone(),
        vec![Value::Int(1), Value::String("x@y".to_string())],
    )
    .unwrap();
    db.insert_row("users", row).unwrap();

    db.use_database("b").unwrap();
    let other = Arc::new(Schema::new(vec![
        Field::new("id", ValueType::Int),
        Field::new("name", ValueType::String),
    ]));
    assert!(db.create_dataset("users".to_string(), other).is_ok());
    assert_eq!(db.get_dataset("users").unwrap().len(), 0);
    assert!(db.get_dataset("users").unwrap().schema().get_field("name").is_some());
    assert!(db.get_dataset("users").unwrap().schema().get_field("email").is_none());

    db.use_database("a").unwrap();
    assert_eq!(db.get_dataset("users").unwrap().len(), 1);
    assert!(db.get_dataset("users").unwrap().schema().get_field("email").is_some());
}

#[test]
fn test_database_creation_and_switching() {
    let mut db = TensorDb::new();
    assert_eq!(db.list_databases(), vec!["default".to_string()]);
    db.create_database("analytics".to_string()).unwrap();
    assert!(db.create_database("analytics".to_string()).is_err());
    let mut names = db.list_databases();
    names.sort();
    assert_eq!(names, vec!["analytics".to_string(), "default".to_string()]);
    assert!(db.use_database("missing").is_err());
    db.use_database("analytics").unwrap();
    db.insert_named("t", Shape::new(vec![1]), bits(vec![1.0])).unwrap();
    db.use_database("default").unwrap();
    assert!(db.get("t").is_err());
    db.use_database("analytics").unwrap();
    assert!(db.get("t").is_ok());
}

#[test]
fn test_drop_database() {
    let mut db = TensorDb::new();
    assert!(matches!(db.drop_database("default"), Err(EngineError::InvalidOp(_))));
    assert!(db.drop_database("missing").is_err());
    db.create_database("temp".to_string()).unwrap();
    db.use_database("temp").unwrap();
    db.insert_named("t", Shape::new(vec![1]), bits(vec![1.0])).unwrap();
    db.drop_database("temp").unwrap();
    assert_eq!(db.list_databases(), vec!["default".to_string()]);
    assert!(db.get("t").is_err());
    db.insert_named("u", Shape::new(vec![1]), bits(vec![2.0])).unwrap();
    assert!(db.get("u").is_ok());
    assert!(db.use_database("temp").is_err());
}

#[test]
fn test_dataset_metadata_entries() {
    let mut db = TensorDb::new();
    db.create_dataset("users".to_string(), users_schema()).unwrap();
    db.set_dataset_metadata("users", "owner".to_string(), "ops".to_string()).unwrap();
    let dataset = db.get_dataset("users").unwrap();
    assert_eq!(dataset.metadata().extra.get("owner"), Some(&"ops".to_string()));
    assert_eq!(dataset.metadata().version, 1);
    assert!(dataset.metadata().updated_at >= dataset.metadata().created_at);
    assert!(dataset.metadata().created_at > 0);
    assert!(matches!(
        db.set_dataset_metadata("nope", "k".to_string(), "v".to_string()),
        Err(EngineError::NameNotFound(_))
    ));
    assert!(matches!(db.get_dataset("nope"), Err(EngineError::DatasetNotFound(_))));
}

#[test]
fn test_context_reset_and_capacity() {
    let mut ctx = ExecutionContext::with_capacity(1024);
    ctx.track_tensor(TensorId(1));
    ctx.track_tensor(TensorId(2));
    ctx.track_dataset(DatasetId(7));
    assert_eq!(ctx.temp_tensors(), vec![TensorId(1), TensorId(2)]);
    assert_eq!(ctx.temp_datasets(), vec![DatasetId(7)]);
    let kept = ctx.alloc_vec(vec![1u8, 2, 3]);
    assert_eq!(kept, &[1u8, 2, 3]);
    ctx.reset();
    assert!(ctx.temp_tensors().is_empty());
    assert!(ctx.temp_datasets().is_empty());
}
