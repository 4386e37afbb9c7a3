use linal::dsl::reader::CommandReader;
use linal::dsl::{run_command, DslError, DslOutput};
use linal::{Tensor, TensorDb, Value};

/// Runs one command; what is left to a frontend shows nothing here.
fn execute_line(db: &mut TensorDb, line: &str, line_no: usize) -> Result<DslOutput, DslError> {
    match run_command(db, line, line_no) {
        Some(answer) => answer,
        None => Ok(DslOutput::Nothing),
    }
}

/// Runs the commands of a script, stopping at the first that fails.
fn execute_script(db: &mut TensorDb, script: &str) -> Result<(), DslError> {
    let mut reader = CommandReader::new();
    for (idx, raw_line) in script.lines().enumerate() {
        let line = raw_line.trim();
        if !reader.is_open() && (line.is_empty() || line.starts_with('#') || line.starts_with("//")) {
            continue;
        }
        if let Some((command, start_line)) = reader.feed(line, idx + 1) {
            execute_line(db, &command, start_line)?;
        }
    }
    if reader.is_open() {
        return Err(DslError::Parse {
            line: reader.start_line(),
            msg: "Unexpected end of script (unbalanced parentheses?)".into(),
        });
    }
    Ok(())
}

/// The numbers of a tensor.
fn numbers(tensor: &Tensor) -> Vec<f32> {
    tensor.data_ref().iter().map(|b| f32::from_bits(*b)).collect()
}



#[test]
fn test_complete_dataset_workflow() {
    let mut db = TensorDb::new();

    let script = r#"
        # Phase 2: Dataset Definition and Insertion
        DATASET users COLUMNS (id: INT, name: STRING, age: INT, score: FLOAT)
        
        INSERT INTO users VALUES (1, "Alice", 30, 0.95)
        INSERT INTO users VALUES (2, "Bob", 25, 0.87)
        INSERT INTO users VALUES (3, "Carol", 35, 0.92)
        INSERT INTO users VALUES (4, "Dave", 28, 0.88)
        INSERT INTO users VALUES (5, "Eve", 32, 0.91)
        
        # Show all datasets
        SHOW ALL DATASETS
        
        # Phase 3: Query Language
        # Filter: Get users older than 28
        DATASET adults FROM users FILTER age > 28
        
        # Select: Project specific columns
        DATASET names_scores FROM users SELECT name, score
        
        # Order and Limit: Top 3 users by score
        DATASET top_users FROM users ORDER BY score DESC LIMIT 3
        
        # Combined query: Adults with high scores
        DATASET high_performers FROM users FILTER age > 28 SELECT name, age, score ORDER BY score DESC
    "#;

    execute_script(&mut db, script).unwrap();

    let users = db.get_dataset("users").unwrap();
    assert_eq!(users.len(), 5);
    assert_eq!(users.schema().len(), 4);

    let adults = db.get_dataset("adults").unwrap();
    assert_eq!(adults.len(), 3);

    let names_scores = db.get_dataset("names_scores").unwrap();
    assert_eq!(names_scores.schema().len(), 2);
    assert_eq!(names_scores.len(), 5);

    let top_users = db.get_dataset("top_users").unwrap();
    assert_eq!(top_users.len(), 3);

    let high_performers = db.get_dataset("high_performers").unwrap();
    assert_eq!(high_performers.schema().len(), 3);
    assert!(high_performers.len() <= 4);
}

#[test]
fn test_dataset_creation_basic() {
    let mut db = TensorDb::new();

    let script = r#"
        DATASET products COLUMNS (id: INT, name: STRING, price: FLOAT)
    "#;

    execute_script(&mut db, script).unwrap();

    let products = db.get_dataset("products").unwrap();
    assert_eq!(products.len(), 0);
    assert_eq!(products.schema().len(), 3);
}

#[test]
fn test_dataset_insertion_basic() {
    let mut db = TensorDb::new();

    let script = r#"
        DATASET items COLUMNS (id: INT, name: STRING)
        INSERT INTO items VALUES (1, "Item A")
        INSERT INTO items VALUES (2, "Item B")
    "#;

    execute_script(&mut db, script).unwrap();

    let items = db.get_dataset("items").unwrap();
    assert_eq!(items.len(), 2);
}

#[test]
fn test_dataset_filter() {
    let mut db = TensorDb::new();

    let script = r#"
        DATASET numbers COLUMNS (id: INT, value: INT)
        INSERT INTO numbers VALUES (1, 10)
        INSERT INTO numbers VALUES (2, 20)
        INSERT INTO numbers VALUES (3, 30)
        INSERT INTO numbers VALUES (4, 40)
        
        DATASET big_numbers FROM numbers FILTER value > 20
    "#;

    execute_script(&mut db, script).unwrap();

    let big_numbers = db.get_dataset("big_numbers").unwrap();
    assert_eq!(big_numbers.len(), 2);
}

#[test]
fn test_dataset_select() {
    let mut db = TensorDb::new();

    let script = r#"
        DATASET people COLUMNS (id: INT, name: STRING, age: INT, city: STRING)
        INSERT INTO people VALUES (1, "Alice", 30, "NYC")
        INSERT INTO people VALUES (2, "Bob", 25, "LA")
        
        DATASET names_only FROM people SELECT name
    "#;

    execute_script(&mut db, script).unwrap();

    let names_only = db.get_dataset("names_only").unwrap();
    assert_eq!(names_only.schema().len(), 1);
    assert_eq!(names_only.len(), 2);
}

#[test]
fn test_dataset_order_by() {
    let mut db = TensorDb::new();

    let script = r#"
        DATASET scores COLUMNS (name: STRING, score: FLOAT)
        INSERT INTO scores VALUES ("Alice", 0.95)
        INSERT INTO scores VALUES ("Bob", 0.87)
        INSERT INTO scores VALUES ("Carol", 0.92)
        
        DATASET sorted FROM scores ORDER BY score DESC
    "#;

    execute_script(&mut db, script).unwrap();

    let sorted = db.get_dataset("sorted").unwrap();
    assert_eq!(sorted.len(), 3);
}

#[test]
fn test_dataset_limit() {
    let mut db = TensorDb::new();

    let script = r#"
        DATASET numbers COLUMNS (value: INT)
        INSERT INTO numbers VALUES (1)
        INSERT INTO numbers VALUES (2)
        INSERT INTO numbers VALUES (3)
        INSERT INTO numbers VALUES (4)
        INSERT INTO numbers VALUES (5)
        
        DATASET first_three FROM numbers LIMIT 3
    "#;

    execute_script(&mut db, script).unwrap();

    let first_three = db.get_dataset("first_three").unwrap();
    assert_eq!(first_three.len(), 3);
}

#[test]
fn test_dataset_combined_query() {
    let mut db = TensorDb::new();

    let script = r#"
        DATASET employees COLUMNS (id: INT, name: STRING, dept: STRING, salary: FLOAT)
        INSERT INTO employees VALUES (1, "Alice", "Engineering", 95000.0)
        INSERT INTO employees VALUES (2, "Bob", "Sales", 75000.0)
        INSERT INTO employees VALUES (3, "Carol", "Engineering", 98000.0)
        INSERT INTO employees VALUES (4, "Dave", "Sales", 72000.0)
        INSERT INTO employees VALUES (5, "Eve", "Engineering", 92000.0)
        
        DATASET top_engineers FROM employees FILTER dept = "Engineering" SELECT name, salary ORDER BY salary DESC LIMIT 2
    "#;

    execute_script(&mut db, script).unwrap();

    let top_engineers = db.get_dataset("top_engineers").unwrap();
    assert_eq!(top_engineers.len(), 2);
    assert_eq!(top_engineers.schema().len(), 2);
}

#[test]
fn test_show_all_datasets() {
    let mut db = TensorDb::new();

    let script = r#"
        DATASET dataset1 COLUMNS (id: INT)
        DATASET dataset2 COLUMNS (name: STRING)
        DATASET dataset3 COLUMNS (value: FLOAT)
        
        SHOW ALL DATASETS
    "#;

    execute_script(&mut db, script).unwrap();

    let names = db.list_dataset_names();
    assert_eq!(names.len(), 3);
    assert!(names.contains(&"dataset1".to_string()));
    assert!(names.contains(&"dataset2".to_string()));
    assert!(names.contains(&"dataset3".to_string()));
}

#[test]
fn test_dataset_type_validation() {
    let mut db = TensorDb::new();

    let script = r#"
        DATASET typed COLUMNS (int_col: INT, float_col: FLOAT, string_col: STRING, bool_col: BOOL)
        INSERT INTO typed VALUES (42, 3.14, "hello", true)
    "#;

    execute_script(&mut db, script).unwrap();

    let typed = db.get_dataset("typed").unwrap();
    assert_eq!(typed.len(), 1);
    assert_eq!(typed.schema().len(), 4);
}

#[test]
#[should_panic]
fn test_dataset_type_mismatch() {
    let mut db = TensorDb::new();

    let script = r#"
        DATASET strict COLUMNS (id: INT, name: STRING)
        INSERT INTO strict VALUES ("not_an_int", "Alice")
    "#;

    execute_script(&mut db, script).unwrap();
}

#[test]
#[should_panic]
fn test_dataset_duplicate_name() {
    let mut db = TensorDb::new();

    let script = r#"
        DATASET users COLUMNS (id: INT)
        DATASET users COLUMNS (name: STRING)
    "#;

    execute_script(&mut db, script).unwrap();
}



#[test]
fn test_dsl_vector_syntax() {
    let mut db = TensorDb::new();

    let script = r#"
        VECTOR v = [1, 2, 3]
        SHOW v
    "#;

    execute_script(&mut db, script).unwrap();

    let v = db.get("v").unwrap();
    assert_eq!(v.shape().dims, vec![3]);
    assert_eq!(numbers(v), vec![1.0, 2.0, 3.0]);
}

#[test]
fn test_dsl_matrix_syntax() {
    let mut db = TensorDb::new();

    let script = r#"
        MATRIX A = [[1, 2], [3, 4]]
        SHOW A
    "#;

    execute_script(&mut db, script).unwrap();

    let a = db.get("A").unwrap();
    assert_eq!(a.shape().dims, vec![2, 2]);
    assert_eq!(numbers(a), vec![1.0, 2.0, 3.0, 4.0]);
}

#[test]
fn test_dsl_matrix_3x2() {
    let mut db = TensorDb::new();

    let script = r#"
        MATRIX M = [[1, 2], [3, 4], [5, 6]]
    "#;

    execute_script(&mut db, script).unwrap();

    let m = db.get("M").unwrap();
    assert_eq!(m.shape().dims, vec![3, 2]);
    assert_eq!(numbers(m), vec![1.0, 2.0, 3.0, 4.0, 5.0, 6.0]);
}

#[test]
fn test_dsl_matmul() {
    let mut db = TensorDb::new();

    let script = r#"
        MATRIX A = [[1, 2, 3], [4, 5, 6]]
        MATRIX B = [[7, 8], [9, 10], [11, 12]]
        LET C = MATMUL A B
        SHOW C
    "#;

    execute_script(&mut db, script).unwrap();

    let c = db.get("C").unwrap();
    assert_eq!(c.shape().dims, vec![2, 2]);
    assert_eq!(numbers(c), vec![58.0, 64.0, 139.0, 154.0]);
}

#[test]
fn test_dsl_transpose() {
    let mut db = TensorDb::new();

    let script = r#"
        MATRIX A = [[1, 2, 3], [4, 5, 6]]
        LET A_T = TRANSPOSE A
        SHOW A_T
    "#;

    execute_script(&mut db, script).unwrap();

    let a_t = db.get("A_T").unwrap();
    assert_eq!(a_t.shape().dims, vec![3, 2]);
    assert_eq!(numbers(a_t), vec![1.0, 4.0, 2.0, 5.0, 3.0, 6.0]);
}

#[test]
fn test_dsl_flatten() {
    let mut db = TensorDb::new();

    let script = r#"
        MATRIX M = [[1, 2, 3], [4, 5, 6]]
        LET flat = FLATTEN M
        SHOW flat
    "#;

    execute_script(&mut db, script).unwrap();

    let flat = db.get("flat").unwrap();
    assert_eq!(flat.shape().dims, vec![6]);
    assert_eq!(numbers(flat), vec![1.0, 2.0, 3.0, 4.0, 5.0, 6.0]);
}

#[test]
fn test_dsl_reshape() {
    let mut db = TensorDb::new();

    let script = r#"
        VECTOR v = [1, 2, 3, 4, 5, 6]
        LET M = RESHAPE v TO [2, 3]
        SHOW M
    "#;

    execute_script(&mut db, script).unwrap();

    let m = db.get("M").unwrap();
    assert_eq!(m.shape().dims, vec![2, 3]);
    assert_eq!(numbers(m), vec![1.0, 2.0, 3.0, 4.0, 5.0, 6.0]);
}

#[test]
fn test_dsl_matrix_chain_operations() {
    let mut db = TensorDb::new();

    let script = r#"
        # Create two matrices
        MATRIX A = [[1, 2], [3, 4]]
        MATRIX B = [[5, 6], [7, 8]]
        
        # Multiply them
        LET C = MATMUL A B
        
        # Transpose the result
        LET C_T = TRANSPOSE C
        
        # Flatten it
        LET flat = FLATTEN C_T
        
        SHOW flat
    "#;

    execute_script(&mut db, script).unwrap();

    let flat = db.get("flat").unwrap();
    assert_eq!(flat.shape().dims, vec![4]);
    assert_eq!(flat.shape().rank(), 1);
}

#[test]
fn test_dsl_vector_operations() {
    let mut db = TensorDb::new();

    let script = r#"
        VECTOR a = [1, 2, 3]
        VECTOR b = [4, 5, 6]
        
        LET sum = ADD a b
        LET dot = CORRELATE a WITH b
        LET sim = SIMILARITY a WITH b
        
        SHOW sum
        SHOW dot
        SHOW sim
    "#;

    execute_script(&mut db, script).unwrap();

    let sum = db.get("sum").unwrap();
    assert_eq!(numbers(sum), vec![5.0, 7.0, 9.0]);

    let dot = db.get("dot").unwrap();
    assert_eq!(numbers(dot)[0], 32.0);
}

#[test]
fn test_dsl_reshape_multiple_times() {
    let mut db = TensorDb::new();

    let script = r#"
        VECTOR v = [1, 2, 3, 4, 5, 6, 7, 8, 9, 10, 11, 12]
        LET M1 = RESHAPE v TO [3, 4]
        LET M2 = RESHAPE M1 TO [4, 3]
        LET M3 = RESHAPE M2 TO [2, 6]
        LET back = RESHAPE M3 TO [12]
    "#;

    execute_script(&mut db, script).unwrap();

    let back = db.get("back").unwrap();
    let original = db.get("v").unwrap();
    assert_eq!(numbers(back), numbers(original));
}

#[test]
fn test_dsl_matmul_with_transpose() {
    let mut db = TensorDb::new();

    let script = r#"
        MATRIX A = [[1, 2, 3], [4, 5, 6]]
        LET A_T = TRANSPOSE A
        LET result = MATMUL A A_T
    "#;

    execute_script(&mut db, script).unwrap();

    let result = db.get("result").unwrap();
    assert_eq!(result.shape().dims, vec![2, 2]);
    assert_eq!(numbers(result), vec![14.0, 32.0, 32.0, 77.0]);
}

#[test]
fn test_dsl_mixed_syntax() {
    let mut db = TensorDb::new();

    let script = r#"
        # Mix old and new syntax
        DEFINE old AS TENSOR [2, 2] VALUES [1, 2, 3, 4]
        MATRIX new = [[5, 6], [7, 8]]
        
        LET result = MATMUL old new
        SHOW result
    "#;

    execute_script(&mut db, script).unwrap();

    let result = db.get("result").unwrap();
    assert_eq!(result.shape().dims, vec![2, 2]);
}

#[test]
fn test_dsl_vector_to_matrix_reshape() {
    let mut db = TensorDb::new();

    let script = r#"
        VECTOR v = [1, 2, 3, 4]
        LET M = RESHAPE v TO [2, 2]
        LET v2 = FLATTEN M
    "#;

    execute_script(&mut db, script).unwrap();

    let v2 = db.get("v2").unwrap();
    let v = db.get("v").unwrap();
    assert_eq!(numbers(v2), numbers(v));
}



#[test]
fn dsl_basic_math_and_similarity() {
    let mut db = TensorDb::new();

    let script = r#"
# Creamos dos vectores 3D
DEFINE a AS TENSOR [3] VALUES [1, 2, 3]
DEFINE b AS TENSOR [3] VALUES [4, 5, 6]

LET sum      = ADD a b
LET prod     = MULTIPLY a b
LET ratio    = DIVIDE b a
LET corr     = CORRELATE a WITH b
LET sim      = SIMILARITY a WITH b
LET dist     = DISTANCE a TO b
LET a_norm   = NORMALIZE a
"#;

    execute_script(&mut db, script).expect("script should run");

    let sum = db.get("sum").unwrap();
    assert_eq!(sum.shape().dims, vec![3]);
    assert_eq!(numbers(sum), vec![5.0, 7.0, 9.0]);

    let prod = db.get("prod").unwrap();
    assert_eq!(numbers(prod), vec![4.0, 10.0, 18.0]);

    let ratio = db.get("ratio").unwrap();
    assert_eq!(numbers(ratio), vec![4.0, 2.5, 2.0]);

    let corr = db.get("corr").unwrap();
    assert_eq!(corr.shape().rank(), 0);
    assert_eq!(numbers(corr).len(), 1);
    assert!((numbers(corr)[0] - 32.0).abs() < 1e-6);

    let sim = db.get("sim").unwrap();
    assert_eq!(sim.shape().rank(), 0);
    let expected_sim = {
        let dot = 32.0;
        let norm_a = (1.0f32 + 4.0 + 9.0).sqrt();
        let norm_b = (16.0f32 + 25.0 + 36.0).sqrt();
        dot / (norm_a * norm_b)
    };
    assert!((numbers(sim)[0] - expected_sim).abs() < 1e-6);

    let dist = db.get("dist").unwrap();
    let expected_dist = ((1.0f32 - 4.0f32).powi(2)
        + (2.0f32 - 5.0f32).powi(2)
        + (3.0f32 - 6.0f32).powi(2)).sqrt();
    assert!((numbers(dist)[0] - expected_dist).abs() < 1e-6);

    let a_norm = db.get("a_norm").unwrap();
    let len_sq: f32 = numbers(a_norm).iter().map(|x| x * x).sum();
    assert!((len_sq.sqrt() - 1.0).abs() < 1e-6);
}



#[test]
fn test_show_shape_vector() {
    let mut db = TensorDb::new();

    let script = r#"
        VECTOR v = [1, 2, 3, 4, 5]
        SHOW SHAPE v
    "#;

    execute_script(&mut db, script).unwrap();

    let v = db.get("v").unwrap();
    assert_eq!(v.shape().dims, vec![5]);
    assert_eq!(v.shape().rank(), 1);
}

#[test]
fn test_show_shape_matrix() {
    let mut db = TensorDb::new();

    let script = r#"
        MATRIX m = [[1, 2, 3], [4, 5, 6]]
        SHOW SHAPE m
    "#;

    execute_script(&mut db, script).unwrap();

    let m = db.get("m").unwrap();
    assert_eq!(m.shape().dims, vec![2, 3]);
    assert_eq!(m.shape().rank(), 2);
}

#[test]
fn test_show_shape_scalar() {
    let mut db = TensorDb::new();

    let script = r#"
        VECTOR a = [1, 2, 3]
        VECTOR b = [4, 5, 6]
        MATRIX c = [[1, 2], [3, 4]]
        SHOW ALL TENSORS
    "#;

    execute_script(&mut db, script).unwrap();

    assert!(db.get("a").is_ok());
    assert!(db.get("b").is_ok());
    assert!(db.get("c").is_ok());

    let names = db.list_names();
    assert_eq!(names.len(), 3);
}

#[test]
fn test_show_all_backward_compatibility() {
    let mut db = TensorDb::new();

    let script = r#"
        VECTOR x = [1, 2]
        VECTOR y = [3, 4]
        SHOW ALL
    "#;

    execute_script(&mut db, script).unwrap();

    let names = db.list_names();
    assert_eq!(names.len(), 2);
}

#[test]
fn test_show_all_datasets_placeholder() {
    let mut db = TensorDb::new();

    let script = r#"
        SHOW ALL DATASETS
    "#;

    execute_script(&mut db, script).unwrap();
}

#[test]
fn test_show_commands_mixed() {
    let mut db = TensorDb::new();

    let script = r#"
        VECTOR v = [1, 2, 3]
        MATRIX m = [[1, 2], [3, 4]]
        
        SHOW v
        SHOW SHAPE v
        SHOW SHAPE m
        SHOW ALL TENSORS
        SHOW ALL
    "#;

    execute_script(&mut db, script).unwrap();
}



#[test]
fn test_add_column_basic() {
    let mut db = TensorDb::new();
    
    let script = r#"
        DATASET users COLUMNS (id: INT, name: STRING)
        INSERT INTO users VALUES (1, "Alice")
        INSERT INTO users VALUES (2, "Bob")
    "#;
    
    execute_script(&mut db, script).expect("Setup failed");
    
    let output = execute_line(&mut db, "DATASET users ADD COLUMN age: INT", 1)
        .expect("ADD COLUMN should succeed");
    
    match output {
        DslOutput::Message(msg) => {
            assert!(msg.contains("Added column 'age'"));
        }
        _ => panic!("Expected Message output"),
    }
    
    let users = db.get_dataset("users").expect("Dataset should exist");
    assert_eq!(users.schema().len(), 3);
    assert_eq!(users.len(), 2);
    
    let first_row = &users.rows()[0];
    assert_eq!(first_row.values()[2], Value::Int(0));
}

#[test]
fn test_add_column_with_default_value() {
    let mut db = TensorDb::new();
    
    let script = r#"
        DATASET products COLUMNS (id: INT, name: STRING)
        INSERT INTO products VALUES (1, "Product A")
        INSERT INTO products VALUES (2, "Product B")
    "#;
    
    execute_script(&mut db, script).expect("Setup failed");
    
    let output = execute_line(&mut db, "DATASET products ADD COLUMN price: FLOAT DEFAULT 99.99", 1)
        .expect("ADD COLUMN with DEFAULT should succeed");
    
    match output {
        DslOutput::Message(msg) => {
            assert!(msg.contains("Added column 'price'"));
        }
        _ => panic!("Expected Message output"),
    }
    
    let products = db.get_dataset("products").expect("Dataset should exist");
    assert_eq!(products.schema().len(), 3);
    
    for row in products.rows() {
        assert_eq!(row.values()[2], Value::Float((99.99_f32).to_bits()));
    }
}

#[test]
fn test_add_column_nullable() {
    let mut db = TensorDb::new();
    
    let script = r#"
        DATASET contacts COLUMNS (id: INT, name: STRING)
        INSERT INTO contacts VALUES (1, "Alice")
    "#;
    
    execute_script(&mut db, script).expect("Setup failed");
    
    let output = execute_line(&mut db, "DATASET contacts ADD COLUMN email: STRING?", 1)
        .expect("ADD COLUMN nullable should succeed");
    
    match output {
        DslOutput::Message(msg) => {
            assert!(msg.contains("Added column 'email'"));
        }
        _ => panic!("Expected Message output"),
    }
    
    let contacts = db.get_dataset("contacts").expect("Dataset should exist");
    assert_eq!(contacts.rows()[0].values()[2], Value::Null);
}

#[test]
fn test_add_column_duplicate_name() {
    let mut db = TensorDb::new();
    
    let script = r#"
        DATASET users COLUMNS (id: INT, name: STRING)
    "#;
    
    execute_script(&mut db, script).expect("Setup failed");
    
    let result = execute_line(&mut db, "DATASET users ADD COLUMN name: STRING", 1);
    
    assert!(result.is_err(), "Adding duplicate column should fail");
}

#[test]
fn test_add_column_different_types() {
    let mut db = TensorDb::new();
    
    let script = r#"
        DATASET test COLUMNS (id: INT)
        INSERT INTO test VALUES (1)
    "#;
    
    execute_script(&mut db, script).expect("Setup failed");
    
    execute_line(&mut db, "DATASET test ADD COLUMN score: FLOAT DEFAULT 0.0", 1)
        .expect("Add FLOAT column should succeed");
    
    execute_line(&mut db, "DATASET test ADD COLUMN label: STRING DEFAULT \"default\"", 1)
        .expect("Add STRING column should succeed");
    
    execute_line(&mut db, "DATASET test ADD COLUMN active: BOOL DEFAULT true", 1)
        .expect("Add BOOL column should succeed");
    
    let test = db.get_dataset("test").expect("Dataset should exist");
    assert_eq!(test.schema().len(), 4);
    
    let row = &test.rows()[0];
    assert_eq!(row.values()[1], Value::Float((0.0_f32).to_bits()));
    assert_eq!(row.values()[2], Value::String("default".to_string()));
    assert_eq!(row.values()[3], Value::Bool(true));
}

#[test]
fn test_add_column_to_empty_dataset() {
    let mut db = TensorDb::new();
    
    let script = r#"
        DATASET empty COLUMNS (id: INT)
    "#;
    
    execute_script(&mut db, script).expect("Setup failed");
    
    let output = execute_line(&mut db, "DATASET empty ADD COLUMN name: STRING", 1)
        .expect("ADD COLUMN to empty dataset should succeed");
    
    match output {
        DslOutput::Message(msg) => {
            assert!(msg.contains("Added column 'name'"));
        }
        _ => panic!("Expected Message output"),
    }
    
    let empty = db.get_dataset("empty").expect("Dataset should exist");
    assert_eq!(empty.schema().len(), 2);
    assert_eq!(empty.len(), 0);
}

#[test]
fn test_add_column_vector_type() {
    let mut db = TensorDb::new();
    
    let script = r#"
        DATASET items COLUMNS (id: INT, name: STRING)
        INSERT INTO items VALUES (1, "Item 1")
    "#;
    
    execute_script(&mut db, script).expect("Setup failed");
    
    let output = execute_line(&mut db, "DATASET items ADD COLUMN embedding: Vector(3)", 1)
        .expect("Add Vector column should succeed");
    
    match output {
        DslOutput::Message(msg) => {
            assert!(msg.contains("Added column 'embedding'"));
        }
        _ => panic!("Expected Message output"),
    }
    
    let items = db.get_dataset("items").expect("Dataset should exist");
    assert_eq!(items.rows()[0].values()[2], Value::Vector(vec![(0.0_f32).to_bits(), (0.0_f32).to_bits(), (0.0_f32).to_bits()]));
}

#[test]
fn test_add_column_nonexistent_dataset() {
    let mut db = TensorDb::new();
    
    let result = execute_line(&mut db, "DATASET nonexistent ADD COLUMN col: INT", 1);
    
    assert!(result.is_err(), "ADD COLUMN on nonexistent dataset should fail");
}




#[test]
fn test_avg_basic_int() {
    let mut db = TensorDb::new();
    
    let script = r#"
        DATASET scores COLUMNS (id: Int, score: Int)
        INSERT INTO scores VALUES (1, 10)
        INSERT INTO scores VALUES (2, 20)
        INSERT INTO scores VALUES (3, 30)
    "#;
    
    execute_script(&mut db, script).expect("Setup failed");
    
    let query = r#"DATASET result FROM scores SELECT AVG(score)"#;
    execute_line(&mut db, query, 0).expect("AVG query failed");
    
    let result = db.get_dataset("result").expect("Result dataset not found");
    assert_eq!(result.len(), 1);
    assert_eq!(result.rows()[0].values()[0], Value::Float((20.0_f32).to_bits()));
}

#[test]
fn test_avg_basic_float() {
    let mut db = TensorDb::new();
    
    let script = r#"
        DATASET prices COLUMNS (id: Int, price: Float)
        INSERT INTO prices VALUES (1, 10.5)
        INSERT INTO prices VALUES (2, 20.5)
        INSERT INTO prices VALUES (3, 30.5)
    "#;
    
    execute_script(&mut db, script).expect("Setup failed");
    
    let query = r#"DATASET result FROM prices SELECT AVG(price)"#;
    execute_line(&mut db, query, 0).expect("AVG query failed");
    
    let result = db.get_dataset("result").expect("Result dataset not found");
    assert_eq!(result.len(), 1);
    assert_eq!(result.rows()[0].values()[0], Value::Float((20.5_f32).to_bits()));
}

#[test]
fn test_avg_with_group_by() {
    let mut db = TensorDb::new();
    
    let script = r#"
        DATASET sales COLUMNS (region: String, amount: Int)
        INSERT INTO sales VALUES ("North", 100)
        INSERT INTO sales VALUES ("South", 200)
        INSERT INTO sales VALUES ("North", 150)
        INSERT INTO sales VALUES ("South", 250)
    "#;
    
    execute_script(&mut db, script).expect("Setup failed");
    
    let query = r#"DATASET result FROM sales GROUP BY region SELECT region, AVG(amount)"#;
    execute_line(&mut db, query, 0).expect("AVG GROUP BY query failed");
    
    let result = db.get_dataset("result").expect("Result dataset not found");
    assert_eq!(result.len(), 2);
    
    let find_row = |region: &str| {
        result.rows().iter().find(|r| r.values()[0] == Value::String(region.to_string()))
    };
    
    let north = find_row("North").expect("North not found");
    assert_eq!(north.values()[1], Value::Float((125.0_f32).to_bits()));
    
    let south = find_row("South").expect("South not found");
    assert_eq!(south.values()[1], Value::Float((225.0_f32).to_bits()));
}

#[test]
fn test_avg_computed_column() {
    let mut db = TensorDb::new();
    
    let script = r#"
        DATASET items COLUMNS (id: Int, price: Int, qty: Int)
        INSERT INTO items VALUES (1, 10, 2)
        INSERT INTO items VALUES (2, 20, 3)
        INSERT INTO items VALUES (3, 30, 1)
    "#;
    
    execute_script(&mut db, script).expect("Setup failed");
    
    let query = r#"DATASET result FROM items SELECT AVG(price * qty)"#;
    execute_line(&mut db, query, 0).expect("AVG computed column query failed");
    
    let result = db.get_dataset("result").expect("Result dataset not found");
    assert_eq!(result.len(), 1);
    if let Value::Float(avg) = result.rows()[0].values()[0] {
        assert!((f32::from_bits(avg) - 36.666666).abs() < 0.01, "Expected ~36.67, got {}", f32::from_bits(avg));
    } else {
        panic!("Expected Float value");
    }
}

#[test]
fn test_avg_mixed_int_float() {
    let mut db = TensorDb::new();
    
    let script = r#"
        DATASET values COLUMNS (id: Int, value: Int)
        INSERT INTO values VALUES (1, 10)
        INSERT INTO values VALUES (2, 20)
        INSERT INTO values VALUES (3, 30)
    "#;
    
    execute_script(&mut db, script).expect("Setup failed");
    
    let query = r#"DATASET result FROM values SELECT AVG(value)"#;
    execute_line(&mut db, query, 0).expect("AVG query failed");
    
    let result = db.get_dataset("result").expect("Result dataset not found");
    assert_eq!(result.len(), 1);
    assert_eq!(result.rows()[0].values()[0], Value::Float((20.0_f32).to_bits()));
}

#[test]
fn test_avg_empty_dataset() {
    let mut db = TensorDb::new();
    
    let script = r#"
        DATASET empty COLUMNS (id: Int, value: Int)
    "#;
    
    execute_script(&mut db, script).expect("Setup failed");
    
    let query = r#"DATASET result FROM empty SELECT AVG(value)"#;
    execute_line(&mut db, query, 0).expect("AVG query should succeed");
    
    let result = db.get_dataset("result").expect("Result dataset not found");
    assert_eq!(result.len(), 0, "Empty aggregation should return 0 rows");
}




#[test]
fn test_add_computed_column_basic() {
    let mut db = TensorDb::new();
    
    let script = r#"
        DATASET items COLUMNS (id: Int, price: Int, qty: Int)
        INSERT INTO items VALUES (1, 10, 2)
        INSERT INTO items VALUES (2, 20, 3)
        INSERT INTO items VALUES (3, 30, 1)
    "#;
    
    execute_script(&mut db, script).expect("Setup failed");
    
    let output = execute_line(&mut db, "DATASET items ADD COLUMN total = price * qty", 0)
        .expect("ADD COLUMN computed should succeed");
    
    match output {
        DslOutput::Message(msg) => {
            assert!(msg.contains("Added computed column 'total'"));
        }
        _ => panic!("Expected Message output"),
    }
    
    let items = db.get_dataset("items").expect("Dataset should exist");
    assert_eq!(items.schema().len(), 4);
    assert_eq!(items.len(), 3);
    
    assert_eq!(items.rows()[0].values()[3], Value::Int(20));
    assert_eq!(items.rows()[1].values()[3], Value::Int(60));
    assert_eq!(items.rows()[2].values()[3], Value::Int(30));
}

#[test]
fn test_add_computed_column_addition() {
    let mut db = TensorDb::new();
    
    let script = r#"
        DATASET users COLUMNS (id: Int, age: Int, bonus: Int)
        INSERT INTO users VALUES (1, 25, 5)
        INSERT INTO users VALUES (2, 30, 10)
    "#;
    
    execute_script(&mut db, script).expect("Setup failed");
    
    execute_line(&mut db, "DATASET users ADD COLUMN total_age = age + bonus", 0)
        .expect("ADD COLUMN computed should succeed");
    
    let users = db.get_dataset("users").expect("Dataset should exist");
    assert_eq!(users.rows()[0].values()[3], Value::Int(30));
    assert_eq!(users.rows()[1].values()[3], Value::Int(40));
}

#[test]
fn test_add_computed_column_subtraction() {
    let mut db = TensorDb::new();
    
    let script = r#"
        DATASET products COLUMNS (id: Int, price: Int, discount: Int)
        INSERT INTO products VALUES (1, 100, 20)
        INSERT INTO products VALUES (2, 200, 30)
    "#;
    
    execute_script(&mut db, script).expect("Setup failed");
    
    execute_line(&mut db, "DATASET products ADD COLUMN final_price = price - discount", 0)
        .expect("ADD COLUMN computed should succeed");
    
    let products = db.get_dataset("products").expect("Dataset should exist");
    assert_eq!(products.rows()[0].values()[3], Value::Int(80));
    assert_eq!(products.rows()[1].values()[3], Value::Int(170));
}

#[test]
fn test_add_computed_column_division() {
    let mut db = TensorDb::new();
    
    let script = r#"
        DATASET metrics COLUMNS (id: Int, total: Int, count: Int)
        INSERT INTO metrics VALUES (1, 100, 4)
        INSERT INTO metrics VALUES (2, 150, 3)
    "#;
    
    execute_script(&mut db, script).expect("Setup failed");
    
    execute_line(&mut db, "DATASET metrics ADD COLUMN average = total / count", 0)
        .expect("ADD COLUMN computed should succeed");
    
    let metrics = db.get_dataset("metrics").expect("Dataset should exist");
    assert_eq!(metrics.rows()[0].values()[3], Value::Int(25));
    assert_eq!(metrics.rows()[1].values()[3], Value::Int(50));
}

#[test]
fn test_add_computed_column_complex_expression() {
    let mut db = TensorDb::new();
    
    let script = r#"
        DATASET orders COLUMNS (id: Int, price: Int, qty: Int, tax: Int)
        INSERT INTO orders VALUES (1, 10, 2, 1)
        INSERT INTO orders VALUES (2, 20, 3, 2)
    "#;
    
    execute_script(&mut db, script).expect("Setup failed");
    
    execute_line(&mut db, "DATASET orders ADD COLUMN total = price * qty + tax", 0)
        .expect("ADD COLUMN computed should succeed");
    
    let orders = db.get_dataset("orders").expect("Dataset should exist");
    assert_eq!(orders.rows()[0].values()[4], Value::Int(21));
    assert_eq!(orders.rows()[1].values()[4], Value::Int(62));
}

#[test]
fn test_add_computed_column_empty_dataset() {
    let mut db = TensorDb::new();
    
    let script = r#"
        DATASET empty COLUMNS (id: Int, value: Int)
    "#;
    
    execute_script(&mut db, script).expect("Setup failed");
    
    let result = execute_line(&mut db, "DATASET empty ADD COLUMN computed = value * 2", 0);
    assert!(result.is_err(), "Should fail on empty dataset");
}

#[test]
fn test_add_computed_column_duplicate_name() {
    let mut db = TensorDb::new();
    
    let script = r#"
        DATASET test COLUMNS (id: Int, value: Int)
        INSERT INTO test VALUES (1, 10)
    "#;
    
    execute_script(&mut db, script).expect("Setup failed");
    
    let result = execute_line(&mut db, "DATASET test ADD COLUMN value = id * 2", 0);
    assert!(result.is_err(), "Should fail on duplicate column name");
}

#[test]
fn test_add_computed_column_float_result() {
    let mut db = TensorDb::new();
    
    let script = r#"
        DATASET ratios COLUMNS (id: Int, numerator: Int, denominator: Int)
        INSERT INTO ratios VALUES (1, 10, 3)
        INSERT INTO ratios VALUES (2, 20, 3)
    "#;
    
    execute_script(&mut db, script).expect("Setup failed");
    
    execute_line(&mut db, "DATASET ratios ADD COLUMN ratio = numerator / denominator", 0)
        .expect("ADD COLUMN computed should succeed");
    
    let ratios = db.get_dataset("ratios").expect("Dataset should exist");
    assert_eq!(ratios.rows()[0].values()[3], Value::Int(3));
    assert_eq!(ratios.rows()[1].values()[3], Value::Int(6));
}



#[test]
fn test_lazy_column_basic() {
    let mut db = TensorDb::new();
    
    execute_line(&mut db, "DATASET test COLUMNS a: INT, b: INT", 1).unwrap();
    execute_line(&mut db, "INSERT INTO test VALUES (1, 2)", 2).unwrap();
    execute_line(&mut db, "INSERT INTO test VALUES (3, 4)", 3).unwrap();
    
    let result = execute_line(&mut db, "DATASET test ADD COLUMN c = a + b LAZY", 4).unwrap();
    assert!(matches!(result, DslOutput::Message(_)));
    
    let result = execute_line(&mut db, "SELECT * FROM test", 5).unwrap();
    if let DslOutput::Table(ds) = result {
        assert_eq!(ds.rows().len(), 2);
        assert_eq!(ds.rows()[0].values()[2], Value::Int(3));
        assert_eq!(ds.rows()[1].values()[2], Value::Int(7));
    } else {
        panic!("Expected table output");
    }
}

#[test]
fn test_lazy_column_vs_materialized() {
    let mut db = TensorDb::new();
    
    execute_line(&mut db, "DATASET test COLUMNS x: INT", 1).unwrap();
    execute_line(&mut db, "INSERT INTO test VALUES (5)", 2).unwrap();
    execute_line(&mut db, "INSERT INTO test VALUES (10)", 3).unwrap();
    
    execute_line(&mut db, "DATASET test ADD COLUMN doubled = x * 2", 4).unwrap();
    
    execute_line(&mut db, "DATASET test ADD COLUMN tripled = x * 3 LAZY", 5).unwrap();
    
    let result = execute_line(&mut db, "SELECT * FROM test", 6).unwrap();
    if let DslOutput::Table(ds) = result {
        assert_eq!(ds.rows().len(), 2);
        assert_eq!(ds.rows()[0].values()[1], Value::Int(10));
        assert_eq!(ds.rows()[0].values()[2], Value::Int(15));
        assert_eq!(ds.rows()[1].values()[1], Value::Int(20));
        assert_eq!(ds.rows()[1].values()[2], Value::Int(30));
    } else {
        panic!("Expected table output");
    }
}

#[test]
fn test_lazy_column_get_column() {
    let mut db = TensorDb::new();
    
    execute_line(&mut db, "DATASET test COLUMNS a: INT, b: INT", 1).unwrap();
    execute_line(&mut db, "INSERT INTO test VALUES (2, 3)", 2).unwrap();
    execute_line(&mut db, "INSERT INTO test VALUES (4, 5)", 3).unwrap();
    
    execute_line(&mut db, "DATASET test ADD COLUMN sum = a + b LAZY", 4).unwrap();
    
    let dataset = db.get_dataset("test").unwrap();
    let column_values = dataset.get_column("sum").unwrap();
    
    assert_eq!(column_values.len(), 2);
    assert_eq!(column_values[0], Value::Int(5));
    assert_eq!(column_values[1], Value::Int(9));
}

#[test]
fn test_materialize_lazy_columns() {
    let mut db = TensorDb::new();
    
    execute_line(&mut db, "DATASET test COLUMNS x: INT", 1).unwrap();
    execute_line(&mut db, "INSERT INTO test VALUES (7)", 2).unwrap();
    
    execute_line(&mut db, "DATASET test ADD COLUMN squared = x * x LAZY", 3).unwrap();
    
    let result = execute_line(&mut db, "MATERIALIZE test", 4).unwrap();
    assert!(matches!(result, DslOutput::Message(_)));
    
    let result = execute_line(&mut db, "SELECT * FROM test", 5).unwrap();
    if let DslOutput::Table(ds) = result {
        assert_eq!(ds.rows().len(), 1);
        assert_eq!(ds.rows()[0].values()[1], Value::Int(49));
    } else {
        panic!("Expected table output");
    }
    
    let dataset = db.get_dataset("test").unwrap();
    let field = dataset.schema().get_field("squared").unwrap();
    assert!(!field.is_lazy);
}

#[test]
fn test_lazy_column_with_filter() {
    let mut db = TensorDb::new();
    
    execute_line(&mut db, "DATASET test COLUMNS age: INT", 1).unwrap();
    execute_line(&mut db, "INSERT INTO test VALUES (25)", 2).unwrap();
    execute_line(&mut db, "INSERT INTO test VALUES (30)", 3).unwrap();
    execute_line(&mut db, "INSERT INTO test VALUES (35)", 4).unwrap();
    
    execute_line(&mut db, "DATASET test ADD COLUMN next_year = age + 1 LAZY", 5).unwrap();
    
    let result = execute_line(&mut db, "SELECT * FROM test WHERE next_year > 30", 6).unwrap();
    if let DslOutput::Table(ds) = result {
        assert_eq!(ds.rows().len(), 2);
    } else {
        panic!("Expected table output");
    }
}

#[test]
fn test_lazy_column_empty_dataset() {
    let mut db = TensorDb::new();
    
    execute_line(&mut db, "DATASET test COLUMNS a: INT", 1).unwrap();
    
    let result = execute_line(&mut db, "DATASET test ADD COLUMN b = a * 2 LAZY", 2);
    assert!(result.is_err());
}

#[test]
fn test_lazy_column_complex_expression() {
    let mut db = TensorDb::new();
    
    execute_line(&mut db, "DATASET test COLUMNS a: INT, b: INT, c: INT", 1).unwrap();
    execute_line(&mut db, "INSERT INTO test VALUES (1, 2, 3)", 2).unwrap();
    
    execute_line(&mut db, "DATASET test ADD COLUMN result = (a + b) * c LAZY", 3).unwrap();
    
    let result = execute_line(&mut db, "SELECT result FROM test", 4).unwrap();
    if let DslOutput::Table(ds) = result {
        assert_eq!(ds.rows().len(), 1);
        assert_eq!(ds.rows()[0].values()[0], Value::Int(9));
    } else {
        panic!("Expected table output");
    }
}

#[test]
fn test_lazy_column_with_float() {
    let mut db = TensorDb::new();
    
    execute_line(&mut db, "DATASET test COLUMNS price: FLOAT", 1).unwrap();
    execute_line(&mut db, "INSERT INTO test VALUES (10.5)", 2).unwrap();
    
    execute_line(&mut db, "DATASET test ADD COLUMN tax = price * 0.1 LAZY", 3).unwrap();
    
    let result = execute_line(&mut db, "SELECT tax FROM test", 4).unwrap();
    if let DslOutput::Table(ds) = result {
        assert_eq!(ds.rows().len(), 1);
        if let Value::Float(tax) = ds.rows()[0].values()[0] {
            assert!((f32::from_bits(tax) - 1.05).abs() < 0.001);
        } else {
            panic!("Expected Float value");
        }
    } else {
        panic!("Expected table output");
    }
}



#[test]
fn test_indexing_workflow() {
    let mut db = TensorDb::new();


    let script = r#"
    DATASET items COLUMNS (id: Int, category: String, embedding: Vector(3))

    CREATE INDEX cat_idx ON items(category)
    CREATE VECTOR INDEX vec_idx ON items(embedding)

    INSERT INTO items VALUES (1, "A", [1.0, 0.0, 0.0])
    INSERT INTO items VALUES (2, "B", [0.0, 1.0, 0.0])
    INSERT INTO items VALUES (3, "A", [0.0, 0.0, 1.0])

    SHOW INDEXES
    "#;

    execute_script(&mut db, script).expect("Script execution failed");

    let indices = db.list_indices();
    assert_eq!(indices.len(), 2);

    let has_cat_idx = indices
        .iter()
        .any(|(ds, col, type_)| ds == "items" && col == "category" && type_ == "HASH");
    let has_vec_idx = indices
        .iter()
        .any(|(ds, col, type_)| ds == "items" && col == "embedding" && type_ == "VECTOR");

    assert!(has_cat_idx, "Hash index not found");
    assert!(has_vec_idx, "Vector index not found");

}


#[test]
fn test_filter_optimization_workflow() {
    let mut db = TensorDb::new();

    let script = r#"
    DATASET users COLUMNS (id: Int, name: String, age: Int)
    
    CREATE INDEX name_idx ON users(name)

    INSERT INTO users VALUES (1, "Alice", 30)
    INSERT INTO users VALUES (2, "Bob", 25)
    INSERT INTO users VALUES (3, "Alice", 35)
    INSERT INTO users VALUES (4, "Charlie", 40)

    DATASET alice_users FROM users FILTER name = "Alice"
    SHOW alice_users
    "#;

    execute_script(&mut db, script).expect("Script execution failed");

    let alice_users = db.get_dataset("alice_users").expect("Dataset not found");
    assert_eq!(alice_users.len(), 2);

    let ages: Vec<i64> = alice_users
        .rows()
        .iter()
        .map(|r| match r.get("age") {
            Some(Value::Int(i)) => *i,
            _ => 0,
        })
        .collect();

    assert!(ages.contains(&30));
    assert!(ages.contains(&35));
}

#[test]
fn test_vector_search_workflow() {
    let mut db = TensorDb::new();

    let script = r#"
    DATASET vectors COLUMNS (id: Int, embedding: Vector(3))
    CREATE VECTOR INDEX vec_idx ON vectors(embedding)

    INSERT INTO vectors VALUES (1, [1.0, 0.0, 0.0])
    INSERT INTO vectors VALUES (2, [0.0, 1.0, 0.0])
    INSERT INTO vectors VALUES (3, [0.0, 0.0, 1.0])
    "#;

    execute_script(&mut db, script).expect("Script execution failed");

    let search_script = r#"
    SEARCH results FROM vectors QUERY [1.0, 0.1, 0.0] ON embedding K=1
    SHOW results
    "#;

    execute_script(&mut db, search_script)
        .expect("Search script execution failed");

    let results = db
        .get_dataset("results")
        .expect("Results dataset not found");
    assert_eq!(results.len(), 1);
    if let Some(Value::Int(id)) = results.rows()[0].get("id") {
        assert_eq!(*id, 1);
    } else {
        panic!("Result row does not have id");
    }
}
