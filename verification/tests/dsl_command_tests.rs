use linal::dsl::command::{classify, run_command, skipped, CommandKind};
use linal::dsl::datasets::{
    handle_create_database, handle_create_index, handle_drop_database, handle_insert,
    handle_materialize, handle_set_metadata, handle_use_database,
};
use linal::dsl::lets::{handle_infix_op, handle_let};
use linal::dsl::plans::{
    build_dataset_query_plan, build_search_query_plan, build_select_query_plan,
};
use linal::dsl::queries::{handle_dataset, handle_search, handle_select};
use linal::dsl::request::{check_command, command_of, default_format, format_named, Format};
use linal::dsl::tensors::{handle_define, handle_matrix, handle_vector};
use linal::storage::{dataset_columns, ColumnData};
use linal::dsl::{DslError, DslOutput};
use linal::query::logical::LogicalPlan;
use linal::{
    BinaryOp, Dataset, DatasetId, EngineError, Field, ParquetStorage, Schema, TensorDb,
    TensorKind, Tuple, Value, ValueType,
};
use std::sync::Arc;

fn bits(x: f32) -> u32 {
    x.to_bits()
}

fn numbers(db: &TensorDb, name: &str) -> Vec<f32> {
    db.get(name).unwrap().data_ref().iter().map(|b| f32::from_bits(*b)).collect()
}

fn message(r: Result<DslOutput, DslError>) -> String {
    match r {
        Ok(DslOutput::Message(m)) => m,
        other => panic!("no message: {:?}", other),
    }
}

fn parse_error(r: Result<DslOutput, DslError>) -> (usize, String) {
    match r {
        Err(DslError::Parse { line, msg }) => (line, msg),
        other => panic!("no parse error: {:?}", other),
    }
}

fn engine_error(r: Result<DslOutput, DslError>) -> (usize, EngineError) {
    match r {
        Err(DslError::Engine { line, source }) => (line, source),
        other => panic!("no engine error: {:?}", other),
    }
}

fn run(db: &mut TensorDb, line: &str) -> Result<DslOutput, DslError> {
    run_command(db, line, 1).expect("a command of the library")
}

fn people() -> TensorDb {
    let mut db = TensorDb::new();
    run(&mut db, "DATASET people COLUMNS (id: INT, name: STRING, age: INT, emb: VECTOR(2))").unwrap();
    run(&mut db, "INSERT INTO people VALUES (1, \"Ann\", 30, [1, 0])").unwrap();
    run(&mut db, "INSERT INTO people VALUES (2, \"Bob\", 40, [0, 1])").unwrap();
    run(&mut db, "INSERT INTO people VALUES (3, \"Cy\", 50, [1, 1])").unwrap();
    db
}

#[test]
fn test_classify_tells_the_kinds_apart() {
    assert_eq!(classify("DEFINE x AS TENSOR [1] VALUES [1]"), CommandKind::Define);
    assert_eq!(classify("VECTOR v = [1]"), CommandKind::Vector);
    assert_eq!(classify("MATRIX m = [[1]]"), CommandKind::Matrix);
    assert_eq!(classify("LET x = ADD a b"), CommandKind::Let);
    assert_eq!(classify("SHOW ALL"), CommandKind::Show);
    assert_eq!(classify("SHOW DATABASES"), CommandKind::Show);
    assert_eq!(classify("SELECT * FROM t"), CommandKind::Select);
    assert_eq!(classify("DATASET t COLUMNS (a: INT)"), CommandKind::Dataset);
    assert_eq!(classify("INSERT INTO t VALUES (1)"), CommandKind::Insert);
    assert_eq!(classify("SEARCH t WHERE e ~= [1] LIMIT 1"), CommandKind::Search);
    assert_eq!(classify("EXPLAIN SELECT * FROM t"), CommandKind::Explain);
    assert_eq!(classify("MATERIALIZE t"), CommandKind::Materialize);
    assert_eq!(classify("CREATE DATABASE d"), CommandKind::CreateDatabase);
    assert_eq!(classify("USE d"), CommandKind::UseDatabase);
    assert_eq!(classify("DROP DATABASE d"), CommandKind::DropDatabase);
    assert_eq!(classify("SET DATASET t METADATA k = v"), CommandKind::SetMetadata);
    assert_eq!(classify("SAVE DATASET t TO \"p\""), CommandKind::Save);
    assert_eq!(classify("LOAD DATASET t FROM \"p\""), CommandKind::Load);
    assert_eq!(classify("LIST DATASETS FROM \"p\""), CommandKind::List);
    assert_eq!(classify("CREATE INDEX i ON t(a)"), CommandKind::CreateIndex);
    assert_eq!(classify("CREATE VECTOR INDEX i ON t(a)"), CommandKind::CreateIndex);
    assert_eq!(classify("CREATE TABLE t"), CommandKind::OtherCreate);
    assert_eq!(classify(""), CommandKind::Skipped);
    assert_eq!(classify("# note"), CommandKind::Skipped);
    assert_eq!(classify("// note"), CommandKind::Skipped);
    assert_eq!(classify("define x"), CommandKind::Unknown);
    assert_eq!(classify("DEFINE"), CommandKind::Unknown);
    assert!(skipped(""));
    assert!(skipped("#x"));
    assert!(!skipped(" "));
}

#[test]
fn test_run_command_leaves_some_commands_to_the_frontend() {
    let mut db = people();
    for line in ["SHOW people", "EXPLAIN SELECT * FROM people", "SAVE DATASET people TO \"x\"",
        "LOAD DATASET people FROM \"x\"", "LIST DATASETS FROM \"x\""]
    {
        assert!(run_command(&mut db, line, 1).is_none(), "{}", line);
    }
    assert_eq!(db.get_dataset("people").unwrap().len(), 3);
}

#[test]
fn test_run_command_refuses_what_it_does_not_know() {
    let mut db = TensorDb::new();
    assert_eq!(parse_error(run_command(&mut db, "FROBNICATE x", 9).unwrap()),
        (9, "Unknown command: FROBNICATE x".to_string()));
    assert_eq!(parse_error(run_command(&mut db, "CREATE TABLE t", 4).unwrap()),
        (4, "Unsupported CREATE command: CREATE TABLE t".to_string()));
    assert!(matches!(run_command(&mut db, "# a comment", 1), Some(Ok(DslOutput::Nothing))));
    assert!(matches!(run_command(&mut db, "", 1), Some(Ok(DslOutput::Nothing))));
}

#[test]
fn test_handle_define_stores_a_tensor_of_the_kind() {
    let mut db = TensorDb::new();
    let m = message(handle_define(&mut db, "DEFINE t AS TENSOR [2, 2] VALUES [1, 2, 3, 4]", 1));
    assert_eq!(m, "Defined tensor: t");
    assert_eq!(db.get("t").unwrap().shape().dims, vec![2, 2]);
    assert_eq!(numbers(&db, "t"), vec![1.0, 2.0, 3.0, 4.0]);
    assert_eq!(db.get_with_kind("t").unwrap().1, TensorKind::Normal);
    message(handle_define(&mut db, "DEFINE s AS STRICT TENSOR [2] VALUES [1, 2]", 1));
    assert_eq!(db.get_with_kind("s").unwrap().1, TensorKind::Strict);
    let (line, _) = engine_error(handle_define(&mut db, "DEFINE u AS TENSOR [3] VALUES [1, 2]", 6));
    assert_eq!(line, 6);
    for text in ["DEFINE t", "DEFINE  AS TENSOR [1] VALUES [1]", "DEFINE t AS ARRAY [1] VALUES [1]",
        "DEFINE t AS TENSOR [1]", "DEFINE t AS TENSOR [x] VALUES [1]", "DEFINE t AS TENSOR [1] VALUES [x]"]
    {
        assert_eq!(parse_error(handle_define(&mut db, text, 3)).0, 3, "{}", text);
    }
}

#[test]
fn test_handle_vector_and_matrix_store_tensors() {
    let mut db = TensorDb::new();
    assert_eq!(message(handle_vector(&mut db, "VECTOR v = [1, 2.5, -3]", 1)), "Defined vector: v");
    assert_eq!(db.get("v").unwrap().shape().dims, vec![3]);
    assert_eq!(numbers(&db, "v"), vec![1.0, 2.5, -3.0]);
    assert_eq!(message(handle_matrix(&mut db, "MATRIX m = [[1, 2], [3, 4], [5, 6]]", 1)), "Defined matrix: m");
    assert_eq!(db.get("m").unwrap().shape().dims, vec![3, 2]);
    assert_eq!(numbers(&db, "m"), vec![1.0, 2.0, 3.0, 4.0, 5.0, 6.0]);
    assert_eq!(parse_error(handle_vector(&mut db, "VECTOR v [1]", 2)).1, "Expected: VECTOR <name> = [<values>]");
    assert_eq!(parse_error(handle_vector(&mut db, "VECTOR = [1]", 2)).1, "Missing vector name");
    assert_eq!(parse_error(handle_matrix(&mut db, "MATRIX m = [[1], [2, 3]]", 2)).0, 2);
}

#[test]
fn test_handle_let_reads_every_operation() {
    let mut db = TensorDb::new();
    run(&mut db, "VECTOR a = [1, 2, 3]").unwrap();
    run(&mut db, "VECTOR b = [4, 5, 6]").unwrap();
    run(&mut db, "MATRIX m = [[1, 2], [3, 4]]").unwrap();
    assert_eq!(message(handle_let(&mut db, "LET s = ADD a b", 1)), "Defined variable: s");
    assert_eq!(numbers(&db, "s"), vec![5.0, 7.0, 9.0]);
    handle_let(&mut db, "LET d = SUBTRACT b a", 1).unwrap();
    assert_eq!(numbers(&db, "d"), vec![3.0, 3.0, 3.0]);
    handle_let(&mut db, "LET p = MULTIPLY a b", 1).unwrap();
    assert_eq!(numbers(&db, "p"), vec![4.0, 10.0, 18.0]);
    handle_let(&mut db, "LET q = DIVIDE b a", 1).unwrap();
    assert_eq!(numbers(&db, "q"), vec![4.0, 2.5, 2.0]);
    handle_let(&mut db, "LET c = CORRELATE a WITH b", 1).unwrap();
    assert_eq!(numbers(&db, "c"), vec![32.0]);
    handle_let(&mut db, "LET sim = SIMILARITY a WITH a", 1).unwrap();
    assert!((numbers(&db, "sim")[0] - 1.0).abs() < 1e-6);
    handle_let(&mut db, "LET dist = DISTANCE a TO b", 1).unwrap();
    assert!((numbers(&db, "dist")[0] - 27.0_f32.sqrt()).abs() < 1e-6);
    handle_let(&mut db, "LET twice = SCALE a BY 2", 1).unwrap();
    assert_eq!(numbers(&db, "twice"), vec![2.0, 4.0, 6.0]);
    handle_let(&mut db, "LET n = NORMALIZE a", 1).unwrap();
    let len: f32 = numbers(&db, "n").iter().map(|x| x * x).sum();
    assert!((len - 1.0).abs() < 1e-6);
    handle_let(&mut db, "LET mm = MATMUL m m", 1).unwrap();
    assert_eq!(numbers(&db, "mm"), vec![7.0, 10.0, 15.0, 22.0]);
    handle_let(&mut db, "LET t = TRANSPOSE m", 1).unwrap();
    assert_eq!(numbers(&db, "t"), vec![1.0, 3.0, 2.0, 4.0]);
    handle_let(&mut db, "LET f = FLATTEN m", 1).unwrap();
    assert_eq!(db.get("f").unwrap().shape().dims, vec![4]);
    handle_let(&mut db, "LET r = RESHAPE f TO [2, 2]", 1).unwrap();
    assert_eq!(db.get("r").unwrap().shape().dims, vec![2, 2]);
    handle_let(&mut db, "LET st = STACK a b", 1).unwrap();
    assert_eq!(db.get("st").unwrap().shape().dims, vec![2, 3]);
    assert_eq!(numbers(&db, "st"), vec![1.0, 2.0, 3.0, 4.0, 5.0, 6.0]);
}

#[test]
fn test_handle_let_reads_indexing_and_signs() {
    let mut db = TensorDb::new();
    run(&mut db, "MATRIX m = [[1, 2, 3], [4, 5, 6]]").unwrap();
    run(&mut db, "VECTOR v = [10, 20, 30]").unwrap();
    handle_let(&mut db, "LET e = m[1, 2]", 1).unwrap();
    assert_eq!(numbers(&db, "e"), vec![6.0]);
    assert_eq!(db.get("e").unwrap().shape().dims, Vec::<usize>::new());
    handle_let(&mut db, "LET row = m[0, *]", 1).unwrap();
    assert_eq!(numbers(&db, "row"), vec![1.0, 2.0, 3.0]);
    handle_let(&mut db, "LET col = m[:, 1]", 1).unwrap();
    assert_eq!(numbers(&db, "col"), vec![2.0, 5.0]);
    handle_let(&mut db, "LET part = m[0:2, 1:3]", 1).unwrap();
    assert_eq!(db.get("part").unwrap().shape().dims, vec![2, 2]);
    assert_eq!(numbers(&db, "part"), vec![2.0, 3.0, 5.0, 6.0]);
    handle_let(&mut db, "LET sum = v + v", 1).unwrap();
    assert_eq!(numbers(&db, "sum"), vec![20.0, 40.0, 60.0]);
    handle_let(&mut db, "LET mixed = m[0, *] * v", 1).unwrap();
    assert_eq!(numbers(&db, "mixed"), vec![10.0, 40.0, 90.0]);
    assert!(db.list_names().iter().any(|n| n.starts_with("_tmp_mixed_L_")));
    assert_eq!(parse_error(handle_let(&mut db, "LET x = m[1", 5)).0, 5);
    assert_eq!(parse_error(handle_let(&mut db, "LET x = m[a, b]", 5)).0, 5);
    assert_eq!(parse_error(handle_let(&mut db, "LET x = m[0:1:2]", 5)).0, 5);
    assert_eq!(parse_error(handle_let(&mut db, "LET x =", 5)).1, "Missing expression in LET");
    assert_eq!(parse_error(handle_let(&mut db, "LET = ADD a b", 5)).1, "Missing output name in LET");
    assert_eq!(parse_error(handle_let(&mut db, "LET x ADD a b", 5)).1, "Expected: LET <name> = ...");
    assert_eq!(parse_error(handle_let(&mut db, "LET x = ADD a", 5)).0, 5);
    assert_eq!(parse_error(handle_let(&mut db, "LET x = NOSUCH a", 5)).1, "Unknown LET operation: NOSUCH");
    assert_eq!(engine_error(handle_let(&mut db, "LET x = ADD nope v", 8)).0, 8);
    assert_eq!(engine_error(handle_let(&mut db, "LET x = m[5, 5]", 8)).0, 8);
}

#[test]
fn test_handle_infix_op_names_its_temporaries_by_the_stamp() {
    let mut db = TensorDb::new();
    run(&mut db, "MATRIX m = [[1, 2], [3, 4]]").unwrap();
    let m = message(handle_infix_op(&mut db, "out", "m[0, *]", BinaryOp::Add, "m[1, *]", "77", 1));
    assert_eq!(m, "Defined variable: out");
    assert_eq!(numbers(&db, "out"), vec![4.0, 6.0]);
    assert_eq!(numbers(&db, "_tmp_out_L_77"), vec![1.0, 2.0]);
    assert_eq!(numbers(&db, "_tmp_out_R_77"), vec![3.0, 4.0]);
    // The left operand is made ready before the right one is read.
    assert_eq!(parse_error(handle_infix_op(&mut db, "z", "m[0, *]", BinaryOp::Add, "m[x]", "78", 2)).0, 2);
    assert!(db.get("_tmp_z_L_78").is_ok());
    assert!(db.get("z").is_err());
}

#[test]
fn test_handle_let_reads_columns_and_fields() {
    let mut db = people();
    handle_let(&mut db, "LET ages = people.age", 1).unwrap();
    assert_eq!(numbers(&db, "ages"), vec![30.0, 40.0, 50.0]);
    assert_eq!(engine_error(handle_let(&mut db, "LET x = people.nope", 3)).0, 3);
    assert!(matches!(
        engine_error(handle_let(&mut db, "LET x = nobody.age", 3)).1,
        EngineError::DatasetNotFound(_)
    ));
    assert_eq!(parse_error(handle_let(&mut db, "LET x = a.b.c", 3)).1, "Expected: object.field");
}

#[test]
fn test_handle_dataset_creates_and_refuses() {
    let mut db = TensorDb::new();
    assert_eq!(message(handle_dataset(&mut db, "DATASET t COLUMNS (a: INT, b: FLOAT)", 1)), "Created dataset: t");
    assert_eq!(db.get_dataset("t").unwrap().schema().len(), 2);
    let (line, e) = engine_error(handle_dataset(&mut db, "DATASET t COLUMNS (a: INT)", 2));
    assert_eq!(line, 2);
    assert!(matches!(e, EngineError::DatasetError(_)));
    assert_eq!(parse_error(handle_dataset(&mut db, "DATASET u COLUMNS (a: WHAT)", 3)).0, 3);
    assert_eq!(parse_error(handle_dataset(&mut db, "DATASET u COLUMNS ()", 3)).1, "Empty column definition");
    assert_eq!(parse_error(handle_dataset(&mut db, "DATASET u", 3)).0, 3);
}

#[test]
fn test_handle_insert_reads_values_against_the_schema() {
    let mut db = people();
    assert!(matches!(handle_insert(&mut db, "INSERT INTO people VALUES (4, \"Di\", 20, [0, 0])", 1), Ok(DslOutput::Nothing)));
    assert_eq!(db.get_dataset("people").unwrap().len(), 4);
    assert_eq!(parse_error(handle_insert(&mut db, "INSERT INTO people VALUES (5, \"Ed\")", 2)).1, "Expected 4 values, got 2");
    // A value of another type than its column.
    let (line, text) = parse_error(handle_insert(&mut db, "INSERT INTO people VALUES (5, 6, 20, [0, 0])", 2));
    assert_eq!(line, 2);
    assert!(text.contains("STRING") && text.contains("INT"), "{}", text);
    // A vector of another length than its column.
    assert_eq!(parse_error(handle_insert(&mut db, "INSERT INTO people VALUES (5, \"Ed\", 20, [0, 0, 0])", 2)).0, 2);
    assert!(matches!(
        engine_error(handle_insert(&mut db, "INSERT INTO nobody VALUES (1)", 3)),
        (3, EngineError::DatasetNotFound(_))
    ));
    assert_eq!(parse_error(handle_insert(&mut db, "INSERT INTO people (1)", 4)).0, 4);
    assert_eq!(db.get_dataset("people").unwrap().len(), 4);
}

#[test]
fn test_handle_dataset_adds_columns() {
    let mut db = people();
    assert_eq!(message(handle_dataset(&mut db, "DATASET people ADD COLUMN score: FLOAT DEFAULT 1.5", 1)),
        "Added column 'score' to dataset 'people'");
    assert_eq!(message(handle_dataset(&mut db, "DATASET people ADD COLUMN note: STRING?", 1)),
        "Added column 'note' to dataset 'people'");
    assert_eq!(message(handle_dataset(&mut db, "DATASET people ADD COLUMN twice = age * 2", 1)),
        "Added computed column 'twice' to dataset 'people'");
    assert_eq!(message(handle_dataset(&mut db, "DATASET people ADD COLUMN later = age + 1 LAZY", 1)),
        "Added lazy computed column 'later' to dataset 'people'");
    let ds = db.get_dataset("people").unwrap();
    assert_eq!(ds.schema().len(), 8);
    assert_eq!(ds.rows()[0].values()[4], Value::Float(bits(1.5)));
    assert_eq!(ds.rows()[0].values()[5], Value::Null);
    assert_eq!(ds.rows()[1].values()[6], Value::Int(80));
    assert_eq!(ds.rows()[1].values()[7], Value::Null);
    assert_eq!(ds.get_column("later").unwrap(), vec![Value::Int(31), Value::Int(41), Value::Int(51)]);
    assert_eq!(parse_error(handle_dataset(&mut db, "DATASET people ADD COLUMN = age", 2)).1, "Column name cannot be empty");
    assert_eq!(parse_error(handle_dataset(&mut db, "DATASET people ADD COLUMN x", 2)).0, 2);
    assert_eq!(parse_error(handle_dataset(&mut db, "DATASET people ADD COLUMN x: WHAT", 2)).0, 2);
    assert_eq!(engine_error(handle_dataset(&mut db, "DATASET people ADD COLUMN age: INT", 2)).0, 2);
    assert!(matches!(
        engine_error(handle_dataset(&mut db, "DATASET nobody ADD COLUMN x = 1 + 1", 2)).1,
        EngineError::DatasetNotFound(_)
    ));
    run(&mut db, "DATASET empty COLUMNS (a: INT)").unwrap();
    assert_eq!(parse_error(handle_dataset(&mut db, "DATASET empty ADD COLUMN b = a + 1", 2)).1,
        "Cannot infer type from empty dataset");
    assert_eq!(parse_error(handle_dataset(&mut db, "DATASET empty ADD COLUMN b = a + 1 LAZY", 2)).1,
        "Cannot infer type from empty dataset for lazy column");
}

#[test]
fn test_handle_materialize_stores_lazy_columns() {
    let mut db = people();
    run(&mut db, "DATASET people ADD COLUMN later = age + 1 LAZY").unwrap();
    assert_eq!(message(handle_materialize(&mut db, "MATERIALIZE people.later", 1)),
        "Materialized lazy columns in dataset 'people'");
    assert_eq!(db.get_dataset("people").unwrap().rows()[2].values()[4], Value::Int(51));
    assert_eq!(message(handle_materialize(&mut db, "MATERIALIZE people", 1)),
        "Materialized lazy columns in dataset 'people'");
    assert!(matches!(
        engine_error(handle_materialize(&mut db, "MATERIALIZE nobody", 7)),
        (7, EngineError::DatasetNotFound(_))
    ));
}

#[test]
fn test_handle_create_index_builds_both_kinds() {
    let mut db = people();
    assert_eq!(message(handle_create_index(&mut db, "CREATE INDEX by_id ON people(id)", 1)),
        "Created HASH index 'by_id' on people(id)");
    assert_eq!(message(handle_create_index(&mut db, "CREATE VECTOR INDEX by_emb ON people(emb)", 1)),
        "Created VECTOR index 'by_emb' on people(emb)");
    assert_eq!(message(handle_create_index(&mut db, "CREATE INDEX by_age ON people.age", 1)),
        "Created HASH index 'by_age' on people(age)");
    let mut listed = db.list_indices();
    listed.sort();
    assert_eq!(listed.len(), 3);
    assert_eq!(parse_error(handle_create_index(&mut db, "CREATE INDEX i people(id)", 2)).0, 2);
    assert_eq!(parse_error(handle_create_index(&mut db, "CREATE INDEX i ON people(id", 2)).1,
        "Missing closing parenthesis in dataset(column)");
    assert_eq!(parse_error(handle_create_index(&mut db, "CREATE INDEX i ON people", 2)).1,
        "Invalid target format. Use dataset(column)");
    assert_eq!(engine_error(handle_create_index(&mut db, "CREATE INDEX i ON people(nope)", 2)).0, 2);
    assert_eq!(engine_error(handle_create_index(&mut db, "CREATE VECTOR INDEX i ON people(name)", 2)).0, 2);
}

#[test]
fn test_databases_are_created_chosen_and_dropped() {
    let mut db = people();
    assert_eq!(message(handle_create_database(&mut db, "CREATE DATABASE lab", 1)), "Database 'lab' created");
    assert_eq!(engine_error(handle_create_database(&mut db, "CREATE DATABASE lab", 2)).0, 2);
    assert_eq!(message(handle_use_database(&mut db, "USE lab", 1)), "Switched to database 'lab'");
    // What one database holds is not seen from another.
    assert!(db.get_dataset("people").is_err());
    run(&mut db, "VECTOR v = [1]").unwrap();
    assert_eq!(message(handle_use_database(&mut db, "USE default", 1)), "Switched to database 'default'");
    assert!(db.get_dataset("people").is_ok());
    assert!(db.get("v").is_err());
    assert_eq!(engine_error(handle_use_database(&mut db, "USE nowhere", 3)).0, 3);
    assert_eq!(engine_error(handle_drop_database(&mut db, "DROP DATABASE default", 3)).0, 3);
    assert_eq!(message(handle_use_database(&mut db, "USE lab", 1)), "Switched to database 'lab'");
    assert_eq!(message(handle_drop_database(&mut db, "DROP DATABASE lab", 1)), "Database 'lab' dropped");
    // Dropping the active database makes the default one active.
    assert!(db.get_dataset("people").is_ok());
    assert_eq!(db.list_databases(), vec!["default".to_string()]);
    assert_eq!(parse_error(handle_create_database(&mut db, "CREATE DATABASE  ", 4)).0, 4);
    assert_eq!(parse_error(handle_use_database(&mut db, "USE ", 4)).1, "Database name cannot be empty");
    assert_eq!(message(handle_create_database(&mut db, "CREATE DATABASE a(b) c", 1)), "Database 'a' created");
}

#[test]
fn test_handle_set_metadata_takes_the_quotes_off() {
    let mut db = people();
    assert_eq!(message(handle_set_metadata(&mut db, "SET DATASET people METADATA owner = \"ann\"", 1)),
        "Updated metadata for dataset 'people': owner = ann");
    assert_eq!(db.get_dataset("people").unwrap().metadata().extra.get("owner").unwrap(), "ann");
    assert_eq!(parse_error(handle_set_metadata(&mut db, "SET DATASET people owner = x", 2)).0, 2);
    assert_eq!(parse_error(handle_set_metadata(&mut db, "SET DATASET people METADATA owner", 2)).0, 2);
    assert_eq!(engine_error(handle_set_metadata(&mut db, "SET DATASET nobody METADATA k = v", 2)).0, 2);
}

#[test]
fn test_handle_select_shows_a_table() {
    let db = people();
    match handle_select(&db, "SELECT name, age FROM people WHERE age >= 40 ORDER BY age DESC LIMIT 5", 1).unwrap() {
        DslOutput::Table(table) => {
            assert_eq!(table.metadata().name.as_deref(), Some("Query Result"));
            assert_eq!(table.schema().len(), 2);
            assert_eq!(table.len(), 2);
            assert_eq!(table.rows()[0].values(), &vec![Value::String("Cy".to_string()), Value::Int(50)]);
            assert_eq!(table.rows()[1].values(), &vec![Value::String("Bob".to_string()), Value::Int(40)]);
        }
        other => panic!("{:?}", other),
    }
    match handle_select(&db, "SELECT COUNT(*), SUM(age), AVG(age), MIN(age), MAX(age) FROM people", 1).unwrap() {
        DslOutput::Table(table) => {
            assert_eq!(
                table.rows()[0].values(),
                &vec![Value::Int(3), Value::Int(120), Value::Float(bits(40.0)), Value::Int(30), Value::Int(50)]
            );
        }
        other => panic!("{:?}", other),
    }
    match handle_select(&db, "SELECT * FROM people limit 1", 1).unwrap() {
        DslOutput::Table(table) => {
            assert_eq!(table.schema().len(), 4);
            assert_eq!(table.len(), 1);
        }
        other => panic!("{:?}", other),
    }
    assert_eq!(parse_error(handle_select(&db, "SELECT name people", 2)).1, "Expected SELECT ... FROM source ...");
    assert_eq!(parse_error(handle_select(&db, "SELECT name FROM people SORT age", 2)).0, 2);
    assert_eq!(parse_error(handle_select(&db, "SELECT age + 1 FROM people", 2)).1, "Only columns or Aggregates supported");
    assert_eq!(parse_error(handle_select(&db, "SELECT name FROM people ORDER BY ", 2)).0, 2);
    assert!(matches!(
        engine_error(handle_select(&db, "SELECT name FROM nobody", 2)).1,
        EngineError::DatasetNotFound(_)
    ));
    assert_eq!(engine_error(handle_select(&db, "SELECT nope FROM people", 2)).0, 2);
}

#[test]
fn test_handle_dataset_stores_the_rows_of_a_query() {
    let mut db = people();
    assert!(matches!(
        handle_dataset(&mut db, "DATASET old FROM people FILTER age > 35 SELECT name, age ORDER BY age DESC LIMIT 1", 1),
        Ok(DslOutput::Nothing)
    ));
    let old = db.get_dataset("old").unwrap();
    assert_eq!(old.len(), 1);
    assert_eq!(old.rows()[0].values(), &vec![Value::String("Cy".to_string()), Value::Int(50)]);
    assert_eq!(old.metadata().row_count, 1);
    handle_dataset(&mut db, "DATASET by_name FROM people GROUP BY name SELECT name, COUNT(*)", 1).unwrap();
    assert_eq!(db.get_dataset("by_name").unwrap().len(), 3);
    handle_dataset(&mut db, "DATASET copy FROM people", 1).unwrap();
    assert_eq!(db.get_dataset("copy").unwrap().len(), 3);
    // The name is taken.
    assert!(matches!(
        engine_error(handle_dataset(&mut db, "DATASET copy FROM people", 5)),
        (5, EngineError::DatasetError(_))
    ));
    assert_eq!(parse_error(handle_dataset(&mut db, "DATASET x FROM people FILTER age", 5)).0, 5);
    assert_eq!(parse_error(handle_dataset(&mut db, "DATASET x FROM people LIMIT many", 5)).0, 5);
    assert!(db.get_dataset("x").is_err());
}

#[test]
fn test_handle_search_stores_the_nearest_rows() {
    let mut db = people();
    run(&mut db, "CREATE VECTOR INDEX e ON people(emb)").unwrap();
    let m = message(handle_search(&mut db, "SEARCH hits FROM people QUERY [1, 0.1] ON emb K=1", 1));
    assert_eq!(m, "Search completed. Found 1 results in 'hits'.");
    assert_eq!(db.get_dataset("hits").unwrap().rows()[0].values()[0], Value::Int(1));
    // A second search into the same target puts its rows in the place of the first.
    let m = message(handle_search(&mut db, "SEARCH hits FROM people QUERY [0, 1] ON emb K = 2", 1));
    assert_eq!(m, "Search completed. Found 2 results in 'hits'.");
    let hits = db.get_dataset("hits").unwrap();
    assert_eq!(hits.len(), 2);
    assert_eq!(hits.rows()[0].values()[0], Value::Int(2));
    assert_eq!(hits.metadata().row_count, 2);
    // Without a target the rows go to `search_results`.
    let m = message(handle_search(&mut db, "SEARCH people WHERE emb ~= [1, 1] LIMIT 1", 1));
    assert_eq!(m, "Search completed. Found 1 results in 'search_results'.");
    assert_eq!(db.get_dataset("search_results").unwrap().rows()[0].values()[0], Value::Int(3));
    // A target under another schema.
    run(&mut db, "DATASET other COLUMNS (a: INT)").unwrap();
    let (line, e) = engine_error(handle_search(&mut db, "SEARCH other FROM people QUERY [1, 0] ON emb K=1", 6));
    assert_eq!(line, 6);
    assert!(matches!(e, EngineError::InvalidOp(_)));
    assert_eq!(db.get_dataset("other").unwrap().len(), 0);
    assert_eq!(parse_error(handle_search(&mut db, "SEARCH hits FROM people QUERY [1, 0] ON emb", 2)).1, "Expected: ... ON <column> K=<k>");
    assert_eq!(parse_error(handle_search(&mut db, "SEARCH hits FROM people QUERY [1, 0] ON emb K=x", 2)).1, "Invalid K");
    assert_eq!(parse_error(handle_search(&mut db, "SEARCH hits FROM people QUERY 5 ON emb K=1", 2)).1, "Query must be vector");
    assert_eq!(parse_error(handle_search(&mut db, "SEARCH people WHERE emb ~= [1, 1]", 2)).1, "Expected LIMIT <k>");
    assert_eq!(engine_error(handle_search(&mut db, "SEARCH people WHERE name ~= [1, 1] LIMIT 1", 2)).0, 2);
    assert!(matches!(
        engine_error(handle_search(&mut db, "SEARCH nobody WHERE emb ~= [1, 1] LIMIT 1", 2)).1,
        EngineError::DatasetNotFound(_)
    ));
}

#[test]
fn test_plan_builders_give_the_plans_of_the_text() {
    let db = people();
    let plan = build_select_query_plan(&db, "SELECT * FROM people WHERE age > 30 LIMIT 2", 1).unwrap();
    match plan {
        LogicalPlan::Project { input, columns } => {
            assert_eq!(columns, vec!["id", "name", "age", "emb"]);
            match *input {
                LogicalPlan::Limit { input, n } => {
                    assert_eq!(n, 2);
                    assert!(matches!(*input, LogicalPlan::Filter { .. }));
                }
                other => panic!("{:?}", other),
            }
        }
        other => panic!("{:?}", other),
    }
    let (target, plan) = build_dataset_query_plan(&db, "DATASET t FROM people ORDER BY age DESC", 1).unwrap();
    assert_eq!(target, "t");
    match plan {
        LogicalPlan::Sort { column, ascending, .. } => {
            assert_eq!(column, "age");
            assert!(!ascending);
        }
        other => panic!("{:?}", other),
    }
    let (target, plan) = build_search_query_plan(&db, "SEARCH people WHERE emb ~= [1, 0] LIMIT 3", 1).unwrap();
    assert_eq!(target, None);
    match plan {
        LogicalPlan::VectorSearch { input, column, query, k } => {
            assert_eq!(column, "emb");
            assert_eq!(k, 3);
            assert_eq!(query.data_ref(), &[bits(1.0), bits(0.0)]);
            assert!(matches!(*input, LogicalPlan::Scan { .. }));
        }
        other => panic!("{:?}", other),
    }
}

#[test]
fn test_replace_rows_drops_the_indices() {
    let schema = Arc::new(Schema::new(vec![Field::new("a", ValueType::Int)]));
    let mut db = TensorDb::new();
    db.create_dataset("t".to_string(), schema.clone()).unwrap();
    db.insert_row("t", Tuple::new(schema.clone(), vec![Value::Int(1)]).unwrap()).unwrap();
    db.create_index("t", "a").unwrap();
    let rows = vec![
        Tuple::new(schema.clone(), vec![Value::Int(7)]).unwrap(),
        Tuple::new(schema.clone(), vec![Value::Int(8)]).unwrap(),
    ];
    db.replace_dataset_rows("t", rows).unwrap();
    let t = db.get_dataset("t").unwrap();
    assert_eq!(t.len(), 2);
    assert_eq!(t.metadata().row_count, 2);
    assert!(t.get_index("a").is_none());
    let other = Arc::new(Schema::new(vec![Field::new("b", ValueType::Int)]));
    let wrong = vec![Tuple::new(other, vec![Value::Int(1)]).unwrap()];
    assert!(matches!(db.replace_dataset_rows("t", wrong), Err(EngineError::InvalidOp(_))));
    assert_eq!(db.get_dataset("t").unwrap().len(), 2);
    assert!(matches!(
        db.replace_dataset_rows("nobody", Vec::new()),
        Err(EngineError::DatasetNotFound(_))
    ));
    let mut alone = Dataset::new(DatasetId(1), schema.clone(), None);
    alone.replace_rows(vec![Tuple::new(schema, vec![Value::Int(3)]).unwrap()]).unwrap();
    assert_eq!(alone.len(), 1);
}

#[test]
fn test_storage_names_its_files() {
    let storage = ParquetStorage::new("/data/lab");
    assert_eq!(storage.base_path(), "/data/lab");
    assert_eq!(storage.datasets_dir(), "/data/lab/datasets");
    assert_eq!(storage.tensors_dir(), "/data/lab/tensors");
    assert_eq!(storage.dataset_path("users"), "/data/lab/datasets/users.parquet");
    assert_eq!(storage.metadata_path("users"), "/data/lab/datasets/users.meta.json");
    assert_eq!(storage.tensor_path("w"), "/data/lab/tensors/w.json");
}

#[test]
fn test_scale_by_a_fraction_is_read_as_a_field() {
    // The words are read after signs and points are looked for, and
    // `SCALE` is not among the words that come first.
    let mut db = TensorDb::new();
    run(&mut db, "VECTOR a = [1, 2]").unwrap();
    assert!(handle_let(&mut db, "LET h = SCALE a BY 0.5", 1).is_err());
    assert!(handle_let(&mut db, "LET h = SCALE a BY 3", 1).is_ok());
}

#[test]
fn test_parse_show_reads_what_is_asked_for() {
    use_show("SHOW DATABASES", "Databases");
    use_show("SHOW ALL", "AllTensors");
    use_show("SHOW ALL TENSORS", "AllTensors");
    use_show("SHOW ALL DATASETS", "AllDatasets");
    use_show("SHOW INDEXES", "Indexes(None)");
    use_show("SHOW INDEXES people", "Indexes(Some(\"people\"))");
    use_show("SHOW SHAPE m", "Shape(\"m\")");
    use_show("SHOW SCHEMA people", "Schema(\"people\")");
    use_show("SHOW \"hello\"", "Text(\"hello\")");
    use_show("SHOW   x  ", "Named(\"x\")");
    assert!(matches!(
        linal::dsl::frontend::parse_show("SHOW ", 5),
        Err(DslError::Parse { line: 5, .. })
    ));
}

fn use_show(line: &str, expected: &str) {
    let command = linal::dsl::frontend::parse_show(line, 1).unwrap();
    assert_eq!(format!("{:?}", command), expected, "{}", line);
}

#[test]
fn test_parse_save_and_list_read_names_and_paths() {
    let save = linal::dsl::frontend::parse_save("SAVE DATASET people TO \"/tmp/lab\"", 1).unwrap();
    assert_eq!(format!("{:?}", save), "SaveDataset { name: \"people\", path: \"/tmp/lab\" }");
    let list = linal::dsl::frontend::parse_list("LIST DATASETS FROM \"/tmp/lab\"", 1).unwrap();
    assert_eq!(format!("{:?}", list), "ListDatasets { path: \"/tmp/lab\" }");
    let list = linal::dsl::frontend::parse_list("LIST TENSORS FROM /tmp/lab", 1).unwrap();
    assert_eq!(format!("{:?}", list), "ListTensors { path: \"/tmp/lab\" }");
    for line in ["SAVE TENSOR w TO \"x\"", "SAVE DATASET people", "SAVE people TO x"] {
        assert!(matches!(
            linal::dsl::frontend::parse_save(line, 3),
            Err(DslError::Parse { line: 3, .. })
        ), "{}", line);
    }
    for line in ["LIST DATASETS \"x\"", "LIST FILES FROM x", "LIST"] {
        assert!(matches!(
            linal::dsl::frontend::parse_list(line, 3),
            Err(DslError::Parse { line: 3, .. })
        ), "{}", line);
    }
}

#[test]
fn test_request_rules() {
    assert_eq!(default_format(), "toon");
    assert_eq!(format_named("json"), Format::Json);
    assert_eq!(format_named("toon"), Format::Toon);
    assert_eq!(format_named("xml"), Format::Toon);
    assert_eq!(command_of("  SHOW ALL \n", None), "SHOW ALL");
    assert_eq!(command_of("{...}", Some("SHOW x".to_string())), "SHOW x");
    assert_eq!(check_command("SHOW ALL"), None);
    assert_eq!(check_command(""), Some("Command cannot be empty".to_string()));
    assert_eq!(check_command(&"x".repeat(16384)), None);
    assert_eq!(
        check_command(&"x".repeat(16385)),
        Some("Command too long (max 16384 bytes)".to_string())
    );
}

#[test]
fn test_dataset_columns_lays_the_rows_out_by_column() {
    let mut db = TensorDb::new();
    run(&mut db, "DATASET t COLUMNS (i: INT, f: FLOAT, s: STRING, b: BOOL, v: VECTOR(2))").unwrap();
    run(&mut db, "INSERT INTO t VALUES (1, 1.5, \"a\", true, [1, 2])").unwrap();
    run(&mut db, "INSERT INTO t VALUES (2, 2.5, \"b\", false, [3, 4])").unwrap();
    run(&mut db, "DATASET t ADD COLUMN n: INT?").unwrap();
    let columns = dataset_columns(db.get_dataset("t").unwrap());
    assert_eq!(columns.len(), 6);
    assert_eq!(columns[0].name, "i");
    assert!(!columns[0].nullable);
    assert!(matches!(&columns[0].data, ColumnData::Ints(v) if v == &vec![Some(1), Some(2)]));
    assert!(matches!(&columns[1].data, ColumnData::Floats(v) if v == &vec![Some(bits(1.5)), Some(bits(2.5))]));
    assert!(matches!(&columns[2].data, ColumnData::Texts(v) if v == &vec![Some("a".to_string()), Some("b".to_string())]));
    assert!(matches!(&columns[3].data, ColumnData::Bools(v) if v == &vec![Some(true), Some(false)]));
    assert!(matches!(&columns[4].data, ColumnData::Others(v)
        if v == &vec![Some(Value::Vector(vec![bits(1.0), bits(2.0)])), Some(Value::Vector(vec![bits(3.0), bits(4.0)]))]));
    assert!(columns[5].nullable);
    assert!(matches!(&columns[5].data, ColumnData::Ints(v) if v == &vec![None, None]));
}

#[test]
fn test_register_databases_adds_what_is_not_there() {
    let mut db = people();
    db.register_databases(&vec!["lab".to_string(), "default".to_string(), "lab".to_string(), "x".to_string()]);
    assert_eq!(db.list_databases(), vec!["default", "lab", "x"]);
    assert!(db.get_dataset("people").is_ok());
    db.use_database("lab").unwrap();
    assert!(db.list_names().is_empty());
    assert!(db.list_dataset_names().is_empty());
}

#[test]
fn test_parse_explain_finds_the_query() {
    assert_eq!(
        linal::dsl::frontend::parse_explain("EXPLAIN SELECT * FROM t", 1).unwrap(),
        (linal::dsl::frontend::QueryKind::Select, "SELECT * FROM t")
    );
    assert_eq!(
        linal::dsl::frontend::parse_explain("EXPLAIN plan DATASET a FROM b", 1).unwrap(),
        (linal::dsl::frontend::QueryKind::Dataset, "DATASET a FROM b")
    );
    assert_eq!(
        linal::dsl::frontend::parse_explain("EXPLAIN PLAN   SEARCH t WHERE e ~= [1] LIMIT 1", 1).unwrap(),
        (linal::dsl::frontend::QueryKind::Search, "SEARCH t WHERE e ~= [1] LIMIT 1")
    );
    assert!(matches!(
        linal::dsl::frontend::parse_explain("EXPLAIN LET x = ADD a b", 8),
        Err(DslError::Parse { line: 8, .. })
    ));
}
