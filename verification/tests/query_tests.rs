use linal::engine::{EngineError, TensorDb};
use linal::index::{HashIndex, Index, IndexType, VectorIndex};
use linal::query::evaluate::{evaluate_expression, evaluate_predicate};
use linal::query::logical::{AggregateFunction, Expr, LogicalPlan};
use linal::query::physical::PhysicalPlan;
use linal::query::planner::Planner;
use linal::tensor::{Shape, Tensor, TensorId};
use linal::tuple::{Field, Schema, Tuple};
use linal::utils::parsing::parse_usize_list;
use linal::value::{Value, ValueType};
use std::sync::Arc;

fn f(x: f32) -> Value {
    Value::Float(x.to_bits())
}

fn text(s: &str) -> Value {
    Value::String(s.to_string())
}

fn vector(values: &[f32]) -> Value {
    Value::Vector(values.iter().map(|x| x.to_bits()).collect())
}

fn matrix(rows: &[&[f32]]) -> Value {
    Value::Matrix(rows.iter().map(|r| r.iter().map(|x| x.to_bits()).collect()).collect())
}

fn col(name: &str) -> Expr {
    Expr::Column(name.to_string())
}

fn lit(value: Value) -> Expr {
    Expr::Literal(value)
}

fn bin(left: Expr, op: &str, right: Expr) -> Expr {
    Expr::BinaryExpr { left: Box::new(left), op: op.to_string(), right: Box::new(right) }
}

fn agg(func: AggregateFunction, inner: Expr) -> Expr {
    Expr::AggregateExpr { func, expr: Box::new(inner) }
}

fn setup(db: &mut TensorDb, name: &str, fields: Vec<Field>, rows: Vec<Vec<Value>>) {
    let schema = Arc::new(Schema::new(fields));
    db.create_dataset(name.to_string(), schema.clone()).unwrap();
    for values in rows {
        let tuple = Tuple::new(schema.clone(), values).unwrap();
        db.insert_row(name, tuple).unwrap();
    }
}

fn insert(db: &mut TensorDb, name: &str, values: Vec<Value>) -> Result<(), EngineError> {
    let schema = db.get_dataset(name).unwrap().schema().clone();
    let tuple = Tuple::new(schema, values).unwrap();
    db.insert_row(name, tuple)
}

fn scan(db: &TensorDb, name: &str) -> LogicalPlan {
    LogicalPlan::Scan {
        dataset_name: name.to_string(),
        schema: db.get_dataset(name).unwrap().schema().clone(),
    }
}

fn aggregate(db: &TensorDb, name: &str, group: Vec<Expr>, aggregates: Vec<Expr>) -> LogicalPlan {
    LogicalPlan::Aggregate { input: Box::new(scan(db, name)), group_expr: group, aggr_expr: aggregates }
}

fn run(db: &TensorDb, plan: &LogicalPlan) -> Result<Vec<Tuple>, EngineError> {
    let physical = Planner::new(db).create_physical_plan(plan)?;
    let rows = physical.execute(db)?;
    let schema = plan.schema();
    for row in &rows {
        assert!(row.schema().same_as(&schema));
    }
    Ok(rows)
}

fn add_computed(db: &mut TensorDb, name: &str, column: &str, value_type: ValueType, expr: Expr) -> Result<(), EngineError> {
    let values: Vec<Value> = db
        .get_dataset(name)
        .unwrap()
        .rows()
        .iter()
        .map(|row| evaluate_expression(&expr, row))
        .collect();
    db.alter_dataset_add_computed_column(name, column.to_string(), value_type, values, expr, false)
}

fn add_lazy(db: &mut TensorDb, name: &str, column: &str, value_type: ValueType, expr: Expr) -> Result<(), EngineError> {
    db.alter_dataset_add_computed_column(name, column.to_string(), value_type, vec![], expr, true)
}

fn find<'a>(rows: &'a [Tuple], key: &str) -> &'a Tuple {
    rows.iter().find(|r| r.values()[0] == text(key)).expect("group not found")
}

fn int_fields(names: &[&str]) -> Vec<Field> {
    names.iter().map(|n| Field::new(n, ValueType::Int)).collect()
}

fn ints(values: &[i64]) -> Vec<Value> {
    values.iter().map(|v| Value::Int(*v)).collect()
}

#[test]
fn test_avg_basic_int_by_calls() {
    let mut db = TensorDb::new();
    setup(&mut db, "scores", int_fields(&["id", "score"]), vec![ints(&[1, 10]), ints(&[2, 20]), ints(&[3, 30])]);
    let rows = run(&db, &aggregate(&db, "scores", vec![], vec![agg(AggregateFunction::Avg, col("score"))])).unwrap();
    assert_eq!(rows.len(), 1);
    assert_eq!(rows[0].values()[0], f(20.0));
}

#[test]
fn test_avg_basic_float_by_calls() {
    let mut db = TensorDb::new();
    setup(
        &mut db,
        "prices",
        vec![Field::new("id", ValueType::Int), Field::new("price", ValueType::Float)],
        vec![vec![Value::Int(1), f(10.5)], vec![Value::Int(2), f(20.5)], vec![Value::Int(3), f(30.5)]],
    );
    let rows = run(&db, &aggregate(&db, "prices", vec![], vec![agg(AggregateFunction::Avg, col("price"))])).unwrap();
    assert_eq!(rows.len(), 1);
    assert_eq!(rows[0].values()[0], f(20.5));
}

fn sales(db: &mut TensorDb, rows: &[(&str, i64)]) {
    setup(
        db,
        "sales",
        vec![Field::new("region", ValueType::String), Field::new("amount", ValueType::Int)],
        rows.iter().map(|(r, a)| vec![text(r), Value::Int(*a)]).collect(),
    );
}

#[test]
fn test_avg_with_group_by_by_calls() {
    let mut db = TensorDb::new();
    sales(&mut db, &[("North", 100), ("South", 200), ("North", 150), ("South", 250)]);
    let plan = aggregate(&db, "sales", vec![col("region")], vec![agg(AggregateFunction::Avg, col("amount"))]);
    let rows = run(&db, &plan).unwrap();
    assert_eq!(rows.len(), 2);
    assert_eq!(find(&rows, "North").values()[1], f(125.0));
    assert_eq!(find(&rows, "South").values()[1], f(225.0));
    assert_eq!(rows[0].values()[0], text("North"));
    assert_eq!(rows[1].values()[0], text("South"));
    let schema = plan.schema();
    assert_eq!(schema.fields[0].name, "region");
    assert_eq!(schema.fields[1].name, "AVG(amount)");
    assert_eq!(schema.fields[1].value_type, ValueType::Float);
}

#[test]
fn test_avg_computed_column_by_calls() {
    let mut db = TensorDb::new();
    setup(&mut db, "items", int_fields(&["id", "price", "qty"]), vec![ints(&[1, 10, 2]), ints(&[2, 20, 3]), ints(&[3, 30, 1])]);
    let inner = bin(col("price"), "*", col("qty"));
    let rows = run(&db, &aggregate(&db, "items", vec![], vec![agg(AggregateFunction::Avg, inner)])).unwrap();
    assert_eq!(rows.len(), 1);
    if let Value::Float(avg) = rows[0].values()[0] {
        let avg = f32::from_bits(avg);
        assert!((avg - 36.666666).abs() < 0.01, "Expected ~36.67, got {}", avg);
    } else {
        panic!("Expected a number");
    }
}

#[test]
fn test_avg_mixed_int_float_by_calls() {
    let mut db = TensorDb::new();
    setup(&mut db, "values", int_fields(&["id", "value"]), vec![ints(&[1, 10]), ints(&[2, 20]), ints(&[3, 30])]);
    let rows = run(&db, &aggregate(&db, "values", vec![], vec![agg(AggregateFunction::Avg, col("value"))])).unwrap();
    assert_eq!(rows.len(), 1);
    assert_eq!(rows[0].values()[0], f(20.0));
}

#[test]
fn test_avg_empty_dataset_by_calls() {
    let mut db = TensorDb::new();
    setup(&mut db, "empty", int_fields(&["id", "value"]), vec![]);
    let rows = run(&db, &aggregate(&db, "empty", vec![], vec![agg(AggregateFunction::Avg, col("value"))])).unwrap();
    assert_eq!(rows.len(), 0, "Empty aggregation should return 0 rows");
    let grouped = run(&db, &aggregate(&db, "empty", vec![col("id")], vec![agg(AggregateFunction::Count, col("value"))])).unwrap();
    assert_eq!(grouped.len(), 0);
}

#[test]
fn test_aggregation_execution_workflow() {
    let mut db = TensorDb::new();
    sales(&mut db, &[("North", 100), ("South", 200), ("North", 50), ("South", 150), ("East", 300)]);
    let plan = aggregate(&db, "sales", vec![col("region")], vec![agg(AggregateFunction::Sum, col("amount"))]);
    let results = run(&db, &plan).unwrap();
    assert_eq!(results.len(), 3);
    assert_eq!(find(&results, "North").values()[1], Value::Int(150));
    assert_eq!(find(&results, "South").values()[1], Value::Int(350));
    assert_eq!(find(&results, "East").values()[1], Value::Int(300));
}

#[test]
fn test_dsl_aggregation_workflow() {
    let mut db = TensorDb::new();
    sales(&mut db, &[("North", 100), ("South", 200), ("North", 50), ("South", 150), ("East", 300)]);
    let plan = aggregate(&db, "sales", vec![col("region")], vec![agg(AggregateFunction::Sum, col("amount"))]);
    let res = run(&db, &plan).unwrap();
    assert_eq!(find(&res, "North").values()[1], Value::Int(150));
    assert_eq!(find(&res, "South").values()[1], Value::Int(350));
    let global = run(&db, &aggregate(&db, "sales", vec![], vec![agg(AggregateFunction::Count, col("*"))])).unwrap();
    assert_eq!(global.len(), 1);
    assert_eq!(global[0].values()[0], Value::Int(5));
}

#[test]
fn test_vector_aggregation() {
    let mut db = TensorDb::new();
    setup(
        &mut db,
        "vectors",
        vec![Field::new("id", ValueType::Int), Field::new("v", ValueType::Vector(2))],
        vec![
            vec![Value::Int(1), vector(&[1.0, 2.0])],
            vec![Value::Int(2), vector(&[3.0, 4.0])],
            vec![Value::Int(3), vector(&[5.0, 6.0])],
        ],
    );
    let sum = run(&db, &aggregate(&db, "vectors", vec![], vec![agg(AggregateFunction::Sum, col("v"))])).unwrap();
    assert_eq!(sum[0].values()[0], vector(&[9.0, 12.0]));
    let max = run(&db, &aggregate(&db, "vectors", vec![], vec![agg(AggregateFunction::Max, col("v"))])).unwrap();
    assert_eq!(max[0].values()[0], vector(&[5.0, 6.0]));
    let min = run(&db, &aggregate(&db, "vectors", vec![], vec![agg(AggregateFunction::Min, col("v"))])).unwrap();
    assert_eq!(min[0].values()[0], vector(&[1.0, 2.0]));
    let avg = run(&db, &aggregate(&db, "vectors", vec![], vec![agg(AggregateFunction::Avg, col("v"))]));
    assert!(avg.is_err());
}

#[test]
fn test_computed_column_aggregation() {
    let mut db = TensorDb::new();
    setup(&mut db, "items", int_fields(&["id", "price", "qty"]), vec![ints(&[1, 10, 2]), ints(&[2, 5, 4]), ints(&[3, 20, 1])]);
    let total = agg(AggregateFunction::Sum, bin(col("price"), "*", col("qty")));
    let res = run(&db, &aggregate(&db, "items", vec![], vec![total])).unwrap();
    assert_eq!(res[0].values()[0], Value::Int(60));
    let complex = agg(
        AggregateFunction::Sum,
        bin(col("price"), "+", bin(col("qty"), "*", lit(Value::Int(2)))),
    );
    let plan = aggregate(&db, "items", vec![], vec![complex]);
    let res2 = run(&db, &plan).unwrap();
    assert_eq!(res2[0].values()[0], Value::Int(49));
    assert_eq!(plan.schema().fields[0].name, "SUM(val)");
}

#[test]
fn test_matrix_aggregation() {
    let mut db = TensorDb::new();
    setup(
        &mut db,
        "matrices",
        vec![Field::new("id", ValueType::Int), Field::new("val", ValueType::Matrix(2, 2))],
        vec![
            vec![Value::Int(1), matrix(&[&[1.0, 2.0], &[3.0, 4.0]])],
            vec![Value::Int(2), matrix(&[&[10.0, 20.0], &[30.0, 40.0]])],
        ],
    );
    let res = run(&db, &aggregate(&db, "matrices", vec![], vec![agg(AggregateFunction::Sum, col("val"))])).unwrap();
    assert_eq!(res[0].values()[0], matrix(&[&[11.0, 22.0], &[33.0, 44.0]]));
    let doubled = agg(AggregateFunction::Sum, bin(col("val"), "*", lit(Value::Int(2))));
    let res2 = run(&db, &aggregate(&db, "matrices", vec![], vec![doubled])).unwrap();
    assert_eq!(res2[0].values()[0], matrix(&[&[22.0, 44.0], &[66.0, 88.0]]));
}

#[test]
fn test_avg_is_sum_over_count_on_numbers() {
    let mut db = TensorDb::new();
    setup(
        &mut db,
        "m",
        vec![Field::new("g", ValueType::String), Field::new("x", ValueType::Float)],
        vec![
            vec![text("a"), f(0.1)],
            vec![text("b"), f(7.0)],
            vec![text("a"), f(0.2)],
            vec![text("a"), f(0.7)],
        ],
    );
    let plan = aggregate(
        &db,
        "m",
        vec![col("g")],
        vec![
            agg(AggregateFunction::Sum, col("x")),
            agg(AggregateFunction::Count, col("x")),
            agg(AggregateFunction::Avg, col("x")),
            agg(AggregateFunction::Min, col("x")),
            agg(AggregateFunction::Max, col("x")),
        ],
    );
    let rows = run(&db, &plan).unwrap();
    let a = find(&rows, "a");
    let sum = ((0.0f32 + 0.1f32) + 0.2f32) + 0.7f32;
    assert_eq!(a.values()[1], f(sum));
    assert_eq!(a.values()[2], Value::Int(3));
    assert_eq!(a.values()[3], f(sum / 3.0));
    assert_eq!(a.values()[4], f(0.1));
    assert_eq!(a.values()[5], f(0.7));
    let b = find(&rows, "b");
    assert_eq!(b.values()[1], f(7.0));
    assert_eq!(b.values()[3], f(7.0));
}

#[test]
fn test_sum_is_promoted_by_a_number() {
    let schema = Arc::new(Schema::new(vec![Field::new("x", ValueType::Int).nullable()]));
    let other = Arc::new(Schema::new(vec![Field::new("x", ValueType::Float)]));
    let rows = vec![
        Tuple::new(schema.clone(), vec![Value::Int(1)]).unwrap(),
        Tuple::new(other.clone(), vec![f(0.5)]).unwrap(),
        Tuple::new(schema.clone(), vec![Value::Int(2)]).unwrap(),
        Tuple::new(schema.clone(), vec![Value::Null]).unwrap(),
    ];
    let out_schema = Arc::new(Schema::new(vec![
        Field::new("s", ValueType::Float),
        Field::new("lo", ValueType::Float),
        Field::new("hi", ValueType::Int),
        Field::new("n", ValueType::Int),
    ]));
    let out = linal::query::aggregate::aggregate_rows(
        &rows,
        &vec![],
        &vec![
            agg(AggregateFunction::Sum, col("x")),
            agg(AggregateFunction::Min, col("x")),
            agg(AggregateFunction::Max, col("x")),
            agg(AggregateFunction::Count, col("x")),
        ],
        &out_schema,
    )
    .unwrap();
    assert_eq!(out.len(), 1);
    assert_eq!(out[0].values()[0], f(3.5));
    assert_eq!(out[0].values()[1], f(0.5));
    assert_eq!(out[0].values()[2], Value::Int(2));
    assert_eq!(out[0].values()[3], Value::Int(4));
}

#[test]
fn test_planner_index_selection() {
    let mut db = TensorDb::new();
    setup(
        &mut db,
        "users",
        vec![Field::new("id", ValueType::Int), Field::new("name", ValueType::String)],
        vec![],
    );
    db.create_index("users", "name").unwrap();
    insert(&mut db, "users", vec![Value::Int(1), text("Alice")]).unwrap();
    insert(&mut db, "users", vec![Value::Int(2), text("Bob")]).unwrap();

    let filter = LogicalPlan::Filter {
        input: Box::new(scan(&db, "users")),
        predicate: bin(col("name"), "=", lit(text("Alice"))),
    };
    let planner = Planner::new(&db);
    let physical_plan = planner.create_physical_plan(&filter).expect("Plan creation failed");
    assert!(matches!(physical_plan, PhysicalPlan::IndexScan(_)));
    let results = physical_plan.execute(&db).expect("Execution failed");
    assert_eq!(results.len(), 1);
    if let Some(Value::String(name)) = results[0].get("name") {
        assert_eq!(name, "Alice");
    } else {
        panic!("Wrong result");
    }
    let other = LogicalPlan::Filter {
        input: Box::new(scan(&db, "users")),
        predicate: bin(col("id"), "=", lit(Value::Int(2))),
    };
    assert!(matches!(planner.create_physical_plan(&other).unwrap(), PhysicalPlan::Filter(_)));
    let greater = LogicalPlan::Filter {
        input: Box::new(scan(&db, "users")),
        predicate: bin(col("name"), ">", lit(text("Alice"))),
    };
    assert!(matches!(planner.create_physical_plan(&greater).unwrap(), PhysicalPlan::Filter(_)));
}

#[test]
fn test_filter_optimization_workflow_by_calls() {
    let mut db = TensorDb::new();
    setup(
        &mut db,
        "users",
        vec![
            Field::new("id", ValueType::Int),
            Field::new("name", ValueType::String),
            Field::new("age", ValueType::Int),
        ],
        vec![],
    );
    db.create_index("users", "name").unwrap();
    for (id, name, age) in [(1, "Alice", 30), (2, "Bob", 25), (3, "Alice", 35), (4, "Charlie", 40)] {
        insert(&mut db, "users", vec![Value::Int(id), text(name), Value::Int(age)]).unwrap();
    }
    let filter = LogicalPlan::Filter {
        input: Box::new(scan(&db, "users")),
        predicate: bin(col("name"), "=", lit(text("Alice"))),
    };
    let alice_users = run(&db, &filter).unwrap();
    assert_eq!(alice_users.len(), 2);
    let ages: Vec<i64> = alice_users
        .iter()
        .map(|r| match r.get("age") {
            Some(Value::Int(i)) => *i,
            _ => 0,
        })
        .collect();
    assert!(ages.contains(&30));
    assert!(ages.contains(&35));
}

#[test]
fn test_index_scan_and_filter_give_the_same_rows() {
    let mut with_index = TensorDb::new();
    let mut without = TensorDb::new();
    for db in [&mut with_index, &mut without] {
        setup(
            db,
            "users",
            vec![Field::new("id", ValueType::Int), Field::new("name", ValueType::String).nullable()],
            vec![
                vec![Value::Int(1), text("Alice")],
                vec![Value::Int(2), text("Bob")],
                vec![Value::Int(3), Value::Null],
                vec![Value::Int(4), text("Alice")],
            ],
        );
    }
    with_index.create_index("users", "name").unwrap();
    insert(&mut with_index, "users", vec![Value::Int(5), text("Alice")]).unwrap();
    insert(&mut without, "users", vec![Value::Int(5), text("Alice")]).unwrap();
    for wanted in [text("Alice"), text("Bob"), text("Zed"), Value::Null] {
        let make = |db: &TensorDb| LogicalPlan::Filter {
            input: Box::new(scan(db, "users")),
            predicate: bin(col("name"), "=", lit(wanted.clone())),
        };
        let indexed = Planner::new(&with_index).create_physical_plan(&make(&with_index)).unwrap();
        let plain = Planner::new(&without).create_physical_plan(&make(&without)).unwrap();
        assert!(matches!(indexed, PhysicalPlan::IndexScan(_)));
        assert!(matches!(plain, PhysicalPlan::Filter(_)));
        let a = indexed.execute(&with_index).unwrap();
        let b = plain.execute(&without).unwrap();
        assert_eq!(a.len(), b.len());
        for (x, y) in a.iter().zip(b.iter()) {
            assert_eq!(x.values(), y.values());
        }
    }
}

#[test]
fn test_vector_search_workflow_by_calls() {
    let mut db = TensorDb::new();
    setup(
        &mut db,
        "vectors",
        vec![Field::new("id", ValueType::Int), Field::new("embedding", ValueType::Vector(3))],
        vec![],
    );
    db.create_vector_index("vectors", "embedding").unwrap();
    insert(&mut db, "vectors", vec![Value::Int(1), vector(&[1.0, 0.0, 0.0])]).unwrap();
    insert(&mut db, "vectors", vec![Value::Int(2), vector(&[0.0, 1.0, 0.0])]).unwrap();
    insert(&mut db, "vectors", vec![Value::Int(3), vector(&[0.0, 0.0, 1.0])]).unwrap();
    let query = Tensor::new(
        TensorId(0),
        Shape::new(vec![3]),
        vec![1.0f32.to_bits(), 0.1f32.to_bits(), 0.0f32.to_bits()],
    )
    .unwrap();
    let search = |k: usize| LogicalPlan::VectorSearch {
        input: Box::new(scan(&db, "vectors")),
        column: "embedding".to_string(),
        query: query.clone(),
        k,
    };
    let results = run(&db, &search(1)).unwrap();
    assert_eq!(results.len(), 1);
    assert_eq!(results[0].get("id"), Some(&Value::Int(1)));
    let two = run(&db, &search(2)).unwrap();
    assert_eq!(two.len(), 2);
    assert_eq!(two[0].get("id"), Some(&Value::Int(1)));
    assert_eq!(two[1].get("id"), Some(&Value::Int(2)));
    assert_eq!(run(&db, &search(10)).unwrap().len(), 3);

    let nested = LogicalPlan::VectorSearch {
        input: Box::new(LogicalPlan::Limit { input: Box::new(scan(&db, "vectors")), n: 2 }),
        column: "embedding".to_string(),
        query: query.clone(),
        k: 1,
    };
    assert!(matches!(run(&db, &nested), Err(EngineError::InvalidOp(_))));
    let wrong = LogicalPlan::VectorSearch {
        input: Box::new(scan(&db, "vectors")),
        column: "id".to_string(),
        query: query.clone(),
        k: 1,
    };
    assert!(run(&db, &wrong).is_err());
    let short = Tensor::new(TensorId(0), Shape::new(vec![2]), vec![0, 0]).unwrap();
    let mismatch = LogicalPlan::VectorSearch {
        input: Box::new(scan(&db, "vectors")),
        column: "embedding".to_string(),
        query: short,
        k: 1,
    };
    assert!(run(&db, &mismatch).is_err());
}

#[test]
fn test_indexing_workflow_by_calls() {
    let mut db = TensorDb::new();
    setup(
        &mut db,
        "docs",
        vec![
            Field::new("id", ValueType::Int),
            Field::new("tag", ValueType::String),
            Field::new("emb", ValueType::Vector(2)),
        ],
        vec![vec![Value::Int(1), text("a"), vector(&[1.0, 0.0])]],
    );
    db.create_index("docs", "tag").unwrap();
    db.create_vector_index("docs", "emb").unwrap();
    insert(&mut db, "docs", vec![Value::Int(2), text("b"), vector(&[0.0, 1.0])]).unwrap();
    let mut listed = db.list_indices();
    listed.sort();
    assert_eq!(
        listed,
        vec![
            ("docs".to_string(), "emb".to_string(), "VECTOR".to_string()),
            ("docs".to_string(), "tag".to_string(), "HASH".to_string()),
        ]
    );
    let dataset = db.get_dataset("docs").unwrap();
    assert_eq!(dataset.get_index("tag").unwrap().index_type(), IndexType::Hash);
    assert_eq!(dataset.get_index("tag").unwrap().lookup(&text("b")).unwrap(), vec![1]);
    assert_eq!(dataset.get_index("tag").unwrap().lookup(&text("zzz")).unwrap(), Vec::<usize>::new());
    assert!(dataset.get_index("emb").unwrap().lookup(&text("b")).is_err());
    assert!(dataset.get_index("id").is_none());
    assert!(db.create_index("docs", "missing").is_err());
    assert!(db.create_vector_index("docs", "tag").is_err());
    assert!(db.create_index("nope", "tag").is_err());
}

#[test]
fn test_indices_directly() {
    let mut hash = HashIndex::new();
    hash.add(0, &Value::Int(7)).unwrap();
    hash.add(1, &f(7.0)).unwrap();
    hash.add(2, &Value::Int(7)).unwrap();
    hash.add(3, &f(f32::NAN)).unwrap();
    assert_eq!(hash.lookup(&Value::Int(7)).unwrap(), vec![0, 2]);
    assert_eq!(hash.lookup(&f(7.0)).unwrap(), vec![1]);
    assert_eq!(hash.lookup(&f(f32::NAN)).unwrap(), vec![3]);
    assert_eq!(hash.lookup(&Value::Null).unwrap(), Vec::<usize>::new());
    let query = Tensor::new(TensorId(0), Shape::new(vec![1]), vec![0]).unwrap();
    assert!(hash.search(&query, 1).is_err());
    assert_eq!(hash.clone().lookup(&Value::Int(7)).unwrap(), vec![0, 2]);

    let mut vectors = VectorIndex::new();
    assert!(vectors.add(0, &Value::Int(1)).is_err());
    assert!(vectors.add(0, &Value::Null).is_ok());
    vectors.add(5, &vector(&[0.0, 2.0])).unwrap();
    vectors.add(6, &vector(&[3.0, 0.0])).unwrap();
    vectors.add(7, &vector(&[0.0, 0.0])).unwrap();
    vectors.add(8, &vector(&[1.0, 1.0])).unwrap();
    let query = Tensor::new(TensorId(0), Shape::new(vec![2]), vec![1.0f32.to_bits(), 0]).unwrap();
    let found = Index::Vector(vectors.clone()).search(&query, 3).unwrap();
    assert_eq!(found.len(), 3);
    assert_eq!(found[0], (6, 1.0f32.to_bits()));
    assert_eq!(found[1].0, 8);
    assert_eq!(found[2], (5, 0.0f32.to_bits()));
    assert!(vectors.lookup(&Value::Null).is_err());
    assert_eq!(vectors.index_type(), IndexType::Vector);
}

#[test]
fn test_lazy_column_basic_by_calls() {
    let mut db = TensorDb::new();
    setup(&mut db, "test", int_fields(&["a", "b"]), vec![ints(&[1, 2]), ints(&[3, 4])]);
    add_lazy(&mut db, "test", "c", ValueType::Int, bin(col("a"), "+", col("b"))).unwrap();
    let rows = run(&db, &scan(&db, "test")).unwrap();
    assert_eq!(rows.len(), 2);
    assert_eq!(rows[0].values()[2], Value::Int(3));
    assert_eq!(rows[1].values()[2], Value::Int(7));
    let dataset = db.get_dataset("test").unwrap();
    assert_eq!(dataset.rows()[0].values()[2], Value::Null);
    assert_eq!(dataset.rows()[1].values()[2], Value::Null);
    assert_eq!(dataset.get_column("c").unwrap(), vec![Value::Int(3), Value::Int(7)]);
    assert!(dataset.schema().get_field("c").unwrap().is_lazy);
    assert!(dataset.schema().get_field("c").unwrap().nullable);
    assert_eq!(dataset.get_row_evaluated(1).unwrap().values()[2], Value::Int(7));
    assert!(dataset.get_row_evaluated(2).is_none());
}

#[test]
fn test_lazy_column_vs_materialized_by_calls() {
    let mut db = TensorDb::new();
    setup(&mut db, "test", int_fields(&["x"]), vec![ints(&[5]), ints(&[10])]);
    add_computed(&mut db, "test", "doubled", ValueType::Int, bin(col("x"), "*", lit(Value::Int(2)))).unwrap();
    add_lazy(&mut db, "test", "tripled", ValueType::Int, bin(col("x"), "*", lit(Value::Int(3)))).unwrap();
    let rows = run(&db, &scan(&db, "test")).unwrap();
    assert_eq!(rows.len(), 2);
    assert_eq!(rows[0].values()[1], Value::Int(10));
    assert_eq!(rows[0].values()[2], Value::Int(15));
    assert_eq!(rows[1].values()[1], Value::Int(20));
    assert_eq!(rows[1].values()[2], Value::Int(30));
}

#[test]
fn test_lazy_column_get_column_by_calls() {
    let mut db = TensorDb::new();
    setup(&mut db, "test", int_fields(&["a", "b"]), vec![ints(&[2, 3]), ints(&[4, 5])]);
    add_lazy(&mut db, "test", "sum", ValueType::Int, bin(col("a"), "+", col("b"))).unwrap();
    let dataset = db.get_dataset("test").unwrap();
    let column_values = dataset.get_column("sum").unwrap();
    assert_eq!(column_values.len(), 2);
    assert_eq!(column_values[0], Value::Int(5));
    assert_eq!(column_values[1], Value::Int(9));
    assert_eq!(dataset.get_column("a").unwrap(), vec![Value::Int(2), Value::Int(4)]);
    assert!(dataset.get_column("zzz").is_err());
}

#[test]
fn test_materialize_lazy_columns_by_calls() {
    let mut db = TensorDb::new();
    setup(&mut db, "test", int_fields(&["x"]), vec![ints(&[7])]);
    add_lazy(&mut db, "test", "squared", ValueType::Int, bin(col("x"), "*", col("x"))).unwrap();
    db.materialize_lazy_columns("test").unwrap();
    let rows = run(&db, &scan(&db, "test")).unwrap();
    assert_eq!(rows.len(), 1);
    assert_eq!(rows[0].values()[1], Value::Int(49));
    let dataset = db.get_dataset("test").unwrap();
    let field = dataset.schema().get_field("squared").unwrap();
    assert!(!field.is_lazy);
    assert_eq!(dataset.rows()[0].values()[1], Value::Int(49));
    assert!(dataset.lazy_expression("squared").is_none());
    assert!(Arc::ptr_eq(dataset.rows()[0].schema(), dataset.schema()));
    db.materialize_lazy_columns("test").unwrap();
    assert_eq!(db.get_dataset("test").unwrap().rows()[0].values()[1], Value::Int(49));
}

#[test]
fn test_lazy_column_with_filter_by_calls() {
    let mut db = TensorDb::new();
    setup(&mut db, "test", int_fields(&["age"]), vec![ints(&[25]), ints(&[30]), ints(&[35])]);
    add_lazy(&mut db, "test", "next_year", ValueType::Int, bin(col("age"), "+", lit(Value::Int(1)))).unwrap();
    let plan = LogicalPlan::Filter {
        input: Box::new(scan(&db, "test")),
        predicate: bin(col("next_year"), ">", lit(Value::Int(30))),
    };
    let rows = run(&db, &plan).unwrap();
    assert_eq!(rows.len(), 2);
    let at_least = LogicalPlan::Filter {
        input: Box::new(scan(&db, "test")),
        predicate: bin(col("next_year"), ">=", lit(Value::Int(31))),
    };
    assert_eq!(run(&db, &at_least).unwrap().len(), 2);
    let at_most = LogicalPlan::Filter {
        input: Box::new(scan(&db, "test")),
        predicate: bin(col("age"), "<=", lit(Value::Int(30))),
    };
    assert_eq!(run(&db, &at_most).unwrap().len(), 2);
    let unlike = LogicalPlan::Filter {
        input: Box::new(scan(&db, "test")),
        predicate: bin(col("age"), "!=", lit(f(30.0))),
    };
    assert_eq!(run(&db, &unlike).unwrap().len(), 2);
}

#[test]
fn test_lazy_column_empty_dataset_by_calls() {
    let mut db = TensorDb::new();
    setup(&mut db, "test", int_fields(&["a"]), vec![]);
    add_lazy(&mut db, "test", "b", ValueType::Int, bin(col("a"), "*", lit(Value::Int(2)))).unwrap();
    let dataset = db.get_dataset("test").unwrap();
    assert_eq!(dataset.len(), 0);
    assert_eq!(dataset.get_column("b").unwrap(), Vec::<Value>::new());
    assert!(add_lazy(&mut db, "test", "b", ValueType::Int, col("a")).is_err());
}

#[test]
fn test_lazy_column_complex_expression_by_calls() {
    let mut db = TensorDb::new();
    setup(&mut db, "test", int_fields(&["a", "b", "c"]), vec![ints(&[1, 2, 3])]);
    let expr = bin(bin(col("a"), "+", col("b")), "*", col("c"));
    add_lazy(&mut db, "test", "result", ValueType::Int, expr).unwrap();
    let plan = LogicalPlan::Project { input: Box::new(scan(&db, "test")), columns: vec!["result".to_string()] };
    let rows = run(&db, &plan).unwrap();
    assert_eq!(rows.len(), 1);
    assert_eq!(rows[0].values()[0], Value::Int(9));
}

#[test]
fn test_lazy_column_with_float_by_calls() {
    let mut db = TensorDb::new();
    setup(&mut db, "test", vec![Field::new("price", ValueType::Float)], vec![vec![f(10.5)]]);
    add_lazy(&mut db, "test", "tax", ValueType::Float, bin(col("price"), "*", lit(f(0.1)))).unwrap();
    let plan = LogicalPlan::Project { input: Box::new(scan(&db, "test")), columns: vec!["tax".to_string()] };
    let rows = run(&db, &plan).unwrap();
    assert_eq!(rows.len(), 1);
    if let Value::Float(tax) = rows[0].values()[0] {
        assert!((f32::from_bits(tax) - 1.05).abs() < 0.001);
        assert_eq!(tax, (10.5f32 * 0.1f32).to_bits());
    } else {
        panic!("Expected a number");
    }
}

#[test]
fn test_add_computed_column_basic_by_calls() {
    let mut db = TensorDb::new();
    setup(&mut db, "items", int_fields(&["id", "price", "qty"]), vec![ints(&[1, 10, 2]), ints(&[2, 20, 3]), ints(&[3, 30, 1])]);
    add_computed(&mut db, "items", "total", ValueType::Int, bin(col("price"), "*", col("qty"))).unwrap();
    let items = db.get_dataset("items").unwrap();
    assert_eq!(items.schema().len(), 4);
    assert_eq!(items.len(), 3);
    assert_eq!(items.rows()[0].values()[3], Value::Int(20));
    assert_eq!(items.rows()[1].values()[3], Value::Int(60));
    assert_eq!(items.rows()[2].values()[3], Value::Int(30));
    assert!(!items.schema().get_field("total").unwrap().nullable);
}

#[test]
fn test_add_computed_column_addition_by_calls() {
    let mut db = TensorDb::new();
    setup(&mut db, "users", int_fields(&["id", "age", "bonus"]), vec![ints(&[1, 25, 5]), ints(&[2, 30, 10])]);
    add_computed(&mut db, "users", "total_age", ValueType::Int, bin(col("age"), "+", col("bonus"))).unwrap();
    let users = db.get_dataset("users").unwrap();
    assert_eq!(users.rows()[0].values()[3], Value::Int(30));
    assert_eq!(users.rows()[1].values()[3], Value::Int(40));
}

#[test]
fn test_add_computed_column_subtraction_by_calls() {
    let mut db = TensorDb::new();
    setup(&mut db, "products", int_fields(&["id", "price", "discount"]), vec![ints(&[1, 100, 20]), ints(&[2, 200, 30])]);
    add_computed(&mut db, "products", "final_price", ValueType::Int, bin(col("price"), "-", col("discount"))).unwrap();
    let products = db.get_dataset("products").unwrap();
    assert_eq!(products.rows()[0].values()[3], Value::Int(80));
    assert_eq!(products.rows()[1].values()[3], Value::Int(170));
}

#[test]
fn test_add_computed_column_division_by_calls() {
    let mut db = TensorDb::new();
    setup(&mut db, "metrics", int_fields(&["id", "total", "count"]), vec![ints(&[1, 100, 4]), ints(&[2, 150, 3])]);
    add_computed(&mut db, "metrics", "average", ValueType::Int, bin(col("total"), "/", col("count"))).unwrap();
    let metrics = db.get_dataset("metrics").unwrap();
    assert_eq!(metrics.rows()[0].values()[3], Value::Int(25));
    assert_eq!(metrics.rows()[1].values()[3], Value::Int(50));
}

#[test]
fn test_add_computed_column_complex_expression_by_calls() {
    let mut db = TensorDb::new();
    setup(&mut db, "orders", int_fields(&["id", "price", "qty", "tax"]), vec![ints(&[1, 10, 2, 1]), ints(&[2, 20, 3, 2])]);
    let expr = bin(bin(col("price"), "*", col("qty")), "+", col("tax"));
    add_computed(&mut db, "orders", "total", ValueType::Int, expr).unwrap();
    let orders = db.get_dataset("orders").unwrap();
    assert_eq!(orders.rows()[0].values()[4], Value::Int(21));
    assert_eq!(orders.rows()[1].values()[4], Value::Int(62));
}

#[test]
fn test_add_computed_column_empty_dataset_by_calls() {
    let mut db = TensorDb::new();
    setup(&mut db, "empty", int_fields(&["id", "value"]), vec![]);
    let expr = bin(col("value"), "*", lit(Value::Int(2)));
    let wrong_count = db.alter_dataset_add_computed_column(
        "empty",
        "computed".to_string(),
        ValueType::Int,
        vec![Value::Int(1)],
        expr.clone(),
        false,
    );
    assert!(wrong_count.is_err());
    add_computed(&mut db, "empty", "computed", ValueType::Int, expr).unwrap();
    assert_eq!(db.get_dataset("empty").unwrap().schema().len(), 3);
}

#[test]
fn test_add_computed_column_duplicate_name_by_calls() {
    let mut db = TensorDb::new();
    setup(&mut db, "test", int_fields(&["id", "value"]), vec![ints(&[1, 10])]);
    let result = add_computed(&mut db, "test", "value", ValueType::Int, bin(col("id"), "*", lit(Value::Int(2))));
    assert!(result.is_err(), "Should fail on duplicate column name");
    assert_eq!(db.get_dataset("test").unwrap().schema().len(), 2);
    let wrong_type = add_computed(&mut db, "test", "t", ValueType::Float, col("id"));
    assert!(wrong_type.is_err());
    assert_eq!(db.get_dataset("test").unwrap().schema().len(), 2);
}

#[test]
fn test_add_computed_column_float_result_by_calls() {
    let mut db = TensorDb::new();
    setup(&mut db, "ratios", int_fields(&["id", "numerator", "denominator"]), vec![ints(&[1, 10, 3]), ints(&[2, 20, 3])]);
    add_computed(&mut db, "ratios", "ratio", ValueType::Int, bin(col("numerator"), "/", col("denominator"))).unwrap();
    let ratios = db.get_dataset("ratios").unwrap();
    assert_eq!(ratios.rows()[0].values()[3], Value::Int(3));
    assert_eq!(ratios.rows()[1].values()[3], Value::Int(6));
}

fn two_users(db: &mut TensorDb, name: &str) {
    setup(
        db,
        name,
        vec![Field::new("id", ValueType::Int), Field::new("name", ValueType::String)],
        vec![vec![Value::Int(1), text("Alice")], vec![Value::Int(2), text("Bob")]],
    );
}

fn add_column(db: &mut TensorDb, name: &str, column: &str, value_type: ValueType, default: Option<Value>, nullable: bool) -> Result<(), EngineError> {
    let default = default.unwrap_or_else(|| if nullable { Value::Null } else { value_type.default_value() });
    db.alter_dataset_add_column(name, column.to_string(), value_type, default, nullable)
}

#[test]
fn test_add_column_basic_by_calls() {
    let mut db = TensorDb::new();
    two_users(&mut db, "users");
    add_column(&mut db, "users", "age", ValueType::Int, None, false).unwrap();
    let users = db.get_dataset("users").unwrap();
    assert_eq!(users.schema().len(), 3);
    assert_eq!(users.len(), 2);
    assert_eq!(users.rows()[0].values()[2], Value::Int(0));
    assert!(Arc::ptr_eq(users.rows()[0].schema(), users.schema()));
}

#[test]
fn test_add_column_with_default_value_by_calls() {
    let mut db = TensorDb::new();
    two_users(&mut db, "products");
    add_column(&mut db, "products", "price", ValueType::Float, Some(f(99.99)), false).unwrap();
    let products = db.get_dataset("products").unwrap();
    assert_eq!(products.schema().len(), 3);
    for row in products.rows() {
        assert_eq!(row.values()[2], f(99.99));
    }
}

#[test]
fn test_add_column_nullable_by_calls() {
    let mut db = TensorDb::new();
    two_users(&mut db, "contacts");
    add_column(&mut db, "contacts", "email", ValueType::String, None, true).unwrap();
    let contacts = db.get_dataset("contacts").unwrap();
    assert_eq!(contacts.rows()[0].values()[2], Value::Null);
    assert_eq!(contacts.metadata().column_stats.get("email").unwrap().null_count, 2);
}

#[test]
fn test_add_column_duplicate_name_by_calls() {
    let mut db = TensorDb::new();
    two_users(&mut db, "users");
    let result = add_column(&mut db, "users", "name", ValueType::String, None, false);
    assert!(result.is_err(), "Adding duplicate column should fail");
    assert!(add_column(&mut db, "users", "n", ValueType::Int, Some(text("x")), false).is_err());
    assert!(add_column(&mut db, "users", "n", ValueType::Int, Some(Value::Null), false).is_err());
    assert_eq!(db.get_dataset("users").unwrap().schema().len(), 2);
}

#[test]
fn test_add_column_different_types_by_calls() {
    let mut db = TensorDb::new();
    setup(&mut db, "test", int_fields(&["id"]), vec![ints(&[1])]);
    add_column(&mut db, "test", "score", ValueType::Float, Some(f(0.0)), false).unwrap();
    add_column(&mut db, "test", "label", ValueType::String, Some(text("default")), false).unwrap();
    add_column(&mut db, "test", "active", ValueType::Bool, Some(Value::Bool(true)), false).unwrap();
    let test = db.get_dataset("test").unwrap();
    assert_eq!(test.schema().len(), 4);
    let row = &test.rows()[0];
    assert_eq!(row.values()[1], f(0.0));
    assert_eq!(row.values()[2], text("default"));
    assert_eq!(row.values()[3], Value::Bool(true));
}

#[test]
fn test_add_column_to_empty_dataset_by_calls() {
    let mut db = TensorDb::new();
    setup(&mut db, "empty", int_fields(&["id"]), vec![]);
    add_column(&mut db, "empty", "name", ValueType::String, None, false).unwrap();
    let empty = db.get_dataset("empty").unwrap();
    assert_eq!(empty.schema().len(), 2);
    assert_eq!(empty.len(), 0);
}

#[test]
fn test_add_column_vector_type_by_calls() {
    let mut db = TensorDb::new();
    two_users(&mut db, "items");
    add_column(&mut db, "items", "embedding", ValueType::Vector(3), None, false).unwrap();
    let items = db.get_dataset("items").unwrap();
    assert_eq!(items.rows()[0].values()[2], vector(&[0.0, 0.0, 0.0]));
    assert_eq!(ValueType::Matrix(2, 1).default_value(), matrix(&[&[0.0], &[0.0]]));
    assert_eq!(ValueType::String.default_value(), text(""));
    assert_eq!(ValueType::Bool.default_value(), Value::Bool(false));
    assert_eq!(ValueType::Null.default_value(), Value::Null);
}

#[test]
fn test_add_column_nonexistent_dataset_by_calls() {
    let mut db = TensorDb::new();
    let result = add_column(&mut db, "nonexistent", "col", ValueType::Int, None, false);
    assert!(matches!(result, Err(EngineError::DatasetNotFound(_))));
}

#[test]
fn test_index_survives_added_columns_and_is_kept_up_to_date() {
    let mut db = TensorDb::new();
    two_users(&mut db, "users");
    db.create_index("users", "name").unwrap();
    add_column(&mut db, "users", "age", ValueType::Int, None, false).unwrap();
    insert(&mut db, "users", vec![Value::Int(3), text("Bob"), Value::Int(9)]).unwrap();
    let dataset = db.get_dataset("users").unwrap();
    assert_eq!(dataset.get_index("name").unwrap().lookup(&text("Bob")).unwrap(), vec![1, 2]);
    assert_eq!(dataset.index_columns(), vec!["name".to_string()]);
    let filtered = dataset.filter_by(&bin(col("name"), "=", lit(text("Bob"))));
    assert_eq!(filtered.len(), 2);
    assert!(filtered.get_index("name").is_none());
}

#[test]
fn test_sorting_places_null_at_the_end_it_belongs_to() {
    let schema = Arc::new(Schema::new(vec![
        Field::new("id", ValueType::Int),
        Field::new("x", ValueType::Int).nullable(),
    ]));
    let mut db = TensorDb::new();
    db.create_dataset("t".to_string(), schema.clone()).unwrap();
    for (id, x) in [(1, Some(5)), (2, None), (3, Some(-1)), (4, None), (5, Some(5)), (6, Some(0))] {
        let value = match x {
            Some(v) => Value::Int(v),
            None => Value::Null,
        };
        db.insert_row("t", Tuple::new(schema.clone(), vec![Value::Int(id), value]).unwrap()).unwrap();
    }
    let ids = |rows: &[Tuple]| -> Vec<i64> {
        rows.iter().map(|r| r.values()[0].as_int().unwrap()).collect()
    };
    let up = LogicalPlan::Sort { input: Box::new(scan(&db, "t")), column: "x".to_string(), ascending: true };
    assert_eq!(ids(&run(&db, &up).unwrap()), vec![2, 4, 3, 6, 1, 5]);
    let down = LogicalPlan::Sort { input: Box::new(scan(&db, "t")), column: "x".to_string(), ascending: false };
    assert_eq!(ids(&run(&db, &down).unwrap()), vec![1, 5, 6, 3, 2, 4]);
    let dataset = db.get_dataset("t").unwrap();
    assert_eq!(ids(dataset.sort_by("x", true).unwrap().rows()), vec![2, 4, 3, 6, 1, 5]);
    assert!(dataset.sort_by("zzz", true).is_err());
    let missing = LogicalPlan::Sort { input: Box::new(scan(&db, "t")), column: "zzz".to_string(), ascending: true };
    assert!(run(&db, &missing).is_err());
    let limited = LogicalPlan::Limit { input: Box::new(up), n: 3 };
    assert_eq!(ids(&run(&db, &limited).unwrap()), vec![2, 4, 3]);
}

#[test]
fn test_projection_and_plan_schema() {
    let mut db = TensorDb::new();
    two_users(&mut db, "users");
    let plan = LogicalPlan::Project {
        input: Box::new(scan(&db, "users")),
        columns: vec!["name".to_string(), "id".to_string()],
    };
    let rows = run(&db, &plan).unwrap();
    assert_eq!(rows[1].values(), &vec![text("Bob"), Value::Int(2)]);
    let unknown = LogicalPlan::Project {
        input: Box::new(scan(&db, "users")),
        columns: vec!["name".to_string(), "zzz".to_string()],
    };
    assert_eq!(unknown.schema().len(), 1);
    assert!(matches!(run(&db, &unknown), Err(EngineError::InvalidOp(_))));
    let gone = LogicalPlan::Scan {
        dataset_name: "nope".to_string(),
        schema: Arc::new(Schema::new(vec![])),
    };
    assert!(matches!(run(&db, &gone), Err(EngineError::DatasetNotFound(_))));
}

#[test]
fn test_expression_evaluation() {
    let schema = Arc::new(Schema::new(vec![
        Field::new("a", ValueType::Int),
        Field::new("x", ValueType::Float),
        Field::new("m", ValueType::Matrix(2, 2)),
        Field::new("v", ValueType::Vector(2)),
    ]));
    let row = Tuple::new(
        schema,
        vec![Value::Int(7), f(2.5), matrix(&[&[1.0, 2.0], &[3.0, 4.0]]), vector(&[1.0, 2.0])],
    )
    .unwrap();
    let eval = |e: Expr| evaluate_expression(&e, &row);
    assert_eq!(eval(col("missing")), Value::Null);
    assert_eq!(eval(bin(col("a"), "/", lit(Value::Int(2)))), Value::Int(3));
    assert_eq!(eval(bin(lit(Value::Int(-7)), "/", lit(Value::Int(2)))), Value::Int(-3));
    assert_eq!(eval(bin(col("a"), "/", lit(Value::Int(0)))), Value::Null);
    assert_eq!(eval(bin(lit(Value::Int(i64::MIN)), "/", lit(Value::Int(-1)))), Value::Null);
    assert_eq!(eval(bin(lit(Value::Int(i64::MAX)), "+", lit(Value::Int(1)))), Value::Int(i64::MIN));
    assert_eq!(eval(bin(col("a"), "+", col("x"))), f(9.5));
    assert_eq!(eval(bin(col("x"), "-", col("a"))), f(-4.5));
    assert_eq!(eval(bin(col("x"), "/", lit(f(0.0)))), f(f32::INFINITY));
    assert_eq!(eval(bin(col("a"), "=", col("a"))), Value::Null);
    assert_eq!(eval(bin(col("a"), "%", col("a"))), Value::Null);
    assert_eq!(eval(bin(col("v"), "+", col("v"))), Value::Null);
    assert_eq!(eval(bin(col("a"), "+", lit(text("x")))), Value::Null);
    assert_eq!(eval(bin(col("m"), "+", col("m"))), matrix(&[&[2.0, 4.0], &[6.0, 8.0]]));
    assert_eq!(eval(bin(col("m"), "*", col("x"))), matrix(&[&[2.5, 5.0], &[7.5, 10.0]]));
    assert_eq!(eval(bin(col("m"), "/", lit(Value::Int(0)))), matrix(&[&[1.0, 2.0], &[3.0, 4.0]]));
    assert_eq!(eval(bin(col("m"), "-", lit(matrix(&[&[1.0, 2.0]])))), Value::Null);
    assert_eq!(eval(bin(col("m"), "=", col("m"))), matrix(&[&[1.0, 2.0], &[3.0, 4.0]]));
    assert_eq!(eval(agg(AggregateFunction::Sum, col("a"))), Value::Null);
    assert!(evaluate_predicate(&bin(col("a"), ">", col("x")), &row));
    assert!(evaluate_predicate(&bin(col("missing"), "=", lit(Value::Null)), &row));
    assert!(!evaluate_predicate(&bin(col("v"), "=", col("v")), &row));
    assert!(!evaluate_predicate(&bin(col("a"), "+", col("a")), &row));
    assert!(!evaluate_predicate(&col("a"), &row));
}

#[test]
fn test_parse_usize_list() {
    assert_eq!(parse_usize_list("[1, 3, 224, 224]").unwrap(), vec![1, 3, 224, 224]);
    assert_eq!(parse_usize_list("  [ 7 ]\n").unwrap(), vec![7]);
    assert_eq!(parse_usize_list("[]").unwrap(), Vec::<usize>::new());
    assert_eq!(parse_usize_list("[   ]").unwrap(), Vec::<usize>::new());
    assert_eq!(parse_usize_list("[+5,0]").unwrap(), vec![5, 0]);
    assert_eq!(parse_usize_list("[\u{a0}2\u{3000},3]").unwrap(), vec![2, 3]);
    assert_eq!(parse_usize_list("[18446744073709551615]").unwrap(), vec![usize::MAX]);
    for bad in ["", "[", "]", "1,2", "[1,,2]", "[1,]", "[,1]", "[-1]", "[1.5]", "[a]", "[+]", "[1 2]", "[18446744073709551616]", "[1] x"] {
        assert!(parse_usize_list(bad).is_err(), "{} should be refused", bad);
    }
}

#[test]
fn test_run_query_gives_rows_exactly_when_the_plan_can_be_run() {
    let schema = Arc::new(Schema::new(vec![
        Field::new("id", ValueType::Int),
        Field::new("name", ValueType::String),
    ]));
    let mut db = TensorDb::new();
    db.create_dataset("t".to_string(), schema.clone()).unwrap();
    db.insert_row("t", Tuple::new(schema.clone(), vec![Value::Int(1), Value::String("a".to_string())]).unwrap()).unwrap();
    db.insert_row("t", Tuple::new(schema.clone(), vec![Value::Int(2), Value::String("b".to_string())]).unwrap()).unwrap();
    let scan = || LogicalPlan::Scan { dataset_name: "t".to_string(), schema: schema.clone() };
    let (out_schema, rows) = linal::query::planner::run_query(&db, &scan()).unwrap();
    assert_eq!(out_schema.len(), 2);
    assert_eq!(rows.len(), 2);
    let limited = LogicalPlan::Limit { input: Box::new(scan()), n: 1 };
    assert_eq!(linal::query::planner::run_query(&db, &limited).unwrap().1.len(), 1);
    // A projection onto a column that is not there cannot be planned.
    let wrong = LogicalPlan::Project { input: Box::new(scan()), columns: vec!["nope".to_string()] };
    assert!(linal::query::planner::run_query(&db, &wrong).is_err());
    // A scan of a dataset that is not there can be planned and fails when it runs.
    let ghost = LogicalPlan::Scan { dataset_name: "ghost".to_string(), schema: schema.clone() };
    assert!(linal::query::planner::run_query(&db, &ghost).is_err());
    // Sorting by a column that is not there fails when it runs.
    let sorted = LogicalPlan::Sort { input: Box::new(scan()), column: "nope".to_string(), ascending: true };
    assert!(linal::query::planner::run_query(&db, &sorted).is_err());
}
