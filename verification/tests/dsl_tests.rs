use linal::dsl::expr::{
    parse_expression, parse_filter_condition, parse_select_items,
};
use linal::dsl::number::{parse_float, parse_integer};
use linal::dsl::reader::CommandReader;
use linal::dsl::split::{parse_infix_op, split_args, split_clause};
use linal::dsl::tuples::{parse_column_definitions, parse_tuple_values};
use linal::dsl::types::parse_value_type;
use linal::dsl::values::{parse_f32_list, parse_matrix_values, parse_single_value};
use linal::dsl::DslError;
use linal::query::logical::{AggregateFunction, Expr};
use linal::{BinaryOp, Field, Schema, Value, ValueType};

fn bits(x: f32) -> u32 {
    x.to_bits()
}

#[test]
fn test_parse_float_agrees_with_the_machine() {
    let samples = [
        "0", "-0", "+0", "1", "-1", "1.5", "0.1", "0.2", "0.3", "3.14159265358979", "1e10",
        "1E10", "1e-10", "1.e5", ".5", "5.", "+.5", "-.5e-3", "123456789", "16777217",
        "16777219", "0.000000000000000000000000000000000000000000001", "1e-45", "1e-46",
        "3.4028235e38", "3.4028236e38", "1e39", "-1e39", "1.17549435e-38", "1.1754942e-38",
        "99.99", "95.5", "0.95", "36.666666", "1.05", "2.5", "1e0", "1e+0", "1e-0", "00012.5",
        "7.038531e-26", "8.5070592e37", "0.1e1", "4.9e-324", "123456789012345678901234567890",
        "inf", "-inf", "+inf", "INF", "Infinity", "-INFINITY", "infinity",
    ];
    for text in samples {
        let expected: f32 = text.parse().unwrap();
        assert_eq!(parse_float(text), Some(expected.to_bits()), "{}", text);
    }
    assert_eq!(parse_float("nan"), Some(0x7fc0_0000));
    assert_eq!(parse_float("NaN"), Some(0x7fc0_0000));
    assert_eq!(parse_float("-nan"), Some(0xffc0_0000));
}

#[test]
fn test_parse_float_refuses_what_is_no_number() {
    let refused = [
        "", " ", "+", "-", ".", "e5", "1e", "1e+", "1.2.3", " 1", "1 ", "1f", "0x10", "1_000",
        "--1", "+-1", "in", "infinit", "nanx", "1e5.0", "abc", "1,5",
    ];
    for text in refused {
        assert!(text.parse::<f32>().is_err(), "{}", text);
        assert_eq!(parse_float(text), None, "{}", text);
    }
}

#[test]
fn test_parse_integer_agrees_with_the_machine() {
    let samples = [
        "0", "-0", "+0", "1", "-1", "+42", "0042", "9223372036854775807",
        "-9223372036854775808", "9223372036854775808", "-9223372036854775809", "", "+", "-",
        "1.0", " 1", "1 ", "12a", "--1", "99999999999999999999999",
    ];
    for text in samples {
        assert_eq!(parse_integer(text), text.parse::<i64>().ok(), "{}", text);
    }
}

#[test]
fn test_split_args_keeps_brackets_together() {
    assert_eq!(split_args("a, f(b, c), [d, e]"), vec!["a", "f(b, c)", "[d, e]"]);
    assert_eq!(split_args(""), Vec::<String>::new());
    assert_eq!(split_args("  "), Vec::<String>::new());
    assert_eq!(split_args("a,"), vec!["a"]);
    assert_eq!(split_args(",a"), vec!["", "a"]);
    assert_eq!(split_args("a,,b"), vec!["a", "", "b"]);
    assert_eq!(split_args("x)) , y"), vec!["x)) , y"]);
}

#[test]
fn test_split_clause_stops_at_the_next_keyword() {
    let keywords = ["FILTER", "SELECT", "ORDER BY", "LIMIT", "GROUP BY", "HAVING"];
    assert_eq!(
        split_clause("FILTER age > 28 SELECT name, age", "FILTER", &keywords),
        ("age > 28", "SELECT name, age")
    );
    assert_eq!(split_clause("LIMIT 3", "LIMIT", &keywords), ("3", ""));
    assert_eq!(
        split_clause("SELECT a ORDER BY a LIMIT 2", "SELECT", &keywords),
        ("a", "ORDER BY a LIMIT 2")
    );
    // A keyword inside a word does not end the clause, and then no later
    // place of that keyword does.
    assert_eq!(
        split_clause("FILTER xLIMIT = 1 LIMIT 2", "FILTER", &keywords),
        ("xLIMIT = 1 LIMIT 2", "")
    );
}

#[test]
fn test_parse_infix_op_finds_the_first_sign_outside_brackets() {
    assert_eq!(parse_infix_op("a + b"), Some(("a", BinaryOp::Add, "b")));
    assert_eq!(parse_infix_op("m[0, 1] * v"), Some(("m[0, 1]", BinaryOp::Multiply, "v")));
    assert_eq!(parse_infix_op("a - b / c"), Some(("a", BinaryOp::Subtract, "b / c")));
    assert_eq!(parse_infix_op("m[1-2]"), None);
    assert_eq!(parse_infix_op("ADD a b"), None);
    assert_eq!(parse_infix_op("/x"), Some(("", BinaryOp::Divide, "x")));
}

#[test]
fn test_parse_value_type_reads_every_type() {
    assert_eq!(parse_value_type("INT", 1).unwrap(), ValueType::Int);
    assert_eq!(parse_value_type("float", 1).unwrap(), ValueType::Float);
    assert_eq!(parse_value_type("String", 1).unwrap(), ValueType::String);
    assert_eq!(parse_value_type("BOOL", 1).unwrap(), ValueType::Bool);
    assert_eq!(parse_value_type("VECTOR(3)", 1).unwrap(), ValueType::Vector(3));
    assert_eq!(parse_value_type("vector(128)", 1).unwrap(), ValueType::Vector(128));
    assert_eq!(parse_value_type("MATRIX(2, 3)", 1).unwrap(), ValueType::Matrix(2, 3));
    assert_eq!(parse_value_type("Matrix(4,4)", 1).unwrap(), ValueType::Matrix(4, 4));
    for text in ["", "INTEGER", "VECTOR", "VECTOR()", "VECTOR(x)", "VECTOR( 3)", "VECTOR)3(",
        "MATRIX(2)", "MATRIX(2, 3, 4)", "MATRIX(2, x)", "MATRIX(, 3)"]
    {
        match parse_value_type(text, 7) {
            Err(DslError::Parse { line, .. }) => assert_eq!(line, 7),
            other => panic!("{} gave {:?}", text, other),
        }
    }
}

#[test]
fn test_parse_value_type_cites_the_type_it_does_not_know() {
    match parse_value_type("POINT", 3) {
        Err(e) => assert_eq!(e.message(), "[line 3] Parse error: Unknown type: POINT"),
        Ok(t) => panic!("{:?}", t),
    }
}

#[test]
fn test_parse_f32_list_reads_numbers() {
    assert_eq!(parse_f32_list("[1, 0.5, -2e3]").unwrap(), vec![bits(1.0), bits(0.5), bits(-2000.0)]);
    assert_eq!(parse_f32_list("  [ ]  ").unwrap(), Vec::<u32>::new());
    assert_eq!(parse_f32_list("[]").unwrap(), Vec::<u32>::new());
    assert!(parse_f32_list("1, 2").is_err());
    assert!(parse_f32_list("[1, x]").is_err());
    assert!(parse_f32_list("[1,,2]").is_err());
    assert!(parse_f32_list("[1, 2,]").is_err());
    assert_eq!(
        parse_f32_list("[1, x]").unwrap_err(),
        "Invalid float: x"
    );
}

#[test]
fn test_parse_matrix_values_reads_rows() {
    assert_eq!(
        parse_matrix_values("[[1, 2, 3], [4, 5, 6]]").unwrap(),
        (2, 3, vec![bits(1.0), bits(2.0), bits(3.0), bits(4.0), bits(5.0), bits(6.0)])
    );
    assert_eq!(parse_matrix_values("[[1], [2], [3]]").unwrap().0, 3);
    assert_eq!(parse_matrix_values("[[], []]").unwrap(), (2, 0, Vec::new()));
    assert!(parse_matrix_values("[]").is_err());
    assert!(parse_matrix_values("[[1, 2], [3]]").is_err());
    assert!(parse_matrix_values("[[1, [2]]]").is_err());
    assert!(parse_matrix_values("[1, 2]").is_err());
    assert!(parse_matrix_values("[[1] x [2]]").is_err());
    assert!(parse_matrix_values("[[1]]]").is_err());
    // A row that is not closed is left out.
    assert_eq!(parse_matrix_values("[[1], [2]").unwrap(), (1, 1, vec![bits(1.0)]));
}

#[test]
fn test_parse_single_value_reads_every_kind() {
    assert_eq!(parse_single_value("42", 1).unwrap(), Value::Int(42));
    assert_eq!(parse_single_value(" -7 ", 1).unwrap(), Value::Int(-7));
    assert_eq!(parse_single_value("0.95", 1).unwrap(), Value::Float(bits(0.95)));
    assert_eq!(parse_single_value("\"Alice\"", 1).unwrap(), Value::String("Alice".to_string()));
    assert_eq!(parse_single_value("\"\"", 1).unwrap(), Value::String(String::new()));
    assert_eq!(parse_single_value("\"a.b\"", 1).unwrap(), Value::String("a.b".to_string()));
    assert_eq!(parse_single_value("true", 1).unwrap(), Value::Bool(true));
    assert_eq!(parse_single_value("false", 1).unwrap(), Value::Bool(false));
    assert_eq!(
        parse_single_value("[1, 0.5]", 1).unwrap(),
        Value::Vector(vec![bits(1.0), bits(0.5)])
    );
    assert_eq!(parse_single_value("[]", 1).unwrap(), Value::Vector(Vec::new()));
    assert_eq!(
        parse_single_value("[[1, 2], [3, 4]]", 1).unwrap(),
        Value::Matrix(vec![vec![bits(1.0), bits(2.0)], vec![bits(3.0), bits(4.0)]])
    );
    for text in ["", "abc", "1e5", "True", "[1, x]", "[[1], 2]", "[[[1]]]", "1.2.3", "\"", "["] {
        match parse_single_value(text, 9) {
            Err(DslError::Parse { line, .. }) => assert_eq!(line, 9),
            other => panic!("{} gave {:?}", text, other),
        }
    }
}

#[test]
fn test_parse_tuple_values_reads_a_row() {
    let schema = Schema::new(vec![
        Field::new("id", ValueType::Int),
        Field::new("name", ValueType::String),
        Field::new("emb", ValueType::Vector(2)),
    ]);
    assert_eq!(
        parse_tuple_values("(1, \"a, b\", [1, 0])", &schema, 1).unwrap(),
        vec![
            Value::Int(1),
            Value::String("a, b".to_string()),
            Value::Vector(vec![bits(1.0), bits(0.0)])
        ]
    );
    assert_eq!(parse_tuple_values("((1, \"x\", [0, 0]))", &schema, 1).unwrap().len(), 3);
    assert!(parse_tuple_values("()", &schema, 1).is_err());
    assert!(parse_tuple_values("(1, \"a\")", &schema, 1).is_err());
    assert!(parse_tuple_values("(1, \"a\", [1, 0], 4)", &schema, 1).is_err());
    assert!(parse_tuple_values("(1, , [1, 0])", &schema, 1).is_err());
    match parse_tuple_values("(1, \"a\")", &schema, 4) {
        Err(e) => assert_eq!(e.message(), "[line 4] Parse error: Expected 3 values, got 2"),
        Ok(v) => panic!("{:?}", v),
    }
}

#[test]
fn test_parse_column_definitions_reads_columns() {
    let fields = parse_column_definitions("(id: INT, name: STRING, emb: VECTOR(3), m: MATRIX(2, 2))", 1).unwrap();
    assert_eq!(fields.len(), 4);
    assert_eq!(fields[0].name, "id");
    assert_eq!(fields[0].value_type, ValueType::Int);
    assert!(!fields[0].nullable);
    assert_eq!(fields[2].value_type, ValueType::Vector(3));
    assert_eq!(fields[3].name, "m");
    assert_eq!(fields[3].value_type, ValueType::Matrix(2, 2));
    assert_eq!(parse_column_definitions("a: int", 1).unwrap().len(), 1);
    assert!(parse_column_definitions("()", 1).is_err());
    assert!(parse_column_definitions("(a INT)", 1).is_err());
    assert!(parse_column_definitions("(a: INT, b: WHAT)", 1).is_err());
}

#[test]
fn test_parse_filter_condition_takes_the_first_sign_of_the_list() {
    let (column, sign, value) = parse_filter_condition("age >= 30", 1).unwrap();
    assert_eq!((column.as_str(), sign.as_str(), value), ("age", ">=", Value::Int(30)));
    let (column, sign, value) = parse_filter_condition("name = \"Bob\"", 1).unwrap();
    assert_eq!((column.as_str(), sign.as_str(), value), ("name", "=", Value::String("Bob".to_string())));
    let (column, sign, value) = parse_filter_condition("score<0.5", 1).unwrap();
    assert_eq!((column.as_str(), sign.as_str(), value), ("score", "<", Value::Float(bits(0.5))));
    let (_, sign, _) = parse_filter_condition("a != 1", 1).unwrap();
    assert_eq!(sign, "!=");
    assert!(parse_filter_condition("age 30", 1).is_err());
    assert!(parse_filter_condition("age > x", 1).is_err());
}

fn column(name: &str) -> Expr {
    Expr::Column(name.to_string())
}

fn binary(left: Expr, op: &str, right: Expr) -> Expr {
    Expr::BinaryExpr { left: Box::new(left), op: op.to_string(), right: Box::new(right) }
}

fn same(a: &Expr, b: &Expr) -> bool {
    format!("{:?}", a) == format!("{:?}", b)
}

#[test]
fn test_parse_expression_honours_precedence_and_brackets() {
    let e = parse_expression("a + b * 2", 1).unwrap();
    assert!(same(&e, &binary(column("a"), "+", binary(column("b"), "*", Expr::Literal(Value::Int(2))))));
    let e = parse_expression("(a + b) * 2", 1).unwrap();
    assert!(same(&e, &binary(binary(column("a"), "+", column("b")), "*", Expr::Literal(Value::Int(2)))));
    let e = parse_expression("a - b - c", 1).unwrap();
    assert!(same(&e, &binary(binary(column("a"), "-", column("b")), "-", column("c"))));
    let e = parse_expression("price / 4", 1).unwrap();
    assert!(same(&e, &binary(column("price"), "/", Expr::Literal(Value::Int(4)))));
    let e = parse_expression("x", 1).unwrap();
    assert!(same(&e, &column("x")));
    let e = parse_expression("10.5", 1).unwrap();
    assert!(same(&e, &Expr::Literal(Value::Float(bits(10.5)))));
    assert!(parse_expression("-a", 1).is_err());
    assert!(parse_expression("a * (-b)", 1).is_err());
}

#[test]
fn test_parse_select_items_reads_columns_and_aggregates() {
    let items = parse_select_items("region, SUM(amount), count(*), avg(a + b), *", 1).unwrap();
    assert_eq!(items.len(), 5);
    assert!(same(&items[0], &column("region")));
    assert!(same(
        &items[1],
        &Expr::AggregateExpr { func: AggregateFunction::Sum, expr: Box::new(column("amount")) }
    ));
    assert!(same(
        &items[2],
        &Expr::AggregateExpr {
            func: AggregateFunction::Count,
            expr: Box::new(Expr::Literal(Value::Int(1)))
        }
    ));
    assert!(same(
        &items[3],
        &Expr::AggregateExpr {
            func: AggregateFunction::Avg,
            expr: Box::new(binary(column("a"), "+", column("b")))
        }
    ));
    assert!(same(&items[4], &column("*")));
    assert!(parse_select_items("   ", 1).is_err());
    assert!(parse_select_items("a, -b", 1).is_err());
}

#[test]
fn test_command_reader_joins_lines_until_brackets_balance() {
    let mut reader = CommandReader::new();
    assert!(!reader.is_open());
    assert_eq!(reader.feed("DATASET d COLUMNS (", 3), None);
    assert!(reader.is_open());
    assert!(!reader.is_balanced());
    assert_eq!(reader.feed("id: INT,", 4), None);
    assert_eq!(
        reader.feed("name: STRING)", 5),
        Some(("DATASET d COLUMNS ( id: INT, name: STRING)".to_string(), 3))
    );
    assert!(!reader.is_open());
    assert!(reader.is_balanced());
    assert_eq!(reader.feed("SHOW ALL", 6), Some(("SHOW ALL".to_string(), 6)));
    assert_eq!(reader.feed("LET x = (", 7), None);
    reader.clear();
    assert!(!reader.is_open());
    assert!(reader.is_balanced());
}

#[test]
fn test_parse_float_agrees_with_the_machine_on_many_numbers() {
    let mut state: u64 = 0x2545_f491_4f6c_dd1d;
    let mut next = move || {
        state ^= state << 13;
        state ^= state >> 7;
        state ^= state << 17;
        state
    };
    for _ in 0..4000 {
        let digits = 1 + (next() % 12) as usize;
        let mut text = String::new();
        match next() % 3 {
            0 => text.push('-'),
            1 => text.push('+'),
            _ => {}
        }
        let point = (next() % (digits as u64 + 1)) as usize;
        for k in 0..digits {
            if k == point {
                text.push('.');
            }
            text.push(char::from(b'0' + (next() % 10) as u8));
        }
        if next() % 2 == 0 {
            text.push(if next() % 2 == 0 { 'e' } else { 'E' });
            let exponent = (next() % 100) as i64 - 50;
            text.push_str(&exponent.to_string());
        }
        let expected: f32 = text.parse().unwrap();
        assert_eq!(parse_float(&text), Some(expected.to_bits()), "{}", text);
    }
    // Every pattern that is written out is read back bit for bit.
    for _ in 0..2000 {
        let bits = next() as u32;
        let number = f32::from_bits(bits);
        if number.is_nan() {
            continue;
        }
        let text = format!("{:e}", number);
        assert_eq!(parse_float(&text), Some(bits), "{}", text);
        let text = format!("{}", number);
        if text.len() <= 4096 {
            assert_eq!(parse_float(&text), Some(bits), "{}", text);
        }
    }
}
