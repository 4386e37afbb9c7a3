//! Expressions and logical plans.

use crate::order::same_text;
use crate::tensor::{another_handle, Tensor, TensorView};
use crate::tuple::{lemma_position_of, position_of, Field, FieldView, Schema};
use crate::value::{Value, ValueType, ValueView};
use std::sync::Arc;
use vstd::prelude::*;
use vstd::string::StringExecFns;

verus! {

/// An aggregate function.
#[derive(Debug, Clone, Copy, PartialEq, Eq, Structural)]
pub enum AggregateFunction {
    Sum,
    Avg,
    Count,
    Min,
    Max,
}

/// An expression over the columns of a row.
#[derive(Debug)]
pub enum Expr {
    /// The value of a column, by name.
    Column(String),
    /// A constant.
    Literal(Value),
    /// Two expressions joined by an operator, written as text: one of
    /// `+ - * /` or of `= != > < >= <=`.
    BinaryExpr { left: Box<Expr>, op: String, right: Box<Expr> },
    /// An aggregate over the rows of a group.
    AggregateExpr { func: AggregateFunction, expr: Box<Expr> },
}

/// Mathematical model of an [`Expr`].
pub enum ExprView {
    Column(Seq<char>),
    Literal(ValueView),
    BinaryExpr { left: Box<ExprView>, op: Seq<char>, right: Box<ExprView> },
    AggregateExpr { func: AggregateFunction, expr: Box<ExprView> },
}

impl Expr {
    /// The model of this expression.
    pub open spec fn model(&self) -> ExprView
        decreases self,
    {
        match self {
            Expr::Column(name) => ExprView::Column(name@),
            Expr::Literal(value) => ExprView::Literal(value@),
            Expr::BinaryExpr { left, op, right } => ExprView::BinaryExpr {
                left: Box::new(left.model()),
                op: op@,
                right: Box::new(right.model()),
            },
            Expr::AggregateExpr { func, expr } => ExprView::AggregateExpr {
                func: *func,
                expr: Box::new(expr.model()),
            },
        }
    }
}

impl View for Expr {
    type V = ExprView;

    open spec fn view(&self) -> ExprView {
        self.model()
    }
}

impl Clone for Expr {
    fn clone(&self) -> (r: Self)
        ensures
            r@ == self@,
        decreases self,
    {
        match self {
            Expr::Column(name) => Expr::Column(name.clone()),
            Expr::Literal(value) => Expr::Literal(value.clone()),
            Expr::BinaryExpr { left, op, right } => Expr::BinaryExpr {
                left: Box::new((&**left).clone()),
                op: op.clone(),
                right: Box::new((&**right).clone()),
            },
            Expr::AggregateExpr { func, expr } => Expr::AggregateExpr {
                func: *func,
                expr: Box::new((&**expr).clone()),
            },
        }
    }
}

/// The views of a list of expressions.
pub open spec fn expr_views(exprs: Seq<Expr>) -> Seq<ExprView> {
    exprs.map_values(|e: Expr| e@)
}

/// A copy of a list of expressions.
pub fn copy_exprs(source: &Vec<Expr>) -> (r: Vec<Expr>)
    ensures
        expr_views(r@) == expr_views(source@),
{
    let mut out: Vec<Expr> = Vec::with_capacity(source.len());
    let mut i: usize = 0;
    while i < source.len()
        invariant
            i <= source@.len(),
            out@.len() == i,
            forall|j: int| 0 <= j < i ==> out@[j]@ == source@[j]@,
        decreases source@.len() - i,
    {
        out.push(source[i].clone());
        i += 1;
    }
    assert(expr_views(out@) =~= expr_views(source@));
    out
}

/// The operators an expression may name.
#[derive(Debug, Clone, Copy, PartialEq, Eq, Structural)]
pub enum Operator {
    Add,
    Subtract,
    Multiply,
    Divide,
    Equal,
    NotEqual,
    Greater,
    Less,
    GreaterOrEqual,
    LessOrEqual,
}

/// The operator a text names, if any.
pub open spec fn operator_of(op: Seq<char>) -> Option<Operator> {
    if op == "+"@ {
        Some(Operator::Add)
    } else if op == "-"@ {
        Some(Operator::Subtract)
    } else if op == "*"@ {
        Some(Operator::Multiply)
    } else if op == "/"@ {
        Some(Operator::Divide)
    } else if op == "="@ {
        Some(Operator::Equal)
    } else if op == "!="@ {
        Some(Operator::NotEqual)
    } else if op == ">"@ {
        Some(Operator::Greater)
    } else if op == "<"@ {
        Some(Operator::Less)
    } else if op == ">="@ {
        Some(Operator::GreaterOrEqual)
    } else if op == "<="@ {
        Some(Operator::LessOrEqual)
    } else {
        None
    }
}

/// Computes [`operator_of`].
pub fn parse_operator(op: &str) -> (r: Option<Operator>)
    ensures
        r == operator_of(op@),
{
    if same_text(op, "+") {
        Some(Operator::Add)
    } else if same_text(op, "-") {
        Some(Operator::Subtract)
    } else if same_text(op, "*") {
        Some(Operator::Multiply)
    } else if same_text(op, "/") {
        Some(Operator::Divide)
    } else if same_text(op, "=") {
        Some(Operator::Equal)
    } else if same_text(op, "!=") {
        Some(Operator::NotEqual)
    } else if same_text(op, ">") {
        Some(Operator::Greater)
    } else if same_text(op, "<") {
        Some(Operator::Less)
    } else if same_text(op, ">=") {
        Some(Operator::GreaterOrEqual)
    } else if same_text(op, "<=") {
        Some(Operator::LessOrEqual)
    } else {
        None
    }
}

/// A tree of relational operators, independent of how it is executed.
#[derive(Debug)]
pub enum LogicalPlan {
    /// All rows of a dataset.
    Scan { dataset_name: String, schema: Arc<Schema> },
    /// The rows that pass a predicate.
    Filter { input: Box<LogicalPlan>, predicate: Expr },
    /// Some columns, by name.
    Project { input: Box<LogicalPlan>, columns: Vec<String> },
    /// The `k` rows whose vector in a column is most similar to a query.
    VectorSearch { input: Box<LogicalPlan>, column: String, query: Tensor, k: usize },
    /// The rows sorted by a column.
    Sort { input: Box<LogicalPlan>, column: String, ascending: bool },
    /// The first `n` rows.
    Limit { input: Box<LogicalPlan>, n: usize },
    /// Aggregates over groups of rows.
    Aggregate { input: Box<LogicalPlan>, group_expr: Vec<Expr>, aggr_expr: Vec<Expr> },
}

/// The type of the value of an expression on rows of a schema. A column
/// has the type of its field, or `Null` when the schema lacks it; a
/// matrix on either side of an operator makes a matrix, else a vector on
/// either side a vector, else a number on either side a number, and
/// everything else an integer.
pub open spec fn expr_type(expr: ExprView, schema: Seq<FieldView>) -> ValueType
    decreases expr,
{
    match expr {
        ExprView::Column(name) => match position_of(schema, name) {
            Some(i) => schema[i].value_type,
            None => ValueType::Null,
        },
        ExprView::Literal(value) => value.value_type(),
        ExprView::BinaryExpr { left, op, right } => joined_type(
            expr_type(*left, schema),
            expr_type(*right, schema),
        ),
        ExprView::AggregateExpr { .. } => ValueType::Int,
    }
}

/// The type of a binary expression from the types of its sides.
pub open spec fn joined_type(left: ValueType, right: ValueType) -> ValueType {
    match (left, right) {
        (ValueType::Matrix(r, c), _) => ValueType::Matrix(r, c),
        (_, ValueType::Matrix(r, c)) => ValueType::Matrix(r, c),
        (ValueType::Vector(d), _) => ValueType::Vector(d),
        (_, ValueType::Vector(d)) => ValueType::Vector(d),
        (ValueType::Float, _) => ValueType::Float,
        (_, ValueType::Float) => ValueType::Float,
        _ => ValueType::Int,
    }
}

/// The name of an aggregate function in capitals.
pub open spec fn function_text(func: AggregateFunction) -> Seq<char> {
    match func {
        AggregateFunction::Sum => "SUM"@,
        AggregateFunction::Avg => "AVG"@,
        AggregateFunction::Count => "COUNT"@,
        AggregateFunction::Min => "MIN"@,
        AggregateFunction::Max => "MAX"@,
    }
}

/// The name of the output column of an aggregate: the function in
/// capitals and, in brackets, the column it is taken over, or `val` when
/// it is taken over anything but a column.
pub open spec fn aggregate_name(func: AggregateFunction, inner: ExprView) -> Seq<char> {
    function_text(func) + "("@ + (match inner {
        ExprView::Column(name) => name,
        _ => "val"@,
    }) + ")"@
}

/// The type of the output column of an aggregate: a count is an integer,
/// an average a number, and a sum, a minimum or a maximum has the type of
/// what it is taken over.
pub open spec fn aggregate_type(func: AggregateFunction, inner: ExprView, schema: Seq<FieldView>)
    -> ValueType {
    match func {
        AggregateFunction::Count => ValueType::Int,
        AggregateFunction::Avg => ValueType::Float,
        _ => expr_type(inner, schema),
    }
}

/// The fields selected by a list of names, in the order of the list;
/// names the schema lacks are passed over.
pub open spec fn selected_fields(schema: Seq<FieldView>, names: Seq<Seq<char>>) -> Seq<FieldView>
    decreases names.len(),
{
    if names.len() == 0 {
        Seq::empty()
    } else {
        let before = selected_fields(schema, names.drop_last());
        match position_of(schema, names.last()) {
            Some(i) => before.push(schema[i]),
            None => before,
        }
    }
}

/// The fields of the group keys: one per group expression that is a
/// column, typed from the input schema.
pub open spec fn key_fields(group: Seq<ExprView>, schema: Seq<FieldView>) -> Seq<FieldView>
    decreases group.len(),
{
    if group.len() == 0 {
        Seq::empty()
    } else {
        let before = key_fields(group.drop_last(), schema);
        match group.last() {
            ExprView::Column(name) => before.push(
                FieldView {
                    name,
                    value_type: expr_type(group.last(), schema),
                    nullable: false,
                    is_lazy: false,
                },
            ),
            _ => before,
        }
    }
}

/// The fields of the aggregates: one per expression that is an
/// aggregate.
pub open spec fn aggregate_fields(aggregates: Seq<ExprView>, schema: Seq<FieldView>) -> Seq<
    FieldView,
>
    decreases aggregates.len(),
{
    if aggregates.len() == 0 {
        Seq::empty()
    } else {
        let before = aggregate_fields(aggregates.drop_last(), schema);
        match aggregates.last() {
            ExprView::AggregateExpr { func, expr } => before.push(
                FieldView {
                    name: aggregate_name(func, *expr),
                    value_type: aggregate_type(func, *expr, schema),
                    nullable: false,
                    is_lazy: false,
                },
            ),
            _ => before,
        }
    }
}

/// The views of a list of names.
pub open spec fn name_views(names: Seq<String>) -> Seq<Seq<char>> {
    names.map_values(|n: String| n@)
}

/// Mathematical model of a [`LogicalPlan`].
pub enum PlanView {
    Scan { dataset_name: Seq<char>, schema: Seq<FieldView> },
    Filter { input: Box<PlanView>, predicate: ExprView },
    Project { input: Box<PlanView>, columns: Seq<Seq<char>> },
    VectorSearch { input: Box<PlanView>, column: Seq<char>, query: TensorView, k: usize },
    Sort { input: Box<PlanView>, column: Seq<char>, ascending: bool },
    Limit { input: Box<PlanView>, n: usize },
    Aggregate { input: Box<PlanView>, group_expr: Seq<ExprView>, aggr_expr: Seq<ExprView> },
}

impl LogicalPlan {
    /// The model of this plan.
    pub open spec fn model(&self) -> PlanView
        decreases self,
    {
        match self {
            LogicalPlan::Scan { dataset_name, schema } => PlanView::Scan {
                dataset_name: dataset_name@,
                schema: schema@,
            },
            LogicalPlan::Filter { input, predicate } => PlanView::Filter {
                input: Box::new(input.model()),
                predicate: predicate@,
            },
            LogicalPlan::Project { input, columns } => PlanView::Project {
                input: Box::new(input.model()),
                columns: name_views(columns@),
            },
            LogicalPlan::VectorSearch { input, column, query, k } => PlanView::VectorSearch {
                input: Box::new(input.model()),
                column: column@,
                query: query@,
                k: *k,
            },
            LogicalPlan::Sort { input, column, ascending } => PlanView::Sort {
                input: Box::new(input.model()),
                column: column@,
                ascending: *ascending,
            },
            LogicalPlan::Limit { input, n } => PlanView::Limit {
                input: Box::new(input.model()),
                n: *n,
            },
            LogicalPlan::Aggregate { input, group_expr, aggr_expr } => PlanView::Aggregate {
                input: Box::new(input.model()),
                group_expr: expr_views(group_expr@),
                aggr_expr: expr_views(aggr_expr@),
            },
        }
    }
}

impl LogicalPlan {
    /// The schema of the rows the plan produces. A scan has the schema it
    /// names; a filter, a sort, a limit and a vector search have the
    /// schema of their input; a projection has the fields selected; an
    /// aggregation has the fields of the group keys followed by those of
    /// the aggregates.
    pub open spec fn schema_view(&self) -> Seq<FieldView>
        decreases self,
    {
        match self {
            LogicalPlan::Scan { schema, .. } => schema@,
            LogicalPlan::Filter { input, .. } => input.schema_view(),
            LogicalPlan::Project { input, columns } => selected_fields(
                input.schema_view(),
                name_views(columns@),
            ),
            LogicalPlan::VectorSearch { input, .. } => input.schema_view(),
            LogicalPlan::Sort { input, .. } => input.schema_view(),
            LogicalPlan::Limit { input, .. } => input.schema_view(),
            LogicalPlan::Aggregate { input, group_expr, aggr_expr } => key_fields(
                expr_views(group_expr@),
                input.schema_view(),
            ) + aggregate_fields(expr_views(aggr_expr@), input.schema_view()),
        }
    }

    /// The schema of the rows the plan produces: see
    /// [`LogicalPlan::schema_view`].
    pub fn schema(&self) -> (r: Arc<Schema>)
        ensures
            r@ == self.schema_view(),
        decreases self,
    {
        match self {
            LogicalPlan::Scan { schema, .. } => another_handle(schema),
            LogicalPlan::Filter { input, .. } => input.schema(),
            LogicalPlan::Project { input, columns } => {
                let input_schema = input.schema();
                let ghost names = name_views(columns@);
                let mut fields: Vec<Field> = Vec::new();
                let mut i: usize = 0;
                proof {
                    assert(names.take(0) =~= Seq::<Seq<char>>::empty());
                    assert(fields@.map_values(|f: Field| f@) =~= Seq::<FieldView>::empty());
                }
                while i < columns.len()
                    invariant
                        names == name_views(columns@),
                        i <= columns@.len(),
                        fields@.map_values(|f: Field| f@) == selected_fields(
                            input_schema@,
                            names.take(i as int),
                        ),
                    decreases columns@.len() - i,
                {
                    let ghost before = fields@.map_values(|f: Field| f@);
                    proof {
                        assert(names.take(i + 1).drop_last() =~= names.take(i as int));
                        assert(names.take(i + 1).last() == columns@[i as int]@);
                        lemma_position_of(input_schema@, columns@[i as int]@);
                    }
                    match input_schema.get_field(columns[i].as_str()) {
                        Some(field) => {
                            fields.push(field.clone());
                            proof {
                                assert(fields@.map_values(|f: Field| f@) =~= before.push(field@));
                            }
                        },
                        None => {},
                    }
                    i += 1;
                }
                proof {
                    assert(names.take(columns@.len() as int) =~= names);
                }
                let schema = Schema::new(fields);
                Arc::new(schema)
            },
            LogicalPlan::VectorSearch { input, .. } => input.schema(),
            LogicalPlan::Sort { input, .. } => input.schema(),
            LogicalPlan::Limit { input, .. } => input.schema(),
            LogicalPlan::Aggregate { input, group_expr, aggr_expr } => {
                let input_schema = input.schema();
                Arc::new(aggregate_schema(&input_schema, group_expr, aggr_expr))
            },
        }
    }
}

/// The schema of an aggregation over rows of the given schema: the fields
/// of the group keys followed by those of the aggregates.
pub fn aggregate_schema(input_schema: &Schema, group_expr: &Vec<Expr>, aggr_expr: &Vec<Expr>) -> (r:
    Schema)
    ensures
        r@ == key_fields(expr_views(group_expr@), input_schema@) + aggregate_fields(
            expr_views(aggr_expr@),
            input_schema@,
        ),
{
    let ghost group = expr_views(group_expr@);
    let ghost aggregates = expr_views(aggr_expr@);
    let mut fields: Vec<Field> = Vec::new();
    let mut i: usize = 0;
    proof {
        assert(group.take(0) =~= Seq::<ExprView>::empty());
        assert(fields@.map_values(|f: Field| f@) =~= Seq::<FieldView>::empty());
    }
    while i < group_expr.len()
        invariant
            group == expr_views(group_expr@),
            i <= group_expr@.len(),
            fields@.map_values(|f: Field| f@) == key_fields(group.take(i as int), input_schema@),
        decreases group_expr@.len() - i,
    {
        let ghost before = fields@.map_values(|f: Field| f@);
        proof {
            assert(group.take(i + 1).drop_last() =~= group.take(i as int));
            assert(group.take(i + 1).last() == group_expr@[i as int]@);
        }
        match &group_expr[i] {
            Expr::Column(name) => {
                let value_type = infer_expr_type_full(&group_expr[i], input_schema);
                let field = Field::new(name.as_str(), value_type);
                fields.push(field);
                proof {
                    assert(fields@.map_values(|f: Field| f@) =~= before.push(field@));
                }
            },
            _ => {},
        }
        i += 1;
    }
    proof {
        assert(group.take(group_expr@.len() as int) =~= group);
    }
    let ghost keys = fields@.map_values(|f: Field| f@);
    let mut j: usize = 0;
    proof {
        assert(aggregates.take(0) =~= Seq::<ExprView>::empty());
        assert(keys + Seq::<FieldView>::empty() =~= keys);
    }
    while j < aggr_expr.len()
        invariant
            aggregates == expr_views(aggr_expr@),
            j <= aggr_expr@.len(),
            fields@.map_values(|f: Field| f@) == keys + aggregate_fields(
                aggregates.take(j as int),
                input_schema@,
            ),
        decreases aggr_expr@.len() - j,
    {
        let ghost before = fields@.map_values(|f: Field| f@);
        proof {
            assert(aggregates.take(j + 1).drop_last() =~= aggregates.take(j as int));
            assert(aggregates.take(j + 1).last() == aggr_expr@[j as int]@);
        }
        match &aggr_expr[j] {
            Expr::AggregateExpr { func, expr } => {
                let name = aggregate_text(*func, expr);
                let value_type = match func {
                    AggregateFunction::Count => ValueType::Int,
                    AggregateFunction::Avg => ValueType::Float,
                    _ => infer_expr_type_full(expr, input_schema),
                };
                let field = Field::new(name.as_str(), value_type);
                fields.push(field);
                proof {
                    assert(fields@.map_values(|f: Field| f@) =~= before.push(field@));
                    assert(before.push(field@) =~= keys + aggregate_fields(
                        aggregates.take(j as int),
                        input_schema@,
                    ).push(field@));
                }
            },
            _ => {},
        }
        j += 1;
    }
    proof {
        assert(aggregates.take(aggr_expr@.len() as int) =~= aggregates);
    }
    Schema::new(fields)
}

/// Computes [`aggregate_name`].
pub fn aggregate_text(func: AggregateFunction, inner: &Expr) -> (r: String)
    ensures
        r@ == aggregate_name(func, inner@),
{
    let mut text = match func {
        AggregateFunction::Sum => "SUM".to_owned(),
        AggregateFunction::Avg => "AVG".to_owned(),
        AggregateFunction::Count => "COUNT".to_owned(),
        AggregateFunction::Min => "MIN".to_owned(),
        AggregateFunction::Max => "MAX".to_owned(),
    };
    text.append("(");
    match inner {
        Expr::Column(name) => text.append(name.as_str()),
        _ => text.append("val"),
    }
    text.append(")");
    text
}

/// Computes [`expr_type`].
pub fn infer_expr_type_full(expr: &Expr, schema: &Schema) -> (r: ValueType)
    ensures
        r == expr_type(expr@, schema@),
    decreases expr,
{
    match expr {
        Expr::Column(name) => {
            proof {
                lemma_position_of(schema@, name@);
            }
            match schema.get_field(name.as_str()) {
                Some(field) => field.value_type,
                None => ValueType::Null,
            }
        },
        Expr::Literal(value) => value.value_type(),
        Expr::BinaryExpr { left, right, .. } => {
            let l = infer_expr_type_full(left, schema);
            let r = infer_expr_type_full(right, schema);
            match (l, r) {
                (ValueType::Matrix(rows, cols), _) => ValueType::Matrix(rows, cols),
                (_, ValueType::Matrix(rows, cols)) => ValueType::Matrix(rows, cols),
                (ValueType::Vector(d), _) => ValueType::Vector(d),
                (_, ValueType::Vector(d)) => ValueType::Vector(d),
                (ValueType::Float, _) => ValueType::Float,
                (_, ValueType::Float) => ValueType::Float,
                _ => ValueType::Int,
            }
        },
        Expr::AggregateExpr { .. } => ValueType::Int,
    }
}

} // verus!
