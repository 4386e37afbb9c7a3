//! From logical plans to physical plans.
//!
//! The planner walks a logical plan from the leaves up. It knows one
//! optimization: a filter `column = literal` right above a scan becomes
//! an index scan when the column has a hash index.

use crate::dataset::{has_all, places_of, projected_fields};
use crate::engine::db::TensorDb;
use crate::engine::error::EngineError;
use crate::index::IndexType;
use crate::order::same_text;
use crate::query::logical::{
    copy_exprs, expr_views, name_views, selected_fields, Expr, ExprView, LogicalPlan,
};
use crate::query::physical::{
    AggregateExec, FilterExec, IndexScanExec, LimitExec, PhysicalPlan, ProjectionExec,
    SeqScanExec, SortExec, VectorSearchExec,
};
use crate::tensor::another_handle;
use crate::tuple::{position_of, Field, FieldView, Schema, TupleView};
use crate::value::ValueView;
use std::sync::Arc;
use vstd::prelude::*;

verus! {

/// Makes physical plans for one engine.
pub struct Planner<'a> {
    db: &'a TensorDb,
}

/// The column and the value of a predicate of the form
/// `column = literal`, which an index can answer.
pub open spec fn index_target(predicate: ExprView) -> Option<(Seq<char>, ValueView)> {
    match predicate {
        ExprView::BinaryExpr { left, op, right } => if op == "="@ {
            match (*left, *right) {
                (ExprView::Column(column), ExprView::Literal(value)) => Some((column, value)),
                _ => None,
            }
        } else {
            None
        },
        _ => None,
    }
}

/// Whether a filter on a dataset is answered by an index: the predicate
/// has the form `column = literal` and the column has a hash index.
pub open spec fn uses_index(db: &TensorDb, dataset_name: Seq<char>, predicate: ExprView) -> bool {
    match index_target(predicate) {
        Some((column, _)) => match db.active().datasets().by_name(dataset_name) {
            Some(d) => match d@.index(column) {
                Some(index) => index.index_kind() == IndexType::Hash,
                None => false,
            },
            None => false,
        },
        None => false,
    }
}

/// Whether a logical plan can be planned: every projection names only
/// columns of its input, and every vector search stands right above a
/// scan.
pub open spec fn plannable(plan: LogicalPlan) -> bool
    decreases plan,
{
    match plan {
        LogicalPlan::Scan { .. } => true,
        LogicalPlan::Filter { input, .. } => plannable(*input),
        LogicalPlan::Project { input, columns } => plannable(*input) && has_all(
            input.schema_view(),
            name_views(columns@),
        ),
        LogicalPlan::VectorSearch { input, .. } => *input is Scan,
        LogicalPlan::Sort { input, .. } => plannable(*input),
        LogicalPlan::Limit { input, .. } => plannable(*input),
        LogicalPlan::Aggregate { input, .. } => plannable(*input),
    }
}

/// Whether a physical plan is the one the planner makes for a logical
/// plan: node for node the same, but for a filter right above a scan that
/// an index answers, which becomes an index scan.
pub open spec fn realizes(physical: PhysicalPlan, logical: LogicalPlan, db: &TensorDb) -> bool
    decreases logical,
{
    match logical {
        LogicalPlan::Scan { dataset_name, schema } => physical matches PhysicalPlan::SeqScan(scan)
            && scan.dataset_name@ == dataset_name@ && scan.schema@ == schema@,
        LogicalPlan::Filter { input, predicate } => if (*input matches LogicalPlan::Scan {
            dataset_name,
            ..
        } && uses_index(db, dataset_name@, predicate@)) {
            physical matches PhysicalPlan::IndexScan(scan) && (*input matches LogicalPlan::Scan {
                dataset_name,
                schema,
            } && scan.dataset_name@ == dataset_name@ && scan.schema@ == schema@) && Some(
                (scan.column@, scan.value@),
            ) == index_target(predicate@)
        } else {
            physical matches PhysicalPlan::Filter(filter) && filter.predicate@ == predicate@
                && realizes(*filter.input, *input, db)
        },
        LogicalPlan::Project { input, columns } => physical matches PhysicalPlan::Projection(
            projection,
        ) && realizes(*projection.input, *input, db) && projection.output_schema@
            == projected_fields(
            input.schema_view(),
            places_of(input.schema_view(), name_views(columns@)),
        ) && crate::query::physical::place_ints(projection.column_indices@) == places_of(
            input.schema_view(),
            name_views(columns@),
        ),
        LogicalPlan::VectorSearch { input, column, query, k } => physical
            matches PhysicalPlan::VectorSearch(search) && (*input matches LogicalPlan::Scan {
            dataset_name,
            schema,
        } && search.dataset_name@ == dataset_name@ && search.schema@ == schema@) && search.column@
            == column@ && search.query@ == query@ && search.k == k,
        LogicalPlan::Sort { input, column, ascending } => physical matches PhysicalPlan::Sort(sort)
            && realizes(*sort.input, *input, db) && sort.column@ == column@ && sort.ascending
            == ascending,
        LogicalPlan::Limit { input, n } => physical matches PhysicalPlan::Limit(limit) && realizes(
            *limit.input,
            *input,
            db,
        ) && limit.n == n,
        LogicalPlan::Aggregate { input, group_expr, aggr_expr } => physical
            matches PhysicalPlan::Aggregate(aggregate) && realizes(*aggregate.input, *input, db)
            && expr_views(aggregate.group_expr@) == expr_views(group_expr@) && expr_views(
            aggregate.aggr_expr@,
        ) == expr_views(aggr_expr@) && aggregate.schema@ == logical.schema_view(),
    }
}

/// Where the schema has every name, the fields selected by the names are
/// the fields at the positions of the names.
pub proof fn lemma_selected_is_projected(schema: Seq<FieldView>, names: Seq<Seq<char>>)
    requires
        has_all(schema, names),
    ensures
        selected_fields(schema, names) == projected_fields(schema, places_of(schema, names)),
    decreases names.len(),
{
    if names.len() > 0 {
        let front = names.drop_last();
        assert forall|j: int| 0 <= j < front.len() implies position_of(
            schema,
            #[trigger] front[j],
        ) is Some by {
            assert(front[j] == names[j]);
        }
        lemma_selected_is_projected(schema, front);
        assert(position_of(schema, names[names.len() - 1]) is Some);
        assert(selected_fields(schema, names) =~= projected_fields(
            schema,
            places_of(schema, names),
        ));
    } else {
        assert(selected_fields(schema, names) =~= projected_fields(
            schema,
            places_of(schema, names),
        ));
    }
}

/// The plan the planner makes produces rows of the schema of the logical
/// plan.
pub proof fn lemma_realized_schema(physical: PhysicalPlan, logical: LogicalPlan, db: &TensorDb)
    requires
        plannable(logical),
        realizes(physical, logical, db),
    ensures
        physical.schema_view() == logical.schema_view(),
    decreases logical,
{
    reveal_with_fuel(LogicalPlan::schema_view, 3);
    match logical {
        LogicalPlan::Scan { dataset_name, schema } => {
            assert(physical is SeqScan);
            assert(physical.schema_view() == logical.schema_view());
        },
        LogicalPlan::Filter { input, predicate } => {
            match physical {
                PhysicalPlan::Filter(filter) => {
                    assert(realizes(*filter.input, *input, db));
                    lemma_realized_schema(*filter.input, *input, db);
                },
                PhysicalPlan::IndexScan(scan) => {
                    assert(*input is Scan);
                },
                _ => {
                    assert(false);
                },
            }
            assert(physical.schema_view() == logical.schema_view());
        },
        LogicalPlan::Project { input, columns } => {
            lemma_selected_is_projected(input.schema_view(), name_views(columns@));
            assert(physical is Projection);
            assert(physical.schema_view() == logical.schema_view());
        },
        LogicalPlan::VectorSearch { input, .. } => {
            assert(physical is VectorSearch);
            assert(*input is Scan);
            assert(physical.schema_view() == logical.schema_view());
        },
        LogicalPlan::Sort { input, .. } => {
            match physical {
                PhysicalPlan::Sort(sort) => {
                    lemma_realized_schema(*sort.input, *input, db);
                },
                _ => {
                    assert(false);
                },
            }
            assert(physical.schema_view() == logical.schema_view());
        },
        LogicalPlan::Limit { input, .. } => {
            match physical {
                PhysicalPlan::Limit(limit) => {
                    lemma_realized_schema(*limit.input, *input, db);
                },
                _ => {
                    assert(false);
                },
            }
            assert(physical.schema_view() == logical.schema_view());
        },
        LogicalPlan::Aggregate { .. } => {
            assert(physical is Aggregate);
            assert(physical.schema_view() == logical.schema_view());
        },
    }
}

/// The rows produced by the plan the planner makes for a logical plan are
/// bound to the schema of the logical plan, provided every scan names the
/// schema its dataset has.
pub proof fn law_plan_schema(physical: PhysicalPlan, logical: LogicalPlan, db: &TensorDb)
    requires
        plannable(logical),
        realizes(physical, logical, db),
        crate::query::physical::scans_agree(physical, db),
    ensures
        physical.executed(db) matches Some(rows) ==> crate::query::physical::all_bound(
            rows,
            logical.schema_view(),
        ),
{
    lemma_realized_schema(physical, logical, db);
    crate::query::physical::law_rows_have_plan_schema(physical, db);
}

/// The positions and the fields of the columns of the given names, or
/// `None` when the schema lacks one of them.
fn resolve_columns(schema: &Schema, columns: &Vec<String>) -> (r: Option<(Vec<usize>, Schema)>)
    ensures
        r is Some <==> has_all(schema@, name_views(columns@)),
        r matches Some((places, output)) ==> crate::query::physical::place_ints(places@)
            == places_of(schema@, name_views(columns@)) && output@ == projected_fields(
            schema@,
            places_of(schema@, name_views(columns@)),
        ),
{
    let ghost names = name_views(columns@);
    let ghost wanted = places_of(schema@, names);
    let mut places: Vec<usize> = Vec::with_capacity(columns.len());
    let mut fields: Vec<Field> = Vec::with_capacity(columns.len());
    let mut j: usize = 0;
    while j < columns.len()
        invariant
            names == name_views(columns@),
            wanted == places_of(schema@, names),
            j <= columns@.len(),
            places@.len() == j,
            fields@.len() == j,
            forall|k: int| 0 <= k < j ==> position_of(schema@, #[trigger] names[k]) is Some,
            forall|k: int| 0 <= k < j ==> (#[trigger] places@[k]) as int == wanted[k],
            forall|k: int| 0 <= k < j ==> (#[trigger] fields@[k])@ == schema@[wanted[k]],
        decreases columns@.len() - j,
    {
        proof {
            assert(names[j as int] == columns@[j as int]@);
        }
        match schema.get_field_index(columns[j].as_str()) {
            Some(place) => {
                proof {
                    assert(schema@[place as int] == schema.fields@[place as int]@);
                }
                places.push(place);
                fields.push(schema.fields[place].clone());
            },
            None => {
                return None;
            },
        }
        j += 1;
    }
    let output = Schema::new(fields);
    proof {
        assert(output@ =~= projected_fields(schema@, wanted));
        assert(crate::query::physical::place_ints(places@) =~= wanted);
    }
    Some((places, output))
}

impl<'a> Planner<'a> {
    /// The engine the planner plans for.
    pub closed spec fn engine(&self) -> &TensorDb {
        self.db
    }

    /// A planner for an engine.
    pub fn new(db: &'a TensorDb) -> (r: Self)
        ensures
            r.engine() == db,
    {
        Planner { db }
    }

    /// The index scan that answers a filter on a dataset, if an index can
    /// answer it: see [`uses_index`].
    fn try_optimize_filter(&self, dataset_name: &str, schema: &Arc<Schema>, predicate: &Expr) -> (r:
        Option<PhysicalPlan>)
        ensures
            r is Some <==> uses_index(self.engine(), dataset_name@, predicate@),
            r matches Some(plan) ==> plan matches PhysicalPlan::IndexScan(scan)
                && scan.dataset_name@ == dataset_name@ && scan.schema@ == schema@ && Some(
                (scan.column@, scan.value@),
            ) == index_target(predicate@),
    {
        proof {
            reveal_with_fuel(Expr::model, 3);
        }
        match predicate {
            Expr::BinaryExpr { left, op, right } => {
                if !same_text(op.as_str(), "=") {
                    return None;
                }
                match (&**left, &**right) {
                    (Expr::Column(column), Expr::Literal(value)) => {
                        let dataset = match self.db.get_dataset(dataset_name) {
                            Ok(d) => d,
                            Err(_) => {
                                return None;
                            },
                        };
                        match dataset.get_index(column.as_str()) {
                            Some(index) => match index.index_type() {
                                IndexType::Hash => Some(
                                    PhysicalPlan::IndexScan(
                                        IndexScanExec {
                                            dataset_name: dataset_name.to_owned(),
                                            schema: another_handle(schema),
                                            column: column.clone(),
                                            value: value.clone(),
                                        },
                                    ),
                                ),
                                IndexType::Vector => None,
                            },
                            None => None,
                        }
                    },
                    _ => None,
                }
            },
            _ => None,
        }
    }

    /// The physical plan for a logical plan. Fails when a projection
    /// names a column its input lacks and when a vector search does not
    /// stand right above a scan. The plan produces rows of the schema of
    /// the logical plan.
    pub fn create_physical_plan(&self, logical_plan: &LogicalPlan) -> (r: Result<
        PhysicalPlan,
        EngineError,
    >)
        ensures
            r is Ok <==> plannable(*logical_plan),
            r matches Ok(plan) ==> realizes(plan, *logical_plan, self.engine())
                && plan.schema_view() == logical_plan.schema_view(),
            r matches Err(e) ==> e is InvalidOp,
        decreases logical_plan,
    {
        proof {
            reveal_with_fuel(LogicalPlan::schema_view, 3);
            reveal_with_fuel(realizes, 2);
            reveal_with_fuel(plannable, 2);
        }
        match logical_plan {
            LogicalPlan::Scan { dataset_name, schema } => Ok(
                PhysicalPlan::SeqScan(
                    SeqScanExec { dataset_name: dataset_name.clone(), schema: another_handle(schema) },
                ),
            ),
            LogicalPlan::Filter { input, predicate } => {
                let input_plan = match self.create_physical_plan(input) {
                    Ok(plan) => plan,
                    Err(e) => {
                        return Err(e);
                    },
                };
                match &**input {
                    LogicalPlan::Scan { dataset_name, schema } => {
                        match self.try_optimize_filter(dataset_name.as_str(), schema, predicate) {
                            Some(plan) => {
                                return Ok(plan);
                            },
                            None => {},
                        }
                    },
                    _ => {},
                }
                Ok(
                    PhysicalPlan::Filter(
                        FilterExec { input: Box::new(input_plan), predicate: predicate.clone() },
                    ),
                )
            },
            LogicalPlan::Project { input, columns } => {
                let input_plan = match self.create_physical_plan(input) {
                    Ok(plan) => plan,
                    Err(e) => {
                        return Err(e);
                    },
                };
                let input_schema = input_plan.schema();
                match resolve_columns(&input_schema, columns) {
                    Some((places, output)) => {
                        proof {
                            lemma_selected_is_projected(input_schema@, name_views(columns@));
                        }
                        Ok(
                            PhysicalPlan::Projection(
                                ProjectionExec {
                                    input: Box::new(input_plan),
                                    output_schema: Arc::new(output),
                                    column_indices: places,
                                },
                            ),
                        )
                    },
                    None => Err(EngineError::InvalidOp("Column not found".to_owned())),
                }
            },
            LogicalPlan::VectorSearch { input, column, query, k } => {
                match &**input {
                    LogicalPlan::Scan { dataset_name, schema } => Ok(
                        PhysicalPlan::VectorSearch(
                            VectorSearchExec {
                                dataset_name: dataset_name.clone(),
                                schema: another_handle(schema),
                                column: column.clone(),
                                query: query.clone(),
                                k: *k,
                            },
                        ),
                    ),
                    _ => Err(
                        EngineError::InvalidOp(
                            "VectorSearch input must be a Scan".to_owned(),
                        ),
                    ),
                }
            },
            LogicalPlan::Limit { input, n } => {
                let input_plan = match self.create_physical_plan(input) {
                    Ok(plan) => plan,
                    Err(e) => {
                        return Err(e);
                    },
                };
                Ok(PhysicalPlan::Limit(LimitExec { input: Box::new(input_plan), n: *n }))
            },
            LogicalPlan::Sort { input, column, ascending } => {
                let input_plan = match self.create_physical_plan(input) {
                    Ok(plan) => plan,
                    Err(e) => {
                        return Err(e);
                    },
                };
                Ok(
                    PhysicalPlan::Sort(
                        SortExec {
                            input: Box::new(input_plan),
                            column: column.clone(),
                            ascending: *ascending,
                        },
                    ),
                )
            },
            LogicalPlan::Aggregate { input, group_expr, aggr_expr } => {
                let input_plan = match self.create_physical_plan(input) {
                    Ok(plan) => plan,
                    Err(e) => {
                        return Err(e);
                    },
                };
                let schema = logical_plan.schema();
                Ok(
                    PhysicalPlan::Aggregate(
                        AggregateExec {
                            input: Box::new(input_plan),
                            group_expr: copy_exprs(group_expr),
                            aggr_expr: copy_exprs(aggr_expr),
                            schema,
                        },
                    ),
                )
            },
        }
    }
}

/// Two physical plans that realize one logical plan give the same rows
/// under the same schema: what a plan gives depends only on what the
/// logical plan pins down.
pub proof fn lemma_realized_alike(
    first: PhysicalPlan,
    second: PhysicalPlan,
    logical: LogicalPlan,
    db: &TensorDb,
)
    requires
        realizes(first, logical, db),
        realizes(second, logical, db),
    ensures
        first.executed(db) == second.executed(db),
        first.schema_view() == second.schema_view(),
    decreases logical,
{
    reveal_with_fuel(realizes, 2);
    reveal_with_fuel(PhysicalPlan::executed, 2);
    reveal_with_fuel(PhysicalPlan::schema_view, 2);
    match logical {
        LogicalPlan::Scan { .. } => {},
        LogicalPlan::Filter { input, predicate } => {
            match (first, second) {
                (PhysicalPlan::Filter(a), PhysicalPlan::Filter(b)) => {
                    lemma_realized_alike(*a.input, *b.input, *input, db);
                },
                _ => {},
            }
        },
        LogicalPlan::Project { input, .. } => {
            match (first, second) {
                (PhysicalPlan::Projection(a), PhysicalPlan::Projection(b)) => {
                    lemma_realized_alike(*a.input, *b.input, *input, db);
                    let left = a.column_indices@;
                    let right = b.column_indices@;
                    assert(crate::query::physical::place_ints(left).len()
                        == crate::query::physical::place_ints(right).len());
                    assert forall|j: int| 0 <= j < left.len() implies left[j] == right[j] by {
                        assert(crate::query::physical::place_ints(left)[j]
                            == crate::query::physical::place_ints(right)[j]);
                    }
                    assert(left =~= right);
                },
                _ => {},
            }
        },
        LogicalPlan::VectorSearch { .. } => {},
        LogicalPlan::Sort { input, .. } => {
            match (first, second) {
                (PhysicalPlan::Sort(a), PhysicalPlan::Sort(b)) => {
                    lemma_realized_alike(*a.input, *b.input, *input, db);
                },
                _ => {},
            }
        },
        LogicalPlan::Limit { input, .. } => {
            match (first, second) {
                (PhysicalPlan::Limit(a), PhysicalPlan::Limit(b)) => {
                    lemma_realized_alike(*a.input, *b.input, *input, db);
                },
                _ => {},
            }
        },
        LogicalPlan::Aggregate { input, .. } => {
            match (first, second) {
                (PhysicalPlan::Aggregate(a), PhysicalPlan::Aggregate(b)) => {
                    lemma_realized_alike(*a.input, *b.input, *input, db);
                },
                _ => {},
            }
        },
    }
}

/// Whether some physical plan realizes a logical plan against an engine.
pub open spec fn has_plan(db: &TensorDb, logical_plan: LogicalPlan) -> bool {
    exists|plan: PhysicalPlan| realizes(plan, logical_plan, db)
}

/// The rows a logical plan gives against an engine: the rows that a
/// physical plan gives which realizes it. Every such plan gives the same
/// rows ([`lemma_realized_alike`]). There are no rows for a plan that
/// cannot be planned, and none where the execution fails.
pub open spec fn query_rows(db: &TensorDb, logical_plan: LogicalPlan) -> Option<Seq<TupleView>> {
    if plannable(logical_plan) && has_plan(db, logical_plan) {
        (choose|plan: PhysicalPlan| realizes(plan, logical_plan, db)).executed(db)
    } else {
        None
    }
}

/// The rows of a logical plan are the rows of any physical plan that
/// realizes it.
pub proof fn lemma_query_rows(physical: PhysicalPlan, logical: LogicalPlan, db: &TensorDb)
    requires
        plannable(logical),
        realizes(physical, logical, db),
    ensures
        query_rows(db, logical) == physical.executed(db),
{
    let chosen = choose|plan: PhysicalPlan| realizes(plan, logical, db);
    lemma_realized_alike(physical, chosen, logical, db);
}

/// What a query gives: where the logical plan gives rows
/// ([`query_rows`]), those rows with the schema of the plan; an error in
/// every other case.
pub open spec fn query_answer(
    db: &TensorDb,
    logical_plan: LogicalPlan,
    r: Result<(Arc<Schema>, Vec<crate::tuple::Tuple>), EngineError>,
) -> bool {
    match query_rows(db, logical_plan) {
        Some(rows) => r matches Ok((schema, out)) && schema@ == logical_plan.schema_view()
            && crate::stats::rows_view(out@) == rows,
        None => r is Err,
    }
}

/// Plans a logical plan and executes it against the engine: the rows the
/// plan gives, or the first failure of the planner or of an operator.
/// Succeeds exactly when the plan can be planned and its execution
/// succeeds: see [`query_answer`].
pub fn run_query(db: &TensorDb, logical_plan: &LogicalPlan) -> (r: Result<
    (Arc<Schema>, Vec<crate::tuple::Tuple>),
    EngineError,
>)
    ensures
        query_answer(db, *logical_plan, r),
{
    let planner = Planner::new(db);
    let plan = match planner.create_physical_plan(logical_plan) {
        Ok(plan) => plan,
        Err(e) => {
            return Err(e);
        },
    };
    proof {
        lemma_query_rows(plan, *logical_plan, db);
    }
    let rows = match plan.execute(db) {
        Ok(rows) => rows,
        Err(e) => {
            return Err(e);
        },
    };
    let schema = plan.schema();
    Ok((schema, rows))
}

} // verus!
