//! Physical plans and their execution.
//!
//! A physical plan is a tree of operators; each operator owns its input
//! and produces rows. Executing a plan against an engine reads the
//! datasets of the active database.

use crate::dataset::{
    arranged, copy_rows_between, evaluated_values, filter_rows, is_lazy_column,
    lemma_marked_member, marked, marks_of, picked, positions, projected, sort_rows,
    stored_column, Dataset, DatasetView,
};
use crate::index::HashIndex;
use crate::order::Relation;
use crate::query::evaluate::{evaluate, passes};
use crate::query::logical::{operator_of, ExprView, Operator};
use crate::stats::column;
use crate::engine::db::TensorDb;
use crate::engine::error::EngineError;
use crate::index::{Index, IndexType};
use crate::query::aggregate::{aggregate_output, aggregate_rows, row_views};
use crate::query::logical::{expr_views, Expr};
use crate::sort::sorted_order;
use crate::stats::rows_view;
use crate::tensor::{another_handle, Tensor};
use crate::tuple::{
    lemma_position_of, position_of, schema_accepts, FieldView, Schema, Tuple, TupleView,
};
use crate::value::{views_of, Value, ValueView};
use std::sync::Arc;
use vstd::prelude::*;
use vstd::string::StringExecFns;

verus! {

/// All rows of a dataset.
#[derive(Debug)]
pub struct SeqScanExec {
    pub dataset_name: String,
    pub schema: Arc<Schema>,
}

/// The rows that pass a predicate.
#[derive(Debug)]
pub struct FilterExec {
    pub input: Box<PhysicalPlan>,
    pub predicate: Expr,
}

/// The rows that hold a value in an indexed column, found through the
/// index.
#[derive(Debug)]
pub struct IndexScanExec {
    pub dataset_name: String,
    pub schema: Arc<Schema>,
    pub column: String,
    pub value: Value,
}

/// The rows whose vector in an indexed column is most similar to a query.
#[derive(Debug)]
pub struct VectorSearchExec {
    pub dataset_name: String,
    pub schema: Arc<Schema>,
    pub column: String,
    pub query: Tensor,
    pub k: usize,
}

/// Values picked by position and bound to a new schema.
#[derive(Debug)]
pub struct ProjectionExec {
    pub input: Box<PhysicalPlan>,
    pub output_schema: Arc<Schema>,
    pub column_indices: Vec<usize>,
}

/// The first `n` rows.
#[derive(Debug)]
pub struct LimitExec {
    pub input: Box<PhysicalPlan>,
    pub n: usize,
}

/// The rows sorted by a column.
#[derive(Debug)]
pub struct SortExec {
    pub input: Box<PhysicalPlan>,
    pub column: String,
    pub ascending: bool,
}

/// Aggregates over groups of rows.
#[derive(Debug)]
pub struct AggregateExec {
    pub input: Box<PhysicalPlan>,
    pub group_expr: Vec<Expr>,
    pub aggr_expr: Vec<Expr>,
    pub schema: Arc<Schema>,
}

/// A tree of operators.
#[derive(Debug)]
pub enum PhysicalPlan {
    SeqScan(SeqScanExec),
    Filter(FilterExec),
    IndexScan(IndexScanExec),
    VectorSearch(VectorSearchExec),
    Projection(ProjectionExec),
    Limit(LimitExec),
    Sort(SortExec),
    Aggregate(AggregateExec),
}

/// A row with the lazy columns of its dataset computed, or `None` when
/// the schema does not accept a computed value.
pub open spec fn lazy_row(d: DatasetView, row: TupleView) -> Option<TupleView> {
    let values = evaluated_values(d.schema, d.lazy_names, d.lazy_exprs, row);
    if schema_accepts(d.schema, values) {
        Some(TupleView { schema: d.schema, values })
    } else {
        None
    }
}

/// Rows with the lazy columns of their dataset computed, or `None` when
/// that fails for one of them.
pub open spec fn lazy_rows(d: DatasetView, rows: Seq<TupleView>) -> Option<Seq<TupleView>>
    decreases rows.len(),
{
    if rows.len() == 0 {
        Some(Seq::empty())
    } else {
        match (lazy_rows(d, rows.drop_last()), lazy_row(d, rows.last())) {
            (Some(before), Some(row)) => Some(before.push(row)),
            _ => None,
        }
    }
}

/// The rows of the pairs of row and score a search gave.
pub open spec fn found_ids(found: Seq<(usize, u32)>) -> Seq<usize> {
    Seq::new(found.len(), |i: int| found[i].0)
}

/// Rows with the values at the given positions, bound to a schema; `None`
/// when a row lacks a position or the schema does not accept the values
/// picked.
pub open spec fn projected_rows(rows: Seq<TupleView>, schema: Seq<FieldView>, places: Seq<usize>)
    -> Option<Seq<TupleView>> {
    if forall|i: int| 0 <= i < rows.len() ==> row_projects(#[trigger] rows[i], schema, places) {
        Some(
            Seq::new(
                rows.len(),
                |i: int|
                    TupleView { schema, values: projected(rows[i].values, place_ints(places)) },
            ),
        )
    } else {
        None
    }
}

/// The positions as integers.
pub open spec fn place_ints(places: Seq<usize>) -> Seq<int> {
    Seq::new(places.len(), |j: int| places[j] as int)
}

/// Whether a row has every position and the schema accepts the values
/// picked.
pub open spec fn row_projects(row: TupleView, schema: Seq<FieldView>, places: Seq<usize>) -> bool {
    (forall|j: int| 0 <= j < places.len() ==> #[trigger] places[j] < row.values.len())
        && schema_accepts(schema, projected(row.values, place_ints(places)))
}

/// Whether every row has a value at a position.
pub open spec fn all_have(rows: Seq<TupleView>, place: int) -> bool {
    forall|i: int| 0 <= i < rows.len() ==> place < (#[trigger] rows[i]).values.len()
}

/// The output rows of an aggregation bound to a schema, or `None` when
/// the schema does not accept one of them.
pub open spec fn bound_output(output: Seq<Seq<ValueView>>, schema: Seq<FieldView>) -> Option<
    Seq<TupleView>,
> {
    if forall|g: int| 0 <= g < output.len() ==> schema_accepts(schema, #[trigger] output[g]) {
        Some(Seq::new(output.len(), |g: int| TupleView { schema, values: output[g] }))
    } else {
        None
    }
}

/// The first `n` rows, or all of them when there are fewer.
pub open spec fn limited(rows: Seq<TupleView>, n: usize) -> Seq<TupleView> {
    if n <= rows.len() {
        rows.take(n as int)
    } else {
        rows
    }
}

impl PhysicalPlan {
    /// The schema of the rows the plan produces.
    pub open spec fn schema_view(&self) -> Seq<FieldView>
        decreases self,
    {
        match self {
            PhysicalPlan::SeqScan(scan) => scan.schema@,
            PhysicalPlan::Filter(filter) => filter.input.schema_view(),
            PhysicalPlan::IndexScan(scan) => scan.schema@,
            PhysicalPlan::VectorSearch(search) => search.schema@,
            PhysicalPlan::Projection(projection) => projection.output_schema@,
            PhysicalPlan::Limit(limit) => limit.input.schema_view(),
            PhysicalPlan::Sort(sort) => sort.input.schema_view(),
            PhysicalPlan::Aggregate(aggregate) => aggregate.schema@,
        }
    }

    /// The rows the plan produces against an engine, or `None` when the
    /// execution fails.
    ///
    /// A scan gives every row of its dataset and an index scan the rows
    /// its hash index lists for the value, both with the lazy columns
    /// computed; a vector search gives the rows its vector index ranks
    /// best. A filter keeps the rows that pass its predicate, a limit
    /// the first rows, a sort arranges the rows by a column of the schema
    /// of its input, a projection picks values by position, and an
    /// aggregation groups and aggregates.
    pub open spec fn executed(&self, db: &TensorDb) -> Option<Seq<TupleView>>
        decreases self,
    {
        match self {
            PhysicalPlan::SeqScan(scan) => match db.active().datasets().by_name(
                scan.dataset_name@,
            ) {
                Some(d) => lazy_rows(d@, d@.rows),
                None => None,
            },
            PhysicalPlan::IndexScan(scan) => match db.active().datasets().by_name(
                scan.dataset_name@,
            ) {
                Some(d) => match d@.index(scan.column@) {
                    Some(Index::Hash(hash)) => lazy_rows(
                        d@,
                        picked(d@.rows, hash.row_ids(scan.value@)),
                    ),
                    _ => None,
                },
                None => None,
            },
            PhysicalPlan::VectorSearch(search) => match db.active().datasets().by_name(
                search.dataset_name@,
            ) {
                Some(d) => match d@.index(search.column@) {
                    Some(Index::Vector(vectors)) => if vectors@.fits(
                        search.query@.dims,
                        search.query@.data,
                    ) {
                        lazy_rows(
                            d@,
                            picked(
                                d@.rows,
                                found_ids(vectors@.best(search.query@.data, search.k as nat)),
                            ),
                        )
                    } else {
                        None
                    },
                    _ => None,
                },
                None => None,
            },
            PhysicalPlan::Filter(filter) => match filter.input.executed(db) {
                Some(rows) => Some(marked(rows, marks_of(rows, filter.predicate@))),
                None => None,
            },
            PhysicalPlan::Projection(projection) => match projection.input.executed(db) {
                Some(rows) => projected_rows(
                    rows,
                    projection.output_schema@,
                    projection.column_indices@,
                ),
                None => None,
            },
            PhysicalPlan::Limit(limit) => match limit.input.executed(db) {
                Some(rows) => Some(limited(rows, limit.n)),
                None => None,
            },
            PhysicalPlan::Sort(sort) => match sort.input.executed(db) {
                Some(rows) => match position_of(sort.input.schema_view(), sort.column@) {
                    Some(place) => if all_have(rows, place) {
                        Some(
                            arranged(
                                rows,
                                sorted_order(
                                    stored_column(rows, place),
                                    sort.ascending,
                                    rows.len(),
                                ),
                            ),
                        )
                    } else {
                        None
                    },
                    None => None,
                },
                None => None,
            },
            PhysicalPlan::Aggregate(aggregate) => match aggregate.input.executed(db) {
                Some(rows) => bound_output(
                    aggregate_output(
                        rows,
                        expr_views(aggregate.group_expr@),
                        expr_views(aggregate.aggr_expr@),
                    ),
                    aggregate.schema@,
                ),
                None => None,
            },
        }
    }

    /// The schema of the rows the plan produces.
    pub fn schema(&self) -> (r: Arc<Schema>)
        ensures
            r@ == self.schema_view(),
        decreases self,
    {
        match self {
            PhysicalPlan::SeqScan(scan) => another_handle(&scan.schema),
            PhysicalPlan::Filter(filter) => filter.input.schema(),
            PhysicalPlan::IndexScan(scan) => another_handle(&scan.schema),
            PhysicalPlan::VectorSearch(search) => another_handle(&search.schema),
            PhysicalPlan::Projection(projection) => another_handle(&projection.output_schema),
            PhysicalPlan::Limit(limit) => limit.input.schema(),
            PhysicalPlan::Sort(sort) => sort.input.schema(),
            PhysicalPlan::Aggregate(aggregate) => another_handle(&aggregate.schema),
        }
    }

    /// Executes the plan against an engine: see
    /// [`PhysicalPlan::executed`]. The first failure of an operator ends
    /// the execution.
    pub fn execute(&self, db: &TensorDb) -> (r: Result<Vec<Tuple>, EngineError>)
        ensures
            match self.executed(db) {
                Some(rows) => r matches Ok(out) && rows_view(out@) == rows,
                None => r is Err,
            },
        decreases self,
    {
        match self {
            PhysicalPlan::SeqScan(scan) => {
                let dataset = match db.get_dataset(scan.dataset_name.as_str()) {
                    Ok(d) => d,
                    Err(e) => {
                        return Err(e);
                    },
                };
                let rows = dataset.rows();
                evaluate_rows(dataset, rows)
            },
            PhysicalPlan::IndexScan(scan) => {
                let dataset = match db.get_dataset(scan.dataset_name.as_str()) {
                    Ok(d) => d,
                    Err(e) => {
                        return Err(e);
                    },
                };
                let index = match dataset.get_index(scan.column.as_str()) {
                    Some(index) => index,
                    None => {
                        let mut text = "Index not found on column '".to_owned();
                        text.append(scan.column.as_str());
                        text.append("'");
                        return Err(EngineError::InvalidOp(text));
                    },
                };
                let ids = match index.lookup(&scan.value) {
                    Ok(ids) => ids,
                    Err(text) => {
                        return Err(EngineError::InvalidOp(text));
                    },
                };
                let rows = dataset.get_rows_by_ids(ids.as_slice());
                evaluate_rows(dataset, &rows)
            },
            PhysicalPlan::VectorSearch(search) => {
                let dataset = match db.get_dataset(search.dataset_name.as_str()) {
                    Ok(d) => d,
                    Err(e) => {
                        return Err(e);
                    },
                };
                let index = match dataset.get_index(search.column.as_str()) {
                    Some(index) => index,
                    None => {
                        let mut text = "Vector index not found on column '".to_owned();
                        text.append(search.column.as_str());
                        text.append("'");
                        return Err(EngineError::InvalidOp(text));
                    },
                };
                match index.index_type() {
                    IndexType::Vector => {},
                    IndexType::Hash => {
                        let mut text = "Index on '".to_owned();
                        text.append(search.column.as_str());
                        text.append("' is not a VECTOR index");
                        return Err(EngineError::InvalidOp(text));
                    },
                }
                let found = match index.search(&search.query, search.k) {
                    Ok(found) => found,
                    Err(text) => {
                        return Err(EngineError::InvalidOp(text));
                    },
                };
                let mut ids: Vec<usize> = Vec::with_capacity(found.len());
                let mut i: usize = 0;
                while i < found.len()
                    invariant
                        i <= found@.len(),
                        ids@.len() == i,
                        forall|j: int| 0 <= j < i ==> (#[trigger] ids@[j]) == found@[j].0,
                    decreases found@.len() - i,
                {
                    ids.push(found[i].0);
                    i += 1;
                }
                proof {
                    assert(ids@ =~= found_ids(found@));
                }
                let rows = dataset.get_rows_by_ids(ids.as_slice());
                evaluate_rows(dataset, &rows)
            },
            PhysicalPlan::Filter(filter) => {
                let rows = match filter.input.execute(db) {
                    Ok(rows) => rows,
                    Err(e) => {
                        return Err(e);
                    },
                };
                Ok(filter_rows(&rows, &filter.predicate))
            },
            PhysicalPlan::Projection(projection) => {
                let rows = match projection.input.execute(db) {
                    Ok(rows) => rows,
                    Err(e) => {
                        return Err(e);
                    },
                };
                project_rows(&rows, &projection.output_schema, &projection.column_indices)
            },
            PhysicalPlan::Limit(limit) => {
                let rows = match limit.input.execute(db) {
                    Ok(rows) => rows,
                    Err(e) => {
                        return Err(e);
                    },
                };
                let end = if limit.n <= rows.len() {
                    limit.n
                } else {
                    rows.len()
                };
                let kept = copy_rows_between(&rows, 0, end);
                proof {
                    let all = rows_view(rows@);
                    assert(all.subrange(0, end as int) =~= all.take(end as int));
                    assert(all.take(all.len() as int) =~= all);
                }
                Ok(kept)
            },
            PhysicalPlan::Sort(sort) => {
                let rows = match sort.input.execute(db) {
                    Ok(rows) => rows,
                    Err(e) => {
                        return Err(e);
                    },
                };
                let schema = sort.input.schema();
                let place = match schema.get_field_index(sort.column.as_str()) {
                    Some(place) => place,
                    None => {
                        let mut text = "Column not found for sorting: ".to_owned();
                        text.append(sort.column.as_str());
                        return Err(EngineError::InvalidOp(text));
                    },
                };
                if !all_long_enough(&rows, place) {
                    return Err(EngineError::InvalidOp("Row is too short for sorting".to_owned()));
                }
                proof {
                    assert forall|j: int| 0 <= j < rows@.len() implies place < (
                    #[trigger] rows@[j])@.values.len() by {
                        assert(rows_view(rows@)[j] == rows@[j]@);
                    }
                }
                Ok(sort_rows(&rows, place, sort.ascending))
            },
            PhysicalPlan::Aggregate(aggregate) => {
                let rows = match aggregate.input.execute(db) {
                    Ok(rows) => rows,
                    Err(e) => {
                        return Err(e);
                    },
                };
                proof {
                    assert(row_views(rows@) =~= rows_view(rows@));
                }
                match aggregate_rows(
                    &rows,
                    &aggregate.group_expr,
                    &aggregate.aggr_expr,
                    &aggregate.schema,
                ) {
                    Ok(out) => {
                        proof {
                            let output = aggregate_output(
                                rows_view(rows@),
                                expr_views(aggregate.group_expr@),
                                expr_views(aggregate.aggr_expr@),
                            );
                            assert(rows_view(out@) =~= Seq::new(
                                output.len(),
                                |g: int| TupleView { schema: aggregate.schema@, values: output[g] },
                            ));
                        }
                        Ok(out)
                    },
                    Err(text) => Err(EngineError::InvalidOp(text)),
                }
            },
        }
    }
}

/// Rows of a dataset with its lazy columns computed: see [`lazy_rows`].
pub fn evaluate_rows(dataset: &Dataset, rows: &Vec<Tuple>) -> (r: Result<Vec<Tuple>, EngineError>)
    requires
        forall|i: int| 0 <= i < rows@.len() ==> (#[trigger] rows_view(rows@)[i]).schema
            == dataset@.schema,
    ensures
        match lazy_rows(dataset@, rows_view(rows@)) {
            Some(wanted) => r matches Ok(out) && rows_view(out@) == wanted,
            None => r is Err,
        },
{
    let ghost all = rows_view(rows@);
    let mut out: Vec<Tuple> = Vec::with_capacity(rows.len());
    let mut i: usize = 0;
    proof {
        assert(all.take(0) =~= Seq::<TupleView>::empty());
        assert(rows_view(out@) =~= Seq::<TupleView>::empty());
    }
    while i < rows.len()
        invariant
            all == rows_view(rows@),
            forall|j: int| 0 <= j < rows@.len() ==> (#[trigger] all[j]).schema == dataset@.schema,
            i <= rows@.len(),
            lazy_rows(dataset@, all.take(i as int)) == Some(rows_view(out@)),
        decreases rows@.len() - i,
    {
        let ghost before = rows_view(out@);
        proof {
            assert(all.take(i + 1).drop_last() =~= all.take(i as int));
            assert(all.take(i + 1).last() == rows@[i as int]@);
            assert(all[i as int] == rows@[i as int]@);
        }
        match dataset.evaluate_lazy_row(&rows[i]) {
            Ok(row) => {
                out.push(row);
                proof {
                    assert(rows_view(out@) =~= before.push(row@));
                }
            },
            Err(text) => {
                proof {
                    lemma_lazy_rows_fail(dataset@, all, i + 1);
                }
                return Err(EngineError::InvalidOp(text));
            },
        }
        i += 1;
    }
    proof {
        assert(all.take(rows@.len() as int) =~= all);
    }
    Ok(out)
}

/// Computes [`all_have`].
pub fn all_long_enough(rows: &Vec<Tuple>, place: usize) -> (r: bool)
    ensures
        r == all_have(rows_view(rows@), place as int),
{
    let mut i: usize = 0;
    while i < rows.len()
        invariant
            i <= rows@.len(),
            forall|j: int| 0 <= j < i ==> place < (#[trigger] rows_view(rows@)[j]).values.len(),
        decreases rows@.len() - i,
    {
        proof {
            assert(rows_view(rows@)[i as int] == rows@[i as int]@);
        }
        if place >= rows[i].len() {
            return false;
        }
        i += 1;
    }
    true
}

/// Once computing the lazy columns fails for the first rows it fails for
/// all of them.
pub proof fn lemma_lazy_rows_fail(d: DatasetView, rows: Seq<TupleView>, n: int)
    requires
        0 <= n <= rows.len(),
        lazy_rows(d, rows.take(n)) is None,
    ensures
        lazy_rows(d, rows) is None,
    decreases rows.len() - n,
{
    if n < rows.len() {
        assert(rows.take(n + 1).drop_last() =~= rows.take(n));
        lemma_lazy_rows_fail(d, rows, n + 1);
    } else {
        assert(rows.take(n) =~= rows);
    }
}

/// Rows with the values at the given positions, bound to a schema: see
/// [`projected_rows`].
pub fn project_rows(rows: &Vec<Tuple>, schema: &Arc<Schema>, places: &Vec<usize>) -> (r: Result<
    Vec<Tuple>,
    EngineError,
>)
    ensures
        match projected_rows(rows_view(rows@), schema@, places@) {
            Some(wanted) => r matches Ok(out) && rows_view(out@) == wanted,
            None => r is Err,
        },
{
    let ghost all = rows_view(rows@);
    let mut out: Vec<Tuple> = Vec::with_capacity(rows.len());
    let mut i: usize = 0;
    while i < rows.len()
        invariant
            all == rows_view(rows@),
            i <= rows@.len(),
            out@.len() == i,
            forall|j: int| 0 <= j < i ==> row_projects(#[trigger] all[j], schema@, places@),
            forall|j: int|
                0 <= j < i ==> (#[trigger] out@[j])@ == (TupleView {
                    schema: schema@,
                    values: projected(all[j].values, place_ints(places@)),
                }),
        decreases rows@.len() - i,
    {
        let stored = rows[i].values();
        proof {
            assert(all[i as int] == rows@[i as int]@);
        }
        let mut values: Vec<Value> = Vec::with_capacity(places.len());
        let mut k: usize = 0;
        while k < places.len()
            invariant
                all == rows_view(rows@),
                views_of(stored@) == all[i as int].values,
                0 <= i < all.len(),
                k <= places@.len(),
                values@.len() == k,
                forall|x: int| 0 <= x < k ==> #[trigger] places@[x] < stored@.len(),
                forall|x: int|
                    0 <= x < k ==> (#[trigger] values@[x])@ == all[i as int].values[places@[x] as int],
            decreases places@.len() - k,
        {
            let place = places[k];
            if place >= stored.len() {
                proof {
                    assert(!row_projects(all[i as int], schema@, places@));
                }
                return Err(EngineError::InvalidOp("Column index out of range".to_owned()));
            }
            proof {
                assert(views_of(stored@)[place as int] == stored@[place as int]@);
            }
            values.push(stored[place].clone());
            k += 1;
        }
        proof {
            assert(views_of(values@) =~= projected(all[i as int].values, place_ints(places@)));
        }
        match Tuple::new(another_handle(schema), values) {
            Ok(tuple) => out.push(tuple),
            Err(text) => {
                proof {
                    assert(!row_projects(all[i as int], schema@, places@));
                }
                return Err(EngineError::InvalidOp(text));
            },
        }
        i += 1;
    }
    proof {
        assert(rows_view(out@) =~= Seq::new(
            all.len(),
            |i: int| TupleView { schema: schema@, values: projected(all[i].values, place_ints(places@)) },
        ));
    }
    Ok(out)
}

/// Whether every scan of a plan names the schema its dataset has in the
/// active database of the engine.
pub open spec fn scans_agree(plan: PhysicalPlan, db: &TensorDb) -> bool
    decreases plan,
{
    match plan {
        PhysicalPlan::SeqScan(scan) => match db.active().datasets().by_name(scan.dataset_name@) {
            Some(d) => d@.schema == scan.schema@,
            None => true,
        },
        PhysicalPlan::IndexScan(scan) => match db.active().datasets().by_name(scan.dataset_name@) {
            Some(d) => d@.schema == scan.schema@,
            None => true,
        },
        PhysicalPlan::VectorSearch(search) => match db.active().datasets().by_name(
            search.dataset_name@,
        ) {
            Some(d) => d@.schema == search.schema@,
            None => true,
        },
        PhysicalPlan::Filter(filter) => scans_agree(*filter.input, db),
        PhysicalPlan::Projection(projection) => scans_agree(*projection.input, db),
        PhysicalPlan::Limit(limit) => scans_agree(*limit.input, db),
        PhysicalPlan::Sort(sort) => scans_agree(*sort.input, db),
        PhysicalPlan::Aggregate(aggregate) => scans_agree(*aggregate.input, db),
    }
}

/// Whether every row is bound to a schema.
pub open spec fn all_bound(rows: Seq<TupleView>, schema: Seq<FieldView>) -> bool {
    forall|i: int| 0 <= i < rows.len() ==> (#[trigger] rows[i]).schema == schema
}

/// Rows with the lazy columns computed are as many as before, each the
/// computed form of its row and bound to the schema of the dataset.
pub proof fn lemma_lazy_rows(d: DatasetView, rows: Seq<TupleView>)
    ensures
        match lazy_rows(d, rows) {
            Some(out) => out.len() == rows.len() && all_bound(out, d.schema) && forall|i: int|
                0 <= i < rows.len() ==> Some(#[trigger] out[i]) == lazy_row(d, rows[i]),
            None => exists|i: int| 0 <= i < rows.len() && lazy_row(d, #[trigger] rows[i]) is None,
        },
    decreases rows.len(),
{
    if rows.len() > 0 {
        let front = rows.drop_last();
        lemma_lazy_rows(d, front);
        match lazy_rows(d, front) {
            Some(before) => {
                match lazy_row(d, rows.last()) {
                    Some(row) => {
                        let out = before.push(row);
                        assert forall|i: int| 0 <= i < rows.len() implies Some(#[trigger] out[i])
                            == lazy_row(d, rows[i]) by {
                            if i < front.len() {
                                assert(out[i] == before[i]);
                                assert(front[i] == rows[i]);
                            }
                        }
                        assert forall|i: int| 0 <= i < out.len() implies (#[trigger] out[i]).schema
                            == d.schema by {
                            if i < front.len() {
                                assert(out[i] == before[i]);
                            }
                        }
                    },
                    None => {
                        assert(rows[rows.len() - 1] == rows.last());
                    },
                }
            },
            None => {
                let i = choose|i: int| 0 <= i < front.len() && lazy_row(d, #[trigger] front[i])
                    is None;
                assert(front[i] == rows[i]);
            },
        }
    }
}

/// The rows a plan produces are bound to the schema of the plan, provided
/// every scan of the plan names the schema its dataset has.
pub proof fn law_rows_have_plan_schema(plan: PhysicalPlan, db: &TensorDb)
    requires
        scans_agree(plan, db),
    ensures
        plan.executed(db) matches Some(rows) ==> all_bound(rows, plan.schema_view()),
    decreases plan,
{
    match plan {
        PhysicalPlan::SeqScan(scan) => {
            match db.active().datasets().by_name(scan.dataset_name@) {
                Some(d) => {
                    lemma_lazy_rows(d@, d@.rows);
                },
                None => {},
            }
        },
        PhysicalPlan::IndexScan(scan) => {
            match db.active().datasets().by_name(scan.dataset_name@) {
                Some(d) => {
                    match d@.index(scan.column@) {
                        Some(Index::Hash(hash)) => {
                            lemma_lazy_rows(d@, picked(d@.rows, hash.row_ids(scan.value@)));
                        },
                        _ => {},
                    }
                },
                None => {},
            }
        },
        PhysicalPlan::VectorSearch(search) => {
            match db.active().datasets().by_name(search.dataset_name@) {
                Some(d) => {
                    match d@.index(search.column@) {
                        Some(Index::Vector(vectors)) => {
                            lemma_lazy_rows(
                                d@,
                                picked(
                                    d@.rows,
                                    found_ids(vectors@.best(search.query@.data, search.k as nat)),
                                ),
                            );
                        },
                        _ => {},
                    }
                },
                None => {},
            }
        },
        PhysicalPlan::Filter(filter) => {
            law_rows_have_plan_schema(*filter.input, db);
            match filter.input.executed(db) {
                Some(rows) => {
                    let marks = marks_of(rows, filter.predicate@);
                    let kept = marked(rows, marks);
                    assert forall|i: int| 0 <= i < kept.len() implies (#[trigger] kept[i]).schema
                        == plan.schema_view() by {
                        lemma_marked_member(rows, marks, i);
                    }
                },
                None => {},
            }
        },
        PhysicalPlan::Projection(projection) => {},
        PhysicalPlan::Limit(limit) => {
            law_rows_have_plan_schema(*limit.input, db);
        },
        PhysicalPlan::Sort(sort) => {
            law_rows_have_plan_schema(*sort.input, db);
            match sort.input.executed(db) {
                Some(rows) => {
                    match position_of(sort.input.schema_view(), sort.column@) {
                        Some(place) => {
                            crate::sort::lemma_sorted_order_is_permutation(
                                stored_column(rows, place),
                                sort.ascending,
                                rows.len(),
                            );
                        },
                        None => {},
                    }
                },
                None => {},
            }
        },
        PhysicalPlan::Aggregate(aggregate) => {},
    }
}

/// The rows picked by the positions of a value in a column are the rows
/// marked as holding it.
pub proof fn lemma_picked_positions(rows: Seq<TupleView>, name: Seq<char>, value: ValueView)
    requires
        rows.len() <= usize::MAX,
    ensures
        picked(rows, positions(column(rows, name), value)) == marked(
            rows,
            Seq::new(rows.len(), |i: int| rows[i].get(name) == Some(value)),
        ),
        forall|k: int|
            0 <= k < positions(column(rows, name), value).len() ==> #[trigger] positions(
                column(rows, name),
                value,
            )[k] < rows.len(),
    decreases rows.len(),
{
    let values = column(rows, name);
    let marks = Seq::new(rows.len(), |i: int| rows[i].get(name) == Some(value));
    if rows.len() > 0 {
        let front = rows.drop_last();
        lemma_picked_positions(front, name, value);
        assert(column(front, name) =~= values.drop_last());
        assert(Seq::new(front.len(), |i: int| front[i].get(name) == Some(value))
            =~= marks.drop_last());
        let before = positions(values.drop_last(), value);
        lemma_picked_prefix(rows, before);
        if values.last() == Some(value) {
            assert(before.push((values.len() - 1) as usize).drop_last() =~= before);
        }
    }
}

/// Positions below the last row pick the same rows whether or not the
/// last row is there.
pub proof fn lemma_picked_prefix(rows: Seq<TupleView>, ids: Seq<usize>)
    requires
        rows.len() > 0,
        forall|k: int| 0 <= k < ids.len() ==> #[trigger] ids[k] < rows.len() - 1,
    ensures
        picked(rows, ids) == picked(rows.drop_last(), ids),
    decreases ids.len(),
{
    if ids.len() > 0 {
        assert forall|k: int| 0 <= k < ids.drop_last().len() implies #[trigger] ids.drop_last()[k]
            < rows.len() - 1 by {
            assert(ids.drop_last()[k] == ids[k]);
        }
        lemma_picked_prefix(rows, ids.drop_last());
        assert(ids[ids.len() - 1] == ids.last());
        assert(rows.drop_last()[ids.last() as int] == rows[ids.last() as int]);
    }
}

/// Where every row can be computed, computing the marked rows gives the
/// marked ones of the computed rows.
pub proof fn lemma_lazy_marked(d: DatasetView, rows: Seq<TupleView>, marks: Seq<bool>)
    requires
        marks.len() == rows.len(),
        lazy_rows(d, rows) is Some,
    ensures
        lazy_rows(d, marked(rows, marks)) == Some(marked(lazy_rows(d, rows).unwrap(), marks)),
    decreases rows.len(),
{
    if rows.len() > 0 {
        lemma_lazy_marked(d, rows.drop_last(), marks.drop_last());
        let all = lazy_rows(d, rows).unwrap();
        let front = lazy_rows(d, rows.drop_last()).unwrap();
        assert(all.drop_last() =~= front);
        if marks.last() {
            let kept = marked(rows.drop_last(), marks.drop_last());
            assert(kept.push(rows.last()).drop_last() =~= kept);
        }
    }
}

/// The predicate `column = value`.
pub open spec fn equals_predicate(name: Seq<char>, value: ValueView) -> ExprView {
    ExprView::BinaryExpr {
        left: Box::new(ExprView::Column(name)),
        op: "="@,
        right: Box::new(ExprView::Literal(value)),
    }
}

/// Whether a value stands in the relation `Equal` to another exactly when
/// the two are the same. This holds of two integers, two texts, two truth
/// values and of `Null`; it fails of a NaN, of zeros of different sign, of
/// an integer beside a number, and of vectors and matrices.
pub open spec fn compares_exactly(a: ValueView, b: ValueView) -> bool {
    (a.relation(b) == Some(Relation::Equal)) == (a == b)
}

/// A filter `column = value` over a scan and a scan through a hash index
/// on the column give the same rows in the same order, provided the
/// column is not lazy, every row can be computed, and every value of the
/// column compares exactly with the value sought.
pub proof fn law_index_scan_matches_filter(
    d: DatasetView,
    name: Seq<char>,
    value: ValueView,
    hash: HashIndex,
)
    requires
        d.wf(),
        d.rows.len() <= usize::MAX,
        d.index(name) == Some(Index::Hash(hash)),
        !is_lazy_column(d.schema, name),
        lazy_rows(d, d.rows) is Some,
        forall|i: int|
            0 <= i < d.rows.len() ==> ((#[trigger] d.rows[i]).get(name) matches Some(held)
                ==> compares_exactly(held, value)),
    ensures
        lazy_rows(d, picked(d.rows, hash.row_ids(value))) == Some(
            marked(
                lazy_rows(d, d.rows).unwrap(),
                marks_of(lazy_rows(d, d.rows).unwrap(), equals_predicate(name, value)),
            ),
        ),
{
    let rows = d.rows;
    let all = lazy_rows(d, rows).unwrap();
    let held = Seq::new(rows.len(), |i: int| rows[i].get(name) == Some(value));
    let predicate = equals_predicate(name, value);
    crate::names::lemma_name_position(d.index_names, name);
    let k = crate::names::name_position(d.index_names, name).unwrap();
    assert(d.index_names[k] == name);
    assert(d.indices[k] == Index::Hash(hash));
    assert(crate::dataset::index_consistent(d.indices[k], column(rows, d.index_names[k])));
    assert(crate::dataset::index_consistent(Index::Hash(hash), column(rows, name)));
    crate::dataset::lemma_hash_lookup(hash, column(rows, name), value);
    lemma_picked_positions(rows, name, value);
    lemma_lazy_marked(d, rows, held);
    lemma_lazy_rows(d, rows);
    lemma_position_of(d.schema, name);
    assert(position_of(d.schema, name) is Some);
    let place = position_of(d.schema, name).unwrap();
    proof_operator_equal();
    assert forall|i: int| 0 <= i < rows.len() implies (#[trigger] held[i]) == passes(
        predicate,
        all[i],
    ) by {
        assert(rows[i].wf());
        assert(Some(all[i]) == lazy_row(d, rows[i]));
        assert(all[i].values[place] == rows[i].values[place]);
        assert(all[i].get(name) == Some(rows[i].values[place]));
        assert(rows[i].get(name) == Some(rows[i].values[place]));
        assert(compares_exactly(rows[i].values[place], value));
        assert(evaluate(ExprView::Column(name), all[i]) == rows[i].values[place]);
        assert(evaluate(ExprView::Literal(value), all[i]) == value);
    }
    assert(held =~= marks_of(all, predicate));
}

/// Whether the first plan is an index scan and the second the filter
/// `column = value` over a scan of the same dataset, for a dataset of the
/// active database whose column has a hash index and is not lazy, whose
/// rows can all be computed, and whose values in the column all compare
/// exactly with the value sought.
pub open spec fn substitution_applies(
    index_plan: PhysicalPlan,
    filter_plan: PhysicalPlan,
    db: &TensorDb,
) -> bool {
    match (index_plan, filter_plan) {
        (PhysicalPlan::IndexScan(scan), PhysicalPlan::Filter(filter)) => match *filter.input {
            PhysicalPlan::SeqScan(plain) => plain.dataset_name@ == scan.dataset_name@
                && filter.predicate@ == equals_predicate(scan.column@, scan.value@)
                && match db.active().datasets().by_name(scan.dataset_name@) {
                Some(d) => d@.wf() && d@.rows.len() <= usize::MAX && (match d@.index(scan.column@) {
                    Some(Index::Hash(_)) => true,
                    _ => false,
                }) && !is_lazy_column(d@.schema, scan.column@) && lazy_rows(d@, d@.rows) is Some
                    && forall|i: int|
                    0 <= i < d@.rows.len() ==> (match (#[trigger] d@.rows[i]).get(scan.column@) {
                        Some(held) => compares_exactly(held, scan.value@),
                        None => true,
                    }),
                None => false,
            },
            _ => false,
        },
        _ => false,
    }
}

/// An index scan gives what a filter `column = value` over a scan of the
/// same dataset gives, the same rows in the same order, provided the
/// column has a hash index and is not lazy, every row of the dataset can
/// be computed, and every value of the column compares exactly with the
/// value sought.
pub proof fn law_index_substitution(index_plan: PhysicalPlan, filter_plan: PhysicalPlan, db: &TensorDb)
    requires
        substitution_applies(index_plan, filter_plan, db),
    ensures
        index_plan.executed(db) == filter_plan.executed(db),
{
    reveal_with_fuel(PhysicalPlan::executed, 3);
    match (index_plan, filter_plan) {
        (PhysicalPlan::IndexScan(scan), PhysicalPlan::Filter(filter)) => {
            let d = db.active().datasets().by_name(scan.dataset_name@).unwrap();
            match d@.index(scan.column@) {
                Some(Index::Hash(hash)) => {
                    law_index_scan_matches_filter(d@, scan.column@, scan.value@, hash);
                },
                _ => {},
            }
        },
        _ => {},
    }
}

/// The text `=` names the operator `Equal`.
pub proof fn proof_operator_equal()
    ensures
        operator_of("="@) == Some(Operator::Equal),
{
    reveal_strlit("=");
    reveal_strlit("+");
    reveal_strlit("-");
    reveal_strlit("*");
    reveal_strlit("/");
    assert("="@[0] == '=');
    assert("+"@[0] == '+');
    assert("-"@[0] == '-');
    assert("*"@[0] == '*');
    assert("/"@[0] == '/');
}

} // verus!
