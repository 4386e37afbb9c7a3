//! Commands that run a query.

use crate::dataset::{Dataset, DatasetId, DatasetView};
use crate::dsl::columns::handle_add_column;
use crate::dsl::datasets::handle_dataset_creation;
use crate::dsl::error::DslError;
use crate::dsl::output::{answer_with, engine_answer, engine_made, refused, silent, DslOutput};
use crate::dsl::plans::{
    build_dataset_query_plan, build_search_query_plan, build_select_query_plan, dataset_plan,
    dataset_query, search_parts, search_plan, search_request, select_plan, select_query,
    source_schema,
};
use crate::dsl::split::find_from;
use crate::dsl::types::refusal;
use crate::dsl::words::holds;
use crate::engine::effects::{create_dataset_from_rows_effect, replace_dataset_rows_effect};
use crate::engine::{EngineError, TensorDb};
use crate::query::logical::{LogicalPlan, PlanView};
use crate::query::planner::{query_answer, run_query};
use crate::stats::rows_view;
use crate::tuple::{Schema, Tuple};
use std::sync::Arc;
use vstd::prelude::*;
use vstd::string::StringExecFns;

verus! {

/// What a query gave: a schema with rows, or the error of the engine.
pub type Outcome = Result<(Arc<Schema>, Vec<Tuple>), EngineError>;

/// Whether the rows of a query were stored as a new dataset under a
/// name: the query is answered as [`query_answer`] says, for some plan
/// with the model given. Where the query fails its error is handed on
/// and the engine stays as it was; else the dataset is made as
/// [`TensorDb::create_dataset_from_rows`] does, and nothing is shown.
pub open spec fn query_stored(
    before: &TensorDb,
    after: &TensorDb,
    plan: PlanView,
    target: Seq<char>,
    logical: LogicalPlan,
    outcome: Outcome,
    r: Result<DslOutput, DslError>,
    line_no: usize,
) -> bool {
    &&& logical.model() == plan
    &&& query_answer(before, logical, outcome)
    &&& match outcome {
        Err(e) => (r matches Err(DslError::Engine { line, source }) && line == line_no && source
            == e) && *after == *before,
        Ok((schema, rows)) => create_dataset_from_rows_effect(
            before,
            after,
            target,
            schema@,
            rows_view(rows@),
            engine_made(r, DatasetId(before.active().datasets().next_id())),
        ) && silent(r, line_no),
    }
}

/// Whether the rows of a query were stored: see [`query_stored`], for
/// some plan and some outcome of the query.
pub open spec fn stored(
    before: &TensorDb,
    after: &TensorDb,
    plan: PlanView,
    target: Seq<char>,
    r: Result<DslOutput, DslError>,
    line_no: usize,
) -> bool {
    exists|logical: LogicalPlan, outcome: Outcome| #[trigger]
        query_stored(before, after, plan, target, logical, outcome, r, line_no)
}

/// What [`handle_dataset_query`] does: the engine before and after the command, and
/// the answer.
pub open spec fn dataset_query_handled(
    before: &TensorDb,
    after: &TensorDb,
    line: Seq<char>,
    r: Result<DslOutput, DslError>,
    line_no: usize,
) -> bool {
    &&& (match dataset_query(line) {
            Some((target, source, clauses)) => match source_schema(before, source) {
                Some(schema) => match dataset_plan(before, source, clauses) {
                    Some(plan) => stored(before, after, plan, target, r, line_no),
                    None => refused(r, line_no) && *after == *before,
                },
                None => (r matches Err(DslError::Engine { line, source: e }) && line == line_no && (
                e matches EngineError::DatasetNotFound(n) && n@ == source)) && *after == *before,
            },
            None => refused(r, line_no) && *after == *before,
        })
}

/// `DATASET target FROM source [clauses]`: the rows of the query become
/// a new dataset. The text is read as [`dataset_query`] and
/// [`dataset_plan`] say, and the rows are stored as [`stored`] says.
pub fn handle_dataset_query(db: &mut TensorDb, line: &str, line_no: usize) -> (r: Result<
    DslOutput,
    DslError,
>)
    ensures
        dataset_query_handled(old(db), final(db), line@, r, line_no),
{
    let (target, plan) = match build_dataset_query_plan(db, line, line_no) {
        Ok(built) => built,
        Err(e) => {
            return Err(e);
        },
    };
    let outcome = run_query(db, &plan);
    let ghost answered = outcome;
    let ghost wanted = plan.model();
    match outcome {
        Ok((schema, rows)) => {
            let r = match db.create_dataset_from_rows(target.clone(), schema, rows) {
                Ok(_) => Ok(DslOutput::Nothing),
                Err(e) => Err(DslError::Engine { line: line_no, source: e }),
            };
            proof {
                assert(query_stored(old(db), db, wanted, target@, plan, answered, r, line_no));
            }
            r
        },
        Err(e) => {
            let r = Err(DslError::Engine { line: line_no, source: e });
            proof {
                assert(query_stored(old(db), db, wanted, target@, plan, answered, r, line_no));
            }
            r
        },
    }
}

/// Whether the rows of a query were shown as a table: the query is
/// answered as [`query_answer`] says, for some plan with the model given.
/// Where the query fails its error is handed on. A table that is shown
/// holds the rows of the query under the name `Query Result`; the command
/// is refused where the rows do not share the schema handle of the
/// query.
pub open spec fn query_shown(
    db: &TensorDb,
    plan: PlanView,
    logical: LogicalPlan,
    outcome: Outcome,
    r: Result<DslOutput, DslError>,
    line_no: usize,
) -> bool {
    &&& logical.model() == plan
    &&& query_answer(db, logical, outcome)
    &&& match outcome {
        Err(e) => r matches Err(DslError::Engine { line, source }) && line == line_no && source
            == e,
        Ok((schema, rows)) => match r {
            Ok(out) => out matches DslOutput::Table(d) && d@ == (DatasetView {
                id: DatasetId(0),
                schema: schema@,
                rows: rows_view(rows@),
                name: Some("Query Result"@),
                lazy_names: Seq::empty(),
                lazy_exprs: Seq::empty(),
                index_names: Seq::empty(),
                indices: Seq::empty(),
            }),
            Err(e) => e matches DslError::Parse { line, .. } && line == line_no,
        },
    }
}

/// Whether the rows of a query were shown: see [`query_shown`], for some
/// plan and some outcome of the query.
pub open spec fn shown(db: &TensorDb, plan: PlanView, r: Result<DslOutput, DslError>, line_no: usize) -> bool {
    exists|logical: LogicalPlan, outcome: Outcome| #[trigger]
        query_shown(db, plan, logical, outcome, r, line_no)
}

/// What [`handle_select`] does: the engine before and after the command, and
/// the answer.
pub open spec fn select_handled(
    db: &TensorDb,
    line: Seq<char>,
    r: Result<DslOutput, DslError>,
    line_no: usize,
) -> bool {
    &&& (match select_query(line) {
            Some((items, source, clauses)) => match source_schema(db, source) {
                Some(schema) => match select_plan(schema, items, source, clauses) {
                    Some(plan) => shown(db, plan, r, line_no),
                    None => refused(r, line_no),
                },
                None => r matches Err(DslError::Engine { line, source: e }) && line == line_no && (
                e matches EngineError::DatasetNotFound(n) && n@ == source),
            },
            None => refused(r, line_no),
        })
}

/// `SELECT items FROM source [clauses]`: the rows of the query as a
/// table. The text is read as [`select_query`] and [`select_plan`] say,
/// and the rows are shown as [`shown`] says. The engine stays as it was.
pub fn handle_select(db: &TensorDb, line: &str, line_no: usize) -> (r: Result<DslOutput, DslError>)
    ensures
        select_handled(db, line@, r, line_no),
{
    let plan = match build_select_query_plan(db, line, line_no) {
        Ok(plan) => plan,
        Err(e) => {
            return Err(e);
        },
    };
    let outcome = run_query(db, &plan);
    let ghost answered = outcome;
    let ghost wanted = plan.model();
    let r = match outcome {
        Ok((schema, rows)) => {
            proof {
                reveal_strlit("Query Result");
            }
            match Dataset::with_rows(DatasetId(0), schema, rows, Some("Query Result".to_owned())) {
                Ok(table) => Ok(DslOutput::Table(table)),
                Err(msg) => Err(DslError::Parse { line: line_no, msg }),
            }
        },
        Err(e) => Err(DslError::Engine { line: line_no, source: e }),
    };
    proof {
        assert(query_shown(db, wanted, plan, answered, r, line_no));
    }
    r
}

/// The name of the dataset that takes the rows of a search that names
/// no target.
pub open spec fn search_target(target: Option<Seq<char>>) -> Seq<char> {
    match target {
        Some(name) => name,
        None => "search_results"@,
    }
}

/// The text of the answer to a search: the number of rows found and
/// the dataset that holds them.
pub open spec fn search_message(found: nat, target: Seq<char>) -> Seq<char> {
    "Search completed. Found "@ + crate::text::decimal(found) + " results in '"@ + target + "'."@
}

/// Whether the rows of a search were stored under a name: the query is
/// answered as [`query_answer`] says, for some plan with the model given.
/// Where the query fails its error is handed on and the engine stays as
/// it was. Where a dataset of the name is there, it must have the schema
/// of the rows, which then take the place of its rows as
/// [`TensorDb::replace_dataset_rows`] does; another schema is an error of
/// the engine. Where no dataset of the name is there, one is made as
/// [`TensorDb::create_dataset_from_rows`] does. The answer is
/// [`search_message`].
pub open spec fn search_stored(
    before: &TensorDb,
    after: &TensorDb,
    plan: PlanView,
    target: Seq<char>,
    logical: LogicalPlan,
    outcome: Outcome,
    r: Result<DslOutput, DslError>,
    line_no: usize,
) -> bool {
    &&& logical.model() == plan
    &&& query_answer(before, logical, outcome)
    &&& r matches Err(e) ==> e matches DslError::Engine { line, .. } && line == line_no
    &&& match outcome {
        Err(e) => (r matches Err(DslError::Engine { source, .. }) && source == e) && *after
            == *before,
        Ok((schema, rows)) => (r matches Ok(out) ==> out matches DslOutput::Message(m) && m@
            == search_message(rows@.len(), target)) && match before.active().datasets().by_name(
            target,
        ) {
            Some(d) => if d@.schema == schema@ {
                replace_dataset_rows_effect(
                    before,
                    after,
                    target,
                    rows_view(rows@),
                    engine_answer(r),
                )
            } else {
                (r matches Err(DslError::Engine { source, .. }) && source is InvalidOp) && *after
                    == *before
            },
            None => create_dataset_from_rows_effect(
                before,
                after,
                target,
                schema@,
                rows_view(rows@),
                engine_made(r, DatasetId(before.active().datasets().next_id())),
            ),
        },
    }
}

/// Whether the rows of a search were stored: see [`search_stored`], for
/// some plan and some outcome of the query.
pub open spec fn searched(
    before: &TensorDb,
    after: &TensorDb,
    plan: PlanView,
    target: Seq<char>,
    r: Result<DslOutput, DslError>,
    line_no: usize,
) -> bool {
    exists|logical: LogicalPlan, outcome: Outcome| #[trigger]
        search_stored(before, after, plan, target, logical, outcome, r, line_no)
}

/// What [`handle_search`] does: the engine before and after the command, and
/// the answer.
pub open spec fn search_handled(
    before: &TensorDb,
    after: &TensorDb,
    line: Seq<char>,
    r: Result<DslOutput, DslError>,
    line_no: usize,
) -> bool {
    &&& (match search_parts(line) {
            Some(parts) => match search_request(parts) {
                Some((k, data)) => match source_schema(before, parts.source) {
                    Some(schema) => searched(
                        before,
                        after,
                        search_plan(schema, parts.source, parts.column, data, k),
                        search_target(parts.target),
                        r,
                        line_no,
                    ),
                    None => (r matches Err(DslError::Engine { line, source: e }) && line == line_no
                        && (e matches EngineError::DatasetNotFound(n) && n@ == parts.source))
                        && *after == *before,
                },
                None => refused(r, line_no) && *after == *before,
            },
            None => refused(r, line_no) && *after == *before,
        })
}

/// `SEARCH ...`: the rows nearest to a query vector, stored as a dataset.
/// The text is read as [`search_parts`] and [`search_request`] say, the
/// plan is [`search_plan`], and the rows are stored as [`searched`] says
/// under the target, or under `search_results` where none is named.
pub fn handle_search(db: &mut TensorDb, line: &str, line_no: usize) -> (r: Result<
    DslOutput,
    DslError,
>)
    ensures
        search_handled(old(db), final(db), line@, r, line_no),
{
    let (named, plan) = match build_search_query_plan(db, line, line_no) {
        Ok(built) => built,
        Err(e) => {
            return Err(e);
        },
    };
    let target = match named {
        Some(name) => name,
        None => "search_results".to_owned(),
    };
    let outcome = run_query(db, &plan);
    let ghost answered = outcome;
    let ghost wanted = plan.model();
    let (schema, rows) = match outcome {
        Ok(found) => found,
        Err(e) => {
            let r = Err(DslError::Engine { line: line_no, source: e });
            proof {
                assert(search_stored(old(db), db, wanted, target@, plan, answered, r, line_no));
            }
            return r;
        },
    };
    let found = rows.len();
    let there = match db.get_dataset(target.as_str()) {
        Ok(dataset) => Some(dataset.schema().same_as(&schema)),
        Err(_) => None,
    };
    let done = match there {
        Some(true) => db.replace_dataset_rows(target.as_str(), rows),
        Some(false) => {
            let r = Err(
                DslError::Engine {
                    line: line_no,
                    source: EngineError::InvalidOp("Target dataset schema mismatch".to_owned()),
                },
            );
            proof {
                assert(search_stored(old(db), db, wanted, target@, plan, answered, r, line_no));
            }
            return r;
        },
        None => match db.create_dataset_from_rows(target.clone(), schema, rows) {
            Ok(_) => Ok(()),
            Err(e) => Err(e),
        },
    };
    let mut text = "Search completed. Found ".to_owned();
    text.append(crate::text::decimal_text(found).as_str());
    text.append(" results in '");
    text.append(target.as_str());
    text.append("'.");
    let r = answer_with(done, text, line_no);
    proof {
        assert(search_stored(old(db), db, wanted, target@, plan, answered, r, line_no));
    }
    r
}

/// What [`handle_dataset`] does: the creation of a dataset where the
/// line holds ` COLUMNS `, else a query into a new dataset where it holds
/// ` FROM `, else the addition of a column where it holds ` ADD COLUMN `.
/// Any other line is refused.
pub open spec fn dataset_handled(
    before: &TensorDb,
    after: &TensorDb,
    line: Seq<char>,
    r: Result<DslOutput, DslError>,
    line_no: usize,
) -> bool {
    if find_from(line, " COLUMNS "@, 0) is Some {
        crate::dsl::datasets::dataset_creation_handled(before, after, line, r, line_no)
    } else if find_from(line, " FROM "@, 0) is Some {
        dataset_query_handled(before, after, line, r, line_no)
    } else if find_from(line, " ADD COLUMN "@, 0) is Some {
        crate::dsl::columns::add_column_handled(before, after, line, r, line_no)
    } else {
        refused(r, line_no) && *after == *before
    }
}

/// `DATASET ...`: see [`dataset_handled`].
pub fn handle_dataset(db: &mut TensorDb, line: &str, line_no: usize) -> (r: Result<
    DslOutput,
    DslError,
>)
    ensures
        dataset_handled(old(db), final(db), line@, r, line_no),
{
    if holds(line, " COLUMNS ") {
        handle_dataset_creation(db, line, line_no)
    } else if holds(line, " FROM ") {
        handle_dataset_query(db, line, line_no)
    } else if holds(line, " ADD COLUMN ") {
        handle_add_column(db, line, line_no)
    } else {
        Err(
            refusal(
                line_no,
                "Expected DATASET ... COLUMNS ... or DATASET ... FROM ... or DATASET ... ADD COLUMN ...",
                "",
                "",
            ),
        )
    }
}

} // verus!
