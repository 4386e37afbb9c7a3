//! From the text of a query to a logical plan.

use crate::dsl::error::DslError;
use crate::dsl::expr::{parse_predicate, parse_select_items, predicate_of, select_items};
use crate::dsl::number::is_word_from;
use crate::dsl::split::{clause_parts, find_from, occurs_at, split_clause};
use crate::dsl::types::refusal;
use crate::dsl::values::{parse_single_value, value_of};
use crate::dsl::words::{
    after_keyword, begins, clean, parted, rest_after, split_once, split_words, trim, words,
};
use crate::engine::{EngineError, TensorDb};
use crate::query::logical::{expr_views, name_views, Expr, ExprView, LogicalPlan, PlanView};
use crate::tensor::{another_handle, lemma_product_small, Shape, Tensor, TensorId, TensorView};
use crate::tuple::{FieldView, Schema};
use crate::utils::parsing::{chars_of, next_comma, number_in, read_number, trim_range, trimmed};
use crate::value::{Value, ValueView};
use std::sync::Arc;
use vstd::prelude::*;
use vstd::string::StrSliceExecFns;

verus! {

/// The schema of the dataset of a name in the active database.
pub open spec fn source_schema(db: &TensorDb, name: Seq<char>) -> Option<Seq<FieldView>> {
    match db.active().datasets().by_name(name) {
        Some(d) => Some(d@.schema),
        None => None,
    }
}

/// A scan of a dataset of the active database, with the schema of the
/// dataset. Fails when the active database has no dataset of the name.
pub fn scan_of(db: &TensorDb, source_name: &str, line_no: usize) -> (r: Result<
    (LogicalPlan, Arc<Schema>),
    DslError,
>)
    ensures
        match source_schema(db, source_name@) {
            Some(schema) => r matches Ok((plan, handle)) && handle@ == schema && plan.model() == (
            PlanView::Scan { dataset_name: source_name@, schema }),
            None => r matches Err(DslError::Engine { line, source }) && line == line_no && (
            source matches EngineError::DatasetNotFound(n) && n@ == source_name@),
        },
{
    match db.get_dataset(source_name) {
        Ok(dataset) => {
            let schema = another_handle(dataset.schema());
            let plan = LogicalPlan::Scan {
                dataset_name: source_name.to_owned(),
                schema: another_handle(&schema),
            };
            Ok((plan, schema))
        },
        Err(e) => Err(DslError::Engine { line: line_no, source: e }),
    }
}

/// The pieces of a list written with commas, each without the white
/// space around it. Brackets are not heeded, and the piece after the last
/// comma counts even when it is empty.
pub open spec fn plain_pieces(s: Seq<char>, from: int) -> Seq<Seq<char>>
    decreases s.len() - from,
{
    let comma = next_comma(s, from);
    let piece = trimmed(s, from, comma);
    // The second test never holds; with it the recursion plainly ends.
    if comma >= s.len() || comma < from {
        seq![piece]
    } else {
        seq![piece] + plain_pieces(s, comma + 1)
    }
}

/// The columns named by a list of names.
pub open spec fn columns_named(names: Seq<Seq<char>>) -> Seq<ExprView> {
    names.map_values(|n: Seq<char>| ExprView::Column(n))
}

/// The columns of a `GROUP BY` clause.
pub open spec fn group_columns(s: Seq<char>) -> Seq<ExprView> {
    columns_named(plain_pieces(s, 0))
}

/// The columns of a `GROUP BY` clause: see [`group_columns`].
pub fn parse_group_columns(text: &str) -> (r: Vec<Expr>)
    ensures
        expr_views(r@) == group_columns(text@),
{
    let all = chars_of(text);
    let n = all.len();
    let mut out: Vec<Expr> = Vec::new();
    let ghost mut names: Seq<Seq<char>> = Seq::empty();
    let mut from: usize = 0;
    proof {
        reveal_with_fuel(Expr::model, 2);
        assert(expr_views(out@) =~= columns_named(names));
        assert(names + plain_pieces(all@, 0) =~= plain_pieces(all@, 0));
    }
    loop
        invariant
            all@ == text@,
            n == all@.len(),
            from <= n,
            expr_views(out@) == columns_named(names),
            plain_pieces(all@, 0) == names + plain_pieces(all@, from as int),
        decreases n - from,
    {
        let mut comma: usize = from;
        while comma < n && all[comma] != ','
            invariant
                from <= comma <= n,
                n == all@.len(),
                next_comma(all@, from as int) == next_comma(all@, comma as int),
            decreases n - comma,
        {
            comma += 1;
        }
        let (a, b) = trim_range(&all, from, comma);
        let name = text.substring_char(a, b).to_owned();
        let ghost before = names;
        let ghost before_out = expr_views(out@);
        proof {
            names = names.push(name@);
            reveal_with_fuel(Expr::model, 2);
        }
        out.push(Expr::Column(name));
        proof {
            assert(expr_views(out@) =~= before_out.push(ExprView::Column(name@)));
            assert(columns_named(names) =~= columns_named(before).push(ExprView::Column(name@)));
        }
        if comma >= n {
            proof {
                assert(plain_pieces(all@, from as int) =~= seq![name@]);
                assert(names =~= before + seq![name@]);
            }
            return out;
        }
        proof {
            assert(names + plain_pieces(all@, comma + 1) =~= before + (seq![name@] + plain_pieces(
                all@,
                comma + 1,
            )));
        }
        from = comma + 1;
    }
}

/// The aggregates among the first `n` expressions, in their order.
pub open spec fn aggregates_among(items: Seq<ExprView>, n: int) -> Seq<ExprView>
    decreases n,
{
    if n <= 0 {
        Seq::empty()
    } else if items[n - 1] is AggregateExpr {
        aggregates_among(items, n - 1).push(items[n - 1])
    } else {
        aggregates_among(items, n - 1)
    }
}

/// The aggregates among expressions.
pub open spec fn aggregates_of(items: Seq<ExprView>) -> Seq<ExprView> {
    aggregates_among(items, items.len() as int)
}

/// The aggregates among expressions: see [`aggregates_of`].
pub fn pick_aggregates(items: &Vec<Expr>) -> (r: Vec<Expr>)
    ensures
        expr_views(r@) == aggregates_of(expr_views(items@)),
{
    let mut out: Vec<Expr> = Vec::new();
    let mut k: usize = 0;
    proof {
        assert(expr_views(out@) =~= Seq::<ExprView>::empty());
    }
    while k < items.len()
        invariant
            k <= items@.len(),
            expr_views(out@) == aggregates_among(expr_views(items@), k as int),
        decreases items@.len() - k,
    {
        proof {
            reveal_with_fuel(Expr::model, 2);
            assert(expr_views(items@)[k as int] == items@[k as int]@);
        }
        match &items[k] {
            Expr::AggregateExpr { .. } => {
                let ghost before = expr_views(out@);
                let copy = items[k].clone();
                out.push(copy);
                proof {
                    assert(expr_views(out@) =~= before.push(items@[k as int]@));
                }
            },
            _ => {},
        }
        k += 1;
    }
    out
}

/// The names of the first `n` expressions, all of which must be
/// columns.
pub open spec fn column_names(items: Seq<ExprView>, n: int) -> Option<Seq<Seq<char>>>
    decreases n,
{
    if n <= 0 {
        Some(Seq::empty())
    } else {
        match column_names(items, n - 1) {
            Some(names) => match items[n - 1] {
                ExprView::Column(name) => Some(names.push(name)),
                _ => None,
            },
            None => None,
        }
    }
}

/// Once the expressions up to a place are not all columns, neither are
/// more of them.
pub proof fn lemma_names_fail(items: Seq<ExprView>, k: int, n: int)
    requires
        k <= n,
        column_names(items, k) is None,
    ensures
        column_names(items, n) is None,
    decreases n - k,
{
    if k < n {
        lemma_names_fail(items, k, n - 1);
    }
}

/// The names of expressions that are all columns: see [`column_names`].
pub fn names_of_columns(items: &Vec<Expr>) -> (r: Option<Vec<String>>)
    ensures
        match column_names(expr_views(items@), items@.len() as int) {
            Some(names) => r matches Some(v) && name_views(v@) == names,
            None => r is None,
        },
{
    let mut out: Vec<String> = Vec::new();
    let mut k: usize = 0;
    proof {
        assert(name_views(out@) =~= Seq::<Seq<char>>::empty());
    }
    while k < items.len()
        invariant
            k <= items@.len(),
            column_names(expr_views(items@), k as int) == Some(name_views(out@)),
        decreases items@.len() - k,
    {
        proof {
            reveal_with_fuel(Expr::model, 2);
            assert(expr_views(items@)[k as int] == items@[k as int]@);
        }
        match &items[k] {
            Expr::Column(name) => {
                let ghost before = name_views(out@);
                out.push(name.clone());
                proof {
                    assert(name_views(out@) =~= before.push(name@));
                }
            },
            _ => {
                proof {
                    lemma_names_fail(expr_views(items@), k + 1, items@.len() as int);
                }
                return None;
            },
        }
        k += 1;
    }
    Some(out)
}

/// The number a text stands for, white space around it aside.
pub open spec fn count_of(s: Seq<char>) -> Option<usize> {
    let t = trimmed(s, 0, s.len() as int);
    number_in(t, 0, t.len() as int)
}

/// The number a text stands for: see [`count_of`].
pub fn parse_count(text: &str) -> (r: Option<usize>)
    ensures
        r == count_of(text@),
{
    let t = trim(text);
    let all = chars_of(t);
    read_number(&all, 0, all.len())
}

/// The keywords that begin the clauses of `DATASET target FROM source`.
pub open spec fn dataset_keywords() -> Seq<Seq<char>> {
    seq!["FILTER"@, "SELECT"@, "ORDER BY"@, "LIMIT"@, "GROUP BY"@, "HAVING"@]
}

/// The keywords that begin the clauses of `SELECT items FROM source`.
pub open spec fn select_keywords() -> Seq<Seq<char>> {
    seq!["FILTER"@, "WHERE"@, "ORDER BY"@, "LIMIT"@, "GROUP BY"@, "HAVING"@]
}

/// The texts of a list of keywords.
pub open spec fn keyword_texts(keywords: Seq<&str>) -> Seq<Seq<char>> {
    keywords.map_values(|k: &str| k@)
}

/// The keywords of `DATASET target FROM source`: see [`dataset_keywords`].
pub fn dataset_keyword_list() -> (r: Vec<&'static str>)
    ensures
        keyword_texts(r@) == dataset_keywords(),
{
    let list = vec!["FILTER", "SELECT", "ORDER BY", "LIMIT", "GROUP BY", "HAVING"];
    proof {
        assert(keyword_texts(list@) =~= dataset_keywords());
    }
    list
}

/// The keywords of `SELECT items FROM source`: see [`select_keywords`].
pub fn select_keyword_list() -> (r: Vec<&'static str>)
    ensures
        keyword_texts(r@) == select_keywords(),
{
    let list = vec!["FILTER", "WHERE", "ORDER BY", "LIMIT", "GROUP BY", "HAVING"];
    proof {
        assert(keyword_texts(list@) =~= select_keywords());
    }
    list
}

/// How far the clauses of a query have been read: the plan so far, the
/// columns of a `GROUP BY` that wait for their selection, and the text
/// still to read.
pub struct Progress {
    pub plan: PlanView,
    pub group: Option<Seq<ExprView>>,
    pub rest: Seq<char>,
}

/// The views of the columns of a `GROUP BY` that wait.
pub open spec fn group_view(group: Option<Vec<Expr>>) -> Option<Seq<ExprView>> {
    match group {
        Some(g) => Some(expr_views(g@)),
        None => None,
    }
}

/// The column and the direction of an `ORDER BY` clause: the first word
/// names the column, and the order is upwards unless the second word is
/// `DESC`, in upper case only or in any case.
pub open spec fn order_of(s: Seq<char>, any_case: bool) -> Option<(Seq<char>, bool)> {
    let parts = words(s);
    if parts.len() == 0 {
        None
    } else {
        let descending = parts.len() > 1 && (if any_case {
            is_word_from(parts[1], 0, "desc"@)
        } else {
            parts[1] == "DESC"@
        });
        Some((parts[0], !descending))
    }
}

/// The column and the direction of an `ORDER BY` clause: see
/// [`order_of`].
pub fn parse_order(text: &str, any_case: bool) -> (r: Option<(String, bool)>)
    ensures
        match order_of(text@, any_case) {
            Some((column, ascending)) => r matches Some((c, a)) && c@ == column && a == ascending,
            None => r is None,
        },
{
    let parts = split_words(text);
    if parts.len() == 0 {
        return None;
    }
    proof {
        assert(words(text@)[0] == parts@[0]@);
    }
    let descending = if parts.len() > 1 {
        proof {
            assert(words(text@)[1] == parts@[1]@);
        }
        let second = chars_of(parts[1]);
        if any_case {
            crate::dsl::number::word_from(&second, 0, "desc")
        } else {
            crate::dsl::types::is_word(&second, "DESC")
        }
    } else {
        false
    };
    Some((parts[0].to_owned(), !descending))
}

/// The plan after the selection of `DATASET target FROM source`: an
/// aggregation when columns of a `GROUP BY` wait or an item is an
/// aggregate, with the aggregates among the items; else a projection
/// onto the items, which must all be columns.
pub open spec fn dataset_selection(
    plan: PlanView,
    group: Option<Seq<ExprView>>,
    items: Seq<ExprView>,
) -> Option<PlanView> {
    if group is Some || aggregates_of(items).len() > 0 {
        Some(
            PlanView::Aggregate {
                input: Box::new(plan),
                group_expr: match group {
                    Some(g) => g,
                    None => Seq::empty(),
                },
                aggr_expr: aggregates_of(items),
            },
        )
    } else {
        match column_names(items, items.len() as int) {
            Some(names) => Some(PlanView::Project { input: Box::new(plan), columns: names }),
            None => None,
        }
    }
}

/// One clause of `DATASET target FROM source` read from a text that
/// begins with it.
pub open spec fn dataset_step(t: Seq<char>, plan: PlanView, group: Option<Seq<ExprView>>) -> Option<
    Progress,
> {
    if occurs_at(t, "FILTER "@, 0) {
        let (clause, rest) = clause_parts(t, "FILTER"@.len() as int, dataset_keywords());
        match predicate_of(clause) {
            Some(predicate) => Some(
                Progress { plan: PlanView::Filter { input: Box::new(plan), predicate }, group, rest },
            ),
            None => None,
        }
    } else if occurs_at(t, "GROUP BY "@, 0) {
        let (clause, rest) = clause_parts(t, "GROUP BY"@.len() as int, dataset_keywords());
        Some(Progress { plan, group: Some(group_columns(clause)), rest })
    } else if occurs_at(t, "SELECT "@, 0) {
        let (clause, rest) = clause_parts(t, "SELECT"@.len() as int, dataset_keywords());
        match select_items(clause) {
            Some(items) => match dataset_selection(plan, group, items) {
                Some(selected) => Some(Progress { plan: selected, group: None, rest }),
                None => None,
            },
            None => None,
        }
    } else if occurs_at(t, "HAVING "@, 0) {
        let (clause, rest) = clause_parts(t, "HAVING"@.len() as int, dataset_keywords());
        match predicate_of(clause) {
            Some(predicate) => Some(
                Progress { plan: PlanView::Filter { input: Box::new(plan), predicate }, group, rest },
            ),
            None => None,
        }
    } else if occurs_at(t, "ORDER BY "@, 0) {
        let (clause, rest) = clause_parts(t, "ORDER BY"@.len() as int, dataset_keywords());
        match order_of(clause, false) {
            Some((column, ascending)) => Some(
                Progress {
                    plan: PlanView::Sort { input: Box::new(plan), column, ascending },
                    group,
                    rest,
                },
            ),
            None => None,
        }
    } else if occurs_at(t, "LIMIT "@, 0) {
        let (clause, rest) = clause_parts(t, "LIMIT"@.len() as int, dataset_keywords());
        match count_of(clause) {
            Some(n) => Some(
                Progress { plan: PlanView::Limit { input: Box::new(plan), n }, group, rest },
            ),
            None => None,
        }
    } else {
        None
    }
}

/// The plan of the clauses of `DATASET target FROM source`, read one
/// after another onto the plan so far.
pub open spec fn dataset_clauses(text: Seq<char>, plan: PlanView, group: Option<Seq<ExprView>>) -> Option<
    PlanView,
>
    decreases text.len(),
{
    if text.len() == 0 {
        Some(plan)
    } else {
        match dataset_step(trimmed(text, 0, text.len() as int), plan, group) {
            // The rest is always shorter; the test shows that the recursion ends.
            Some(next) => if next.rest.len() < text.len() {
                dataset_clauses(next.rest, next.plan, next.group)
            } else {
                None
            },
            None => None,
        }
    }
}

/// A filter over a plan.
fn filter_over(plan: LogicalPlan, clause: &str, line_no: usize) -> (r: Result<LogicalPlan, DslError>)
    ensures
        match predicate_of(clause@) {
            Some(predicate) => r matches Ok(p) && p.model() == (PlanView::Filter {
                input: Box::new(plan.model()),
                predicate,
            }),
            None => r matches Err(DslError::Parse { line, .. }) && line == line_no,
        },
{
    proof {
        reveal_with_fuel(LogicalPlan::model, 2);
    }
    match parse_predicate(clause, line_no) {
        Ok(predicate) => Ok(LogicalPlan::Filter { input: Box::new(plan), predicate }),
        Err(e) => Err(e),
    }
}

/// A sort over a plan.
fn sort_over(plan: LogicalPlan, clause: &str, any_case: bool, line_no: usize) -> (r: Result<
    LogicalPlan,
    DslError,
>)
    ensures
        match order_of(clause@, any_case) {
            Some((column, ascending)) => r matches Ok(p) && p.model() == (PlanView::Sort {
                input: Box::new(plan.model()),
                column,
                ascending,
            }),
            None => r matches Err(DslError::Parse { line, .. }) && line == line_no,
        },
{
    proof {
        reveal_with_fuel(LogicalPlan::model, 2);
    }
    match parse_order(clause, any_case) {
        Some((column, ascending)) => Ok(
            LogicalPlan::Sort { input: Box::new(plan), column, ascending },
        ),
        None => Err(refusal(line_no, "Empty ORDER BY clause", "", "")),
    }
}

/// A limit over a plan.
fn limit_over(plan: LogicalPlan, clause: &str, line_no: usize) -> (r: Result<LogicalPlan, DslError>)
    ensures
        match count_of(clause@) {
            Some(n) => r matches Ok(p) && p.model() == (PlanView::Limit {
                input: Box::new(plan.model()),
                n,
            }),
            None => r matches Err(DslError::Parse { line, .. }) && line == line_no,
        },
{
    proof {
        reveal_with_fuel(LogicalPlan::model, 2);
    }
    match parse_count(clause) {
        Some(n) => Ok(LogicalPlan::Limit { input: Box::new(plan), n }),
        None => Err(refusal(line_no, "Invalid LIMIT: ", clause, "")),
    }
}

/// An aggregation over a plan.
fn aggregate_over(plan: LogicalPlan, group: Option<Vec<Expr>>, items: &Vec<Expr>) -> (r: LogicalPlan)
    ensures
        r.model() == (PlanView::Aggregate {
            input: Box::new(plan.model()),
            group_expr: match group_view(group) {
                Some(g) => g,
                None => Seq::empty(),
            },
            aggr_expr: aggregates_of(expr_views(items@)),
        }),
{
    proof {
        reveal_with_fuel(LogicalPlan::model, 2);
    }
    let group_expr = match group {
        Some(g) => g,
        None => {
            let empty: Vec<Expr> = Vec::new();
            proof {
                assert(expr_views(empty@) =~= Seq::<ExprView>::empty());
            }
            empty
        },
    };
    LogicalPlan::Aggregate { input: Box::new(plan), group_expr, aggr_expr: pick_aggregates(items) }
}

/// Whether a step read what the model says.
pub open spec fn stepped_as(
    r: Result<(LogicalPlan, Option<Vec<Expr>>, &str), DslError>,
    wanted: Option<Progress>,
    line_no: usize,
) -> bool {
    match wanted {
        Some(next) => r matches Ok((plan, group, rest)) && plan.model() == next.plan && group_view(
            group,
        ) == next.group && rest@ == next.rest,
        None => r matches Err(DslError::Parse { line, .. }) && line == line_no,
    }
}

/// Reads one clause of `DATASET target FROM source`: see
/// [`dataset_step`].
pub fn read_dataset_clause<'a>(
    t: &'a str,
    plan: LogicalPlan,
    group: Option<Vec<Expr>>,
    keywords: &Vec<&str>,
    line_no: usize,
) -> (r: Result<(LogicalPlan, Option<Vec<Expr>>, &'a str), DslError>)
    requires
        keyword_texts(keywords@) == dataset_keywords(),
    ensures
        stepped_as(r, dataset_step(t@, plan.model(), group_view(group)), line_no),
{
    proof {
        reveal_strlit("FILTER");
        reveal_strlit("FILTER ");
        reveal_strlit("GROUP BY");
        reveal_strlit("GROUP BY ");
        reveal_strlit("SELECT");
        reveal_strlit("SELECT ");
        reveal_strlit("HAVING");
        reveal_strlit("HAVING ");
        reveal_strlit("ORDER BY");
        reveal_strlit("ORDER BY ");
        reveal_strlit("LIMIT");
        reveal_strlit("LIMIT ");
        reveal_with_fuel(LogicalPlan::model, 2);
    }
    if begins(t, "FILTER ") {
        let (clause, rest) = split_clause(t, "FILTER", keywords.as_slice());
        match filter_over(plan, clause, line_no) {
            Ok(p) => Ok((p, group, rest)),
            Err(e) => Err(e),
        }
    } else if begins(t, "GROUP BY ") {
        let (clause, rest) = split_clause(t, "GROUP BY", keywords.as_slice());
        Ok((plan, Some(parse_group_columns(clause)), rest))
    } else if begins(t, "SELECT ") {
        let (clause, rest) = split_clause(t, "SELECT", keywords.as_slice());
        let items = match parse_select_items(clause, line_no) {
            Ok(items) => items,
            Err(e) => {
                return Err(e);
            },
        };
        let aggregates = pick_aggregates(&items);
        if group.is_some() || aggregates.len() > 0 {
            Ok((aggregate_over(plan, group, &items), None, rest))
        } else {
            match names_of_columns(&items) {
                Some(columns) => Ok(
                    (LogicalPlan::Project { input: Box::new(plan), columns }, None, rest),
                ),
                None => Err(
                    refusal(line_no, "Only columns supported in simple SELECT (Project)", "", ""),
                ),
            }
        }
    } else if begins(t, "HAVING ") {
        let (clause, rest) = split_clause(t, "HAVING", keywords.as_slice());
        match filter_over(plan, clause, line_no) {
            Ok(p) => Ok((p, group, rest)),
            Err(e) => Err(e),
        }
    } else if begins(t, "ORDER BY ") {
        let (clause, rest) = split_clause(t, "ORDER BY", keywords.as_slice());
        match sort_over(plan, clause, false, line_no) {
            Ok(p) => Ok((p, group, rest)),
            Err(e) => Err(e),
        }
    } else if begins(t, "LIMIT ") {
        let (clause, rest) = split_clause(t, "LIMIT", keywords.as_slice());
        match limit_over(plan, clause, line_no) {
            Ok(p) => Ok((p, group, rest)),
            Err(e) => Err(e),
        }
    } else {
        Err(refusal(line_no, "Unexpected clause: ", t, ""))
    }
}

/// Reads the clauses of `DATASET target FROM source` onto a plan: see
/// [`dataset_clauses`].
pub fn read_dataset_clauses(clauses: &str, scan: LogicalPlan, line_no: usize) -> (r: Result<
    LogicalPlan,
    DslError,
>)
    ensures
        match dataset_clauses(clauses@, scan.model(), None) {
            Some(wanted) => r matches Ok(p) && p.model() == wanted,
            None => r matches Err(DslError::Parse { line, .. }) && line == line_no,
        },
{
    let keywords = dataset_keyword_list();
    let ghost start = scan.model();
    let mut plan = scan;
    let mut group: Option<Vec<Expr>> = None;
    let mut rest: &str = clauses;
    loop
        invariant
            start == scan.model(),
            keyword_texts(keywords@) == dataset_keywords(),
            dataset_clauses(clauses@, start, None) == dataset_clauses(
                rest@,
                plan.model(),
                group_view(group),
            ),
        decreases rest@.len(),
    {
        let length = rest.unicode_len();
        if length == 0 {
            return Ok(plan);
        }
        let t = trim(rest);
        match read_dataset_clause(t, plan, group, &keywords, line_no) {
            Ok((next_plan, next_group, next_rest)) => {
                if next_rest.unicode_len() >= length {
                    return Err(refusal(line_no, "Unexpected clause: ", t, ""));
                }
                plan = next_plan;
                group = next_group;
                rest = next_rest;
            },
            Err(e) => {
                return Err(e);
            },
        }
    }
}

/// Where a keyword begins the clauses of a query: the first place at
/// which it stands, if that is the start of the text or a blank stands
/// before it. Later places of the keyword do not count.
pub open spec fn keyword_place(text: Seq<char>, keyword: Seq<char>) -> Option<int> {
    match find_from(text, keyword, 0) {
        Some(i) => if i == 0 || text[i - 1] == ' ' {
            Some(i)
        } else {
            None
        },
        None => None,
    }
}

/// The least [`keyword_place`] among the first `n` keywords.
pub open spec fn first_keyword(text: Seq<char>, keywords: Seq<Seq<char>>, n: int) -> Option<int>
    decreases n,
{
    if n <= 0 {
        None
    } else {
        let rest = first_keyword(text, keywords, n - 1);
        match keyword_place(text, keywords[n - 1]) {
            Some(i) => if rest is None || i < rest.unwrap() {
                Some(i)
            } else {
                rest
            },
            None => rest,
        }
    }
}

/// The parts of `DATASET target FROM source clauses`: the target, the
/// source and the clauses. The clauses begin with the first keyword
/// after ` FROM `.
pub open spec fn dataset_query(line: Seq<char>) -> Option<(Seq<char>, Seq<char>, Seq<char>)> {
    match parted(after_keyword(line, "DATASET"@), " FROM "@) {
        Some((before, after)) => {
            let target = trimmed(before, 0, before.len() as int);
            let query = trimmed(after, 0, after.len() as int);
            match first_keyword(query, dataset_keywords(), dataset_keywords().len() as int) {
                Some(i) => Some((target, trimmed(query, 0, i), query.skip(i))),
                None => Some((target, trimmed(query, 0, query.len() as int), Seq::empty())),
            }
        },
        None => None,
    }
}

/// The plan that `DATASET target FROM source clauses` stands for.
pub open spec fn dataset_plan(db: &TensorDb, source: Seq<char>, clauses: Seq<char>) -> Option<
    PlanView,
> {
    match source_schema(db, source) {
        Some(schema) => dataset_clauses(
            clauses,
            PlanView::Scan { dataset_name: source, schema },
            None,
        ),
        None => None,
    }
}

/// Computes [`first_keyword`].
fn find_first_keyword(text: &str, keywords: &Vec<&str>) -> (r: Option<usize>)
    ensures
        match first_keyword(text@, keyword_texts(keywords@), keywords@.len() as int) {
            Some(i) => r == Some(i as usize) && 0 <= i <= text@.len(),
            None => r is None,
        },
{
    let all = chars_of(text);
    let mut best: Option<usize> = None;
    let mut k: usize = 0;
    while k < keywords.len()
        invariant
            all@ == text@,
            k <= keywords@.len(),
            best matches Some(b) ==> first_keyword(text@, keyword_texts(keywords@), k as int)
                == Some(b as int) && b <= text@.len(),
            best is None ==> first_keyword(text@, keyword_texts(keywords@), k as int) is None,
        decreases keywords@.len() - k,
    {
        let keyword = chars_of(keywords[k]);
        proof {
            assert(keyword_texts(keywords@)[k as int] == keyword@);
        }
        match crate::dsl::split::find_in(&all, &keyword) {
            Some(i) => {
                if i == 0 || all[i - 1] == ' ' {
                    let better = match best {
                        Some(b) => i < b,
                        None => true,
                    };
                    if better {
                        best = Some(i);
                    }
                }
            },
            None => {},
        }
        k += 1;
    }
    best
}

/// The target and the plan of `DATASET target FROM source clauses`. The
/// text is taken apart as [`dataset_query`] says, and the clauses are read
/// onto a scan of the source as [`dataset_clauses`] says.
pub fn build_dataset_query_plan(db: &TensorDb, line: &str, line_no: usize) -> (r: Result<
    (String, LogicalPlan),
    DslError,
>)
    ensures
        match dataset_query(line@) {
            Some((target, source, clauses)) => match source_schema(db, source) {
                Some(schema) => match dataset_plan(db, source, clauses) {
                    Some(plan) => r matches Ok((t, p)) && t@ == target && p.model() == plan,
                    None => r matches Err(DslError::Parse { line, .. }) && line == line_no,
                },
                None => r matches Err(DslError::Engine { line, source: e }) && line == line_no && (
                e matches EngineError::DatasetNotFound(n) && n@ == source),
            },
            None => r matches Err(DslError::Parse { line, .. }) && line == line_no,
        },
{
    let rest = rest_after(line, "DATASET");
    let (before, after) = match split_once(rest, " FROM ") {
        Some(parts) => parts,
        None => {
            return Err(refusal(line_no, "Expected: DATASET target FROM source ...", "", ""));
        },
    };
    let target = trim(before);
    let query = trim(after);
    let keywords = dataset_keyword_list();
    let total = query.unicode_len();
    let (source_name, clauses) = match find_first_keyword(query, &keywords) {
        Some(i) => {
            let head = query.substring_char(0, i);
            let clauses = query.substring_char(i, total);
            proof {
                assert(clauses@ =~= query@.skip(i as int));
                assert(trimmed(head@, 0, head@.len() as int) =~= trimmed(query@, 0, i as int)) by {
                    lemma_trimmed_prefix(query@, i as int);
                }
            }
            (trim(head), clauses)
        },
        None => {
            let clauses = query.substring_char(0, 0);
            proof {
                assert(clauses@ =~= Seq::<char>::empty());
            }
            (trim(query), clauses)
        },
    };
    let (scan, _) = match scan_of(db, source_name, line_no) {
        Ok(found) => found,
        Err(e) => {
            return Err(e);
        },
    };
    match read_dataset_clauses(clauses, scan, line_no) {
        Ok(plan) => Ok((target.to_owned(), plan)),
        Err(e) => Err(e),
    }
}

/// Trimming the start of a text is trimming the text up to a place.
pub proof fn lemma_trimmed_prefix(s: Seq<char>, to: int)
    requires
        0 <= to <= s.len(),
    ensures
        trimmed(s.take(to), 0, to) == trimmed(s, 0, to),
{
    lemma_solid_prefix(s, 0, to);
    let start = crate::utils::parsing::first_solid(s, 0, to);
    crate::dsl::expr::lemma_first_solid(s, 0, to);
    lemma_solid_suffix(s, start, to);
    crate::dsl::expr::lemma_last_solid(s, start, to);
    assert(s.take(to).subrange(start, crate::utils::parsing::last_solid(s, start, to))
        =~= s.subrange(start, crate::utils::parsing::last_solid(s, start, to)));
}

/// Where a text begins after its white space depends only on the text
/// up to the end that is looked at.
pub proof fn lemma_solid_prefix(s: Seq<char>, from: int, to: int)
    requires
        0 <= from <= to <= s.len(),
    ensures
        crate::utils::parsing::first_solid(s.take(to), from, to)
            == crate::utils::parsing::first_solid(s, from, to),
    decreases to - from,
{
    if from < to {
        assert(s.take(to)[from] == s[from]);
        if crate::utils::parsing::is_space(s[from]) {
            lemma_solid_prefix(s, from + 1, to);
        }
    }
}

/// Where a text ends before its white space depends only on the text
/// up to the end that is looked at.
pub proof fn lemma_solid_suffix(s: Seq<char>, from: int, to: int)
    requires
        0 <= from <= to <= s.len(),
    ensures
        forall|end: int|
            to <= end <= s.len() ==> crate::utils::parsing::last_solid(
                #[trigger] s.take(end),
                from,
                to,
            ) == crate::utils::parsing::last_solid(s, from, to),
    decreases to - from,
{
    if from < to {
        if crate::utils::parsing::is_space(s[to - 1]) {
            lemma_solid_suffix(s, from, to - 1);
        }
        assert forall|end: int| to <= end <= s.len() implies crate::utils::parsing::last_solid(
            #[trigger] s.take(end),
            from,
            to,
        ) == crate::utils::parsing::last_solid(s, from, to) by {
            assert(s.take(end)[to - 1] == s[to - 1]);
        }
    }
}

/// One clause of `SELECT items FROM source` read from a text that begins
/// with it.
pub open spec fn select_step(t: Seq<char>, plan: PlanView, group: Option<Seq<ExprView>>) -> Option<
    Progress,
> {
    if occurs_at(t, "FILTER "@, 0) || occurs_at(t, "WHERE "@, 0) {
        let keyword = if occurs_at(t, "WHERE "@, 0) {
            "WHERE"@
        } else {
            "FILTER"@
        };
        let (clause, rest) = clause_parts(t, keyword.len() as int, select_keywords());
        match predicate_of(clause) {
            Some(predicate) => Some(
                Progress { plan: PlanView::Filter { input: Box::new(plan), predicate }, group, rest },
            ),
            None => None,
        }
    } else if occurs_at(t, "GROUP BY "@, 0) {
        let (clause, rest) = clause_parts(t, "GROUP BY"@.len() as int, select_keywords());
        Some(Progress { plan, group: Some(group_columns(clause)), rest })
    } else if occurs_at(t, "HAVING "@, 0) {
        let (clause, rest) = clause_parts(t, "HAVING"@.len() as int, select_keywords());
        match predicate_of(clause) {
            Some(predicate) => Some(
                Progress { plan: PlanView::Filter { input: Box::new(plan), predicate }, group, rest },
            ),
            None => None,
        }
    } else if occurs_at(t, "limit "@, 0) || occurs_at(t, "LIMIT "@, 0) {
        let (clause, rest) = clause_parts(t, "LIMIT"@.len() as int, select_keywords());
        match count_of(clause) {
            Some(n) => Some(
                Progress { plan: PlanView::Limit { input: Box::new(plan), n }, group, rest },
            ),
            None => None,
        }
    } else if occurs_at(t, "ORDER BY "@, 0) {
        let (clause, rest) = clause_parts(t, "ORDER BY"@.len() as int, select_keywords());
        match order_of(clause, true) {
            Some((column, ascending)) => Some(
                Progress {
                    plan: PlanView::Sort { input: Box::new(plan), column, ascending },
                    group,
                    rest,
                },
            ),
            None => None,
        }
    } else {
        None
    }
}

/// The plan of the clauses of `SELECT items FROM source`, read one after
/// another onto the plan so far, with the columns of a `GROUP BY` that
/// wait at the end. Reading ends where only white space is left.
pub open spec fn select_clauses(text: Seq<char>, plan: PlanView, group: Option<Seq<ExprView>>) -> Option<
    (PlanView, Option<Seq<ExprView>>),
>
    decreases text.len(),
{
    let t = trimmed(text, 0, text.len() as int);
    if t.len() == 0 {
        Some((plan, group))
    } else {
        match select_step(t, plan, group) {
            // The rest is always shorter; the test shows that the recursion ends.
            Some(next) => if next.rest.len() < text.len() {
                select_clauses(next.rest, next.plan, next.group)
            } else {
                None
            },
            None => None,
        }
    }
}

/// Reads one clause of `SELECT items FROM source`: see [`select_step`].
pub fn read_select_clause<'a>(
    t: &'a str,
    plan: LogicalPlan,
    group: Option<Vec<Expr>>,
    keywords: &Vec<&str>,
    line_no: usize,
) -> (r: Result<(LogicalPlan, Option<Vec<Expr>>, &'a str), DslError>)
    requires
        keyword_texts(keywords@) == select_keywords(),
    ensures
        stepped_as(r, select_step(t@, plan.model(), group_view(group)), line_no),
{
    proof {
        reveal_strlit("FILTER");
        reveal_strlit("FILTER ");
        reveal_strlit("WHERE");
        reveal_strlit("WHERE ");
        reveal_strlit("GROUP BY");
        reveal_strlit("GROUP BY ");
        reveal_strlit("HAVING");
        reveal_strlit("HAVING ");
        reveal_strlit("ORDER BY");
        reveal_strlit("ORDER BY ");
        reveal_strlit("LIMIT");
        reveal_strlit("LIMIT ");
        reveal_strlit("limit ");
    }
    let filter = begins(t, "FILTER ");
    let condition = begins(t, "WHERE ");
    if filter || condition {
        let (clause, rest) = if condition {
            split_clause(t, "WHERE", keywords.as_slice())
        } else {
            split_clause(t, "FILTER", keywords.as_slice())
        };
        match filter_over(plan, clause, line_no) {
            Ok(p) => Ok((p, group, rest)),
            Err(e) => Err(e),
        }
    } else if begins(t, "GROUP BY ") {
        let (clause, rest) = split_clause(t, "GROUP BY", keywords.as_slice());
        Ok((plan, Some(parse_group_columns(clause)), rest))
    } else if begins(t, "HAVING ") {
        let (clause, rest) = split_clause(t, "HAVING", keywords.as_slice());
        match filter_over(plan, clause, line_no) {
            Ok(p) => Ok((p, group, rest)),
            Err(e) => Err(e),
        }
    } else if begins(t, "limit ") || begins(t, "LIMIT ") {
        let (clause, rest) = split_clause(t, "LIMIT", keywords.as_slice());
        match limit_over(plan, clause, line_no) {
            Ok(p) => Ok((p, group, rest)),
            Err(e) => Err(e),
        }
    } else if begins(t, "ORDER BY ") {
        let (clause, rest) = split_clause(t, "ORDER BY", keywords.as_slice());
        match sort_over(plan, clause, true, line_no) {
            Ok(p) => Ok((p, group, rest)),
            Err(e) => Err(e),
        }
    } else {
        Err(refusal(line_no, "Unknown clause in SELECT: ", t, ""))
    }
}

/// Reads the clauses of `SELECT items FROM source` onto a plan: see
/// [`select_clauses`].
pub fn read_select_clauses(clauses: &str, scan: LogicalPlan, line_no: usize) -> (r: Result<
    (LogicalPlan, Option<Vec<Expr>>),
    DslError,
>)
    ensures
        match select_clauses(clauses@, scan.model(), None) {
            Some((wanted, waiting)) => r matches Ok((p, g)) && p.model() == wanted && group_view(g)
                == waiting,
            None => r matches Err(DslError::Parse { line, .. }) && line == line_no,
        },
{
    let keywords = select_keyword_list();
    let ghost start = scan.model();
    let mut plan = scan;
    let mut group: Option<Vec<Expr>> = None;
    let mut rest: &str = clauses;
    loop
        invariant
            start == scan.model(),
            keyword_texts(keywords@) == select_keywords(),
            select_clauses(clauses@, start, None) == select_clauses(
                rest@,
                plan.model(),
                group_view(group),
            ),
        decreases rest@.len(),
    {
        let length = rest.unicode_len();
        let t = trim(rest);
        if t.unicode_len() == 0 {
            return Ok((plan, group));
        }
        match read_select_clause(t, plan, group, &keywords, line_no) {
            Ok((next_plan, next_group, next_rest)) => {
                if next_rest.unicode_len() >= length {
                    return Err(refusal(line_no, "Unknown clause in SELECT: ", t, ""));
                }
                plan = next_plan;
                group = next_group;
                rest = next_rest;
            },
            Err(e) => {
                return Err(e);
            },
        }
    }
}

/// The names of the fields of a schema.
pub open spec fn field_names(schema: Seq<FieldView>) -> Seq<Seq<char>> {
    schema.map_values(|f: FieldView| f.name)
}

/// The first `n` names with every `*` replaced by the names of all the
/// fields of a schema.
pub open spec fn expanded(names: Seq<Seq<char>>, n: int, schema: Seq<FieldView>) -> Seq<Seq<char>>
    decreases n,
{
    if n <= 0 {
        Seq::empty()
    } else if names[n - 1] == "*"@ {
        expanded(names, n - 1, schema) + field_names(schema)
    } else {
        expanded(names, n - 1, schema).push(names[n - 1])
    }
}

/// The plan after the items of `SELECT items FROM source`: an
/// aggregation when columns of a `GROUP BY` wait or an item is an
/// aggregate, with the aggregates among the items; else a projection
/// onto the items, which must all be columns, `*` standing for every
/// column of the source.
pub open spec fn select_selection(
    plan: PlanView,
    group: Option<Seq<ExprView>>,
    items: Seq<ExprView>,
    schema: Seq<FieldView>,
) -> Option<PlanView> {
    if group is Some || aggregates_of(items).len() > 0 {
        Some(
            PlanView::Aggregate {
                input: Box::new(plan),
                group_expr: match group {
                    Some(g) => g,
                    None => Seq::empty(),
                },
                aggr_expr: aggregates_of(items),
            },
        )
    } else {
        match column_names(items, items.len() as int) {
            Some(names) => Some(
                PlanView::Project {
                    input: Box::new(plan),
                    columns: expanded(names, names.len() as int, schema),
                },
            ),
            None => None,
        }
    }
}

/// The parts of `SELECT items FROM source clauses`: the items, the
/// source and the clauses. The source is the first word after ` FROM `.
pub open spec fn select_query(line: Seq<char>) -> Option<(Seq<char>, Seq<char>, Seq<char>)> {
    match parted(line, " FROM "@) {
        Some((before, after)) => {
            let head = trimmed(before, 0, before.len() as int);
            let items = after_keyword(head, "SELECT "@);
            let rest = trimmed(after, 0, after.len() as int);
            match parted(rest, " "@) {
                Some((source, clauses)) => Some((items, source, clauses)),
                None => Some((items, rest, Seq::empty())),
            }
        },
        None => None,
    }
}

/// The plan that `SELECT items FROM source clauses` stands for: the
/// clauses are read onto a scan of the source, and the selection comes
/// last.
pub open spec fn select_plan(
    schema: Seq<FieldView>,
    items: Seq<char>,
    source: Seq<char>,
    clauses: Seq<char>,
) -> Option<PlanView> {
    match select_clauses(clauses, PlanView::Scan { dataset_name: source, schema }, None) {
        Some((plan, group)) => match select_items(items) {
            Some(list) => select_selection(plan, group, list, schema),
            None => None,
        },
        None => None,
    }
}

/// Computes [`expanded`].
fn expand_names(names: &Vec<String>, schema: &Schema) -> (r: Vec<String>)
    ensures
        name_views(r@) == expanded(name_views(names@), names@.len() as int, schema@),
{
    let mut out: Vec<String> = Vec::new();
    let mut k: usize = 0;
    proof {
        assert(name_views(out@) =~= Seq::<Seq<char>>::empty());
    }
    while k < names.len()
        invariant
            k <= names@.len(),
            name_views(out@) == expanded(name_views(names@), k as int, schema@),
        decreases names@.len() - k,
    {
        let name = names[k].as_str();
        proof {
            assert(name_views(names@)[k as int] == name@);
        }
        let name_chars = chars_of(name);
        if crate::dsl::types::is_word(&name_chars, "*") {
            let ghost before = name_views(out@);
            let mut j: usize = 0;
            while j < schema.fields.len()
                invariant
                    j <= schema.fields@.len(),
                    name_views(out@) == before + field_names(schema@).take(j as int),
                decreases schema.fields@.len() - j,
            {
                let ghost so_far = name_views(out@);
                out.push(schema.fields[j].name.clone());
                proof {
                    assert(schema@[j as int] == schema.fields@[j as int]@);
                    assert(name_views(out@) =~= so_far.push(schema@[j as int].name));
                    assert(field_names(schema@).take(j + 1) =~= field_names(schema@).take(
                        j as int,
                    ).push(schema@[j as int].name));
                    assert(so_far.push(schema@[j as int].name) =~= before + field_names(
                        schema@,
                    ).take(j + 1));
                }
                j += 1;
            }
            proof {
                assert(field_names(schema@).take(schema.fields@.len() as int) =~= field_names(
                    schema@,
                ));
            }
        } else {
            let ghost before = name_views(out@);
            out.push(name.to_owned());
            proof {
                assert(name_views(out@) =~= before.push(name@));
            }
        }
        k += 1;
    }
    out
}

/// The plan of `SELECT items FROM source clauses`. The text is taken
/// apart as [`select_query`] says and the plan is built as
/// [`select_plan`] says.
pub fn build_select_query_plan(db: &TensorDb, line: &str, line_no: usize) -> (r: Result<
    LogicalPlan,
    DslError,
>)
    ensures
        match select_query(line@) {
            Some((items, source, clauses)) => match source_schema(db, source) {
                Some(schema) => match select_plan(schema, items, source, clauses) {
                    Some(plan) => r matches Ok(p) && p.model() == plan,
                    None => r matches Err(DslError::Parse { line, .. }) && line == line_no,
                },
                None => r matches Err(DslError::Engine { line, source: e }) && line == line_no && (
                e matches EngineError::DatasetNotFound(n) && n@ == source),
            },
            None => r matches Err(DslError::Parse { line, .. }) && line == line_no,
        },
{
    let (before, after) = match split_once(line, " FROM ") {
        Some(parts) => parts,
        None => {
            return Err(refusal(line_no, "Expected SELECT ... FROM source ...", "", ""));
        },
    };
    let items_text = rest_after(trim(before), "SELECT ");
    let rest = trim(after);
    let (source_name, clauses) = match split_once(rest, " ") {
        Some(parts) => parts,
        None => {
            let clauses = rest.substring_char(0, 0);
            proof {
                assert(clauses@ =~= Seq::<char>::empty());
            }
            (rest, clauses)
        },
    };
    let (scan, schema) = match scan_of(db, source_name, line_no) {
        Ok(found) => found,
        Err(e) => {
            return Err(e);
        },
    };
    let (plan, group) = match read_select_clauses(clauses, scan, line_no) {
        Ok(read) => read,
        Err(e) => {
            return Err(e);
        },
    };
    let items = match parse_select_items(items_text, line_no) {
        Ok(items) => items,
        Err(e) => {
            return Err(e);
        },
    };
    proof {
        reveal_with_fuel(LogicalPlan::model, 2);
    }
    let aggregates = pick_aggregates(&items);
    if group.is_some() || aggregates.len() > 0 {
        return Ok(aggregate_over(plan, group, &items));
    }
    match names_of_columns(&items) {
        Some(names) => Ok(
            LogicalPlan::Project { input: Box::new(plan), columns: expand_names(&names, &schema) },
        ),
        None => Err(refusal(line_no, "Only columns or Aggregates supported", "", "")),
    }
}

/// The parts of a search: the target if one is named, the source, the
/// column, the text of the query vector and the text of the number of
/// rows wanted.
pub struct SearchParts {
    pub target: Option<Seq<char>>,
    pub source: Seq<char>,
    pub column: Seq<char>,
    pub vector: Seq<char>,
    pub count: Seq<char>,
}

/// The parts of `target FROM source QUERY vector ON column K=k`.
pub open spec fn search_into(rest: Seq<char>) -> Option<SearchParts> {
    match parted(rest, " FROM "@) {
        Some((target, query)) => match parted(clean(query), " QUERY "@) {
            Some((source, tail)) => match parted(clean(tail), " ON "@) {
                Some((vector, last)) => {
                    let ending = if find_from(clean(last), " K="@, 0) is Some {
                        parted(clean(last), " K="@)
                    } else {
                        parted(clean(last), " K ="@)
                    };
                    match ending {
                        Some((column, count)) => Some(
                            SearchParts {
                                target: Some(clean(target)),
                                source: clean(source),
                                column: clean(column),
                                vector: clean(vector),
                                count: clean(count),
                            },
                        ),
                        None => None,
                    }
                },
                None => None,
            },
            None => None,
        },
        None => None,
    }
}

/// The parts of `source WHERE column ~= vector LIMIT k`.
pub open spec fn search_where(rest: Seq<char>) -> Option<SearchParts> {
    match parted(rest, " WHERE "@) {
        Some((source, condition)) => match parted(clean(condition), " LIMIT "@) {
            Some((comparison, count)) => match parted(clean(comparison), "~="@) {
                Some((column, vector)) => Some(
                    SearchParts {
                        target: None,
                        source: clean(source),
                        column: clean(column),
                        vector: clean(vector),
                        count: clean(count),
                    },
                ),
                None => None,
            },
            None => None,
        },
        None => None,
    }
}

/// The parts of a search, written as
/// `SEARCH target FROM source QUERY vector ON column K=k` or as
/// `SEARCH source WHERE column ~= vector LIMIT k`.
pub open spec fn search_parts(line: Seq<char>) -> Option<SearchParts> {
    let rest = after_keyword(line, "SEARCH"@);
    if find_from(rest, " FROM "@, 0) is Some {
        search_into(rest)
    } else {
        search_where(rest)
    }
}

/// What a search asks for: the number of rows wanted and the query
/// vector. `None` when the count is no number or the query no vector.
pub open spec fn search_request(parts: SearchParts) -> Option<(usize, Seq<u32>)> {
    match number_in(parts.count, 0, parts.count.len() as int) {
        Some(k) => match value_of(parts.vector) {
            Some(ValueView::Vector(data)) => if data.len() <= usize::MAX {
                Some((k, data))
            } else {
                None
            },
            _ => None,
        },
        None => None,
    }
}

/// The plan of a search: the rows of a scan of the source whose vectors
/// in the column are nearest to the query.
pub open spec fn search_plan(
    schema: Seq<FieldView>,
    source: Seq<char>,
    column: Seq<char>,
    data: Seq<u32>,
    k: usize,
) -> PlanView {
    PlanView::VectorSearch {
        input: Box::new(PlanView::Scan { dataset_name: source, schema }),
        column,
        query: TensorView { id: TensorId(0), dims: seq![data.len() as usize], data },
        k,
    }
}

/// The parts of a search as texts.
pub struct SearchTexts<'a> {
    pub target: Option<&'a str>,
    pub source: &'a str,
    pub column: &'a str,
    pub vector: &'a str,
    pub count: &'a str,
}

impl<'a> View for SearchTexts<'a> {
    type V = SearchParts;

    open spec fn view(&self) -> SearchParts {
        SearchParts {
            target: match self.target {
                Some(t) => Some(t@),
                None => None,
            },
            source: self.source@,
            column: self.column@,
            vector: self.vector@,
            count: self.count@,
        }
    }
}

/// Whether the parts of a search were read as the model says.
pub open spec fn parts_read_as(
    r: Result<SearchTexts, DslError>,
    wanted: Option<SearchParts>,
    line_no: usize,
) -> bool {
    match wanted {
        Some(parts) => r matches Ok(texts) && texts@ == parts,
        None => r matches Err(DslError::Parse { line, .. }) && line == line_no,
    }
}

/// The parts of `target FROM source QUERY vector ON column K=k`: see
/// [`search_into`].
fn read_search_into<'a>(rest: &'a str, line_no: usize) -> (r: Result<SearchTexts<'a>, DslError>)
    ensures
        parts_read_as(r, search_into(rest@), line_no),
{
    let (target, query) = match split_once(rest, " FROM ") {
        Some(parts) => parts,
        None => {
            return Err(refusal(line_no, "Expected: SEARCH <target> FROM <source> ...", "", ""));
        },
    };
    let (source, tail) = match split_once(trim(query), " QUERY ") {
        Some(parts) => parts,
        None => {
            return Err(
                refusal(line_no, "Expected: ... FROM <source> QUERY <vector> ...", "", ""),
            );
        },
    };
    let (vector, last) = match split_once(trim(tail), " ON ") {
        Some(parts) => parts,
        None => {
            return Err(refusal(line_no, "Expected: ... QUERY <vector> ON <column> ...", "", ""));
        },
    };
    let after_on = trim(last);
    let ending = if crate::dsl::words::holds(after_on, " K=") {
        split_once(after_on, " K=")
    } else {
        split_once(after_on, " K =")
    };
    match ending {
        Some((column, count)) => Ok(
            SearchTexts {
                target: Some(trim(target)),
                source: trim(source),
                column: trim(column),
                vector: trim(vector),
                count: trim(count),
            },
        ),
        None => Err(refusal(line_no, "Expected: ... ON <column> K=<k>", "", "")),
    }
}

/// The parts of `source WHERE column ~= vector LIMIT k`: see
/// [`search_where`].
fn read_search_where<'a>(rest: &'a str, line_no: usize) -> (r: Result<SearchTexts<'a>, DslError>)
    ensures
        parts_read_as(r, search_where(rest@), line_no),
{
    let (source, condition) = match split_once(rest, " WHERE ") {
        Some(parts) => parts,
        None => {
            return Err(
                refusal(
                    line_no,
                    "Expected: SEARCH <source> WHERE <col> ~= <vector> LIMIT <k>",
                    "",
                    "",
                ),
            );
        },
    };
    let (comparison, count) = match split_once(trim(condition), " LIMIT ") {
        Some(parts) => parts,
        None => {
            return Err(refusal(line_no, "Expected LIMIT <k>", "", ""));
        },
    };
    match split_once(trim(comparison), "~=") {
        Some((column, vector)) => Ok(
            SearchTexts {
                target: None,
                source: trim(source),
                column: trim(column),
                vector: trim(vector),
                count: trim(count),
            },
        ),
        None => Err(refusal(line_no, "Expected <col> ~= <vector>", "", "")),
    }
}

/// The target, if one is named, and the plan of a search. The text is
/// taken apart as [`search_parts`] says; the count and the query vector
/// are read as [`search_request`] says; the plan is [`search_plan`] over
/// the schema of the source.
pub fn build_search_query_plan(db: &TensorDb, line: &str, line_no: usize) -> (r: Result<
    (Option<String>, LogicalPlan),
    DslError,
>)
    ensures
        match search_parts(line@) {
            Some(parts) => match search_request(parts) {
                Some((k, data)) => match source_schema(db, parts.source) {
                    Some(schema) => r matches Ok((target, plan)) && (match target {
                        Some(t) => Some(t@),
                        None => None,
                    }) == parts.target && plan.model() == search_plan(
                        schema,
                        parts.source,
                        parts.column,
                        data,
                        k,
                    ),
                    None => r matches Err(DslError::Engine { line, source: e }) && line == line_no
                        && (e matches EngineError::DatasetNotFound(n) && n@ == parts.source),
                },
                None => r matches Err(DslError::Parse { line, .. }) && line == line_no,
            },
            None => r matches Err(DslError::Parse { line, .. }) && line == line_no,
        },
{
    let rest = rest_after(line, "SEARCH");
    let read = if crate::dsl::words::holds(rest, " FROM ") {
        read_search_into(rest, line_no)
    } else {
        read_search_where(rest, line_no)
    };
    let texts = match read {
        Ok(texts) => texts,
        Err(e) => {
            return Err(e);
        },
    };
    let count_chars = chars_of(texts.count);
    let k = match read_number(&count_chars, 0, count_chars.len()) {
        Some(k) => k,
        None => {
            return Err(refusal(line_no, "Invalid K", "", ""));
        },
    };
    let data = match parse_single_value(texts.vector, line_no) {
        Ok(Value::Vector(data)) => data,
        Ok(_) => {
            return Err(refusal(line_no, "Query must be vector", "", ""));
        },
        Err(e) => {
            return Err(e);
        },
    };
    let mut dims: Vec<usize> = Vec::new();
    dims.push(data.len());
    proof {
        assert(dims@ =~= seq![data@.len() as usize]);
        lemma_product_small(dims@);
    }
    let ghost numbers = data@;
    let query = match Tensor::new(TensorId(0), Shape::new(dims), data) {
        Ok(query) => query,
        Err(message) => {
            return Err(DslError::Parse { line: line_no, msg: message });
        },
    };
    let (scan, _) = match scan_of(db, texts.source, line_no) {
        Ok(found) => found,
        Err(e) => {
            return Err(e);
        },
    };
    proof {
        reveal_with_fuel(LogicalPlan::model, 2);
    }
    let target = match texts.target {
        Some(t) => Some(t.to_owned()),
        None => None,
    };
    Ok(
        (
            target,
            LogicalPlan::VectorSearch {
                input: Box::new(scan),
                column: texts.column.to_owned(),
                query,
                k,
            },
        ),
    )
}

} // verus!
