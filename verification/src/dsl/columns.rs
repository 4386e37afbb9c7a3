//! The command that adds a column to a dataset.

use crate::dataset::Dataset;
use crate::dsl::error::DslError;
use crate::dsl::expr::{expression_of, parse_expression};
use crate::dsl::lets::{contains_char, holds_char};
use crate::dsl::output::{answer_with, engine_answer, refused, says, DslOutput};
use crate::dsl::split::{find_from, find_in};
use crate::dsl::words::clean;
use crate::dsl::types::{
    char_position, find_char, parse_value_type, refusal, to_upper, uppercase, value_type_of,
};
use crate::dsl::values::{parse_single_value, value_of};
use crate::dsl::words::{after_keyword, parted, rest_after, split_once, trim};
use crate::engine::effects::{
    alter_dataset_add_column_effect, alter_dataset_add_computed_column_effect,
};
use crate::engine::{EngineError, TensorDb};
use crate::query::evaluate::{evaluate, evaluate_expression};
use crate::query::logical::{Expr, ExprView};
use crate::stats::rows_view;
use crate::tuple::TupleView;
use crate::utils::parsing::{chars_of, trim_range, trimmed};
use crate::value::{views_of, Value, ValueType, ValueView};
use vstd::prelude::*;
use vstd::string::StrSliceExecFns;
use vstd::string::StringExecFns;

verus! {

/// The parts of `DATASET name ADD COLUMN ...`: the dataset and what is
/// said of the column.
pub open spec fn add_column_command(line: Seq<char>) -> Option<(Seq<char>, Seq<char>)> {
    match parted(after_keyword(line, "DATASET"@), " ADD COLUMN "@) {
        Some((dataset, column)) => Some((clean(dataset), clean(column))),
        None => None,
    }
}

/// Whether what is said of a column computes it: there is a `=` and no
/// `:`.
pub open spec fn is_computed(column: Seq<char>) -> bool {
    holds_char(column, '=') && !holds_char(column, ':')
}

/// A column with a type and a value for the rows that are there.
pub struct PlainColumn {
    pub name: Seq<char>,
    pub value_type: ValueType,
    pub default_value: ValueView,
    pub nullable: bool,
}

/// What `name: TYPE [DEFAULT value]` says. A `?` after the type makes
/// the column nullable. Without a default the rows that are there get
/// `Null` in a nullable column and the zero of the type in any other.
pub open spec fn plain_column(column: Seq<char>) -> Option<PlainColumn> {
    let (head, given) = match parted(column, " DEFAULT "@) {
        Some((head, text)) => (head, Some(value_of(text))),
        None => (column, None),
    };
    match parted(head, ":"@) {
        Some((name, type_text)) => {
            let type_text = clean(type_text);
            let nullable = type_text.len() > 0 && type_text[type_text.len() - 1] == '?';
            let type_word = if nullable {
                type_text.drop_last()
            } else {
                type_text
            };
            match (given, value_type_of(uppercase(type_word))) {
                (Some(None), _) => None,
                (_, None) => None,
                (Some(Some(value)), Some(value_type)) => Some(
                    PlainColumn { name: clean(name), value_type, default_value: value, nullable },
                ),
                (None, Some(value_type)) => Some(
                    PlainColumn {
                        name: clean(name),
                        value_type,
                        default_value: if nullable {
                            ValueView::Null
                        } else {
                            value_type.default_view()
                        },
                        nullable,
                    },
                ),
            }
        },
        None => None,
    }
}

/// A column whose values come from an expression, with the text of the
/// expression.
pub struct ComputedColumn {
    pub name: Seq<char>,
    pub expression: Seq<char>,
    pub lazy: bool,
}

/// The parts of `name = expression [LAZY]`, where `upper` is the text in
/// upper case: the column is lazy when `LAZY` stands in the text in
/// upper case, and the expression then ends where that word begins.
pub open spec fn computed_parts(column: Seq<char>, upper: Seq<char>) -> Option<ComputedColumn> {
    let equals = char_position(column, '=', 0, column.len() as int);
    let name = trimmed(column, 0, equals);
    match find_from(upper, "LAZY"@, 0) {
        Some(at) => if equals < at <= column.len() && name.len() > 0 {
            Some(
                ComputedColumn {
                    name,
                    expression: trimmed(column, equals + 1, at),
                    lazy: true,
                },
            )
        } else {
            None
        },
        None => if equals < column.len() && name.len() > 0 {
            Some(
                ComputedColumn {
                    name,
                    expression: trimmed(column, equals + 1, column.len() as int),
                    lazy: false,
                },
            )
        } else {
            None
        },
    }
}

/// The values of an expression on the rows of a dataset.
pub open spec fn computed_values(expr: ExprView, rows: Seq<TupleView>) -> Seq<ValueView> {
    rows.map_values(|row: TupleView| evaluate(expr, row))
}

/// The text of the answer to the addition of a column.
pub open spec fn column_message(what: Seq<char>, name: Seq<char>, dataset: Seq<char>) -> Seq<char> {
    what + name + "' to dataset '"@ + dataset + "'"@
}

/// Computes [`column_message`].
fn column_text(what: &str, name: &str, dataset: &str) -> (r: String)
    ensures
        r@ == column_message(what@, name@, dataset@),
{
    let mut text = what.to_owned();
    text.append(name);
    text.append("' to dataset '");
    text.append(dataset);
    text.append("'");
    text
}

/// Whether a column with a type was added as it should, as
/// [`TensorDb::alter_dataset_add_column`] does.
pub open spec fn plain_column_added(
    before: &TensorDb,
    after: &TensorDb,
    dataset: Seq<char>,
    wanted: Option<PlainColumn>,
    r: Result<DslOutput, DslError>,
    line_no: usize,
) -> bool {
    match wanted {
        Some(column) => alter_dataset_add_column_effect(
            before,
            after,
            dataset,
            column.name,
            column.value_type,
            column.default_value,
            column.nullable,
            engine_answer(r),
        ) && says(r, column_message("Added column '"@, column.name, dataset), line_no),
        None => refused(r, line_no) && *after == *before,
    }
}

/// Adds a column with a type: see [`plain_column`] with the type in
/// upper case, and [`plain_column_added`].
fn add_plain_column(db: &mut TensorDb, dataset: &str, column: &str, line_no: usize) -> (r: Result<
    DslOutput,
    DslError,
>)
    ensures
        plain_column_added(old(db), final(db), dataset@, plain_column(column@), r, line_no),
{
    let (head, given) = match split_once(column, " DEFAULT ") {
        Some((head, text)) => match parse_single_value(text, line_no) {
            Ok(value) => (head, Some(value)),
            Err(e) => {
                return Err(e);
            },
        },
        None => (column, None),
    };
    let (name, type_text) = match split_once(head, ":") {
        Some(parts) => parts,
        None => {
            return Err(refusal(line_no, "Expected column definition: <name>: <type>", "", ""));
        },
    };
    let name = trim(name);
    let type_text = trim(type_text);
    let letters = chars_of(type_text);
    let n = letters.len();
    let nullable = n > 0 && letters[n - 1] == '?';
    let type_word = if nullable {
        let cut = type_text.substring_char(0, n - 1);
        proof {
            assert(cut@ =~= type_text@.drop_last());
        }
        cut
    } else {
        type_text
    };
    let value_type = match parse_value_type(type_word, line_no) {
        Ok(value_type) => value_type,
        Err(e) => {
            return Err(e);
        },
    };
    let default_value = match given {
        Some(value) => value,
        None => if nullable {
            Value::Null
        } else {
            value_type.default_value()
        },
    };
    let done = db.alter_dataset_add_column(
        dataset,
        name.to_owned(),
        value_type,
        default_value,
        nullable,
    );
    answer_with(done, column_text("Added column '", name, dataset), line_no)
}

/// Whether a computed column was added as it should. The dataset must
/// be there and must have a row: the type of the column is the type of
/// the value of the expression on the first row. A lazy column is added
/// without values, any other with the values of the expression on every
/// row, as [`TensorDb::alter_dataset_add_computed_column`] does.
pub open spec fn computed_column_done(
    before: &TensorDb,
    after: &TensorDb,
    dataset: Seq<char>,
    wanted: Option<ComputedColumn>,
    r: Result<DslOutput, DslError>,
    line_no: usize,
) -> bool {
    match wanted {
        Some(column) => match expression_of(column.expression) {
            Some(expr) => match before.active().datasets().by_name(dataset) {
                Some(d) => if d@.rows.len() == 0 {
                    refused(r, line_no) && *after == *before
                } else {
                    alter_dataset_add_computed_column_effect(
                        before,
                        after,
                        dataset,
                        column.name,
                        evaluate(expr, d@.rows[0]).value_type(),
                        if column.lazy {
                            Seq::empty()
                        } else {
                            computed_values(expr, d@.rows)
                        },
                        expr,
                        column.lazy,
                        engine_answer(r),
                    ) && says(
                        r,
                        column_message(
                            if column.lazy {
                                "Added lazy computed column '"@
                            } else {
                                "Added computed column '"@
                            },
                            column.name,
                            dataset,
                        ),
                        line_no,
                    )
                },
                None => (r matches Err(DslError::Engine { line, source: e }) && line == line_no && (
                e matches EngineError::DatasetNotFound(n) && n@ == dataset)) && *after == *before,
            },
            None => refused(r, line_no) && *after == *before,
        },
        None => refused(r, line_no) && *after == *before,
    }
}

/// The values of an expression on the rows of a dataset: see
/// [`computed_values`].
pub fn compute_values(expr: &Expr, dataset: &Dataset) -> (r: Vec<Value>)
    ensures
        views_of(r@) == computed_values(expr@, dataset@.rows),
{
    let rows = dataset.rows();
    let mut out: Vec<Value> = Vec::new();
    let mut k: usize = 0;
    while k < rows.len()
        invariant
            k <= rows@.len(),
            rows_view(rows@) == dataset@.rows,
            out@.len() == k,
            forall|j: int| 0 <= j < k ==> (#[trigger] out@[j])@ == evaluate(expr@, rows@[j]@),
        decreases rows@.len() - k,
    {
        out.push(evaluate_expression(expr, &rows[k]));
        k += 1;
    }
    proof {
        assert(views_of(out@) =~= computed_values(expr@, dataset@.rows));
    }
    out
}

/// Adds a computed column, given the text in upper case: see
/// [`computed_parts`] and [`computed_column_done`].
pub fn add_computed_column(
    db: &mut TensorDb,
    dataset: &str,
    column: &str,
    upper: &str,
    line_no: usize,
) -> (r: Result<DslOutput, DslError>)
    ensures
        computed_column_done(
            old(db),
            final(db),
            dataset@,
            computed_parts(column@, upper@),
            r,
            line_no,
        ),
{
    let all = chars_of(column);
    let n = all.len();
    let equals = find_char(&all, '=', 0, n);
    let (a, b) = trim_range(&all, 0, equals);
    let name = column.substring_char(a, b);
    let upper_chars = chars_of(upper);
    let word = chars_of("LAZY");
    let (end, lazy) = match find_in(&upper_chars, &word) {
        Some(at) => {
            if !(equals < at && at <= n) {
                return Err(refusal(line_no, "Invalid computed column syntax", "", ""));
            }
            (at, true)
        },
        None => {
            if equals >= n {
                return Err(refusal(line_no, "Invalid computed column syntax", "", ""));
            }
            (n, false)
        },
    };
    if a == b {
        return Err(refusal(line_no, "Column name cannot be empty", "", ""));
    }
    let (c, d) = trim_range(&all, equals + 1, end);
    let expr = match parse_expression(column.substring_char(c, d), line_no) {
        Ok(expr) => expr,
        Err(e) => {
            return Err(e);
        },
    };
    let found = match db.get_dataset(dataset) {
        Ok(found) => found,
        Err(e) => {
            return Err(DslError::Engine { line: line_no, source: e });
        },
    };
    let rows = found.rows();
    if rows.len() == 0 {
        return Err(
            if lazy {
                refusal(line_no, "Cannot infer type from empty dataset for lazy column", "", "")
            } else {
                refusal(line_no, "Cannot infer type from empty dataset", "", "")
            },
        );
    }
    proof {
        assert(rows_view(rows@)[0] == rows@[0]@);
    }
    let value_type = evaluate_expression(&expr, &rows[0]).value_type();
    let values = if lazy {
        let none: Vec<Value> = Vec::new();
        proof {
            assert(views_of(none@) =~= Seq::<ValueView>::empty());
        }
        none
    } else {
        compute_values(&expr, found)
    };
    let done = db.alter_dataset_add_computed_column(
        dataset,
        name.to_owned(),
        value_type,
        values,
        expr,
        lazy,
    );
    let text = if lazy {
        column_text("Added lazy computed column '", name, dataset)
    } else {
        column_text("Added computed column '", name, dataset)
    };
    answer_with(done, text, line_no)
}

/// What [`handle_add_column`] does: the engine before and after the command, and
/// the answer.
pub open spec fn add_column_handled(
    before: &TensorDb,
    after: &TensorDb,
    line: Seq<char>,
    r: Result<DslOutput, DslError>,
    line_no: usize,
) -> bool {
    &&& (match add_column_command(line) {
            Some((dataset, column)) => if is_computed(column) {
                computed_column_done(
                    before,
                    after,
                    dataset,
                    computed_parts(column, uppercase(column)),
                    r,
                    line_no,
                )
            } else {
                plain_column_added(before, after, dataset, plain_column(column), r, line_no)
            },
            None => refused(r, line_no) && *after == *before,
        })
}

/// `DATASET name ADD COLUMN col: TYPE [DEFAULT value]` or
/// `DATASET name ADD COLUMN col = expression [LAZY]`: see
/// [`plain_column_added`] and [`computed_column_done`].
pub fn handle_add_column(db: &mut TensorDb, line: &str, line_no: usize) -> (r: Result<
    DslOutput,
    DslError,
>)
    ensures
        add_column_handled(old(db), final(db), line@, r, line_no),
{
    let rest = rest_after(line, "DATASET");
    let (dataset, column) = match split_once(rest, " ADD COLUMN ") {
        Some(parts) => parts,
        None => {
            return Err(
                refusal(
                    line_no,
                    "Expected: DATASET <name> ADD COLUMN <col>: <type> [DEFAULT <val>] or DATASET <name> ADD COLUMN <col> = <expression>",
                    "",
                    "",
                ),
            );
        },
    };
    let dataset = trim(dataset);
    let column = trim(column);
    let all = chars_of(column);
    if contains_char(&all, '=') && !contains_char(&all, ':') {
        let upper = to_upper(column);
        add_computed_column(db, dataset, column, upper.as_str(), line_no)
    } else {
        add_plain_column(db, dataset, column, line_no)
    }
}

} // verus!
