//! Commands on datasets and databases.

use crate::dataset::DatasetId;
use crate::dsl::error::DslError;
use crate::dsl::output::{
    answer, answer_silently, answer_with, engine_answer, engine_made, refused, says, silent,
    DslOutput,
};
use crate::dsl::plans::source_schema;
use crate::dsl::words::clean;
use crate::dsl::tuples::{
    column_definitions, parse_column_definitions, parse_tuple_values, tuple_values,
};
use crate::dsl::types::{char_position, find_char, refusal};
use crate::dsl::words::{after_keyword, parted, rest_after, split_once, split_words, trim, words};
use crate::engine::effects::{
    create_database_effect, create_dataset_effect, create_index_effect, create_vector_index_effect,
    drop_database_effect, insert_row_effect, materialize_lazy_columns_effect,
    set_dataset_metadata_effect, use_database_effect,
};
use crate::engine::{EngineError, TensorDb};
use crate::tensor::another_handle;
use crate::tuple::{schema_accepts, FieldView, Schema, Tuple, TupleView};
use crate::utils::parsing::{chars_of, trim_range, trimmed};
use std::sync::Arc;
use vstd::prelude::*;
use vstd::string::StrSliceExecFns;
use vstd::string::StringExecFns;

verus! {

/// What `DATASET name COLUMNS (col: TYPE, ...)` says: the name and the
/// columns.
pub open spec fn creation_command(line: Seq<char>) -> Option<(Seq<char>, Seq<FieldView>)> {
    match parted(after_keyword(line, "DATASET"@), "COLUMNS"@) {
        Some((name, columns)) => match column_definitions(clean(columns)) {
            Some(fields) => Some((clean(name), fields)),
            None => None,
        },
        None => None,
    }
}

/// What [`handle_dataset_creation`] does: the engine before and after the command, and
/// the answer.
pub open spec fn dataset_creation_handled(
    before: &TensorDb,
    after: &TensorDb,
    line: Seq<char>,
    r: Result<DslOutput, DslError>,
    line_no: usize,
) -> bool {
    &&& (match creation_command(line) {
            Some((name, schema)) => create_dataset_effect(
                before,
                after,
                name,
                schema,
                engine_made(r, DatasetId(before.active().datasets().next_id())),
            ) && says(r, "Created dataset: "@ + name, line_no),
            None => refused(r, line_no) && *after == *before,
        })
}

/// `DATASET name COLUMNS (col: TYPE, ...)`: an empty dataset is made as
/// [`TensorDb::create_dataset`] does.
pub fn handle_dataset_creation(db: &mut TensorDb, line: &str, line_no: usize) -> (r: Result<
    DslOutput,
    DslError,
>)
    ensures
        dataset_creation_handled(old(db), final(db), line@, r, line_no),
{
    let rest = rest_after(line, "DATASET");
    let (name, columns) = match split_once(rest, "COLUMNS") {
        Some(parts) => parts,
        None => {
            return Err(
                refusal(
                    line_no,
                    "Expected: DATASET name COLUMNS (col1: TYPE1, col2: TYPE2, ...)",
                    "",
                    "",
                ),
            );
        },
    };
    let name = trim(name);
    let fields = match parse_column_definitions(trim(columns), line_no) {
        Ok(fields) => fields,
        Err(e) => {
            return Err(e);
        },
    };
    let schema = Arc::new(Schema::new(fields));
    match db.create_dataset(name.to_owned(), schema) {
        Ok(id) => {
            let mut text = "Created dataset: ".to_owned();
            text.append(name);
            Ok(DslOutput::Message(text))
        },
        Err(e) => Err(DslError::Engine { line: line_no, source: e }),
    }
}

/// The parts of `INSERT INTO dataset VALUES (v1, v2, ...)`: the dataset
/// and the text of the values.
pub open spec fn insert_command(line: Seq<char>) -> Option<(Seq<char>, Seq<char>)> {
    match parted(after_keyword(line, "INSERT INTO"@), "VALUES"@) {
        Some((dataset, values)) => Some((clean(dataset), clean(values))),
        None => None,
    }
}

/// The row that an insertion says, under the schema of its dataset:
/// there is one value for each column, and the schema accepts them.
pub open spec fn inserted_row(schema: Seq<FieldView>, values: Seq<char>) -> Option<TupleView> {
    match tuple_values(values, schema.len() as int) {
        Some(list) => if schema_accepts(schema, list) {
            Some(TupleView { schema, values: list })
        } else {
            None
        },
        None => None,
    }
}

/// What [`handle_insert`] does: the engine before and after the command, and
/// the answer.
pub open spec fn insert_handled(
    before: &TensorDb,
    after: &TensorDb,
    line: Seq<char>,
    r: Result<DslOutput, DslError>,
    line_no: usize,
) -> bool {
    &&& (match insert_command(line) {
            Some((dataset, values)) => match source_schema(before, dataset) {
                Some(schema) => match inserted_row(schema, values) {
                    Some(row) => insert_row_effect(
                        before,
                        after,
                        dataset,
                        row,
                        engine_answer(r),
                    ) && silent(r, line_no),
                    None => refused(r, line_no) && *after == *before,
                },
                None => (r matches Err(DslError::Engine { line, source: e }) && line == line_no && (
                e matches EngineError::DatasetNotFound(n) && n@ == dataset)) && *after == *before,
            },
            None => refused(r, line_no) && *after == *before,
        })
}

/// `INSERT INTO dataset VALUES (v1, v2, ...)`. The dataset must be
/// there. The values are read against its schema, and the row is
/// appended as [`TensorDb::insert_row`] does.
pub fn handle_insert(db: &mut TensorDb, line: &str, line_no: usize) -> (r: Result<
    DslOutput,
    DslError,
>)
    ensures
        insert_handled(old(db), final(db), line@, r, line_no),
{
    let rest = rest_after(line, "INSERT INTO");
    let (dataset, values) = match split_once(rest, "VALUES") {
        Some(parts) => parts,
        None => {
            return Err(
                refusal(
                    line_no,
                    "Expected: INSERT INTO dataset_name VALUES (val1, val2, ...)",
                    "",
                    "",
                ),
            );
        },
    };
    let dataset_name = trim(dataset);
    let schema = match db.get_dataset(dataset_name) {
        Ok(found) => another_handle(found.schema()),
        Err(e) => {
            return Err(DslError::Engine { line: line_no, source: e });
        },
    };
    let values = match parse_tuple_values(trim(values), &schema, line_no) {
        Ok(values) => values,
        Err(e) => {
            return Err(e);
        },
    };
    let tuple = match Tuple::new(schema, values) {
        Ok(tuple) => tuple,
        Err(msg) => {
            return Err(DslError::Parse { line: line_no, msg });
        },
    };
    answer_silently(db.insert_row(dataset_name, tuple), line_no)
}

/// The dataset that `MATERIALIZE dataset` or `MATERIALIZE dataset.column`
/// names: what stands before the first point, if there is one.
pub open spec fn materialize_command(line: Seq<char>) -> Seq<char> {
    let rest = after_keyword(line, "MATERIALIZE"@);
    let point = char_position(rest, '.', 0, rest.len() as int);
    trimmed(rest, 0, point)
}

/// What [`handle_materialize`] does: the engine before and after the command, and
/// the answer.
pub open spec fn materialize_handled(
    before: &TensorDb,
    after: &TensorDb,
    line: Seq<char>,
    r: Result<DslOutput, DslError>,
    line_no: usize,
) -> bool {
    &&& (materialize_lazy_columns_effect(
            before,
            after,
            materialize_command(line),
            engine_answer(r),
        ))
    &&& (says(
            r,
            "Materialized lazy columns in dataset '"@ + materialize_command(line) + "'"@,
            line_no,
        ))
}

/// `MATERIALIZE dataset` or `MATERIALIZE dataset.column`: every lazy
/// column of the dataset is computed and stored, as
/// [`TensorDb::materialize_lazy_columns`] does.
pub fn handle_materialize(db: &mut TensorDb, line: &str, line_no: usize) -> (r: Result<
    DslOutput,
    DslError,
>)
    ensures
        materialize_handled(old(db), final(db), line@, r, line_no),
{
    let rest = rest_after(line, "MATERIALIZE");
    let all = chars_of(rest);
    let point = find_char(&all, '.', 0, all.len());
    let (a, b) = trim_range(&all, 0, point);
    let dataset_name = rest.substring_char(a, b);
    let done = db.materialize_lazy_columns(dataset_name);
    let mut text = "Materialized lazy columns in dataset '".to_owned();
    text.append(dataset_name);
    text.append("'");
    answer_with(done, text, line_no)
}

/// What `CREATE [VECTOR] INDEX name ON dataset(column)` says: whether
/// the index is one of vectors, its name, the dataset and the column.
/// The target may also be written `dataset.column`.
pub struct IndexCommand {
    pub vector: bool,
    pub name: Seq<char>,
    pub dataset: Seq<char>,
    pub column: Seq<char>,
}

/// What `CREATE [VECTOR] INDEX name ON dataset(column)` says. The words
/// are counted: `VECTOR` as the second word makes a vector index, the
/// name follows the word after that, `ON` follows the name, and the
/// target is the word after `ON`.
pub open spec fn index_command(line: Seq<char>) -> Option<IndexCommand> {
    let parts = words(line);
    let vector = parts.len() > 1 && parts[1] == "VECTOR"@;
    let shift: int = if vector {
        1
    } else {
        0
    };
    if parts.len() <= 4 + shift || parts[3 + shift] != "ON"@ {
        None
    } else {
        let target = parts[4 + shift];
        let open = char_position(target, '(', 0, target.len() as int);
        let close = char_position(target, ')', 0, target.len() as int);
        let point = char_position(target, '.', 0, target.len() as int);
        if open < target.len() {
            if open < close < target.len() {
                Some(
                    IndexCommand {
                        vector,
                        name: parts[2 + shift],
                        dataset: target.take(open),
                        column: target.subrange(open + 1, close),
                    },
                )
            } else {
                None
            }
        } else if point < target.len() {
            Some(
                IndexCommand {
                    vector,
                    name: parts[2 + shift],
                    dataset: target.take(point),
                    column: target.skip(point + 1),
                },
            )
        } else {
            None
        }
    }
}

/// The text of the answer to the creation of an index.
pub open spec fn index_message(command: IndexCommand) -> Seq<char> {
    (if command.vector {
        "Created VECTOR index '"@
    } else {
        "Created HASH index '"@
    }) + command.name + "' on "@ + command.dataset + "("@ + command.column + ")"@
}

/// What [`handle_create_index`] does: the engine before and after the command, and
/// the answer.
pub open spec fn create_index_handled(
    before: &TensorDb,
    after: &TensorDb,
    line: Seq<char>,
    r: Result<DslOutput, DslError>,
    line_no: usize,
) -> bool {
    &&& (match index_command(line) {
            Some(command) => (if command.vector {
                create_vector_index_effect(
                    before,
                    after,
                    command.dataset,
                    command.column,
                    engine_answer(r),
                )
            } else {
                create_index_effect(
                    before,
                    after,
                    command.dataset,
                    command.column,
                    engine_answer(r),
                )
            }) && says(r, index_message(command), line_no),
            None => refused(r, line_no) && *after == *before,
        })
}

/// `CREATE [VECTOR] INDEX name ON dataset(column)`: the index is built as
/// [`TensorDb::create_vector_index`] or [`TensorDb::create_index`] does.
pub fn handle_create_index(db: &mut TensorDb, line: &str, line_no: usize) -> (r: Result<
    DslOutput,
    DslError,
>)
    ensures
        create_index_handled(old(db), final(db), line@, r, line_no),
{
    let parts = split_words(line);
    let ghost all = words(line@);
    proof {
        assert forall|k: int| 0 <= k < parts@.len() implies all[k] == (#[trigger] parts@[k])@ by {}
    }
    let vector = parts.len() > 1 && crate::dsl::types::is_word(&chars_of(parts[1]), "VECTOR");
    let shift: usize = if vector {
        1
    } else {
        0
    };
    if parts.len() <= 4 + shift || !crate::dsl::types::is_word(&chars_of(parts[3 + shift]), "ON") {
        return Err(
            refusal(
                line_no,
                "Invalid syntax. Expected: CREATE [VECTOR] INDEX name ON dataset(column)",
                "",
                "",
            ),
        );
    }
    let name = parts[2 + shift];
    let target = parts[4 + shift];
    let letters = chars_of(target);
    let n = letters.len();
    let open = find_char(&letters, '(', 0, n);
    let (dataset, column) = if open < n {
        let close = find_char(&letters, ')', 0, n);
        if !(open < close && close < n) {
            return Err(
                refusal(line_no, "Missing closing parenthesis in dataset(column)", "", ""),
            );
        }
        let dataset = target.substring_char(0, open);
        proof {
            assert(dataset@ =~= target@.take(open as int));
        }
        (dataset, target.substring_char(open + 1, close))
    } else {
        let point = find_char(&letters, '.', 0, n);
        if point >= n {
            return Err(refusal(line_no, "Invalid target format. Use dataset(column)", "", ""));
        }
        let dataset = target.substring_char(0, point);
        let column = target.substring_char(point + 1, n);
        proof {
            assert(dataset@ =~= target@.take(point as int));
            assert(column@ =~= target@.skip(point + 1));
        }
        (dataset, column)
    };
    let (done, mut text) = if vector {
        (db.create_vector_index(dataset, column), "Created VECTOR index '".to_owned())
    } else {
        (db.create_index(dataset, column), "Created HASH index '".to_owned())
    };
    text.append(name);
    text.append("' on ");
    text.append(dataset);
    text.append("(");
    text.append(column);
    text.append(")");
    answer_with(done, text, line_no)
}

/// The name that `CREATE DATABASE name` says: what follows the words up
/// to the first white space or `(`. `None` when the line does not begin
/// with the words or the name is empty.
pub open spec fn create_database_command(line: Seq<char>) -> Option<Seq<char>> {
    if crate::dsl::split::occurs_at(line, "CREATE DATABASE "@, 0) {
        let rest = clean(line.skip("CREATE DATABASE "@.len() as int));
        let end = name_end(rest, 0);
        if end == 0 {
            None
        } else {
            Some(rest.take(end))
        }
    } else {
        None
    }
}

/// The first position at or after `from` that holds white space or a
/// `(`, or the length of the text.
pub open spec fn name_end(s: Seq<char>, from: int) -> int
    decreases s.len() - from,
{
    if 0 <= from < s.len() && !(crate::utils::parsing::is_space(s[from]) || s[from] == '(') {
        name_end(s, from + 1)
    } else {
        from
    }
}

/// What follows a prefix of a line, without the white space around it.
/// `None` when the line does not begin with the prefix or nothing
/// follows it.
pub open spec fn named_after(line: Seq<char>, prefix: Seq<char>) -> Option<Seq<char>> {
    if crate::dsl::split::occurs_at(line, prefix, 0) {
        let name = clean(line.skip(prefix.len() as int));
        if name.len() == 0 {
            None
        } else {
            Some(name)
        }
    } else {
        None
    }
}

/// What follows a prefix of a line: see [`named_after`]. The error says
/// that the name of a database is missing.
pub fn read_named_after<'a>(line: &'a str, prefix: &str, line_no: usize) -> (r: Result<
    &'a str,
    DslError,
>)
    ensures
        match named_after(line@, prefix@) {
            Some(name) => r matches Ok(n) && n@ == name,
            None => r matches Err(DslError::Parse { line, .. }) && line == line_no,
        },
{
    if !crate::dsl::words::begins(line, prefix) {
        return Err(refusal(line_no, "Expected: ", prefix, "<name>"));
    }
    let rest = line.substring_char(prefix.unicode_len(), line.unicode_len());
    proof {
        assert(rest@ =~= line@.skip(prefix@.len() as int));
    }
    let name = trim(rest);
    if name.unicode_len() == 0 {
        return Err(refusal(line_no, "Database name cannot be empty", "", ""));
    }
    Ok(name)
}

/// What [`handle_create_database`] does: the engine before and after the command, and
/// the answer.
pub open spec fn create_database_handled(
    before: &TensorDb,
    after: &TensorDb,
    line: Seq<char>,
    r: Result<DslOutput, DslError>,
    line_no: usize,
) -> bool {
    &&& (match create_database_command(line) {
            Some(name) => create_database_effect(before, after, name, engine_answer(r))
                && says(r, "Database '"@ + name + "' created"@, line_no),
            None => refused(r, line_no) && *after == *before,
        })
}

/// `CREATE DATABASE name`: the database is made as
/// [`TensorDb::create_database`] does.
pub fn handle_create_database(db: &mut TensorDb, line: &str, line_no: usize) -> (r: Result<
    DslOutput,
    DslError,
>)
    ensures
        create_database_handled(old(db), final(db), line@, r, line_no),
{
    let rest = match read_named_after(line, "CREATE DATABASE ", line_no) {
        Ok(rest) => rest,
        Err(e) => {
            return Err(e);
        },
    };
    let all = chars_of(rest);
    let mut end: usize = 0;
    while end < all.len() && !(crate::utils::parsing::space(all[end]) || all[end] == '(')
        invariant
            end <= all@.len(),
            name_end(all@, 0) == name_end(all@, end as int),
        decreases all@.len() - end,
    {
        end += 1;
    }
    if end == 0 {
        return Err(refusal(line_no, "Database name cannot be empty", "", ""));
    }
    let name = rest.substring_char(0, end);
    proof {
        assert(name@ =~= rest@.take(end as int));
    }
    let done = db.create_database(name.to_owned());
    let mut text = "Database '".to_owned();
    text.append(name);
    text.append("' created");
    answer_with(done, text, line_no)
}

/// What [`handle_use_database`] does: the engine before and after the command, and
/// the answer.
pub open spec fn use_database_handled(
    before: &TensorDb,
    after: &TensorDb,
    line: Seq<char>,
    r: Result<DslOutput, DslError>,
    line_no: usize,
) -> bool {
    &&& (match named_after(line, "USE "@) {
            Some(name) => use_database_effect(before, after, name, engine_answer(r)) && says(
                r,
                "Switched to database '"@ + name + "'"@,
                line_no,
            ),
            None => refused(r, line_no) && *after == *before,
        })
}

/// `USE name`: the database becomes the active one as
/// [`TensorDb::use_database`] does.
pub fn handle_use_database(db: &mut TensorDb, line: &str, line_no: usize) -> (r: Result<
    DslOutput,
    DslError,
>)
    ensures
        use_database_handled(old(db), final(db), line@, r, line_no),
{
    let name = match read_named_after(line, "USE ", line_no) {
        Ok(name) => name,
        Err(e) => {
            return Err(e);
        },
    };
    let done = db.use_database(name);
    let mut text = "Switched to database '".to_owned();
    text.append(name);
    text.append("'");
    answer_with(done, text, line_no)
}

/// What [`handle_drop_database`] does: the engine before and after the command, and
/// the answer.
pub open spec fn drop_database_handled(
    before: &TensorDb,
    after: &TensorDb,
    line: Seq<char>,
    r: Result<DslOutput, DslError>,
    line_no: usize,
) -> bool {
    &&& (match named_after(line, "DROP DATABASE "@) {
            Some(name) => drop_database_effect(before, after, name, engine_answer(r)) && says(
                r,
                "Database '"@ + name + "' dropped"@,
                line_no,
            ),
            None => refused(r, line_no) && *after == *before,
        })
}

/// `DROP DATABASE name`: the database is dropped as
/// [`TensorDb::drop_database`] does.
pub fn handle_drop_database(db: &mut TensorDb, line: &str, line_no: usize) -> (r: Result<
    DslOutput,
    DslError,
>)
    ensures
        drop_database_handled(old(db), final(db), line@, r, line_no),
{
    let name = match read_named_after(line, "DROP DATABASE ", line_no) {
        Ok(name) => name,
        Err(e) => {
            return Err(e);
        },
    };
    let done = db.drop_database(name);
    let mut text = "Database '".to_owned();
    text.append(name);
    text.append("' dropped");
    answer_with(done, text, line_no)
}

/// A text without the double quotes at its start and at its end.
pub open spec fn unquoted(s: Seq<char>) -> Seq<char> {
    let from = crate::dsl::tuples::run_end(s, '"', 0);
    s.subrange(from, crate::dsl::tuples::run_start(s, '"', from, s.len() as int))
}

/// What `SET DATASET name METADATA key = value` says: the dataset, the
/// key and the value, the value without double quotes around it.
pub open spec fn metadata_command(line: Seq<char>) -> Option<(Seq<char>, Seq<char>, Seq<char>)> {
    match named_after(line, "SET DATASET "@) {
        Some(rest) => match parted(rest, " METADATA "@) {
            Some((dataset, entry)) => match parted(clean(entry), "="@) {
                Some((key, value)) => Some((clean(dataset), clean(key), unquoted(clean(value)))),
                None => None,
            },
            None => None,
        },
        None => None,
    }
}

/// What [`handle_set_metadata`] does: the engine before and after the command, and
/// the answer.
pub open spec fn set_metadata_handled(
    before: &TensorDb,
    after: &TensorDb,
    line: Seq<char>,
    r: Result<DslOutput, DslError>,
    line_no: usize,
) -> bool {
    &&& (match metadata_command(line) {
            Some((dataset, key, value)) => set_dataset_metadata_effect(
                before,
                after,
                dataset,
                key,
                value,
                engine_answer(r),
            ) && says(
                r,
                "Updated metadata for dataset '"@ + dataset + "': "@ + key + " = "@ + value,
                line_no,
            ),
            None => refused(r, line_no) && *after == *before,
        })
}

/// `SET DATASET name METADATA key = value`: the entry is set as
/// [`TensorDb::set_dataset_metadata`] does.
pub fn handle_set_metadata(db: &mut TensorDb, line: &str, line_no: usize) -> (r: Result<
    DslOutput,
    DslError,
>)
    ensures
        set_metadata_handled(old(db), final(db), line@, r, line_no),
{
    let rest = match read_named_after(line, "SET DATASET ", line_no) {
        Ok(rest) => rest,
        Err(e) => {
            return Err(e);
        },
    };
    let (dataset, entry) = match split_once(rest, " METADATA ") {
        Some(parts) => parts,
        None => {
            return Err(
                refusal(line_no, "Expected: SET DATASET <name> METADATA <key> = <value>", "", ""),
            );
        },
    };
    let (key, value) = match split_once(trim(entry), "=") {
        Some(parts) => parts,
        None => {
            return Err(refusal(line_no, "Expected: <key> = <value> after METADATA", "", ""));
        },
    };
    let dataset = trim(dataset);
    let key = trim(key);
    let value = trim(value);
    let letters = chars_of(value);
    let from = crate::dsl::tuples::skip_run(&letters, '"', 0);
    let to = crate::dsl::tuples::drop_run(&letters, '"', from, letters.len());
    let value = value.substring_char(from, to);
    let done = db.set_dataset_metadata(dataset, key.to_owned(), value.to_owned());
    let mut text = "Updated metadata for dataset '".to_owned();
    text.append(dataset);
    text.append("': ");
    text.append(key);
    text.append(" = ");
    text.append(value);
    answer_with(done, text, line_no)
}

} // verus!
