//! Reading the commands that the frontend carries out: those that show
//! something and those that touch files.

use crate::dsl::datasets::unquoted;
use crate::dsl::error::DslError;
use crate::dsl::split::occurs_at;
use crate::dsl::types::{is_word, refusal};
use crate::dsl::values::{inside, is_quoted};
use crate::dsl::words::{after_keyword, begins, clean, parted, rest_after, split_once, trim};
use crate::utils::parsing::chars_of;
use vstd::prelude::*;
use vstd::string::StrSliceExecFns;

verus! {

/// What a `SHOW` command asks for.
pub enum ShowView {
    /// The names of the databases.
    Databases,
    /// Every tensor with its numbers.
    AllTensors,
    /// Every dataset with its columns.
    AllDatasets,
    /// The indices, of one dataset or of all.
    Indexes(Option<Seq<char>>),
    /// The shape of a tensor.
    Shape(Seq<char>),
    /// The schema of a dataset.
    Schema(Seq<char>),
    /// A text, given between double quotes.
    Text(Seq<char>),
    /// The tensor or the dataset of a name.
    Named(Seq<char>),
}

/// What a `SHOW` command asks for, as read from a command.
#[derive(Debug)]
pub enum ShowCommand {
    Databases,
    AllTensors,
    AllDatasets,
    Indexes(Option<String>),
    Shape(String),
    Schema(String),
    Text(String),
    Named(String),
}

impl View for ShowCommand {
    type V = ShowView;

    open spec fn view(&self) -> ShowView {
        match self {
            ShowCommand::Databases => ShowView::Databases,
            ShowCommand::AllTensors => ShowView::AllTensors,
            ShowCommand::AllDatasets => ShowView::AllDatasets,
            ShowCommand::Indexes(name) => ShowView::Indexes(
                match name {
                    Some(n) => Some(n@),
                    None => None,
                },
            ),
            ShowCommand::Shape(name) => ShowView::Shape(name@),
            ShowCommand::Schema(name) => ShowView::Schema(name@),
            ShowCommand::Text(text) => ShowView::Text(text@),
            ShowCommand::Named(name) => ShowView::Named(name@),
        }
    }
}

/// What `SHOW ...` asks for. After the keyword stands `DATABASES`, `ALL`,
/// `ALL TENSORS`, `ALL DATASETS`, `INDEXES` with or without a dataset,
/// `SHAPE` with a tensor, `SCHEMA` with a dataset, a text between double
/// quotes, or a name. `None` when nothing stands there.
pub open spec fn show_command(line: Seq<char>) -> Option<ShowView> {
    let rest = after_keyword(line, "SHOW"@);
    if rest == "DATABASES"@ {
        Some(ShowView::Databases)
    } else if rest == "ALL"@ || rest == "ALL TENSORS"@ {
        Some(ShowView::AllTensors)
    } else if rest == "ALL DATASETS"@ {
        Some(ShowView::AllDatasets)
    } else if occurs_at(rest, "INDEXES"@, 0) {
        if rest == "INDEXES"@ {
            Some(ShowView::Indexes(None))
        } else {
            Some(ShowView::Indexes(Some(after_keyword(rest, "INDEXES "@))))
        }
    } else if occurs_at(rest, "SHAPE "@, 0) {
        Some(ShowView::Shape(after_keyword(rest, "SHAPE "@)))
    } else if occurs_at(rest, "SCHEMA "@, 0) {
        Some(ShowView::Schema(after_keyword(rest, "SCHEMA "@)))
    } else if rest.len() == 0 {
        None
    } else if is_quoted(rest) {
        Some(ShowView::Text(inside(rest)))
    } else {
        Some(ShowView::Named(rest))
    }
}

/// What `SHOW ...` asks for: see [`show_command`].
pub fn parse_show(line: &str, line_no: usize) -> (r: Result<ShowCommand, DslError>)
    ensures
        match show_command(line@) {
            Some(wanted) => r matches Ok(command) && command@ == wanted,
            None => r matches Err(DslError::Parse { line, .. }) && line == line_no,
        },
{
    let rest = rest_after(line, "SHOW");
    let all = chars_of(rest);
    let n = all.len();
    if is_word(&all, "DATABASES") {
        Ok(ShowCommand::Databases)
    } else if is_word(&all, "ALL") || is_word(&all, "ALL TENSORS") {
        Ok(ShowCommand::AllTensors)
    } else if is_word(&all, "ALL DATASETS") {
        Ok(ShowCommand::AllDatasets)
    } else if begins(rest, "INDEXES") {
        if is_word(&all, "INDEXES") {
            Ok(ShowCommand::Indexes(None))
        } else {
            Ok(ShowCommand::Indexes(Some(rest_after(rest, "INDEXES ").to_owned())))
        }
    } else if begins(rest, "SHAPE ") {
        Ok(ShowCommand::Shape(rest_after(rest, "SHAPE ").to_owned()))
    } else if begins(rest, "SCHEMA ") {
        Ok(ShowCommand::Schema(rest_after(rest, "SCHEMA ").to_owned()))
    } else if n == 0 {
        Err(refusal(line_no, "Expected: SHOW <name> or SHOW ALL or SHOW ALL DATASETS", "", ""))
    } else if n >= 2 && all[0] == '"' && all[n - 1] == '"' {
        Ok(ShowCommand::Text(rest.substring_char(1, n - 1).to_owned()))
    } else {
        Ok(ShowCommand::Named(rest.to_owned()))
    }
}

/// What a command that touches files asks for.
pub enum FileView {
    /// Write a dataset of the engine into a directory.
    SaveDataset { name: Seq<char>, path: Seq<char> },
    /// The names of the datasets in a directory.
    ListDatasets { path: Seq<char> },
    /// The names of the tensors in a directory.
    ListTensors { path: Seq<char> },
}

/// What a command that touches files asks for, as read from a command.
#[derive(Debug)]
pub enum FileCommand {
    SaveDataset { name: String, path: String },
    ListDatasets { path: String },
    ListTensors { path: String },
}

impl View for FileCommand {
    type V = FileView;

    open spec fn view(&self) -> FileView {
        match self {
            FileCommand::SaveDataset { name, path } => FileView::SaveDataset {
                name: name@,
                path: path@,
            },
            FileCommand::ListDatasets { path } => FileView::ListDatasets { path: path@ },
            FileCommand::ListTensors { path } => FileView::ListTensors { path: path@ },
        }
    }
}

/// What stands after a keyword at the start of a text, without the
/// white space around it. `None` when the text does not begin with the
/// keyword.
pub open spec fn following(s: Seq<char>, keyword: Seq<char>) -> Option<Seq<char>> {
    if occurs_at(s, keyword, 0) {
        Some(clean(s.skip(keyword.len() as int)))
    } else {
        None
    }
}

/// What `SAVE DATASET name TO "path"` asks for. The path may stand
/// between double quotes. Tensors are not saved by a command.
pub open spec fn save_command(line: Seq<char>) -> Option<FileView> {
    match following(line, "SAVE "@) {
        Some(rest) => match following(rest, "DATASET "@) {
            Some(tail) => match parted(tail, " TO "@) {
                Some((name, path)) => Some(
                    FileView::SaveDataset { name: clean(name), path: unquoted(clean(path)) },
                ),
                None => None,
            },
            None => None,
        },
        None => None,
    }
}

/// What `LIST DATASETS FROM "path"` or `LIST TENSORS FROM "path"` asks
/// for.
pub open spec fn list_command(line: Seq<char>) -> Option<FileView> {
    match following(line, "LIST "@) {
        Some(rest) => if occurs_at(rest, "DATASETS"@, 0) {
            match following(clean(rest.skip("DATASETS"@.len() as int)), "FROM "@) {
                Some(path) => Some(FileView::ListDatasets { path: unquoted(path) }),
                None => None,
            }
        } else if occurs_at(rest, "TENSORS"@, 0) {
            match following(clean(rest.skip("TENSORS"@.len() as int)), "FROM "@) {
                Some(path) => Some(FileView::ListTensors { path: unquoted(path) }),
                None => None,
            }
        } else {
            None
        },
        None => None,
    }
}

/// What stands after a keyword at the start of a text: see
/// [`following`].
pub fn read_following<'a>(text: &'a str, keyword: &str) -> (r: Option<&'a str>)
    ensures
        match following(text@, keyword@) {
            Some(rest) => r matches Some(found) && found@ == rest,
            None => r is None,
        },
{
    if !begins(text, keyword) {
        return None;
    }
    let rest = text.substring_char(keyword.unicode_len(), text.unicode_len());
    proof {
        assert(rest@ =~= text@.skip(keyword@.len() as int));
    }
    Some(trim(rest))
}

/// A text without the double quotes at its start and at its end: see
/// [`unquoted`].
pub fn strip_quotes(text: &str) -> (r: &str)
    ensures
        r@ == unquoted(text@),
{
    let letters = chars_of(text);
    let from = crate::dsl::tuples::skip_run(&letters, '"', 0);
    let to = crate::dsl::tuples::drop_run(&letters, '"', from, letters.len());
    text.substring_char(from, to)
}

/// Whether a command that touches files was read as the model says.
pub open spec fn file_read_as(r: Result<FileCommand, DslError>, wanted: Option<FileView>, line_no: usize) -> bool {
    match wanted {
        Some(view) => r matches Ok(command) && command@ == view,
        None => r matches Err(DslError::Parse { line, .. }) && line == line_no,
    }
}

/// What `SAVE ...` asks for: see [`save_command`].
pub fn parse_save(line: &str, line_no: usize) -> (r: Result<FileCommand, DslError>)
    ensures
        file_read_as(r, save_command(line@), line_no),
{
    let rest = match read_following(line, "SAVE ") {
        Some(rest) => rest,
        None => {
            return Err(refusal(line_no, "Expected: SAVE DATASET <name> TO <path>", "", ""));
        },
    };
    let tail = match read_following(rest, "DATASET ") {
        Some(tail) => tail,
        None => {
            return Err(
                if begins(rest, "TENSOR ") {
                    refusal(line_no, "SAVE TENSOR is not supported", "", "")
                } else {
                    refusal(line_no, "Expected 'DATASET' or 'TENSOR' after 'SAVE'", "", "")
                },
            );
        },
    };
    match split_once(tail, " TO ") {
        Some((name, path)) => Ok(
            FileCommand::SaveDataset {
                name: trim(name).to_owned(),
                path: strip_quotes(trim(path)).to_owned(),
            },
        ),
        None => Err(refusal(line_no, "Expected 'TO' keyword in SAVE command", "", "")),
    }
}

/// What `LIST ...` asks for: see [`list_command`].
pub fn parse_list(line: &str, line_no: usize) -> (r: Result<FileCommand, DslError>)
    ensures
        file_read_as(r, list_command(line@), line_no),
{
    let rest = match read_following(line, "LIST ") {
        Some(rest) => rest,
        None => {
            return Err(refusal(line_no, "Expected: LIST DATASETS FROM <path>", "", ""));
        },
    };
    let datasets = begins(rest, "DATASETS");
    if !datasets && !begins(rest, "TENSORS") {
        return Err(refusal(line_no, "Expected 'DATASETS' or 'TENSORS' after 'LIST'", "", ""));
    }
    let word = if datasets {
        "DATASETS"
    } else {
        "TENSORS"
    };
    let after = rest.substring_char(word.unicode_len(), rest.unicode_len());
    proof {
        assert(after@ =~= rest@.skip(word@.len() as int));
    }
    match read_following(trim(after), "FROM ") {
        Some(path) => {
            let path = strip_quotes(path).to_owned();
            Ok(
                if datasets {
                    FileCommand::ListDatasets { path }
                } else {
                    FileCommand::ListTensors { path }
                },
            )
        },
        None => Err(refusal(line_no, "Expected 'FROM' keyword in LIST ", word, " command")),
    }
}

/// The kinds of queries that can be explained.
#[derive(Debug, Clone, Copy, PartialEq, Eq, Structural)]
pub enum QueryKind {
    Dataset,
    Search,
    Select,
}

/// The query that `EXPLAIN [PLAN] query` asks about, given the text after
/// the keyword in upper case: the word `PLAN`, in upper or lower case, is
/// passed over, and the query must begin with `DATASET `, `SEARCH ` or
/// `SELECT `.
pub open spec fn explained_query(rest: Seq<char>, upper: Seq<char>) -> Option<(QueryKind, Seq<char>)> {
    let query = if occurs_at(upper, "PLAN "@, 0) && "PLAN "@.len() <= rest.len() {
        clean(rest.skip("PLAN "@.len() as int))
    } else {
        rest
    };
    if occurs_at(query, "DATASET "@, 0) {
        Some((QueryKind::Dataset, query))
    } else if occurs_at(query, "SEARCH "@, 0) {
        Some((QueryKind::Search, query))
    } else if occurs_at(query, "SELECT "@, 0) {
        Some((QueryKind::Select, query))
    } else {
        None
    }
}

/// The query that `EXPLAIN [PLAN] query` asks about.
pub open spec fn explain_command(line: Seq<char>) -> Option<(QueryKind, Seq<char>)> {
    let rest = after_keyword(line, "EXPLAIN"@);
    explained_query(rest, crate::dsl::types::uppercase(rest))
}

/// The query that an explanation asks about, given the text after the
/// keyword and the same text in upper case: see [`explained_query`].
pub fn read_explained<'a>(rest: &'a str, upper: &str, line_no: usize) -> (r: Result<
    (QueryKind, &'a str),
    DslError,
>)
    ensures
        match explained_query(rest@, upper@) {
            Some((kind, query)) => r matches Ok((k, q)) && k == kind && q@ == query,
            None => r matches Err(DslError::Parse { line, .. }) && line == line_no,
        },
{
    proof {
        reveal_strlit("PLAN ");
    }
    let total = rest.unicode_len();
    let query = if begins(upper, "PLAN ") && 5 <= total {
        let after = rest.substring_char(5, total);
        proof {
            assert(after@ =~= rest@.skip(5));
        }
        trim(after)
    } else {
        rest
    };
    if begins(query, "DATASET ") {
        Ok((QueryKind::Dataset, query))
    } else if begins(query, "SEARCH ") {
        Ok((QueryKind::Search, query))
    } else if begins(query, "SELECT ") {
        Ok((QueryKind::Select, query))
    } else {
        Err(refusal(line_no, "EXPLAIN only supports DATASET, SEARCH or SELECT queries", "", ""))
    }
}

/// The query that `EXPLAIN [PLAN] query` asks about: see
/// [`explain_command`].
pub fn parse_explain(line: &str, line_no: usize) -> (r: Result<(QueryKind, &str), DslError>)
    ensures
        match explain_command(line@) {
            Some((kind, query)) => r matches Ok((k, q)) && k == kind && q@ == query,
            None => r matches Err(DslError::Parse { line, .. }) && line == line_no,
        },
{
    let rest = rest_after(line, "EXPLAIN");
    let upper = crate::dsl::types::to_upper(rest);
    read_explained(rest, upper.as_str(), line_no)
}

} // verus!
