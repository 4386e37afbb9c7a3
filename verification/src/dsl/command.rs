//! Telling the commands apart and running them.

use crate::dsl::datasets::{
    create_database_handled, create_index_handled, drop_database_handled, handle_create_database,
    handle_create_index, handle_drop_database, handle_insert, handle_materialize,
    handle_set_metadata, handle_use_database, insert_handled, materialize_handled,
    set_metadata_handled, use_database_handled,
};
use crate::dsl::error::DslError;
use crate::dsl::lets::{handle_let, let_handled};
use crate::dsl::output::{refused, DslOutput};
use crate::dsl::queries::{
    dataset_handled, handle_dataset, handle_search, handle_select, search_handled, select_handled,
};
use crate::dsl::split::{find_from, occurs_at};
use crate::dsl::tensors::{
    define_handled, handle_define, handle_matrix, handle_vector, matrix_handled, vector_handled,
};
use crate::dsl::types::refusal;
use crate::dsl::words::{begins, holds};
use crate::engine::TensorDb;
use vstd::prelude::*;
use vstd::string::StrSliceExecFns;

verus! {

/// The kinds of commands.
#[derive(Debug, Clone, Copy, PartialEq, Eq, Structural)]
pub enum CommandKind {
    Define,
    Vector,
    Matrix,
    Let,
    /// `SHOW ...`: answered by the frontend, which writes numbers out.
    Show,
    Select,
    Dataset,
    Insert,
    Search,
    /// `EXPLAIN ...`: answered by the frontend, which writes plans out.
    Explain,
    Materialize,
    CreateDatabase,
    UseDatabase,
    DropDatabase,
    SetMetadata,
    /// `SAVE ...`: carried out by the frontend, which writes files.
    Save,
    /// `LOAD ...`: carried out by the frontend, which reads files.
    Load,
    /// `LIST ...`: carried out by the frontend, which reads directories.
    List,
    CreateIndex,
    /// `CREATE` of anything but a database or an index.
    OtherCreate,
    /// An empty line or a comment, which begins with `#` or `//`.
    Skipped,
    Unknown,
}

/// Whether a line between commands is passed over: an empty line or a
/// comment.
pub open spec fn is_skipped(line: Seq<char>) -> bool {
    line.len() == 0 || occurs_at(line, "#"@, 0) || occurs_at(line, "//"@, 0)
}

/// The kind of a command, told by the words the line begins with.
pub open spec fn kind_of(line: Seq<char>) -> CommandKind {
    if occurs_at(line, "DEFINE "@, 0) {
        CommandKind::Define
    } else if occurs_at(line, "VECTOR "@, 0) {
        CommandKind::Vector
    } else if occurs_at(line, "MATRIX "@, 0) {
        CommandKind::Matrix
    } else if occurs_at(line, "LET "@, 0) {
        CommandKind::Let
    } else if occurs_at(line, "SHOW "@, 0) {
        CommandKind::Show
    } else if occurs_at(line, "SELECT "@, 0) {
        CommandKind::Select
    } else if occurs_at(line, "DATASET "@, 0) {
        CommandKind::Dataset
    } else if occurs_at(line, "INSERT INTO "@, 0) {
        CommandKind::Insert
    } else if occurs_at(line, "SEARCH "@, 0) {
        CommandKind::Search
    } else if occurs_at(line, "EXPLAIN "@, 0) {
        CommandKind::Explain
    } else if occurs_at(line, "MATERIALIZE "@, 0) {
        CommandKind::Materialize
    } else if occurs_at(line, "CREATE DATABASE "@, 0) {
        CommandKind::CreateDatabase
    } else if occurs_at(line, "USE "@, 0) {
        CommandKind::UseDatabase
    } else if occurs_at(line, "DROP DATABASE "@, 0) {
        CommandKind::DropDatabase
    } else if occurs_at(line, "SET DATASET "@, 0) {
        CommandKind::SetMetadata
    } else if occurs_at(line, "SAVE "@, 0) {
        CommandKind::Save
    } else if occurs_at(line, "LOAD "@, 0) {
        CommandKind::Load
    } else if occurs_at(line, "LIST "@, 0) {
        CommandKind::List
    } else if occurs_at(line, "CREATE "@, 0) {
        if find_from(line, "INDEX "@, 0) is Some {
            CommandKind::CreateIndex
        } else {
            CommandKind::OtherCreate
        }
    } else if is_skipped(line) {
        CommandKind::Skipped
    } else {
        CommandKind::Unknown
    }
}

/// Whether a kind of command is left to the frontend.
pub open spec fn for_frontend(kind: CommandKind) -> bool {
    kind is Show || kind is Explain || kind is Save || kind is Load || kind is List
}

/// Whether a line is passed over: see [`is_skipped`].
pub fn skipped(line: &str) -> (r: bool)
    ensures
        r == is_skipped(line@),
{
    line.unicode_len() == 0 || begins(line, "#") || begins(line, "//")
}

/// The kind of a command: see [`kind_of`].
pub fn classify(line: &str) -> (r: CommandKind)
    ensures
        r == kind_of(line@),
{
    if begins(line, "DEFINE ") {
        CommandKind::Define
    } else if begins(line, "VECTOR ") {
        CommandKind::Vector
    } else if begins(line, "MATRIX ") {
        CommandKind::Matrix
    } else if begins(line, "LET ") {
        CommandKind::Let
    } else if begins(line, "SHOW ") {
        CommandKind::Show
    } else if begins(line, "SELECT ") {
        CommandKind::Select
    } else if begins(line, "DATASET ") {
        CommandKind::Dataset
    } else if begins(line, "INSERT INTO ") {
        CommandKind::Insert
    } else if begins(line, "SEARCH ") {
        CommandKind::Search
    } else if begins(line, "EXPLAIN ") {
        CommandKind::Explain
    } else if begins(line, "MATERIALIZE ") {
        CommandKind::Materialize
    } else if begins(line, "CREATE DATABASE ") {
        CommandKind::CreateDatabase
    } else if begins(line, "USE ") {
        CommandKind::UseDatabase
    } else if begins(line, "DROP DATABASE ") {
        CommandKind::DropDatabase
    } else if begins(line, "SET DATASET ") {
        CommandKind::SetMetadata
    } else if begins(line, "SAVE ") {
        CommandKind::Save
    } else if begins(line, "LOAD ") {
        CommandKind::Load
    } else if begins(line, "LIST ") {
        CommandKind::List
    } else if begins(line, "CREATE ") {
        if holds(line, "INDEX ") {
            CommandKind::CreateIndex
        } else {
            CommandKind::OtherCreate
        }
    } else if skipped(line) {
        CommandKind::Skipped
    } else {
        CommandKind::Unknown
    }
}

/// What a command does that the engine carries out: what the command of
/// its kind does. A line that is passed over shows nothing; a `CREATE` of
/// something else and an unknown command are refused; all three leave
/// the engine as it was. Of the commands left to the frontend nothing is
/// said here.
pub open spec fn command_handled(
    before: &TensorDb,
    after: &TensorDb,
    line: Seq<char>,
    r: Result<DslOutput, DslError>,
    line_no: usize,
) -> bool {
    match kind_of(line) {
        CommandKind::Define => define_handled(before, after, line, r, line_no),
        CommandKind::Vector => vector_handled(before, after, line, r, line_no),
        CommandKind::Matrix => matrix_handled(before, after, line, r, line_no),
        CommandKind::Let => let_handled(before, after, line, r, line_no),
        CommandKind::Select => select_handled(before, line, r, line_no) && *after == *before,
        CommandKind::Dataset => dataset_handled(before, after, line, r, line_no),
        CommandKind::Insert => insert_handled(before, after, line, r, line_no),
        CommandKind::Search => search_handled(before, after, line, r, line_no),
        CommandKind::Materialize => materialize_handled(before, after, line, r, line_no),
        CommandKind::CreateDatabase => create_database_handled(before, after, line, r, line_no),
        CommandKind::UseDatabase => use_database_handled(before, after, line, r, line_no),
        CommandKind::DropDatabase => drop_database_handled(before, after, line, r, line_no),
        CommandKind::SetMetadata => set_metadata_handled(before, after, line, r, line_no),
        CommandKind::CreateIndex => create_index_handled(before, after, line, r, line_no),
        CommandKind::Skipped => (r matches Ok(out) && out is Nothing) && *after == *before,
        CommandKind::OtherCreate => refused(r, line_no) && *after == *before,
        CommandKind::Unknown => refused(r, line_no) && *after == *before,
        _ => true,
    }
}

/// Runs one command, unless it is one of those left to the frontend:
/// the result is then `None` and the engine stays as it was. Every other
/// command is carried out as [`command_handled`] says.
pub fn run_command(db: &mut TensorDb, line: &str, line_no: usize) -> (r: Option<
    Result<DslOutput, DslError>,
>)
    ensures
        match r {
            Some(answer) => !for_frontend(kind_of(line@)) && command_handled(
                old(db),
                final(db),
                line@,
                answer,
                line_no,
            ),
            None => for_frontend(kind_of(line@)) && *final(db) == *old(db),
        },
{
    match classify(line) {
        CommandKind::Define => Some(handle_define(db, line, line_no)),
        CommandKind::Vector => Some(handle_vector(db, line, line_no)),
        CommandKind::Matrix => Some(handle_matrix(db, line, line_no)),
        CommandKind::Let => Some(handle_let(db, line, line_no)),
        CommandKind::Select => Some(handle_select(db, line, line_no)),
        CommandKind::Dataset => Some(handle_dataset(db, line, line_no)),
        CommandKind::Insert => Some(handle_insert(db, line, line_no)),
        CommandKind::Search => Some(handle_search(db, line, line_no)),
        CommandKind::Materialize => Some(handle_materialize(db, line, line_no)),
        CommandKind::CreateDatabase => Some(handle_create_database(db, line, line_no)),
        CommandKind::UseDatabase => Some(handle_use_database(db, line, line_no)),
        CommandKind::DropDatabase => Some(handle_drop_database(db, line, line_no)),
        CommandKind::SetMetadata => Some(handle_set_metadata(db, line, line_no)),
        CommandKind::CreateIndex => Some(handle_create_index(db, line, line_no)),
        CommandKind::Skipped => Some(Ok(DslOutput::Nothing)),
        CommandKind::OtherCreate => Some(
            Err(refusal(line_no, "Unsupported CREATE command: ", line, "")),
        ),
        CommandKind::Unknown => Some(Err(refusal(line_no, "Unknown command: ", line, ""))),
        CommandKind::Show => None,
        CommandKind::Explain => None,
        CommandKind::Save => None,
        CommandKind::Load => None,
        CommandKind::List => None,
    }
}

} // verus!
