//! What a command gives back.

use crate::dataset::{Dataset, DatasetId};
use crate::dsl::error::DslError;
use crate::engine::EngineError;
use crate::tensor::Tensor;
use vstd::prelude::*;
use vstd::string::StringExecFns;

verus! {

/// The result of one command.
#[derive(Debug)]
pub enum DslOutput {
    /// Nothing to show.
    Nothing,
    /// A line of text.
    Message(String),
    /// A dataset.
    Table(Dataset),
    /// A tensor.
    Tensor(Tensor),
}

/// Whether a command was refused for what its text says, on the line
/// given.
pub open spec fn refused(r: Result<DslOutput, DslError>, line_no: usize) -> bool {
    r matches Err(DslError::Parse { line, .. }) && line == line_no
}

/// What the engine answered to a command that reached it: `Ok` where the
/// command succeeded, and else the error of the engine.
pub open spec fn engine_answer(r: Result<DslOutput, DslError>) -> Result<(), EngineError> {
    match r {
        Ok(_) => Ok(()),
        Err(DslError::Engine { source, .. }) => Err(source),
        Err(DslError::Parse { msg, .. }) => Err(EngineError::InvalidOp(msg)),
    }
}

/// What the engine answered to a command that makes a dataset under the
/// identifier given.
pub open spec fn engine_made(r: Result<DslOutput, DslError>, id: DatasetId) -> Result<
    DatasetId,
    EngineError,
> {
    match r {
        Ok(_) => Ok(id),
        Err(DslError::Engine { source, .. }) => Err(source),
        Err(DslError::Parse { msg, .. }) => Err(EngineError::InvalidOp(msg)),
    }
}

/// Whether a command that reached the engine was answered as it should:
/// with the message given where it succeeded, and with the error of the
/// engine on the line given where it failed.
pub open spec fn says(r: Result<DslOutput, DslError>, message: Seq<char>, line_no: usize) -> bool {
    match r {
        Ok(out) => out matches DslOutput::Message(m) && m@ == message,
        Err(e) => e matches DslError::Engine { line, .. } && line == line_no,
    }
}

/// Whether a command that reached the engine was answered as it should
/// where it shows nothing on success.
pub open spec fn silent(r: Result<DslOutput, DslError>, line_no: usize) -> bool {
    match r {
        Ok(out) => out is Nothing,
        Err(e) => e matches DslError::Engine { line, .. } && line == line_no,
    }
}

/// The answer to a command from the answer of the engine: the text given
/// as a message, or the error of the engine with the line.
pub fn answer_with(done: Result<(), EngineError>, text: String, line_no: usize) -> (r: Result<
    DslOutput,
    DslError,
>)
    ensures
        says(r, text@, line_no),
        engine_answer(r) == done,
{
    match done {
        Ok(unit) => {
            assert(unit == ());
            Ok(DslOutput::Message(text))
        },
        Err(e) => Err(DslError::Engine { line: line_no, source: e }),
    }
}

/// The answer to a command from the answer of the engine: a message made
/// of two parts, or the error of the engine with the line.
pub fn answer(done: Result<(), EngineError>, before: &str, about: &str, line_no: usize) -> (r:
    Result<DslOutput, DslError>)
    ensures
        says(r, before@ + about@, line_no),
        engine_answer(r) == done,
{
    let mut text = before.to_owned();
    text.append(about);
    answer_with(done, text, line_no)
}

/// The answer to a command that shows nothing where it succeeds.
pub fn answer_silently(done: Result<(), EngineError>, line_no: usize) -> (r: Result<
    DslOutput,
    DslError,
>)
    ensures
        silent(r, line_no),
        engine_answer(r) == done,
{
    match done {
        Ok(unit) => {
            assert(unit == ());
            Ok(DslOutput::Nothing)
        },
        Err(e) => Err(DslError::Engine { line: line_no, source: e }),
    }
}

} // verus!
