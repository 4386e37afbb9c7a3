//! What can go wrong with a command.

use crate::engine::EngineError;
use vstd::prelude::*;
use vstd::string::StringExecFns;

verus! {

/// An error of a command, with the number of the line it stood on.
#[derive(Debug)]
pub enum DslError {
    /// The text of the command was not understood.
    Parse { line: usize, msg: String },
    /// The engine refused the command.
    Engine { line: usize, source: EngineError },
}

impl DslError {
    /// The line the command stood on.
    pub fn line(&self) -> (r: usize)
        ensures
            r == match *self {
                DslError::Parse { line, .. } => line,
                DslError::Engine { line, .. } => line,
            },
    {
        match self {
            DslError::Parse { line, .. } => *line,
            DslError::Engine { line, .. } => *line,
        }
    }

    /// The error as text: the line in square brackets, the kind of the
    /// error, and what is wrong.
    pub open spec fn text(&self) -> Seq<char> {
        match self {
            DslError::Parse { line, msg } => "[line "@ + crate::text::decimal(*line as nat)
                + "] Parse error: "@ + msg@,
            DslError::Engine { line, source } => "[line "@ + crate::text::decimal(*line as nat)
                + "] Engine error: "@ + source.text(),
        }
    }

    /// The error as text: see [`DslError::text`].
    pub fn message(&self) -> (r: String)
        ensures
            r@ == self.text(),
    {
        let mut out = "[line ".to_owned();
        out.append(crate::text::decimal_text(self.line()).as_str());
        match self {
            DslError::Parse { msg, .. } => {
                out.append("] Parse error: ");
                out.append(msg.as_str());
            },
            DslError::Engine { source, .. } => {
                out.append("] Engine error: ");
                out.append(source.message().as_str());
            },
        }
        out
    }
}

} // verus!
