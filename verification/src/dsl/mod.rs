//! The command language in front of the engine: how the text of a
//! command is taken apart, and what each command does to the engine.

pub mod columns;
pub mod command;
pub mod datasets;
pub mod error;
pub mod expr;
pub mod frontend;
pub mod lets;
pub mod number;
pub mod output;
pub mod plans;
pub mod queries;
pub mod reader;
pub mod request;
pub mod split;
pub mod tensors;
pub mod tuples;
pub mod types;
pub mod values;
pub mod words;

pub use crate::dsl::command::{classify, run_command, CommandKind};
pub use crate::dsl::error::DslError;
pub use crate::dsl::output::DslOutput;
pub use crate::dsl::reader::CommandReader;
