//! The rules of a server in front of the command language.

use crate::dsl::types::is_word;
use crate::dsl::words::{clean, trim};
use crate::utils::parsing::chars_of;
use vstd::prelude::*;
use vstd::string::StringExecFns;
use vstd::string::StringSliceAdditionalSpecFns;

verus! {

/// The longest command that is accepted, in bytes.
pub const MAX_COMMAND_LENGTH: usize = 16384;

/// The time a command may take, in seconds.
pub const QUERY_TIMEOUT_SECS: u64 = 30;

/// The formats of an answer.
#[derive(Debug, Clone, Copy, PartialEq, Eq, Structural)]
pub enum Format {
    Json,
    Toon,
}

/// The name of the format of an answer when a request names none.
pub fn default_format() -> (r: String)
    ensures
        r@ == "toon"@,
{
    "toon".to_owned()
}

/// The format a request names: JSON for `json`, and TOON for every other
/// name.
pub fn format_named(name: &str) -> (r: Format)
    ensures
        r == if name@ == "json"@ {
            Format::Json
        } else {
            Format::Toon
        },
{
    let letters = chars_of(name);
    if is_word(&letters, "json") {
        Format::Json
    } else {
        Format::Toon
    }
}

/// The command of a request: the command of the envelope, where the
/// body was read as one, and else the body without the white space
/// around it.
pub fn command_of(body: &str, envelope: Option<String>) -> (r: String)
    ensures
        r@ == match envelope {
            Some(command) => command@,
            None => clean(body@),
        },
{
    match envelope {
        Some(command) => command,
        None => trim(body).to_owned(),
    }
}

/// The length of a text in bytes, as the machine counts it.
pub open spec fn byte_length(text: &str) -> usize {
    text.spec_bytes().len() as usize
}

/// What is wrong with a command before it is run: it is longer than
/// [`MAX_COMMAND_LENGTH`] bytes, or it is empty. `None` for a command
/// that may be run.
pub fn check_command(command: &str) -> (r: Option<String>)
    ensures
        match r {
            Some(text) => text@ == (if byte_length(command) > MAX_COMMAND_LENGTH {
                "Command too long (max 16384 bytes)"@
            } else {
                "Command cannot be empty"@
            }) && (byte_length(command) > MAX_COMMAND_LENGTH || command@.len() == 0),
            None => byte_length(command) <= MAX_COMMAND_LENGTH && command@.len() > 0,
        },
{
    if command.len() > MAX_COMMAND_LENGTH {
        Some("Command too long (max 16384 bytes)".to_owned())
    } else if command.is_empty() {
        Some("Command cannot be empty".to_owned())
    } else {
        None
    }
}

} // verus!
