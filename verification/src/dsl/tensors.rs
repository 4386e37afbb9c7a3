//! Commands that define tensors.

use crate::dsl::error::DslError;
use crate::dsl::output::{answer, engine_answer, refused, says, DslOutput};
use crate::dsl::split::occurs_at;
use crate::dsl::types::refusal;
use crate::dsl::values::{float_list, matrix_text_value, parse_f32_list, parse_matrix_values};
use crate::dsl::words::{after_keyword, begins, clean, parted, rest_after, split_once, trim};
use crate::engine::effects::insert_named_with_kind_effect;
use crate::engine::{TensorDb, TensorKind};
use crate::tensor::Shape;
use crate::utils::parsing::{parse_usize_list, parsed_list, trimmed};
use vstd::prelude::*;
use vstd::string::StrSliceExecFns;

verus! {

/// What a definition of a tensor says: the name, the kind, the shape and
/// the numbers.
pub struct Definition {
    pub name: Seq<char>,
    pub kind: TensorKind,
    pub dims: Seq<usize>,
    pub data: Seq<u32>,
}

/// What `DEFINE name AS [STRICT] TENSOR [dims] VALUES [values]` says.
pub open spec fn define_command(line: Seq<char>) -> Option<Definition> {
    match parted(after_keyword(line, "DEFINE"@), " AS "@) {
        Some((name, rhs)) => {
            let rhs = clean(rhs);
            let strict = occurs_at(rhs, "STRICT TENSOR "@, 0);
            let tail = if strict {
                after_keyword(rhs, "STRICT TENSOR "@)
            } else {
                after_keyword(rhs, "TENSOR "@)
            };
            if clean(name).len() == 0 || !(strict || occurs_at(rhs, "TENSOR "@, 0)) {
                None
            } else {
                match parted(tail, " VALUES "@) {
                    Some((shape, values)) => match (
                        parsed_list(clean(shape)),
                        float_list(clean(values)),
                    ) {
                        (Some(dims), Some(data)) => Some(
                            Definition {
                                name: clean(name),
                                kind: if strict {
                                    TensorKind::Strict
                                } else {
                                    TensorKind::Normal
                                },
                                dims,
                                data,
                            },
                        ),
                        _ => None,
                    },
                    None => None,
                }
            }
        },
        None => None,
    }
}

/// The name and the right-hand side of `KEYWORD name = value`, each
/// without the white space around it. The name must not be empty.
pub open spec fn assignment(line: Seq<char>, keyword: Seq<char>) -> Option<(Seq<char>, Seq<char>)> {
    match parted(after_keyword(line, keyword), "="@) {
        Some((name, value)) => if clean(name).len() == 0 {
            None
        } else {
            Some((clean(name), clean(value)))
        },
        None => None,
    }
}

/// What `VECTOR name = [values]` says: a tensor of one axis.
pub open spec fn vector_command(line: Seq<char>) -> Option<Definition> {
    match assignment(line, "VECTOR"@) {
        Some((name, value)) => match float_list(value) {
            Some(data) => if data.len() <= usize::MAX {
                Some(
                    Definition {
                        name,
                        kind: TensorKind::Normal,
                        dims: seq![data.len() as usize],
                        data,
                    },
                )
            } else {
                None
            },
            None => None,
        },
        None => None,
    }
}

/// What `MATRIX name = [[values], [values]]` says: a tensor of two axes.
pub open spec fn matrix_command(line: Seq<char>) -> Option<Definition> {
    match assignment(line, "MATRIX"@) {
        Some((name, value)) => match matrix_text_value(value) {
            Some((rows, cols, data)) => Some(
                Definition { name, kind: TensorKind::Normal, dims: seq![rows, cols], data },
            ),
            None => None,
        },
        None => None,
    }
}

/// Whether a command that defines a tensor did what it says: where the
/// text says nothing the command is refused and the engine stays as it
/// was; else the tensor is stored as [`TensorDb::insert_named_with_kind`]
/// does, and the answer is the message given.
pub open spec fn defined_as(
    before: &TensorDb,
    after: &TensorDb,
    r: Result<DslOutput, DslError>,
    wanted: Option<Definition>,
    message: Seq<char>,
    line_no: usize,
) -> bool {
    match wanted {
        Some(d) => insert_named_with_kind_effect(
            before,
            after,
            d.name,
            d.dims,
            d.data,
            d.kind,
            engine_answer(r),
        ) && says(r, message + d.name, line_no),
        None => refused(r, line_no) && *after == *before,
    }
}

/// The name and the right-hand side of `KEYWORD name = value`: see
/// [`assignment`].
pub fn read_assignment<'a>(
    line: &'a str,
    keyword: &str,
    expected: &str,
    missing: &str,
    line_no: usize,
) -> (r: Result<(&'a str, &'a str), DslError>)
    ensures
        match assignment(line@, keyword@) {
            Some((name, value)) => r matches Ok((n, v)) && n@ == name && v@ == value,
            None => r matches Err(DslError::Parse { line, .. }) && line == line_no,
        },
{
    let rest = rest_after(line, keyword);
    match split_once(rest, "=") {
        Some((name, value)) => {
            let name = trim(name);
            if name.unicode_len() == 0 {
                return Err(refusal(line_no, missing, "", ""));
            }
            Ok((name, trim(value)))
        },
        None => Err(refusal(line_no, expected, "", "")),
    }
}

/// What [`handle_define`] does: the engine before and after the command, and
/// the answer.
pub open spec fn define_handled(
    before: &TensorDb,
    after: &TensorDb,
    line: Seq<char>,
    r: Result<DslOutput, DslError>,
    line_no: usize,
) -> bool {
    &&& (defined_as(before, after, r, define_command(line), "Defined tensor: "@, line_no))
}

/// `DEFINE name AS [STRICT] TENSOR [dims] VALUES [values]`: see
/// [`define_command`].
pub fn handle_define(db: &mut TensorDb, line: &str, line_no: usize) -> (r: Result<
    DslOutput,
    DslError,
>)
    ensures
        define_handled(old(db), final(db), line@, r, line_no),
{
    let rest = rest_after(line, "DEFINE");
    let (name, rhs) = match split_once(rest, " AS ") {
        Some(parts) => parts,
        None => {
            return Err(
                refusal(
                    line_no,
                    "Expected: DEFINE <name> AS [STRICT] TENSOR [dims] VALUES [values]",
                    "",
                    "",
                ),
            );
        },
    };
    let name = trim(name);
    if name.unicode_len() == 0 {
        return Err(refusal(line_no, "Missing tensor name after DEFINE", "", ""));
    }
    let rhs = trim(rhs);
    let strict = begins(rhs, "STRICT TENSOR ");
    let (kind, tail) = if strict {
        (TensorKind::Strict, rest_after(rhs, "STRICT TENSOR "))
    } else if begins(rhs, "TENSOR ") {
        (TensorKind::Normal, rest_after(rhs, "TENSOR "))
    } else {
        return Err(refusal(line_no, "Expected: AS TENSOR ... or AS STRICT TENSOR ...", "", ""));
    };
    let (shape, values) = match split_once(tail, " VALUES ") {
        Some(parts) => parts,
        None => {
            return Err(refusal(line_no, "Expected: ... [dims] VALUES [values]", "", ""));
        },
    };
    let dims = match parse_usize_list(trim(shape)) {
        Ok(dims) => dims,
        Err(msg) => {
            return Err(DslError::Parse { line: line_no, msg });
        },
    };
    let data = match parse_f32_list(trim(values)) {
        Ok(data) => data,
        Err(msg) => {
            return Err(DslError::Parse { line: line_no, msg });
        },
    };
    let done = db.insert_named_with_kind(name, Shape::new(dims), data, kind);
    answer(done, "Defined tensor: ", name, line_no)
}

/// What [`handle_vector`] does: the engine before and after the command, and
/// the answer.
pub open spec fn vector_handled(
    before: &TensorDb,
    after: &TensorDb,
    line: Seq<char>,
    r: Result<DslOutput, DslError>,
    line_no: usize,
) -> bool {
    &&& (defined_as(before, after, r, vector_command(line), "Defined vector: "@, line_no))
}

/// `VECTOR name = [values]`: see [`vector_command`].
pub fn handle_vector(db: &mut TensorDb, line: &str, line_no: usize) -> (r: Result<
    DslOutput,
    DslError,
>)
    ensures
        vector_handled(old(db), final(db), line@, r, line_no),
{
    let (name, value) = match read_assignment(
        line,
        "VECTOR",
        "Expected: VECTOR <name> = [<values>]",
        "Missing vector name",
        line_no,
    ) {
        Ok(parts) => parts,
        Err(e) => {
            return Err(e);
        },
    };
    let data = match parse_f32_list(value) {
        Ok(data) => data,
        Err(msg) => {
            return Err(DslError::Parse { line: line_no, msg });
        },
    };
    let mut dims: Vec<usize> = Vec::new();
    dims.push(data.len());
    proof {
        assert(dims@ =~= seq![data@.len() as usize]);
    }
    let done = db.insert_named_with_kind(name, Shape::new(dims), data, TensorKind::Normal);
    answer(done, "Defined vector: ", name, line_no)
}

/// What [`handle_matrix`] does: the engine before and after the command, and
/// the answer.
pub open spec fn matrix_handled(
    before: &TensorDb,
    after: &TensorDb,
    line: Seq<char>,
    r: Result<DslOutput, DslError>,
    line_no: usize,
) -> bool {
    &&& (defined_as(before, after, r, matrix_command(line), "Defined matrix: "@, line_no))
}

/// `MATRIX name = [[values], [values]]`: see [`matrix_command`].
pub fn handle_matrix(db: &mut TensorDb, line: &str, line_no: usize) -> (r: Result<
    DslOutput,
    DslError,
>)
    ensures
        matrix_handled(old(db), final(db), line@, r, line_no),
{
    let (name, value) = match read_assignment(
        line,
        "MATRIX",
        "Expected: MATRIX <name> = [[values], [values]]",
        "Missing matrix name",
        line_no,
    ) {
        Ok(parts) => parts,
        Err(e) => {
            return Err(e);
        },
    };
    let (rows, cols, data) = match parse_matrix_values(value) {
        Ok(read) => read,
        Err(msg) => {
            return Err(DslError::Parse { line: line_no, msg });
        },
    };
    let mut dims: Vec<usize> = Vec::new();
    dims.push(rows);
    dims.push(cols);
    proof {
        assert(dims@ =~= seq![rows, cols]);
    }
    let done = db.insert_named_with_kind(name, Shape::new(dims), data, TensorKind::Normal);
    answer(done, "Defined matrix: ", name, line_no)
}

} // verus!
