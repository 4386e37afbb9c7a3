//! Reading the name of a type, such as `INT` or `VECTOR(3)`.

use crate::dsl::error::DslError;
use crate::dsl::split::{occurs_at, stands_at};
use crate::utils::parsing::{chars_of, first_solid, last_solid, number_in, read_number, trim_range};
use crate::value::ValueType;
use vstd::prelude::*;
use vstd::string::StrSliceExecFns;
use vstd::string::StringExecFns;

verus! {

/// The upper-case form of a text, as `str::to_uppercase` gives it.
pub uninterp spec fn uppercase(text: Seq<char>) -> Seq<char>;

/// Calls `str::to_uppercase`: the text with every letter replaced by its
/// upper-case form under the rules of Unicode. The result is given the
/// name [`uppercase`]; nothing else is claimed of it.
#[verifier::external_body]
pub(crate) fn to_upper(text: &str) -> (r: String)
    ensures
        r@ == uppercase(text@),
{
    text.to_uppercase()
}

/// The first position from `from` up to `to` that holds the character,
/// or `to` when none does.
pub open spec fn char_position(s: Seq<char>, c: char, from: int, to: int) -> int
    decreases to - from,
{
    if from < to && s[from] != c {
        char_position(s, c, from + 1, to)
    } else {
        from
    }
}

/// The bounds of the text between the first `(` and the first `)`, when
/// the text has both and the first stands before the second.
pub open spec fn bracketed(s: Seq<char>) -> Option<(int, int)> {
    let open = char_position(s, '(', 0, s.len() as int);
    let close = char_position(s, ')', 0, s.len() as int);
    if open < close < s.len() {
        Some((open + 1, close))
    } else {
        None
    }
}

/// The number written between two positions, white space around it
/// aside.
pub open spec fn number_within(s: Seq<char>, from: int, to: int) -> Option<usize> {
    let start = first_solid(s, from, to);
    number_in(s, start, last_solid(s, start, to))
}

/// The type that `VECTOR(n)` stands for.
pub open spec fn vector_type(s: Seq<char>) -> Option<ValueType> {
    match bracketed(s) {
        Some((from, to)) => match number_in(s, from, to) {
            Some(dim) => Some(ValueType::Vector(dim)),
            None => None,
        },
        None => None,
    }
}

/// The type that `MATRIX(r, c)` stands for: between the brackets stand
/// two numbers with one comma between them.
pub open spec fn matrix_type(s: Seq<char>) -> Option<ValueType> {
    match bracketed(s) {
        Some((from, to)) => {
            let comma = char_position(s, ',', from, to);
            if comma < to && char_position(s, ',', comma + 1, to) == to {
                match (number_within(s, from, comma), number_within(s, comma + 1, to)) {
                    (Some(rows), Some(cols)) => Some(ValueType::Matrix(rows, cols)),
                    _ => None,
                }
            } else {
                None
            }
        },
        None => None,
    }
}

/// The type that a name in upper case stands for: `INT`, `FLOAT`,
/// `STRING`, `BOOL`, `VECTOR(n)` or `MATRIX(r, c)`.
pub open spec fn value_type_of(upper: Seq<char>) -> Option<ValueType> {
    if upper == "INT"@ {
        Some(ValueType::Int)
    } else if upper == "FLOAT"@ {
        Some(ValueType::Float)
    } else if upper == "STRING"@ {
        Some(ValueType::String)
    } else if upper == "BOOL"@ {
        Some(ValueType::Bool)
    } else if occurs_at(upper, "VECTOR"@, 0) {
        vector_type(upper)
    } else if occurs_at(upper, "MATRIX"@, 0) {
        matrix_type(upper)
    } else {
        None
    }
}

/// Computes [`char_position`].
pub fn find_char(s: &Vec<char>, c: char, from: usize, to: usize) -> (r: usize)
    requires
        from <= to <= s@.len(),
    ensures
        r == char_position(s@, c, from as int, to as int),
        from <= r <= to,
        r < to ==> s@[r as int] == c,
{
    let mut i: usize = from;
    while i < to && s[i] != c
        invariant
            from <= i <= to <= s@.len(),
            char_position(s@, c, from as int, to as int) == char_position(s@, c, i as int, to as int),
        decreases to - i,
    {
        i += 1;
    }
    i
}

/// Whether a text is a given word.
pub fn is_word(s: &Vec<char>, word: &str) -> (r: bool)
    ensures
        r == (s@ == word@),
{
    let letters = chars_of(word);
    if s.len() != letters.len() {
        return false;
    }
    let r = stands_at(s, &letters, 0);
    proof {
        assert(s@.subrange(0, s@.len() as int) =~= s@);
    }
    r
}

/// Whether a text begins with a given word.
pub fn begins_with(s: &Vec<char>, word: &str) -> (r: bool)
    ensures
        r == occurs_at(s@, word@, 0),
{
    let letters = chars_of(word);
    stands_at(s, &letters, 0)
}

/// A parse error whose text is made of three parts.
pub fn refusal(line_no: usize, before: &str, about: &str, after: &str) -> (r: DslError)
    ensures
        r matches DslError::Parse { line, msg } && line == line_no && msg@ == before@ + about@
            + after@,
{
    let mut msg = before.to_owned();
    msg.append(about);
    msg.append(after);
    DslError::Parse { line: line_no, msg }
}

/// The type that a name already in upper case stands for: see
/// [`value_type_of`]. The name as it was written is used in the text of
/// the error.
pub fn value_type_from_upper(upper: &str, written: &str, line_no: usize) -> (r: Result<
    ValueType,
    DslError,
>)
    ensures
        match value_type_of(upper@) {
            Some(t) => r == Ok::<ValueType, DslError>(t),
            None => r matches Err(DslError::Parse { line, .. }) && line == line_no,
        },
{
    let all = chars_of(upper);
    let n = all.len();
    if is_word(&all, "INT") {
        return Ok(ValueType::Int);
    }
    if is_word(&all, "FLOAT") {
        return Ok(ValueType::Float);
    }
    if is_word(&all, "STRING") {
        return Ok(ValueType::String);
    }
    if is_word(&all, "BOOL") {
        return Ok(ValueType::Bool);
    }
    let vector = begins_with(&all, "VECTOR");
    if !vector && !begins_with(&all, "MATRIX") {
        return Err(refusal(line_no, "Unknown type: ", written, ""));
    }
    let open = find_char(&all, '(', 0, n);
    let close = find_char(&all, ')', 0, n);
    if !(open < close && close < n) {
        return Err(
            if vector {
                refusal(line_no, "Invalid Vector definition: ", written, ". Expected VECTOR(N)")
            } else {
                refusal(line_no, "Invalid Matrix definition: ", written, ". Expected MATRIX(R, C)")
            },
        );
    }
    if vector {
        return match read_number(&all, open + 1, close) {
            Some(dim) => Ok(ValueType::Vector(dim)),
            None => Err(
                refusal(
                    line_no,
                    "Invalid dimension in Vector definition: ",
                    upper.substring_char(open + 1, close),
                    "",
                ),
            ),
        };
    }
    let comma = find_char(&all, ',', open + 1, close);
    if comma >= close || find_char(&all, ',', comma + 1, close) != close {
        return Err(
            refusal(line_no, "Invalid Matrix definition: ", written, ". Expected MATRIX(R, C)"),
        );
    }
    let (a, b) = trim_range(&all, open + 1, comma);
    let rows = match read_number(&all, a, b) {
        Some(rows) => rows,
        None => {
            return Err(refusal(line_no, "Invalid rows", "", ""));
        },
    };
    let (c, d) = trim_range(&all, comma + 1, close);
    match read_number(&all, c, d) {
        Some(cols) => Ok(ValueType::Matrix(rows, cols)),
        None => Err(refusal(line_no, "Invalid cols", "", "")),
    }
}

/// The type that a name stands for, in upper or lower case: see
/// [`value_type_of`].
pub fn parse_value_type(type_str: &str, line_no: usize) -> (r: Result<ValueType, DslError>)
    ensures
        match value_type_of(uppercase(type_str@)) {
            Some(t) => r == Ok::<ValueType, DslError>(t),
            None => r matches Err(DslError::Parse { line, .. }) && line == line_no,
        },
{
    let upper = to_upper(type_str);
    value_type_from_upper(upper.as_str(), type_str, line_no)
}

} // verus!
