//! Reading values: numbers, text, booleans, vectors and matrices.

use crate::dsl::error::DslError;
use crate::dsl::number::{float_text_value, integer_text_value, parse_float, parse_integer};
use crate::dsl::split::{arguments, split_args, texts};
use crate::dsl::types::{char_position, find_char, is_word, refusal};
use crate::utils::parsing::{
    chars_of, first_solid, is_space, next_comma, space, trim_range, trimmed,
};
use crate::value::{Value, ValueView};
use vstd::prelude::*;
use vstd::string::StrSliceExecFns;
use vstd::string::StringExecFns;

verus! {

/// The numbers written from `from` on, separated by commas; each may be
/// surrounded by white space. `None` when a piece is no number.
pub open spec fn floats_from(s: Seq<char>, from: int) -> Option<Seq<u32>>
    decreases s.len() - from,
{
    let comma = next_comma(s, from);
    match float_text_value(trimmed(s, from, comma)) {
        // The second test never holds; with it the recursion plainly ends.
        Some(x) => if comma >= s.len() || comma < from {
            Some(seq![x])
        } else {
            match floats_from(s, comma + 1) {
                Some(rest) => Some(seq![x] + rest),
                None => None,
            }
        },
        None => None,
    }
}

/// The numbers written between a pair of square brackets: none when
/// there is nothing but white space, else numbers separated by commas.
pub open spec fn float_items(inner: Seq<char>) -> Option<Seq<u32>> {
    if first_solid(inner, 0, inner.len() as int) == inner.len() {
        Some(Seq::empty())
    } else {
        floats_from(inner, 0)
    }
}

/// Whether a text stands between a `[` and a `]`.
pub open spec fn is_list(s: Seq<char>) -> bool {
    s.len() >= 2 && s[0] == '[' && s[s.len() - 1] == ']'
}

/// The text between the first and the last character.
pub open spec fn inside(s: Seq<char>) -> Seq<char> {
    s.subrange(1, s.len() - 1)
}

/// The list of numbers a text stands for, such as `[1, 0.5, -2e3]`;
/// white space around the brackets and around each number is passed over.
pub open spec fn float_list(text: Seq<char>) -> Option<Seq<u32>> {
    let s = trimmed(text, 0, text.len() as int);
    if is_list(s) {
        float_items(inside(s))
    } else {
        None
    }
}

/// The text of a command without the white space around it, with its
/// characters.
pub fn trimmed_text(text: &str) -> (r: (&str, Vec<char>))
    ensures
        r.0@ == trimmed(text@, 0, text@.len() as int),
        r.1@ == r.0@,
{
    let all = chars_of(text);
    let (a, b) = trim_range(&all, 0, all.len());
    let cut = text.substring_char(a, b);
    let chars = chars_of(cut);
    (cut, chars)
}

/// The text between the first and the last character of a text, with
/// its characters.
pub fn inner_text<'a>(text: &'a str, all: &Vec<char>) -> (r: (&'a str, Vec<char>))
    requires
        all@ == text@,
        all@.len() >= 2,
    ensures
        r.0@ == inside(text@),
        r.1@ == r.0@,
{
    let cut = text.substring_char(1, all.len() - 1);
    let chars = chars_of(cut);
    (cut, chars)
}

/// Whether a text stands between square brackets: see [`is_list`].
pub fn list_shaped(all: &Vec<char>) -> (r: bool)
    ensures
        r == is_list(all@),
{
    all.len() >= 2 && all[0] == '[' && all[all.len() - 1] == ']'
}

/// The numbers written between a pair of square brackets: see
/// [`float_items`]. The error is the piece that is no number.
pub fn parse_float_items(inner_text: &str) -> (r: Result<Vec<u32>, String>)
    ensures
        match float_items(inner_text@) {
            Some(list) => r matches Ok(v) && v@ == list,
            None => r is Err,
        },
{
    let inner = chars_of(inner_text);
    if crate::utils::parsing::skip_spaces(&inner, 0, inner.len()) == inner.len() {
        return Ok(Vec::new());
    }
    let mut out: Vec<u32> = Vec::new();
    let mut from: usize = 0;
    proof {
        assert(Seq::<u32>::empty() + floats_from(inner@, 0).unwrap() =~= floats_from(
            inner@,
            0,
        ).unwrap());
    }
    loop
        invariant
            inner@ == inner_text@,
            float_items(inner_text@) == floats_from(inner@, 0),
            from <= inner@.len(),
            match floats_from(inner@, from as int) {
                Some(rest) => floats_from(inner@, 0) == Some(out@ + rest),
                None => floats_from(inner@, 0) is None,
            },
        decreases inner@.len() - from,
    {
        let mut comma: usize = from;
        while comma < inner.len() && inner[comma] != ','
            invariant
                from <= comma <= inner@.len(),
                next_comma(inner@, from as int) == next_comma(inner@, comma as int),
            decreases inner@.len() - comma,
        {
            comma += 1;
        }
        let (a, b) = trim_range(&inner, from, comma);
        let piece = inner_text.substring_char(a, b);
        match parse_float(piece) {
            Some(x) => {
                let ghost before = out@;
                out.push(x);
                if comma >= inner.len() {
                    proof {
                        assert(out@ =~= before + seq![x]);
                    }
                    return Ok(out);
                }
                proof {
                    match floats_from(inner@, comma + 1) {
                        Some(rest) => {
                            assert(out@ + rest =~= before + (seq![x] + rest));
                        },
                        None => {},
                    }
                }
                from = comma + 1;
            },
            None => {
                return Err(piece.to_owned());
            },
        }
    }
}

/// The list of numbers a text stands for: see [`float_list`].
pub fn parse_f32_list(text: &str) -> (r: Result<Vec<u32>, String>)
    ensures
        match float_list(text@) {
            Some(list) => r matches Ok(v) && v@ == list,
            None => r is Err,
        },
{
    let (cut, all) = trimmed_text(text);
    if !list_shaped(&all) {
        let mut message = "Expected [v1, v2, ...], got: ".to_owned();
        message.append(text);
        return Err(message);
    }
    let (inner, _) = inner_text(cut, &all);
    match parse_float_items(inner) {
        Ok(list) => Ok(list),
        Err(piece) => {
            let mut message = "Invalid float: ".to_owned();
            message.append(piece.as_str());
            Err(message)
        },
    }
}

/// The rows of a matrix written as `[a, b], [c, d]`, read from position
/// `i` on. Rows stand between square brackets; between rows stand commas
/// and white space only. `in_row` tells whether position `i` stands
/// inside a row, which then began at `row_start`; `rows` are the rows
/// read so far. A row that is not closed at the end of the text is left
/// out. `None` when a bracket opens inside a row or closes outside one,
/// when something else stands between rows, and when a row holds a piece
/// that is no number.
pub open spec fn rows_from(
    s: Seq<char>,
    i: int,
    in_row: bool,
    row_start: int,
    rows: Seq<Seq<u32>>,
) -> Option<Seq<Seq<u32>>>
    decreases s.len() - i,
{
    if i < 0 || i >= s.len() {
        Some(rows)
    } else if s[i] == '[' {
        if in_row {
            None
        } else {
            rows_from(s, i + 1, true, i + 1, rows)
        }
    } else if s[i] == ']' {
        if in_row {
            match float_items(s.subrange(row_start, i)) {
                Some(row) => rows_from(s, i + 1, false, i + 1, rows.push(row)),
                None => None,
            }
        } else {
            None
        }
    } else if in_row || s[i] == ',' || is_space(s[i]) {
        rows_from(s, i + 1, in_row, row_start, rows)
    } else {
        None
    }
}

/// The rows of a matrix one after another.
pub open spec fn flattened(rows: Seq<Seq<u32>>) -> Seq<u32>
    decreases rows.len(),
{
    if rows.len() == 0 {
        Seq::empty()
    } else {
        flattened(rows.drop_last()) + rows.last()
    }
}

/// Whether every row has the given length.
pub open spec fn all_of_length(rows: Seq<Seq<u32>>, n: int) -> bool {
    forall|k: int| 0 <= k < rows.len() ==> (#[trigger] rows[k]).len() == n
}

/// The rows of the matrix a text stands for, such as `[[1, 2], [3, 4]]`.
pub open spec fn matrix_rows(text: Seq<char>) -> Option<Seq<Seq<u32>>> {
    let s = trimmed(text, 0, text.len() as int);
    if is_list(s) {
        rows_from(inside(s), 0, false, 0, Seq::empty())
    } else {
        None
    }
}

/// The matrix a text stands for: the number of its rows, the number of
/// its columns and its numbers row by row. There is at least one row, and
/// every row is as long as the first.
pub open spec fn matrix_text_value(text: Seq<char>) -> Option<(usize, usize, Seq<u32>)> {
    match matrix_rows(text) {
        Some(rows) => if rows.len() > 0 && all_of_length(rows, rows[0].len() as int) {
            Some((rows.len() as usize, rows[0].len() as usize, flattened(rows)))
        } else {
            None
        },
        None => None,
    }
}

/// The rows of the matrix a text stands for: see [`matrix_rows`].
pub fn parse_matrix_rows(text: &str) -> (r: Result<Vec<Vec<u32>>, String>)
    ensures
        match matrix_rows(text@) {
            Some(rows) => r matches Ok(m) && m.deep_view() == rows,
            None => r is Err,
        },
{
    let (cut, all) = trimmed_text(text);
    if !list_shaped(&all) {
        return Err("Matrix must be enclosed in [...]".to_owned());
    }
    let (inner_str, inner) = inner_text(cut, &all);
    let n = inner.len();
    let mut rows: Vec<Vec<u32>> = Vec::new();
    let ghost mut model: Seq<Seq<u32>> = Seq::empty();
    let mut in_row = false;
    let mut row_start: usize = 0;
    let mut i: usize = 0;
    while i < n
        invariant
            inner@ == inner_str@,
            n == inner@.len(),
            i <= n,
            row_start <= i,
            rows@.len() == model.len(),
            forall|j: int| 0 <= j < model.len() ==> (#[trigger] rows@[j])@ == model[j],
            matrix_rows(text@) == rows_from(inner@, i as int, in_row, row_start as int, model),
        decreases n - i,
    {
        let c = inner[i];
        if c == '[' {
            if in_row {
                return Err("Nested arrays not supported beyond 2D".to_owned());
            }
            in_row = true;
            row_start = i + 1;
        } else if c == ']' {
            if !in_row {
                return Err("Unexpected ]".to_owned());
            }
            let piece = inner_str.substring_char(row_start, i);
            match parse_float_items(piece) {
                Ok(row) => {
                    proof {
                        model = model.push(row@);
                    }
                    rows.push(row);
                },
                Err(bad) => {
                    let mut message = "Invalid float: ".to_owned();
                    message.append(bad.as_str());
                    return Err(message);
                },
            }
            in_row = false;
            row_start = i + 1;
        } else if in_row || c == ',' || space(c) {
        } else {
            return Err("Unexpected character between rows".to_owned());
        }
        i += 1;
    }
    proof {
        assert forall|j: int| 0 <= j < model.len() implies #[trigger] rows.deep_view()[j]
            == model[j] by {
            assert(rows.deep_view()[j] =~= rows@[j]@);
        }
        assert(rows.deep_view() =~= model);
    }
    Ok(rows)
}

/// Flattening with one more row.
pub proof fn lemma_flattened_push(rows: Seq<Seq<u32>>, row: Seq<u32>)
    ensures
        flattened(rows.push(row)) == flattened(rows) + row,
{
    assert(rows.push(row).drop_last() =~= rows);
}

/// The matrix a text stands for: see [`matrix_text_value`].
pub fn parse_matrix_values(text: &str) -> (r: Result<(usize, usize, Vec<u32>), String>)
    ensures
        match matrix_text_value(text@) {
            Some((rows, cols, data)) => r matches Ok((m, n, v)) && m == rows && n == cols && v@
                == data,
            None => r is Err,
        },
{
    let rows = match parse_matrix_rows(text) {
        Ok(rows) => rows,
        Err(message) => {
            return Err(message);
        },
    };
    if rows.len() == 0 {
        return Err("Empty matrix".to_owned());
    }
    let cols = rows[0].len();
    let ghost model = rows.deep_view();
    proof {
        assert(model[0] == rows@[0]@);
    }
    let mut data: Vec<u32> = Vec::new();
    let mut k: usize = 0;
    while k < rows.len()
        invariant
            model == rows.deep_view(),
            matrix_rows(text@) == Some(model),
            cols == model[0].len(),
            0 < rows@.len(),
            k <= rows@.len(),
            all_of_length(model.take(k as int), cols as int),
            data@ == flattened(model.take(k as int)),
        decreases rows@.len() - k,
    {
        let row = &rows[k];
        proof {
            assert(model[k as int] == row@);
            assert(model.take(k + 1) =~= model.take(k as int).push(model[k as int]));
            lemma_flattened_push(model.take(k as int), model[k as int]);
        }
        if row.len() != cols {
            proof {
                assert(model[k as int].len() != cols);
            }
            return Err("Row has wrong length".to_owned());
        }
        let mut j: usize = 0;
        while j < row.len()
            invariant
                j <= row@.len(),
                data@ == flattened(model.take(k as int)) + row@.take(j as int),
            decreases row@.len() - j,
        {
            data.push(row[j]);
            proof {
                assert(row@.take(j + 1) =~= row@.take(j as int).push(row@[j as int]));
                assert(data@ =~= flattened(model.take(k as int)) + row@.take(j + 1));
            }
            j += 1;
        }
        proof {
            assert(row@.take(row@.len() as int) =~= row@);
        }
        k += 1;
    }
    proof {
        assert(model.take(rows@.len() as int) =~= model);
    }
    Ok((rows.len(), cols, data))
}

/// Whether a text stands between double quotes.
pub open spec fn is_quoted(s: Seq<char>) -> bool {
    s.len() >= 2 && s[0] == '"' && s[s.len() - 1] == '"'
}

/// Whether a text holds a character.
pub open spec fn has_char(s: Seq<char>, c: char) -> bool {
    char_position(s, c, 0, s.len() as int) < s.len()
}

/// The numbers that the first `n` pieces stand for. An empty piece is
/// passed over. `None` when a piece that is not empty is no number.
pub open spec fn numbers_of(parts: Seq<Seq<char>>, n: int) -> Option<Seq<u32>>
    decreases n,
{
    if n <= 0 {
        Some(Seq::empty())
    } else {
        match numbers_of(parts, n - 1) {
            Some(list) => if parts[n - 1].len() == 0 {
                Some(list)
            } else {
                match float_text_value(parts[n - 1]) {
                    Some(x) => Some(list.push(x)),
                    None => None,
                }
            },
            None => None,
        }
    }
}

/// Whether the first of the pieces begins with a `[`: the pieces are
/// then the rows of a matrix.
pub open spec fn begins_list(parts: Seq<Seq<char>>) -> bool {
    parts.len() > 0 && parts[0].len() > 0 && parts[0][0] == '['
}

/// The row of a matrix that a piece stands for: a list of numbers
/// between square brackets.
pub open spec fn row_of(piece: Seq<char>) -> Option<Seq<u32>> {
    if is_list(piece) {
        let parts = arguments(inside(piece));
        if begins_list(parts) {
            None
        } else {
            numbers_of(parts, parts.len() as int)
        }
    } else {
        None
    }
}

/// The rows that the first `n` pieces stand for.
pub open spec fn rows_of(parts: Seq<Seq<char>>, n: int) -> Option<Seq<Seq<u32>>>
    decreases n,
{
    if n <= 0 {
        Some(Seq::empty())
    } else {
        match rows_of(parts, n - 1) {
            Some(rows) => match row_of(parts[n - 1]) {
                Some(row) => Some(rows.push(row)),
                None => None,
            },
            None => None,
        }
    }
}

/// The vector or the matrix that a text between square brackets stands
/// for. Its pieces are its arguments; when the first of them begins with
/// a `[` every piece is a row of a matrix, else every piece is a number
/// of a vector.
pub open spec fn list_value(s: Seq<char>) -> Option<ValueView> {
    let parts = arguments(inside(s));
    if begins_list(parts) {
        match rows_of(parts, parts.len() as int) {
            Some(rows) => Some(ValueView::Matrix(rows)),
            None => None,
        }
    } else {
        match numbers_of(parts, parts.len() as int) {
            Some(list) => Some(ValueView::Vector(list)),
            None => None,
        }
    }
}

/// The value a text stands for, white space around it aside: text
/// between double quotes; `true` or `false`; a number, when the text
/// holds a point and does not begin with `[`; a vector or a matrix, when
/// it stands between square brackets; an integer otherwise.
pub open spec fn value_of(text: Seq<char>) -> Option<ValueView> {
    let s = trimmed(text, 0, text.len() as int);
    if is_quoted(s) {
        Some(ValueView::String(inside(s)))
    } else if s == "true"@ {
        Some(ValueView::Bool(true))
    } else if s == "false"@ {
        Some(ValueView::Bool(false))
    } else if has_char(s, '.') && !(s.len() > 0 && s[0] == '[') {
        match float_text_value(s) {
            Some(x) => Some(ValueView::Float(x)),
            None => None,
        }
    } else if is_list(s) {
        list_value(s)
    } else {
        match integer_text_value(s) {
            Some(i) => Some(ValueView::Int(i)),
            None => None,
        }
    }
}

/// Whether the first of the pieces begins with a `[`: see [`begins_list`].
pub fn first_begins_list(parts: &Vec<String>) -> (r: bool)
    ensures
        r == begins_list(texts(parts@)),
{
    if parts.len() == 0 {
        return false;
    }
    let first = parts[0].as_str();
    proof {
        assert(texts(parts@)[0] == parts@[0]@);
    }
    first.unicode_len() > 0 && first.get_char(0) == '['
}

/// The numbers that pieces stand for: see [`numbers_of`]. The error is
/// the piece that is no number.
pub fn parse_numbers(parts: &Vec<String>) -> (r: Result<Vec<u32>, String>)
    ensures
        match numbers_of(texts(parts@), parts@.len() as int) {
            Some(list) => r matches Ok(v) && v@ == list,
            None => r is Err,
        },
{
    let mut out: Vec<u32> = Vec::new();
    let mut k: usize = 0;
    while k < parts.len()
        invariant
            k <= parts@.len(),
            numbers_of(texts(parts@), k as int) == Some(out@),
        decreases parts@.len() - k,
    {
        let piece = parts[k].as_str();
        proof {
            assert(texts(parts@)[k as int] == piece@);
        }
        if piece.unicode_len() > 0 {
            match parse_float(piece) {
                Some(x) => out.push(x),
                None => {
                    proof {
                        lemma_numbers_fail(texts(parts@), k + 1, parts@.len() as int);
                    }
                    return Err(piece.to_owned());
                },
            }
        }
        k += 1;
    }
    Ok(out)
}

/// Once the pieces up to a place stand for no numbers, neither do more
/// of them.
pub proof fn lemma_numbers_fail(parts: Seq<Seq<char>>, k: int, n: int)
    requires
        k <= n,
        numbers_of(parts, k) is None,
    ensures
        numbers_of(parts, n) is None,
    decreases n - k,
{
    if k < n {
        lemma_numbers_fail(parts, k, n - 1);
    }
}

/// Once the pieces up to a place stand for no rows, neither do more of
/// them.
pub proof fn lemma_rows_fail(parts: Seq<Seq<char>>, k: int, n: int)
    requires
        k <= n,
        rows_of(parts, k) is None,
    ensures
        rows_of(parts, n) is None,
    decreases n - k,
{
    if k < n {
        lemma_rows_fail(parts, k, n - 1);
    }
}

/// The row of a matrix that a piece stands for: see [`row_of`].
pub fn parse_row(piece: &str) -> (r: Option<Vec<u32>>)
    ensures
        match row_of(piece@) {
            Some(row) => r matches Some(v) && v@ == row,
            None => r is None,
        },
{
    let all = chars_of(piece);
    if !list_shaped(&all) {
        return None;
    }
    let (inner, _) = inner_text(piece, &all);
    let parts = split_args(inner);
    if first_begins_list(&parts) {
        return None;
    }
    match parse_numbers(&parts) {
        Ok(row) => Some(row),
        Err(_) => None,
    }
}

/// The vector or the matrix that a text between square brackets stands
/// for: see [`list_value`]. The error is what is wrong.
pub fn parse_list_value(s: &str, all: &Vec<char>) -> (r: Result<Value, String>)
    requires
        all@ == s@,
        is_list(s@),
    ensures
        match list_value(s@) {
            Some(value) => r matches Ok(v) && v@ == value,
            None => r is Err,
        },
{
    let (inner, _) = inner_text(s, all);
    let parts = split_args(inner);
    if !first_begins_list(&parts) {
        return match parse_numbers(&parts) {
            Ok(list) => Ok(Value::Vector(list)),
            Err(piece) => {
                let mut message = "Invalid vector element: ".to_owned();
                message.append(piece.as_str());
                Err(message)
            },
        };
    }
    let mut rows: Vec<Vec<u32>> = Vec::new();
    let ghost mut model: Seq<Seq<u32>> = Seq::empty();
    let mut k: usize = 0;
    while k < parts.len()
        invariant
            k <= parts@.len(),
            texts(parts@) == arguments(inside(s@)),
            begins_list(texts(parts@)),
            rows@.len() == model.len(),
            forall|j: int| 0 <= j < model.len() ==> (#[trigger] rows@[j])@ == model[j],
            rows_of(texts(parts@), k as int) == Some(model),
        decreases parts@.len() - k,
    {
        let piece = parts[k].as_str();
        proof {
            assert(texts(parts@)[k as int] == piece@);
        }
        match parse_row(piece) {
            Some(row) => {
                proof {
                    model = model.push(row@);
                }
                rows.push(row);
            },
            None => {
                proof {
                    lemma_rows_fail(texts(parts@), k + 1, parts@.len() as int);
                }
                let mut message = "Matrix elements must verify to vectors. Got: ".to_owned();
                message.append(piece);
                return Err(message);
            },
        }
        k += 1;
    }
    proof {
        assert forall|j: int| 0 <= j < model.len() implies #[trigger] rows.deep_view()[j]
            == model[j] by {
            assert(rows.deep_view()[j] =~= rows@[j]@);
        }
        assert(rows.deep_view() =~= model);
    }
    Ok(Value::Matrix(rows))
}

/// The value a text stands for: see [`value_of`].
pub fn parse_single_value(text: &str, line_no: usize) -> (r: Result<Value, DslError>)
    ensures
        match value_of(text@) {
            Some(value) => r matches Ok(v) && v@ == value,
            None => r matches Err(DslError::Parse { line, .. }) && line == line_no,
        },
{
    let (s, all) = trimmed_text(text);
    let n = all.len();
    if n >= 2 && all[0] == '"' && all[n - 1] == '"' {
        let (inner, _) = inner_text(s, &all);
        return Ok(Value::String(inner.to_owned()));
    }
    if is_word(&all, "true") {
        return Ok(Value::Bool(true));
    }
    if is_word(&all, "false") {
        return Ok(Value::Bool(false));
    }
    if find_char(&all, '.', 0, n) < n && !(n > 0 && all[0] == '[') {
        return match parse_float(s) {
            Some(x) => Ok(Value::Float(x)),
            None => Err(refusal(line_no, "Invalid float: ", s, "")),
        };
    }
    if list_shaped(&all) {
        return match parse_list_value(s, &all) {
            Ok(value) => Ok(value),
            Err(message) => Err(DslError::Parse { line: line_no, msg: message }),
        };
    }
    match parse_integer(s) {
        Some(i) => Ok(Value::Int(i)),
        None => Err(refusal(line_no, "Invalid value: ", s, "")),
    }
}

} // verus!
