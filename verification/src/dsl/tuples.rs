//! Reading the values of a row and the columns of a dataset.

use crate::dsl::error::DslError;
use crate::dsl::split::{arguments, depth_change, split_args, texts};
use crate::dsl::types::{
    char_position, find_char, parse_value_type, refusal, uppercase, value_type_of,
};
use crate::dsl::values::{parse_single_value, trimmed_text, value_of};
use crate::tuple::{Field, FieldView, Schema};
use crate::utils::parsing::{chars_of, first_solid, trim_range, trimmed};
use crate::value::{views_of, Value, ValueView};
use vstd::prelude::*;
use vstd::string::StrSliceExecFns;
use vstd::string::StringExecFns;

verus! {

/// Whether a position stands inside text between double quotes: an odd
/// number of double quotes stands before it.
pub open spec fn in_string_before(s: Seq<char>, i: int) -> bool
    decreases i,
{
    if i <= 0 {
        false
    } else {
        in_string_before(s, i - 1) != (s[i - 1] == '"')
    }
}

/// The depth of brackets before a position, brackets between double
/// quotes left out.
pub open spec fn open_depth_before(s: Seq<char>, i: int) -> int
    decreases i,
{
    if i <= 0 {
        0
    } else {
        open_depth_before(s, i - 1) + (if in_string_before(s, i - 1) {
            0
        } else {
            depth_change(s[i - 1])
        })
    }
}

/// Whether a position holds a comma that ends a value: one outside every
/// bracket and outside double quotes.
pub open spec fn is_value_end(s: Seq<char>, i: int) -> bool {
    s[i] == ',' && !in_string_before(s, i) && open_depth_before(s, i) == 0
}

/// The first comma that ends a value at or after `from`, or the length of
/// the text when there is none.
pub open spec fn next_value_end(s: Seq<char>, from: int) -> int
    decreases s.len() - from,
{
    if from < s.len() && !is_value_end(s, from) {
        next_value_end(s, from + 1)
    } else {
        from
    }
}

/// The pieces of a row written from `from` on: the texts between the
/// commas that end values, each without the white space around it. The
/// piece after the last comma counts only when it is not empty.
pub open spec fn pieces_from(s: Seq<char>, from: int) -> Seq<Seq<char>>
    decreases s.len() - from,
{
    let end = next_value_end(s, from);
    let piece = trimmed(s, from, end);
    // The second test never holds; with it the recursion plainly ends.
    if end >= s.len() || end < from {
        if piece.len() == 0 {
            Seq::empty()
        } else {
            seq![piece]
        }
    } else {
        seq![piece] + pieces_from(s, end + 1)
    }
}

/// The first position at or after `from` that does not hold the
/// character.
pub open spec fn run_end(s: Seq<char>, c: char, from: int) -> int
    decreases s.len() - from,
{
    if 0 <= from < s.len() && s[from] == c {
        run_end(s, c, from + 1)
    } else {
        from
    }
}

/// The start of the run of the character that ends at `to`, not before
/// `from`.
pub open spec fn run_start(s: Seq<char>, c: char, from: int, to: int) -> int
    decreases to - from,
{
    if from < to && s[to - 1] == c {
        run_start(s, c, from, to - 1)
    } else {
        to
    }
}

/// The text of a row without what surrounds it: white space, then every
/// `(` at the start and every `)` at the end, then white space again.
pub open spec fn unwrapped(text: Seq<char>) -> Seq<char> {
    let s = trimmed(text, 0, text.len() as int);
    let from = run_end(s, '(', 0);
    let to = run_start(s, ')', from, s.len() as int);
    trimmed(s, from, to)
}

/// The values that the first `n` pieces stand for; `None` when one of
/// them stands for no value.
pub open spec fn values_of(pieces: Seq<Seq<char>>, n: int) -> Option<Seq<ValueView>>
    decreases n,
{
    if n <= 0 {
        Some(Seq::empty())
    } else {
        match values_of(pieces, n - 1) {
            Some(list) => match value_of(pieces[n - 1]) {
                Some(value) => Some(list.push(value)),
                None => None,
            },
            None => None,
        }
    }
}

/// The values of a row written as `(v1, v2, ...)`, of which there must
/// be `count`.
pub open spec fn tuple_values(text: Seq<char>, count: int) -> Option<Seq<ValueView>> {
    let inner = unwrapped(text);
    if inner.len() == 0 {
        None
    } else {
        let pieces = pieces_from(inner, 0);
        match values_of(pieces, pieces.len() as int) {
            Some(list) => if list.len() == count {
                Some(list)
            } else {
                None
            },
            None => None,
        }
    }
}

/// The depth before a position is at most the position, either way.
pub proof fn lemma_open_depth_bounds(s: Seq<char>, i: int)
    requires
        0 <= i,
    ensures
        -i <= open_depth_before(s, i) <= i,
    decreases i,
{
    if i > 0 {
        lemma_open_depth_bounds(s, i - 1);
    }
}

/// Once the pieces up to a place stand for no values, neither do more of
/// them.
pub proof fn lemma_values_fail(pieces: Seq<Seq<char>>, k: int, n: int)
    requires
        k <= n,
        values_of(pieces, k) is None,
    ensures
        values_of(pieces, n) is None,
    decreases n - k,
{
    if k < n {
        lemma_values_fail(pieces, k, n - 1);
    }
}

/// The pieces of a row: see [`pieces_from`].
pub fn split_values(text: &str) -> (r: Vec<String>)
    ensures
        texts(r@) == pieces_from(text@, 0),
{
    let all = chars_of(text);
    let n = all.len();
    let mut out: Vec<String> = Vec::new();
    let mut start: usize = 0;
    let mut depth: i128 = 0;
    let mut in_string = false;
    let mut i: usize = 0;
    proof {
        assert(texts(out@) =~= Seq::<Seq<char>>::empty());
        assert(Seq::<Seq<char>>::empty() + pieces_from(all@, 0) =~= pieces_from(all@, 0));
    }
    while i < n
        invariant
            all@ == text@,
            n == all@.len(),
            start <= i <= n,
            depth == open_depth_before(all@, i as int),
            in_string == in_string_before(all@, i as int),
            next_value_end(all@, start as int) == next_value_end(all@, i as int),
            pieces_from(all@, 0) == texts(out@) + pieces_from(all@, start as int),
        decreases n - i,
    {
        let c = all[i];
        proof {
            lemma_open_depth_bounds(all@, i as int);
            assert(open_depth_before(all@, i + 1) == open_depth_before(all@, i as int) + (
            if in_string_before(all@, i as int) {
                0
            } else {
                depth_change(c)
            }));
            assert(in_string_before(all@, i + 1) == (in_string_before(all@, i as int) != (c
                == '"')));
        }
        if c == '"' {
            in_string = !in_string;
        } else if (c == '[' || c == '(') && !in_string {
            depth = depth + 1;
        } else if (c == ']' || c == ')') && !in_string {
            depth = depth - 1;
        } else if c == ',' && !in_string && depth == 0 {
            let (a, b) = trim_range(&all, start, i);
            let piece = text.substring_char(a, b).to_owned();
            let ghost before = texts(out@);
            out.push(piece);
            proof {
                assert(is_value_end(all@, i as int));
                assert(next_value_end(all@, i as int) == i);
                assert(texts(out@) =~= before.push(piece@));
                assert(before.push(piece@) + pieces_from(all@, i + 1) =~= before + (seq![piece@]
                    + pieces_from(all@, i + 1)));
            }
            start = i + 1;
        }
        i += 1;
    }
    let (a, b) = trim_range(&all, start, n);
    if a < b {
        let piece = text.substring_char(a, b).to_owned();
        let ghost before = texts(out@);
        out.push(piece);
        proof {
            assert(texts(out@) =~= before.push(piece@));
            assert(before.push(piece@) =~= before + seq![piece@]);
        }
    } else {
        proof {
            assert(texts(out@) + Seq::<Seq<char>>::empty() =~= texts(out@));
        }
    }
    out
}

/// Computes [`run_end`].
pub fn skip_run(s: &Vec<char>, c: char, from: usize) -> (r: usize)
    requires
        from <= s@.len(),
    ensures
        r == run_end(s@, c, from as int),
        from <= r <= s@.len(),
{
    let mut i: usize = from;
    while i < s.len() && s[i] == c
        invariant
            from <= i <= s@.len(),
            run_end(s@, c, from as int) == run_end(s@, c, i as int),
        decreases s@.len() - i,
    {
        i += 1;
    }
    i
}

/// Computes [`run_start`].
pub fn drop_run(s: &Vec<char>, c: char, from: usize, to: usize) -> (r: usize)
    requires
        from <= to <= s@.len(),
    ensures
        r == run_start(s@, c, from as int, to as int),
        from <= r <= to,
{
    let mut i: usize = to;
    while i > from && s[i - 1] == c
        invariant
            from <= i <= to <= s@.len(),
            run_start(s@, c, from as int, to as int) == run_start(s@, c, from as int, i as int),
        decreases i - from,
    {
        i -= 1;
    }
    i
}

/// The text of a row without what surrounds it: see [`unwrapped`].
pub fn unwrap_row(text: &str) -> (r: &str)
    ensures
        r@ == unwrapped(text@),
{
    let (s, all) = trimmed_text(text);
    let from = skip_run(&all, '(', 0);
    let to = drop_run(&all, ')', from, all.len());
    let (a, b) = trim_range(&all, from, to);
    s.substring_char(a, b)
}

/// The values that pieces stand for: see [`values_of`].
pub fn parse_values(pieces: &Vec<String>, line_no: usize) -> (r: Result<Vec<Value>, DslError>)
    ensures
        match values_of(texts(pieces@), pieces@.len() as int) {
            Some(list) => r matches Ok(v) && views_of(v@) == list,
            None => r matches Err(DslError::Parse { line, .. }) && line == line_no,
        },
{
    let mut out: Vec<Value> = Vec::new();
    let mut k: usize = 0;
    proof {
        assert(views_of(out@) =~= Seq::<ValueView>::empty());
    }
    while k < pieces.len()
        invariant
            k <= pieces@.len(),
            values_of(texts(pieces@), k as int) == Some(views_of(out@)),
        decreases pieces@.len() - k,
    {
        let piece = pieces[k].as_str();
        proof {
            assert(texts(pieces@)[k as int] == piece@);
        }
        match parse_single_value(piece, line_no) {
            Ok(value) => {
                let ghost before = views_of(out@);
                let ghost added = value@;
                out.push(value);
                proof {
                    assert(views_of(out@) =~= before.push(added));
                }
            },
            Err(e) => {
                proof {
                    lemma_values_fail(texts(pieces@), k + 1, pieces@.len() as int);
                }
                return Err(e);
            },
        }
        k += 1;
    }
    Ok(out)
}

/// The values of a row written as `(v1, v2, ...)`, one for each field of
/// the schema: see [`tuple_values`].
pub fn parse_tuple_values(values_str: &str, schema: &Schema, line_no: usize) -> (r: Result<
    Vec<Value>,
    DslError,
>)
    ensures
        match tuple_values(values_str@, schema@.len() as int) {
            Some(list) => r matches Ok(v) && views_of(v@) == list,
            None => r matches Err(DslError::Parse { line, .. }) && line == line_no,
        },
{
    let inner = unwrap_row(values_str);
    if inner.unicode_len() == 0 {
        return Err(refusal(line_no, "Empty values", "", ""));
    }
    let pieces = split_values(inner);
    let values = match parse_values(&pieces, line_no) {
        Ok(values) => values,
        Err(e) => {
            return Err(e);
        },
    };
    if values.len() != schema.len() {
        let mut msg = "Expected ".to_owned();
        msg.append(crate::text::decimal_text(schema.len()).as_str());
        msg.append(" values, got ");
        msg.append(crate::text::decimal_text(values.len()).as_str());
        return Err(DslError::Parse { line: line_no, msg });
    }
    Ok(values)
}

/// The views of a list of fields.
pub open spec fn field_views(fields: Seq<Field>) -> Seq<FieldView> {
    fields.map_values(|f: Field| f@)
}

/// The column that a definition such as `age: INT` stands for: the name
/// before the first colon and the type after it, each without the white
/// space around it. The column is neither nullable nor lazy.
pub open spec fn field_of(definition: Seq<char>) -> Option<FieldView> {
    let colon = char_position(definition, ':', 0, definition.len() as int);
    if colon >= definition.len() {
        None
    } else {
        match value_type_of(uppercase(trimmed(definition, colon + 1, definition.len() as int))) {
            Some(value_type) => Some(
                FieldView {
                    name: trimmed(definition, 0, colon),
                    value_type,
                    nullable: false,
                    is_lazy: false,
                },
            ),
            None => None,
        }
    }
}

/// The columns that the first `n` definitions stand for.
pub open spec fn fields_of(definitions: Seq<Seq<char>>, n: int) -> Option<Seq<FieldView>>
    decreases n,
{
    if n <= 0 {
        Some(Seq::empty())
    } else {
        match fields_of(definitions, n - 1) {
            Some(list) => match field_of(definitions[n - 1]) {
                Some(field) => Some(list.push(field)),
                None => None,
            },
            None => None,
        }
    }
}

/// The text between a `(` at the start and a `)` at the end, if the text
/// has both; else the text as it is.
pub open spec fn without_brackets(s: Seq<char>) -> Seq<char> {
    if s.len() >= 2 && s[0] == '(' && s[s.len() - 1] == ')' {
        s.subrange(1, s.len() - 1)
    } else {
        s
    }
}

/// The columns written as `(name: TYPE, name: TYPE, ...)`, with or
/// without the brackets. There is at least one.
pub open spec fn column_definitions(text: Seq<char>) -> Option<Seq<FieldView>> {
    let inner = without_brackets(trimmed(text, 0, text.len() as int));
    if first_solid(inner, 0, inner.len() as int) == inner.len() {
        None
    } else {
        let definitions = arguments(inner);
        fields_of(definitions, definitions.len() as int)
    }
}

/// Once the definitions up to a place stand for no columns, neither do
/// more of them.
pub proof fn lemma_fields_fail(definitions: Seq<Seq<char>>, k: int, n: int)
    requires
        k <= n,
        fields_of(definitions, k) is None,
    ensures
        fields_of(definitions, n) is None,
    decreases n - k,
{
    if k < n {
        lemma_fields_fail(definitions, k, n - 1);
    }
}

/// The column that a definition stands for: see [`field_of`].
pub fn parse_field(definition: &str, line_no: usize) -> (r: Result<Field, DslError>)
    ensures
        match field_of(definition@) {
            Some(field) => r matches Ok(f) && f@ == field,
            None => r matches Err(DslError::Parse { line, .. }) && line == line_no,
        },
{
    let all = chars_of(definition);
    let n = all.len();
    let colon = find_char(&all, ':', 0, n);
    if colon >= n {
        return Err(refusal(line_no, "Invalid column definition: ", definition, ""));
    }
    let (a, b) = trim_range(&all, 0, colon);
    let (c, d) = trim_range(&all, colon + 1, n);
    match parse_value_type(definition.substring_char(c, d), line_no) {
        Ok(value_type) => Ok(Field::new(definition.substring_char(a, b), value_type)),
        Err(e) => Err(e),
    }
}

/// The columns of a new dataset: see [`column_definitions`].
pub fn parse_column_definitions(columns_str: &str, line_no: usize) -> (r: Result<
    Vec<Field>,
    DslError,
>)
    ensures
        match column_definitions(columns_str@) {
            Some(list) => r matches Ok(fields) && field_views(fields@) == list,
            None => r matches Err(DslError::Parse { line, .. }) && line == line_no,
        },
{
    let (s, all) = trimmed_text(columns_str);
    let n = all.len();
    let inner = if n >= 2 && all[0] == '(' && all[n - 1] == ')' {
        s.substring_char(1, n - 1)
    } else {
        proof {
            assert(s@.subrange(0, n as int) =~= s@);
        }
        s.substring_char(0, n)
    };
    let inner_chars = chars_of(inner);
    if crate::utils::parsing::skip_spaces(&inner_chars, 0, inner_chars.len())
        == inner_chars.len() {
        return Err(refusal(line_no, "Empty column definition", "", ""));
    }
    let definitions = split_args(inner);
    let mut fields: Vec<Field> = Vec::new();
    let mut k: usize = 0;
    proof {
        assert(field_views(fields@) =~= Seq::<FieldView>::empty());
    }
    while k < definitions.len()
        invariant
            k <= definitions@.len(),
            column_definitions(columns_str@) == fields_of(
                texts(definitions@),
                definitions@.len() as int,
            ),
            fields_of(texts(definitions@), k as int) == Some(field_views(fields@)),
        decreases definitions@.len() - k,
    {
        let definition = definitions[k].as_str();
        proof {
            assert(texts(definitions@)[k as int] == definition@);
        }
        match parse_field(definition, line_no) {
            Ok(field) => {
                let ghost before = field_views(fields@);
                let ghost added = field@;
                fields.push(field);
                proof {
                    assert(field_views(fields@) =~= before.push(added));
                }
            },
            Err(e) => {
                proof {
                    lemma_fields_fail(texts(definitions@), k + 1, definitions@.len() as int);
                }
                return Err(e);
            },
        }
        k += 1;
    }
    Ok(fields)
}

} // verus!
