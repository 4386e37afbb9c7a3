//! The `LET` command: an operation on tensors whose result gets a name.

use crate::dsl::error::DslError;
use crate::dsl::number::{float_text_value, parse_float};
use crate::dsl::output::{answer, engine_answer, refused, says, DslOutput};
use crate::dsl::plans::plain_pieces;
use crate::dsl::split::{infix_parts, parse_infix_op, texts};
use crate::dsl::tensors::{assignment, read_assignment};
use crate::dsl::words::clean;
use crate::dsl::types::{char_position, find_char, is_word, refusal};
use crate::dsl::words::{split_words, trim, words};
use crate::engine::effects::{
    eval_binary_effect, eval_column_access_effect, eval_field_access_effect, eval_index_effect,
    eval_matmul_effect, eval_reshape_effect, eval_slice_effect, eval_stack_effect,
    eval_unary_effect,
};
use crate::engine::kernels::SliceSpec;
use crate::engine::{BinaryOp, EngineError, TensorDb, UnaryOp};
use crate::tensor::Shape;
use crate::utils::parsing::{
    chars_of, next_comma, number_in, parse_usize_list, parsed_list, read_number, trim_range,
    trimmed,
};
use vstd::prelude::*;
use vstd::string::StrSliceExecFns;
use vstd::string::StringExecFns;

verus! {

/// What one piece between the square brackets of an indexing expression
/// says: `*` or `:` takes a whole axis, `a:b` a range of it, and a
/// number one position.
pub open spec fn slice_spec_of(piece: Seq<char>) -> Option<SliceSpec> {
    if piece == "*"@ || piece == ":"@ {
        Some(SliceSpec::All)
    } else {
        let colon = char_position(piece, ':', 0, piece.len() as int);
        if colon < piece.len() {
            if char_position(piece, ':', colon + 1, piece.len() as int) < piece.len() {
                None
            } else {
                let from = trimmed(piece, 0, colon);
                let to = trimmed(piece, colon + 1, piece.len() as int);
                match (number_in(from, 0, from.len() as int), number_in(to, 0, to.len() as int)) {
                    (Some(a), Some(b)) => Some(SliceSpec::Range(a, b)),
                    _ => None,
                }
            }
        } else {
            match number_in(piece, 0, piece.len() as int) {
                Some(i) => Some(SliceSpec::Index(i)),
                None => None,
            }
        }
    }
}

/// What the first `n` pieces say.
pub open spec fn slice_specs_of(pieces: Seq<Seq<char>>, n: int) -> Option<Seq<SliceSpec>>
    decreases n,
{
    if n <= 0 {
        Some(Seq::empty())
    } else {
        match slice_specs_of(pieces, n - 1) {
            Some(list) => match slice_spec_of(pieces[n - 1]) {
                Some(spec) => Some(list.push(spec)),
                None => None,
            },
            None => None,
        }
    }
}

/// The positions of the first `n` specifications, where every one of
/// them takes one position.
pub open spec fn positions_of(specs: Seq<SliceSpec>, n: int) -> Option<Seq<usize>>
    decreases n,
{
    if n <= 0 {
        Some(Seq::empty())
    } else {
        match positions_of(specs, n - 1) {
            Some(list) => match specs[n - 1] {
                SliceSpec::Index(i) => Some(list.push(i)),
                _ => None,
            },
            None => None,
        }
    }
}

/// Where a value for `LET` comes from.
pub enum Source {
    /// An operation on two named tensors.
    Binary { op: BinaryOp, left: Seq<char>, right: Seq<char> },
    /// An operation on one named tensor.
    Unary { unary: UnaryOp, input: Seq<char> },
    /// The product of two named matrices.
    Matmul { left: Seq<char>, right: Seq<char> },
    /// A named tensor in another shape.
    Reshape { input: Seq<char>, dims: Seq<usize> },
    /// Named tensors stacked along a new first axis.
    Stack { inputs: Seq<Seq<char>> },
    /// One element of a named tensor.
    Element { tensor: Seq<char>, indices: Seq<usize> },
    /// A part of a named tensor.
    Slice { tensor: Seq<char>, specs: Seq<SliceSpec> },
    /// A column of a dataset, or a field of its first row.
    Access { object: Seq<char>, field: Seq<char> },
}

/// What an indexing expression such as `m[0, 1]` or `m[0:2, *]` says:
/// the tensor is named before the first `[`, and between it and the
/// first `]` stand the pieces, separated by commas. Where every piece is
/// a number one element is read, else a part is taken.
pub open spec fn indexing_of(expr: Seq<char>) -> Option<Source> {
    let open = char_position(expr, '[', 0, expr.len() as int);
    let close = char_position(expr, ']', 0, expr.len() as int);
    if open < close < expr.len() {
        let pieces = plain_pieces(expr.subrange(open + 1, close), 0);
        match slice_specs_of(pieces, pieces.len() as int) {
            Some(specs) => Some(
                match positions_of(specs, specs.len() as int) {
                    Some(indices) => Source::Element { tensor: trimmed(expr, 0, open), indices },
                    None => Source::Slice { tensor: trimmed(expr, 0, open), specs },
                },
            ),
            None => None,
        }
    } else {
        None
    }
}

/// What `object.field` says. There is exactly one point.
pub open spec fn access_of(expr: Seq<char>) -> Option<Source> {
    let point = char_position(expr, '.', 0, expr.len() as int);
    if point < expr.len() && char_position(expr, '.', point + 1, expr.len() as int) == expr.len() {
        Some(
            Source::Access {
                object: trimmed(expr, 0, point),
                field: trimmed(expr, point + 1, expr.len() as int),
            },
        )
    } else {
        None
    }
}

/// Whether a text holds a character.
pub open spec fn holds_char(s: Seq<char>, c: char) -> bool {
    char_position(s, c, 0, s.len() as int) < s.len()
}

/// Once the pieces up to a place say nothing, neither do more of them.
pub proof fn lemma_specs_fail(pieces: Seq<Seq<char>>, k: int, n: int)
    requires
        k <= n,
        slice_specs_of(pieces, k) is None,
    ensures
        slice_specs_of(pieces, n) is None,
    decreases n - k,
{
    if k < n {
        lemma_specs_fail(pieces, k, n - 1);
    }
}

/// Once the specifications up to a place are not all positions, neither
/// are more of them.
pub proof fn lemma_positions_fail(specs: Seq<SliceSpec>, k: int, n: int)
    requires
        k <= n,
        positions_of(specs, k) is None,
    ensures
        positions_of(specs, n) is None,
    decreases n - k,
{
    if k < n {
        lemma_positions_fail(specs, k, n - 1);
    }
}

/// What one piece of an indexing expression says: see [`slice_spec_of`].
pub fn parse_slice_spec(piece: &str) -> (r: Option<SliceSpec>)
    ensures
        r == slice_spec_of(piece@),
{
    let all = chars_of(piece);
    let n = all.len();
    if is_word(&all, "*") || is_word(&all, ":") {
        return Some(SliceSpec::All);
    }
    let colon = find_char(&all, ':', 0, n);
    if colon < n {
        if find_char(&all, ':', colon + 1, n) < n {
            return None;
        }
        let (a, b) = trim_range(&all, 0, colon);
        let (c, d) = trim_range(&all, colon + 1, n);
        let from = chars_of(piece.substring_char(a, b));
        let to = chars_of(piece.substring_char(c, d));
        match (read_number(&from, 0, from.len()), read_number(&to, 0, to.len())) {
            (Some(x), Some(y)) => Some(SliceSpec::Range(x, y)),
            _ => None,
        }
    } else {
        match read_number(&all, 0, n) {
            Some(i) => Some(SliceSpec::Index(i)),
            None => None,
        }
    }
}

/// The pieces of a list written with commas: see [`plain_pieces`].
pub fn split_plain(text: &str) -> (r: Vec<String>)
    ensures
        texts(r@) == plain_pieces(text@, 0),
{
    let all = chars_of(text);
    let n = all.len();
    let mut out: Vec<String> = Vec::new();
    let mut from: usize = 0;
    proof {
        assert(texts(out@) =~= Seq::<Seq<char>>::empty());
        assert(texts(out@) + plain_pieces(all@, 0) =~= plain_pieces(all@, 0));
    }
    loop
        invariant
            all@ == text@,
            n == all@.len(),
            from <= n,
            plain_pieces(all@, 0) == texts(out@) + plain_pieces(all@, from as int),
        decreases n - from,
    {
        let mut comma: usize = from;
        while comma < n && all[comma] != ','
            invariant
                from <= comma <= n,
                n == all@.len(),
                next_comma(all@, from as int) == next_comma(all@, comma as int),
            decreases n - comma,
        {
            comma += 1;
        }
        let (a, b) = trim_range(&all, from, comma);
        let piece = text.substring_char(a, b).to_owned();
        let ghost before = texts(out@);
        out.push(piece);
        proof {
            assert(texts(out@) =~= before.push(piece@));
        }
        if comma >= n {
            proof {
                assert(before.push(piece@) =~= before + seq![piece@]);
            }
            return out;
        }
        proof {
            assert(before.push(piece@) + plain_pieces(all@, comma + 1) =~= before + (seq![piece@]
                + plain_pieces(all@, comma + 1)));
        }
        from = comma + 1;
    }
}

/// A value for `LET` as read from a command.
pub enum Reading {
    Binary { op: BinaryOp, left: String, right: String },
    Unary { unary: UnaryOp, input: String },
    Matmul { left: String, right: String },
    Reshape { input: String, dims: Vec<usize> },
    Stack { inputs: Vec<String> },
    Element { tensor: String, indices: Vec<usize> },
    Slice { tensor: String, specs: Vec<SliceSpec> },
    Access { object: String, field: String },
}

impl View for Reading {
    type V = Source;

    open spec fn view(&self) -> Source {
        match self {
            Reading::Binary { op, left, right } => Source::Binary {
                op: *op,
                left: left@,
                right: right@,
            },
            Reading::Unary { unary, input } => Source::Unary { unary: *unary, input: input@ },
            Reading::Matmul { left, right } => Source::Matmul { left: left@, right: right@ },
            Reading::Reshape { input, dims } => Source::Reshape { input: input@, dims: dims@ },
            Reading::Stack { inputs } => Source::Stack { inputs: texts(inputs@) },
            Reading::Element { tensor, indices } => Source::Element {
                tensor: tensor@,
                indices: indices@,
            },
            Reading::Slice { tensor, specs } => Source::Slice { tensor: tensor@, specs: specs@ },
            Reading::Access { object, field } => Source::Access {
                object: object@,
                field: field@,
            },
        }
    }
}

/// Whether a value for `LET` was read as the model says.
pub open spec fn read_source_as(r: Result<Reading, DslError>, wanted: Option<Source>, line_no: usize) -> bool {
    match wanted {
        Some(source) => r matches Ok(reading) && reading@ == source,
        None => r matches Err(DslError::Parse { line, .. }) && line == line_no,
    }
}

/// What an indexing expression says: see [`indexing_of`].
pub fn parse_indexing(expr: &str, line_no: usize) -> (r: Result<Reading, DslError>)
    ensures
        read_source_as(r, indexing_of(expr@), line_no),
{
    let all = chars_of(expr);
    let n = all.len();
    let open = find_char(&all, '[', 0, n);
    let close = find_char(&all, ']', 0, n);
    if !(open < close && close < n) {
        return Err(refusal(line_no, "Invalid bracket positions in indexing expression", "", ""));
    }
    let (a, b) = trim_range(&all, 0, open);
    let tensor = expr.substring_char(a, b).to_owned();
    let pieces = split_plain(expr.substring_char(open + 1, close));
    let mut specs: Vec<SliceSpec> = Vec::new();
    let mut k: usize = 0;
    while k < pieces.len()
        invariant
            k <= pieces@.len(),
            indexing_of(expr@) is Some ==> slice_specs_of(texts(pieces@), pieces@.len() as int)
                is Some,
            slice_specs_of(texts(pieces@), pieces@.len() as int) is None ==> indexing_of(expr@)
                is None,
            slice_specs_of(texts(pieces@), k as int) == Some(specs@),
        decreases pieces@.len() - k,
    {
        let piece = pieces[k].as_str();
        proof {
            assert(texts(pieces@)[k as int] == piece@);
        }
        match parse_slice_spec(piece) {
            Some(spec) => specs.push(spec),
            None => {
                proof {
                    lemma_specs_fail(texts(pieces@), k + 1, pieces@.len() as int);
                }
                return Err(refusal(line_no, "Invalid index: ", piece, ""));
            },
        }
        k += 1;
    }
    let mut indices: Vec<usize> = Vec::new();
    let mut j: usize = 0;
    while j < specs.len()
        invariant
            j <= specs@.len(),
            indexing_of(expr@) == Some(
                match positions_of(specs@, specs@.len() as int) {
                    Some(indices) => Source::Element { tensor: tensor@, indices },
                    None => Source::Slice { tensor: tensor@, specs: specs@ },
                },
            ),
            positions_of(specs@, j as int) == Some(indices@),
        decreases specs@.len() - j,
    {
        match specs[j] {
            SliceSpec::Index(i) => indices.push(i),
            _ => {
                proof {
                    lemma_positions_fail(specs@, j + 1, specs@.len() as int);
                }
                return Ok(Reading::Slice { tensor, specs });
            },
        }
        j += 1;
    }
    Ok(Reading::Element { tensor, indices })
}

/// What `object.field` says: see [`access_of`].
pub fn parse_access(expr: &str, line_no: usize) -> (r: Result<Reading, DslError>)
    ensures
        read_source_as(r, access_of(expr@), line_no),
{
    let all = chars_of(expr);
    let n = all.len();
    let point = find_char(&all, '.', 0, n);
    if point >= n || find_char(&all, '.', point + 1, n) != n {
        return Err(refusal(line_no, "Expected: object.field", "", ""));
    }
    let (a, b) = trim_range(&all, 0, point);
    let (c, d) = trim_range(&all, point + 1, n);
    Ok(
        Reading::Access {
            object: expr.substring_char(a, b).to_owned(),
            field: expr.substring_char(c, d).to_owned(),
        },
    )
}

/// Whether a word names an operation that is read before signs, points
/// and brackets are looked for.
pub open spec fn is_operation_word(w: Seq<char>) -> bool {
    w == "ADD"@ || w == "SUBTRACT"@ || w == "MULTIPLY"@ || w == "DIVIDE"@ || w == "CORRELATE"@ || w
        == "SIMILARITY"@ || w == "DISTANCE"@ || w == "MATMUL"@ || w == "TRANSPOSE"@ || w
        == "RESHAPE"@ || w == "STACK"@
}

/// The operation on two tensors that a word names, with the word that
/// stands between the operands, if one does.
pub open spec fn binary_word(w: Seq<char>) -> Option<(BinaryOp, Option<Seq<char>>)> {
    if w == "ADD"@ {
        Some((BinaryOp::Add, None))
    } else if w == "SUBTRACT"@ {
        Some((BinaryOp::Subtract, None))
    } else if w == "MULTIPLY"@ {
        Some((BinaryOp::Multiply, None))
    } else if w == "DIVIDE"@ {
        Some((BinaryOp::Divide, None))
    } else if w == "CORRELATE"@ {
        Some((BinaryOp::Correlate, Some("WITH"@)))
    } else if w == "SIMILARITY"@ {
        Some((BinaryOp::Similarity, Some("WITH"@)))
    } else if w == "DISTANCE"@ {
        Some((BinaryOp::Distance, Some("TO"@)))
    } else {
        None
    }
}

/// The operation on one tensor that a word names.
pub open spec fn unary_word(w: Seq<char>) -> Option<UnaryOp> {
    if w == "NORMALIZE"@ {
        Some(UnaryOp::Normalize)
    } else if w == "TRANSPOSE"@ {
        Some(UnaryOp::Transpose)
    } else if w == "FLATTEN"@ {
        Some(UnaryOp::Flatten)
    } else {
        None
    }
}

/// What an operation written with words says, such as `ADD a b`,
/// `DISTANCE a TO b`, `SCALE a BY 2`, `RESHAPE a TO [2, 3]` or
/// `STACK a b c`. `tokens` are the words of `expr`, of which there is at
/// least one.
pub open spec fn operation_of(expr: Seq<char>, tokens: Seq<Seq<char>>) -> Option<Source> {
    let word = tokens[0];
    match binary_word(word) {
        Some((op, None)) => if tokens.len() == 3 {
            Some(Source::Binary { op, left: tokens[1], right: tokens[2] })
        } else {
            None
        },
        Some((op, Some(between))) => if tokens.len() == 4 && tokens[2] == between {
            Some(Source::Binary { op, left: tokens[1], right: tokens[3] })
        } else {
            None
        },
        None => match unary_word(word) {
            Some(unary) => if tokens.len() == 2 {
                Some(Source::Unary { unary, input: tokens[1] })
            } else {
                None
            },
            None => if word == "SCALE"@ {
                if tokens.len() == 4 && tokens[2] == "BY"@ {
                    match float_text_value(tokens[3]) {
                        Some(factor) => Some(
                            Source::Unary { unary: UnaryOp::Scale(factor), input: tokens[1] },
                        ),
                        None => None,
                    }
                } else {
                    None
                }
            } else if word == "MATMUL"@ {
                if tokens.len() == 3 {
                    Some(Source::Matmul { left: tokens[1], right: tokens[2] })
                } else {
                    None
                }
            } else if word == "RESHAPE"@ {
                if tokens.len() >= 4 && tokens[2] == "TO"@ {
                    match crate::dsl::words::parted(expr, " TO "@) {
                        Some((_, shape)) => match parsed_list(clean(shape)) {
                            Some(dims) => Some(Source::Reshape { input: tokens[1], dims }),
                            None => None,
                        },
                        None => None,
                    }
                } else {
                    None
                }
            } else if word == "STACK"@ {
                if tokens.len() >= 3 {
                    Some(Source::Stack { inputs: tokens.skip(1) })
                } else {
                    None
                }
            } else {
                None
            },
        },
    }
}

/// What stands on the right of `LET name =`.
pub enum LetValue {
    /// Two operands with a sign between them.
    Infix { left: Seq<char>, op: BinaryOp, right: Seq<char> },
    /// Anything else.
    Direct(Source),
}

/// What the right-hand side of a `LET` says. Unless its first word
/// names an operation, it is two operands with a sign between them
/// where it holds a sign outside square brackets, a field or a column
/// where it holds a point and no `[`, and an indexing expression where
/// it holds both square brackets. Everything else is an operation
/// written with words.
pub open spec fn let_value(expr: Seq<char>) -> Option<LetValue> {
    let tokens = words(expr);
    if tokens.len() == 0 {
        None
    } else if !is_operation_word(tokens[0]) && infix_parts(expr) is Some {
        let (left, op, right) = infix_parts(expr).unwrap();
        Some(LetValue::Infix { left, op, right })
    } else if !is_operation_word(tokens[0]) && holds_char(expr, '.') && !holds_char(expr, '[') {
        match access_of(expr) {
            Some(source) => Some(LetValue::Direct(source)),
            None => None,
        }
    } else if !is_operation_word(tokens[0]) && holds_char(expr, '[') && holds_char(expr, ']') {
        match indexing_of(expr) {
            Some(source) => Some(LetValue::Direct(source)),
            None => None,
        }
    } else {
        match operation_of(expr, tokens) {
            Some(source) => Some(LetValue::Direct(source)),
            None => None,
        }
    }
}

/// What `LET name = value` says: the name and the value.
pub open spec fn let_command(line: Seq<char>) -> Option<(Seq<char>, LetValue)> {
    match assignment(line, "LET"@) {
        Some((name, expr)) => match let_value(expr) {
            Some(value) => Some((name, value)),
            None => None,
        },
        None => None,
    }
}

/// Computes [`is_operation_word`].
fn operation_word(w: &Vec<char>) -> (r: bool)
    ensures
        r == is_operation_word(w@),
{
    is_word(w, "ADD") || is_word(w, "SUBTRACT") || is_word(w, "MULTIPLY") || is_word(w, "DIVIDE")
        || is_word(w, "CORRELATE") || is_word(w, "SIMILARITY") || is_word(w, "DISTANCE") || is_word(
        w,
        "MATMUL",
    ) || is_word(w, "TRANSPOSE") || is_word(w, "RESHAPE") || is_word(w, "STACK")
}

/// Computes [`binary_word`]: the operation and the word between the
/// operands.
fn read_binary_word(w: &Vec<char>) -> (r: Option<(BinaryOp, Option<&'static str>)>)
    ensures
        match binary_word(w@) {
            Some((op, between)) => r matches Some((o, b)) && o == op && (match b {
                Some(text) => Some(text@),
                None => None,
            }) == between,
            None => r is None,
        },
{
    if is_word(w, "ADD") {
        Some((BinaryOp::Add, None))
    } else if is_word(w, "SUBTRACT") {
        Some((BinaryOp::Subtract, None))
    } else if is_word(w, "MULTIPLY") {
        Some((BinaryOp::Multiply, None))
    } else if is_word(w, "DIVIDE") {
        Some((BinaryOp::Divide, None))
    } else if is_word(w, "CORRELATE") {
        Some((BinaryOp::Correlate, Some("WITH")))
    } else if is_word(w, "SIMILARITY") {
        Some((BinaryOp::Similarity, Some("WITH")))
    } else if is_word(w, "DISTANCE") {
        Some((BinaryOp::Distance, Some("TO")))
    } else {
        None
    }
}

/// Computes [`unary_word`].
fn read_unary_word(w: &Vec<char>) -> (r: Option<UnaryOp>)
    ensures
        r == unary_word(w@),
{
    if is_word(w, "NORMALIZE") {
        Some(UnaryOp::Normalize)
    } else if is_word(w, "TRANSPOSE") {
        Some(UnaryOp::Transpose)
    } else if is_word(w, "FLATTEN") {
        Some(UnaryOp::Flatten)
    } else {
        None
    }
}

/// The texts of a list of words.
pub open spec fn word_texts(tokens: Seq<&str>) -> Seq<Seq<char>> {
    tokens.map_values(|w: &str| w@)
}

/// What an operation written with words says: see [`operation_of`].
pub fn parse_operation(expr: &str, tokens: &Vec<&str>, line_no: usize) -> (r: Result<
    Reading,
    DslError,
>)
    requires
        tokens@.len() > 0,
    ensures
        read_source_as(r, operation_of(expr@, word_texts(tokens@)), line_no),
{
    let ghost all = word_texts(tokens@);
    let count = tokens.len();
    proof {
        assert forall|k: int| 0 <= k < count implies all[k] == (#[trigger] tokens@[k])@ by {}
    }
    let word = chars_of(tokens[0]);
    match read_binary_word(&word) {
        Some((op, None)) => {
            if count != 3 {
                return Err(refusal(line_no, "Expected two operands after ", tokens[0], ""));
            }
            return Ok(
                Reading::Binary { op, left: tokens[1].to_owned(), right: tokens[2].to_owned() },
            );
        },
        Some((op, Some(between))) => {
            if count != 4 {
                return Err(refusal(line_no, "Expected two operands after ", tokens[0], ""));
            }
            let third = chars_of(tokens[2]);
            if !is_word(&third, between) {
                return Err(refusal(line_no, "Expected two operands after ", tokens[0], ""));
            }
            return Ok(
                Reading::Binary { op, left: tokens[1].to_owned(), right: tokens[3].to_owned() },
            );
        },
        None => {},
    }
    match read_unary_word(&word) {
        Some(unary) => {
            if count != 2 {
                return Err(refusal(line_no, "Expected one operand after ", tokens[0], ""));
            }
            return Ok(Reading::Unary { unary, input: tokens[1].to_owned() });
        },
        None => {},
    }
    if is_word(&word, "SCALE") {
        if count != 4 {
            return Err(refusal(line_no, "Expected: LET x = SCALE a BY <number>", "", ""));
        }
        let third = chars_of(tokens[2]);
        if !is_word(&third, "BY") {
            return Err(refusal(line_no, "Expected: LET x = SCALE a BY <number>", "", ""));
        }
        match parse_float(tokens[3]) {
            Some(factor) => Ok(
                Reading::Unary { unary: UnaryOp::Scale(factor), input: tokens[1].to_owned() },
            ),
            None => Err(refusal(line_no, "Invalid scale factor: ", tokens[3], "")),
        }
    } else if is_word(&word, "MATMUL") {
        if count != 3 {
            return Err(refusal(line_no, "Expected: LET x = MATMUL a b", "", ""));
        }
        Ok(Reading::Matmul { left: tokens[1].to_owned(), right: tokens[2].to_owned() })
    } else if is_word(&word, "RESHAPE") {
        if count < 4 {
            return Err(refusal(line_no, "Expected: LET x = RESHAPE a TO [dims]", "", ""));
        }
        let third = chars_of(tokens[2]);
        if !is_word(&third, "TO") {
            return Err(refusal(line_no, "Expected: LET x = RESHAPE a TO [dims]", "", ""));
        }
        match crate::dsl::words::split_once(expr, " TO ") {
            Some((_, shape)) => match parse_usize_list(trim(shape)) {
                Ok(dims) => Ok(Reading::Reshape { input: tokens[1].to_owned(), dims }),
                Err(msg) => Err(DslError::Parse { line: line_no, msg }),
            },
            None => Err(refusal(line_no, "Expected: LET x = RESHAPE a TO [dims]", "", "")),
        }
    } else if is_word(&word, "STACK") {
        if count < 3 {
            return Err(refusal(line_no, "Expected: LET x = STACK t1 t2 ...", "", ""));
        }
        let mut inputs: Vec<String> = Vec::new();
        let mut k: usize = 1;
        while k < count
            invariant
                count == tokens@.len(),
                all == word_texts(tokens@),
                1 <= k <= count,
                texts(inputs@) == all.subrange(1, k as int),
            decreases count - k,
        {
            let ghost before = texts(inputs@);
            inputs.push(tokens[k].to_owned());
            proof {
                assert(all[k as int] == tokens@[k as int]@);
                assert(texts(inputs@) =~= before.push(tokens@[k as int]@));
                assert(all.subrange(1, k + 1) =~= all.subrange(1, k as int).push(all[k as int]));
            }
            k += 1;
        }
        proof {
            assert(all.subrange(1, count as int) =~= all.skip(1));
        }
        Ok(Reading::Stack { inputs })
    } else {
        Err(refusal(line_no, "Unknown LET operation: ", tokens[0], ""))
    }
}

/// The engine before and after a value for `LET` was made and bound to
/// a name, with the answer of the engine: what the operation of the
/// engine does that the value names. A field is read from a dataset
/// where the object is one, and else asked of the engine as the field of
/// a row.
pub open spec fn source_effect(
    before: &TensorDb,
    after: &TensorDb,
    out: Seq<char>,
    source: Source,
    r: Result<(), EngineError>,
) -> bool {
    match source {
        Source::Binary { op, left, right } => eval_binary_effect(
            before,
            after,
            out,
            left,
            right,
            op,
            r,
        ),
        Source::Unary { unary, input } => eval_unary_effect(before, after, out, input, unary, r),
        Source::Matmul { left, right } => eval_matmul_effect(before, after, out, left, right, r),
        Source::Reshape { input, dims } => eval_reshape_effect(before, after, out, input, dims, r),
        Source::Stack { inputs } => exists|names: Seq<&str>|
            word_texts(names) == inputs && #[trigger] eval_stack_effect(
                before,
                after,
                out,
                names,
                0,
                r,
            ),
        Source::Element { tensor, indices } => eval_index_effect(
            before,
            after,
            out,
            tensor,
            indices,
            r,
        ),
        Source::Slice { tensor, specs } => eval_slice_effect(before, after, out, tensor, specs, r),
        Source::Access { object, field } => if before.active().datasets().by_name(object) is Some {
            eval_column_access_effect(before, after, out, object, field, r)
        } else {
            eval_field_access_effect(before, after, out, object, field, r)
        },
    }
}

/// Makes the value that was read and binds it to a name: see
/// [`source_effect`].
pub fn run_reading(db: &mut TensorDb, out: &str, reading: Reading) -> (r: Result<(), EngineError>)
    ensures
        source_effect(old(db), final(db), out@, reading@, r),
{
    match reading {
        Reading::Binary { op, left, right } => db.eval_binary(
            out,
            left.as_str(),
            right.as_str(),
            op,
        ),
        Reading::Unary { unary, input } => db.eval_unary(out, input.as_str(), unary),
        Reading::Matmul { left, right } => db.eval_matmul(out, left.as_str(), right.as_str()),
        Reading::Reshape { input, dims } => db.eval_reshape(out, input.as_str(), Shape::new(dims)),
        Reading::Stack { inputs } => {
            let mut names: Vec<&str> = Vec::new();
            let mut k: usize = 0;
            while k < inputs.len()
                invariant
                    k <= inputs@.len(),
                    word_texts(names@) == texts(inputs@).take(k as int),
                decreases inputs@.len() - k,
            {
                let ghost before = word_texts(names@);
                names.push(inputs[k].as_str());
                proof {
                    assert(word_texts(names@) =~= before.push(inputs@[k as int]@));
                    assert(texts(inputs@).take(k + 1) =~= texts(inputs@).take(k as int).push(
                        inputs@[k as int]@,
                    ));
                }
                k += 1;
            }
            proof {
                assert(texts(inputs@).take(inputs@.len() as int) =~= texts(inputs@));
            }
            let ghost witness = names@;
            let r = db.eval_stack(out, names, 0);
            proof {
                assert(eval_stack_effect(old(db), db, out@, witness, 0, r));
            }
            r
        },
        Reading::Element { tensor, indices } => db.eval_index(out, tensor.as_str(), indices),
        Reading::Slice { tensor, specs } => db.eval_slice(out, tensor.as_str(), specs),
        Reading::Access { object, field } => {
            if db.get_dataset(object.as_str()).is_ok() {
                db.eval_column_access(out, object.as_str(), field.as_str())
            } else {
                db.eval_field_access(out, object.as_str(), field.as_str())
            }
        },
    }
}

/// What stands on the right of `LET name =`, as read from a command.
pub enum LetReading {
    Infix { left: String, op: BinaryOp, right: String },
    Direct(Reading),
}

impl View for LetReading {
    type V = LetValue;

    open spec fn view(&self) -> LetValue {
        match self {
            LetReading::Infix { left, op, right } => LetValue::Infix {
                left: left@,
                op: *op,
                right: right@,
            },
            LetReading::Direct(reading) => LetValue::Direct(reading@),
        }
    }
}

/// Whether a text holds a character.
pub fn contains_char(all: &Vec<char>, c: char) -> (r: bool)
    ensures
        r == holds_char(all@, c),
{
    find_char(all, c, 0, all.len()) < all.len()
}

/// What the right-hand side of a `LET` says: see [`let_value`].
pub fn parse_let_value(expr: &str, line_no: usize) -> (r: Result<LetReading, DslError>)
    ensures
        match let_value(expr@) {
            Some(value) => r matches Ok(reading) && reading@ == value,
            None => r matches Err(DslError::Parse { line, .. }) && line == line_no,
        },
{
    let tokens = split_words(expr);
    if tokens.len() == 0 {
        return Err(refusal(line_no, "Missing expression in LET", "", ""));
    }
    proof {
        assert(words(expr@)[0] == tokens@[0]@);
        assert(word_texts(tokens@) == words(expr@));
    }
    let first = chars_of(tokens[0]);
    let all = chars_of(expr);
    if !operation_word(&first) {
        match parse_infix_op(expr) {
            Some((left, op, right)) => {
                return Ok(LetReading::Infix { left: left.to_owned(), op, right: right.to_owned() });
            },
            None => {},
        }
        if contains_char(&all, '.') && !contains_char(&all, '[') {
            return match parse_access(expr, line_no) {
                Ok(reading) => Ok(LetReading::Direct(reading)),
                Err(e) => Err(e),
            };
        }
        if contains_char(&all, '[') && contains_char(&all, ']') {
            return match parse_indexing(expr, line_no) {
                Ok(reading) => Ok(LetReading::Direct(reading)),
                Err(e) => Err(e),
            };
        }
    }
    match parse_operation(expr, &tokens, line_no) {
        Ok(reading) => Ok(LetReading::Direct(reading)),
        Err(e) => Err(e),
    }
}

/// The name under which an operand of `a + b` is kept while the sum is
/// made: `_tmp_`, the name of the result, the side and a stamp.
pub open spec fn temp_name(out: Seq<char>, side: Seq<char>, stamp: Seq<char>) -> Seq<char> {
    "_tmp_"@ + out + "_"@ + side + "_"@ + stamp
}

/// Computes [`temp_name`].
fn make_temp_name(out: &str, side: &str, stamp: &str) -> (r: String)
    ensures
        r@ == temp_name(out@, side@, stamp@),
{
    let mut name = "_tmp_".to_owned();
    name.append(out);
    name.append("_");
    name.append(side);
    name.append("_");
    name.append(stamp);
    name
}

/// What an operand of `a + b` says: an indexing expression where it
/// holds a `[` and ends with `]`, a field or a column where it holds a
/// point and no `[`, and else the name of a tensor. `None` when the
/// expression is malformed.
pub open spec fn operand_of(text: Seq<char>) -> Option<Option<Source>> {
    let t = clean(text);
    if holds_char(t, '[') && t.len() > 0 && t[t.len() - 1] == ']' {
        match indexing_of(t) {
            Some(source) => Some(Some(source)),
            None => None,
        }
    } else if holds_char(t, '.') && !holds_char(t, '[') {
        match access_of(t) {
            Some(source) => Some(Some(source)),
            None => None,
        }
    } else {
        Some(None)
    }
}

/// Whether an operand of `a + b` was made ready as it should: a name
/// stays as it is and the engine as it was; anything else is evaluated
/// and bound to the temporary name, which then stands for the operand.
pub open spec fn operand_done(
    before: &TensorDb,
    after: &TensorDb,
    text: Seq<char>,
    temp: Seq<char>,
    r: Result<String, DslError>,
    line_no: usize,
) -> bool {
    match operand_of(text) {
        None => (r matches Err(DslError::Parse { line, .. }) && line == line_no) && *after
            == *before,
        Some(None) => (r matches Ok(name) && name@ == clean(text)) && *after == *before,
        Some(Some(source)) => match r {
            Ok(name) => name@ == temp && source_effect(before, after, temp, source, Ok(())),
            Err(DslError::Engine { line, source: e }) => line == line_no && source_effect(
                before,
                after,
                temp,
                source,
                Err(e),
            ),
            Err(DslError::Parse { .. }) => false,
        },
    }
}

/// Makes an operand of `a + b` ready: see [`operand_done`].
pub fn evaluate_operand(db: &mut TensorDb, text: &str, temp: String, line_no: usize) -> (r: Result<
    String,
    DslError,
>)
    ensures
        operand_done(old(db), final(db), text@, temp@, r, line_no),
{
    let t = trim(text);
    let all = chars_of(t);
    let n = all.len();
    let reading = if contains_char(&all, '[') && n > 0 && all[n - 1] == ']' {
        match parse_indexing(t, line_no) {
            Ok(reading) => reading,
            Err(e) => {
                return Err(e);
            },
        }
    } else if contains_char(&all, '.') && !contains_char(&all, '[') {
        match parse_access(t, line_no) {
            Ok(reading) => reading,
            Err(e) => {
                return Err(e);
            },
        }
    } else {
        return Ok(t.to_owned());
    };
    match run_reading(db, temp.as_str(), reading) {
        Ok(unit) => {
            assert(unit == ());
            Ok(temp)
        },
        Err(e) => Err(DslError::Engine { line: line_no, source: e }),
    }
}

/// Whether `LET out = left sign right` did what it says, by way of two
/// states of the engine between the first and the last: first the left
/// operand is made ready, then the right one, and then the operation is
/// applied to the two. The command ends with the first step that fails.
pub open spec fn infix_done(
    before: &TensorDb,
    middle: &TensorDb,
    then: &TensorDb,
    after: &TensorDb,
    out: Seq<char>,
    left: Seq<char>,
    op: BinaryOp,
    right: Seq<char>,
    stamp: Seq<char>,
    first: Result<String, DslError>,
    second: Result<String, DslError>,
    r: Result<DslOutput, DslError>,
    line_no: usize,
) -> bool {
    &&& operand_done(before, middle, left, temp_name(out, "L"@, stamp), first, line_no)
    &&& match first {
        Err(e) => (r matches Err(x) && x == e) && *after == *middle,
        Ok(left_name) => operand_done(
            middle,
            then,
            right,
            temp_name(out, "R"@, stamp),
            second,
            line_no,
        ) && match second {
            Err(e) => (r matches Err(x) && x == e) && *after == *then,
            Ok(right_name) => eval_binary_effect(
                then,
                after,
                out,
                left_name@,
                right_name@,
                op,
                engine_answer(r),
            ) && says(r, "Defined variable: "@ + out, line_no),
        },
    }
}

/// `LET out = left sign right`, with the stamp that marks the temporary
/// names: see [`infix_done`].
pub fn handle_infix_op(
    db: &mut TensorDb,
    out: &str,
    left: &str,
    op: BinaryOp,
    right: &str,
    stamp: &str,
    line_no: usize,
) -> (r: Result<DslOutput, DslError>)
    ensures
        exists|middle: TensorDb, then: TensorDb, first: Result<String, DslError>, second: Result<
            String,
            DslError,
        >|
            #[trigger] infix_done(
                old(db),
                &middle,
                &then,
                final(db),
                out@,
                left@,
                op,
                right@,
                stamp@,
                first,
                second,
                r,
                line_no,
            ),
{
    let ghost start = *db;
    let first = evaluate_operand(db, left, make_temp_name(out, "L", stamp), line_no);
    let ghost middle = *db;
    let ghost first_model = first;
    let left_name = match first {
        Ok(name) => name,
        Err(e) => {
            let r = Err(e);
            proof {
                assert(infix_done(
                    &start,
                    &middle,
                    &middle,
                    db,
                    out@,
                    left@,
                    op,
                    right@,
                    stamp@,
                    first_model,
                    first_model,
                    r,
                    line_no,
                ));
            }
            return r;
        },
    };
    let second = evaluate_operand(db, right, make_temp_name(out, "R", stamp), line_no);
    let ghost then = *db;
    let ghost second_model = second;
    let right_name = match second {
        Ok(name) => name,
        Err(e) => {
            let r = Err(e);
            proof {
                assert(infix_done(
                    &start,
                    &middle,
                    &then,
                    db,
                    out@,
                    left@,
                    op,
                    right@,
                    stamp@,
                    first_model,
                    second_model,
                    r,
                    line_no,
                ));
            }
            return r;
        },
    };
    let done = db.eval_binary(out, left_name.as_str(), right_name.as_str(), op);
    let r = answer(done, "Defined variable: ", out, line_no);
    proof {
        assert(infix_done(
            &start,
            &middle,
            &then,
            db,
            out@,
            left@,
            op,
            right@,
            stamp@,
            first_model,
            second_model,
            r,
            line_no,
        ));
    }
    r
}

/// Whether `LET out = left sign right` did what it says: as
/// [`infix_done`] says, for some stamp, some states of the engine in
/// between and some outcomes of the two operands.
pub open spec fn infix_handled(
    before: &TensorDb,
    after: &TensorDb,
    out: Seq<char>,
    left: Seq<char>,
    op: BinaryOp,
    right: Seq<char>,
    r: Result<DslOutput, DslError>,
    line_no: usize,
) -> bool {
    exists|
        stamp: Seq<char>,
        middle: TensorDb,
        then: TensorDb,
        first: Result<String, DslError>,
        second: Result<String, DslError>,
    |
        #[trigger] infix_done(
            before,
            &middle,
            &then,
            after,
            out,
            left,
            op,
            right,
            stamp,
            first,
            second,
            r,
            line_no,
        )
}

/// Whether a `LET` did what it says. Where the text says nothing the
/// command is refused and the engine stays as it was. Two operands with
/// a sign between them are handled as [`infix_done`] says, with some
/// stamp for the temporary names. Every other value is made and bound as
/// [`source_effect`] says, and the answer names the variable.
pub open spec fn let_done(
    before: &TensorDb,
    after: &TensorDb,
    r: Result<DslOutput, DslError>,
    wanted: Option<(Seq<char>, LetValue)>,
    line_no: usize,
) -> bool {
    match wanted {
        None => refused(r, line_no) && *after == *before,
        Some((out, LetValue::Direct(source))) => source_effect(
            before,
            after,
            out,
            source,
            engine_answer(r),
        ) && says(r, "Defined variable: "@ + out, line_no),
        Some((out, LetValue::Infix { left, op, right })) => infix_handled(
            before,
            after,
            out,
            left,
            op,
            right,
            r,
            line_no,
        ),
    }
}

/// What [`handle_let`] does: the engine before and after the command, and
/// the answer.
pub open spec fn let_handled(
    before: &TensorDb,
    after: &TensorDb,
    line: Seq<char>,
    r: Result<DslOutput, DslError>,
    line_no: usize,
) -> bool {
    &&& (let_done(before, after, r, let_command(line), line_no))
}

/// `LET name = value`: see [`let_command`] and [`let_done`].
pub fn handle_let(db: &mut TensorDb, line: &str, line_no: usize) -> (r: Result<DslOutput, DslError>)
    ensures
        let_handled(old(db), final(db), line@, r, line_no),
{
    let (out, expr) = match read_assignment(
        line,
        "LET",
        "Expected: LET <name> = ...",
        "Missing output name in LET",
        line_no,
    ) {
        Ok(parts) => parts,
        Err(e) => {
            return Err(e);
        },
    };
    match parse_let_value(expr, line_no) {
        Ok(LetReading::Direct(reading)) => {
            let done = run_reading(db, out, reading);
            answer(done, "Defined variable: ", out, line_no)
        },
        Ok(LetReading::Infix { left, op, right }) => {
            let stamp = crate::dataset::now_micros().to_string();
            let r = handle_infix_op(
                db,
                out,
                left.as_str(),
                op,
                right.as_str(),
                stamp.as_str(),
                line_no,
            );
            proof {
                let (middle, then, first, second) = choose|
                    middle: TensorDb,
                    then: TensorDb,
                    first: Result<String, DslError>,
                    second: Result<String, DslError>,
                |
                    #[trigger] infix_done(
                        old(db),
                        &middle,
                        &then,
                        db,
                        out@,
                        left@,
                        op,
                        right@,
                        stamp@,
                        first,
                        second,
                        r,
                        line_no,
                    );
                assert(infix_done(
                    old(db),
                    &middle,
                    &then,
                    db,
                    out@,
                    left@,
                    op,
                    right@,
                    stamp@,
                    first,
                    second,
                    r,
                    line_no,
                ));
            }
            assert(let_command(line@) == Some(
                (out@, LetValue::Infix { left: left@, op, right: right@ }),
            ));
            assert(infix_handled(old(db), db, out@, left@, op, right@, r, line_no));
            r
        },
        Err(e) => Err(e),
    }
}

} // verus!
