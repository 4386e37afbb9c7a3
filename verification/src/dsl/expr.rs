//! Reading conditions, expressions and the items of a selection.

use crate::dsl::error::DslError;
use crate::dsl::split::{arguments, find_from, find_in, lemma_find_from, split_args, texts};
use crate::dsl::types::{char_position, find_char, is_word, refusal, to_upper, uppercase};
use crate::dsl::values::{inside, parse_single_value, trimmed_text, value_of};
use crate::query::logical::{expr_views, AggregateFunction, Expr, ExprView};
use crate::utils::parsing::{chars_of, first_solid, last_solid, trim_range, trimmed};
use crate::value::{Value, ValueView};
use vstd::prelude::*;
use vstd::string::StrSliceExecFns;

verus! {

/// The sign of a comparison that a condition is taken apart at, with
/// the place where it stands: the first of `>=`, `<=`, `!=`, `=`, `>` and
/// `<`, in this order, that stands in the text at all, at the first place
/// where it stands.
pub open spec fn comparison_sign(s: Seq<char>) -> Option<(Seq<char>, int)> {
    if find_from(s, ">="@, 0) is Some {
        Some((">="@, find_from(s, ">="@, 0).unwrap()))
    } else if find_from(s, "<="@, 0) is Some {
        Some(("<="@, find_from(s, "<="@, 0).unwrap()))
    } else if find_from(s, "!="@, 0) is Some {
        Some(("!="@, find_from(s, "!="@, 0).unwrap()))
    } else if find_from(s, "="@, 0) is Some {
        Some(("="@, find_from(s, "="@, 0).unwrap()))
    } else if find_from(s, ">"@, 0) is Some {
        Some((">"@, find_from(s, ">"@, 0).unwrap()))
    } else if find_from(s, "<"@, 0) is Some {
        Some(("<"@, find_from(s, "<"@, 0).unwrap()))
    } else {
        None
    }
}

/// The column, the sign and the value of a condition such as
/// `age >= 30`.
pub open spec fn condition_of(s: Seq<char>) -> Option<(Seq<char>, Seq<char>, ValueView)> {
    match comparison_sign(s) {
        Some((sign, at)) => match value_of(s.skip(at + sign.len())) {
            Some(value) => Some((trimmed(s, 0, at), sign, value)),
            None => None,
        },
        None => None,
    }
}

/// Where a sign stands in a text, if it does.
fn sign_place(all: &Vec<char>, sign: &str) -> (r: Option<(usize, usize)>)
    ensures
        r matches Some((at, len)) ==> find_from(all@, sign@, 0) == Some(at as int) && len
            == sign@.len() && at + len <= all@.len(),
        r is None ==> find_from(all@, sign@, 0) is None,
{
    let letters = chars_of(sign);
    match find_in(all, &letters) {
        Some(at) => Some((at, letters.len())),
        None => None,
    }
}

/// The column, the sign and the value of a condition: see
/// [`condition_of`].
pub fn parse_filter_condition(s: &str, line_no: usize) -> (r: Result<
    (String, String, Value),
    DslError,
>)
    ensures
        match condition_of(s@) {
            Some((column, sign, value)) => r matches Ok((c, o, v)) && c@ == column && o@ == sign
                && v@ == value,
            None => r matches Err(DslError::Parse { line, .. }) && line == line_no,
        },
{
    let all = chars_of(s);
    let n = all.len();
    let mut found: Option<(usize, usize)> = sign_place(&all, ">=");
    if found.is_none() {
        found = sign_place(&all, "<=");
    }
    if found.is_none() {
        found = sign_place(&all, "!=");
    }
    if found.is_none() {
        found = sign_place(&all, "=");
    }
    if found.is_none() {
        found = sign_place(&all, ">");
    }
    if found.is_none() {
        found = sign_place(&all, "<");
    }
    match found {
        Some((at, len)) => {
            let (a, b) = trim_range(&all, 0, at);
            let sign = s.substring_char(at, at + len);
            let rest = s.substring_char(at + len, n);
            proof {
                assert(rest@ =~= s@.skip(at + len));
                assert(comparison_sign(s@) matches Some((g, p)) && p == at && g.len() == len);
                assert(sign@ =~= comparison_sign(s@).unwrap().0) by {
                    lemma_find_from(s@, comparison_sign(s@).unwrap().0, 0);
                }
            }
            match parse_single_value(rest, line_no) {
                Ok(value) => Ok((s.substring_char(a, b).to_owned(), sign.to_owned(), value)),
                Err(e) => Err(e),
            }
        },
        None => Err(refusal(line_no, "Invalid filter condition: ", s, "")),
    }
}

/// The predicate of a condition: the column compared with the value.
pub open spec fn predicate_of(s: Seq<char>) -> Option<ExprView> {
    match condition_of(s) {
        Some((column, sign, value)) => Some(
            ExprView::BinaryExpr {
                left: Box::new(ExprView::Column(column)),
                op: sign,
                right: Box::new(ExprView::Literal(value)),
            },
        ),
        None => None,
    }
}

/// The predicate of a condition: see [`predicate_of`].
pub fn parse_predicate(s: &str, line_no: usize) -> (r: Result<Expr, DslError>)
    ensures
        match predicate_of(s@) {
            Some(predicate) => r matches Ok(e) && e@ == predicate,
            None => r matches Err(DslError::Parse { line, .. }) && line == line_no,
        },
{
    proof {
        reveal_with_fuel(Expr::model, 3);
    }
    match parse_filter_condition(s, line_no) {
        Ok((column, sign, value)) => Ok(
            Expr::BinaryExpr {
                left: Box::new(Expr::Column(column)),
                op: sign,
                right: Box::new(Expr::Literal(value)),
            },
        ),
        Err(e) => Err(e),
    }
}

/// What a character adds to the depth of round brackets when a text is
/// read from its end.
pub open spec fn round_change(c: char) -> int {
    if c == ')' {
        1
    } else if c == '(' {
        -1
    } else {
        0
    }
}

/// The depth of round brackets behind a position: brackets closed less
/// brackets opened among the characters that follow it.
pub open spec fn depth_behind(s: Seq<char>, i: int) -> int
    decreases s.len() - i,
{
    if i + 1 >= s.len() {
        0
    } else {
        depth_behind(s, i + 1) + round_change(s[i + 1])
    }
}

/// Whether a position holds one of two signs outside round brackets.
pub open spec fn is_outer_sign(s: Seq<char>, i: int, first: char, second: char) -> bool {
    (s[i] == first || s[i] == second) && depth_behind(s, i) == 0
}

/// The last position before `to` that holds one of two signs outside
/// round brackets, or `-1` when there is none.
pub open spec fn last_outer_sign(s: Seq<char>, to: int, first: char, second: char) -> int
    decreases to,
{
    if to <= 0 {
        -1
    } else if is_outer_sign(s, to - 1, first, second) {
        to - 1
    } else {
        last_outer_sign(s, to - 1, first, second)
    }
}

/// The expression a text stands for, read as a sum: the text is taken
/// apart at its last `+` or `-` outside round brackets, into a sum before
/// the sign and a product after it. Nothing before the sign is an error.
/// Without such a sign the text is a product.
pub open spec fn sum_of(s: Seq<char>) -> Option<ExprView>
    decreases s.len(), 2int,
{
    let at = last_outer_sign(s, s.len() as int, '+', '-');
    if 0 <= at < s.len() {
        let left = trimmed(s, 0, at);
        let right = trimmed(s, at + 1, s.len() as int);
        // The lengths are always smaller; the test shows that the recursion ends.
        if left.len() == 0 || left.len() >= s.len() || right.len() >= s.len() {
            None
        } else {
            match (sum_of(left), product_of(right)) {
                (Some(l), Some(r)) => Some(
                    ExprView::BinaryExpr { left: Box::new(l), op: seq![s[at]], right: Box::new(r) },
                ),
                _ => None,
            }
        }
    } else {
        product_of(s)
    }
}

/// The expression a text stands for, read as a product: the text is
/// taken apart at its last `*` or `/` outside round brackets, into a
/// product before the sign and a factor after it. Without such a sign the
/// text is a factor.
pub open spec fn product_of(s: Seq<char>) -> Option<ExprView>
    decreases s.len(), 1int,
{
    let at = last_outer_sign(s, s.len() as int, '*', '/');
    if 0 <= at < s.len() {
        let left = trimmed(s, 0, at);
        let right = trimmed(s, at + 1, s.len() as int);
        // The lengths are always smaller; the test shows that the recursion ends.
        if left.len() >= s.len() || right.len() >= s.len() {
            None
        } else {
            match (product_of(left), factor_of(right)) {
                (Some(l), Some(r)) => Some(
                    ExprView::BinaryExpr { left: Box::new(l), op: seq![s[at]], right: Box::new(r) },
                ),
                _ => None,
            }
        }
    } else {
        factor_of(s)
    }
}

/// The expression a text stands for, read as a factor, white space
/// around it aside: an expression between round brackets, a constant
/// where the text stands for a value, and else the column of that name.
pub open spec fn factor_of(s: Seq<char>) -> Option<ExprView>
    decreases s.len(), 0int,
{
    let t = trimmed(s, 0, s.len() as int);
    if t.len() >= 2 && t[0] == '(' && t[t.len() - 1] == ')' {
        // The length is always smaller; the test shows that the recursion ends.
        if t.len() - 2 < s.len() {
            sum_of(inside(t))
        } else {
            None
        }
    } else {
        match value_of(t) {
            Some(value) => Some(ExprView::Literal(value)),
            None => Some(ExprView::Column(t)),
        }
    }
}

/// The expression a text stands for: an arithmetic expression over
/// columns and constants with `+`, `-`, `*`, `/` and round brackets.
pub open spec fn expression_of(s: Seq<char>) -> Option<ExprView> {
    sum_of(s)
}

/// Computes [`last_outer_sign`]: the place of the sign, if there is one.
pub fn find_outer_sign(all: &Vec<char>, first: char, second: char) -> (r: Option<usize>)
    requires
        first != '(' && first != ')' && second != '(' && second != ')',
    ensures
        r matches Some(at) ==> last_outer_sign(all@, all@.len() as int, first, second) == at && at
            < all@.len() && (all@[at as int] == first || all@[at as int] == second),
        r is None ==> last_outer_sign(all@, all@.len() as int, first, second) == -1,
{
    let n = all.len();
    let mut i: usize = n;
    let mut depth: i128 = 0;
    while i > 0
        invariant
            first != '(' && first != ')' && second != '(' && second != ')',
            n == all@.len(),
            i <= n,
            -(n - i) <= depth <= n - i,
            i > 0 ==> depth == depth_behind(all@, i - 1),
            last_outer_sign(all@, n as int, first, second) == last_outer_sign(
                all@,
                i as int,
                first,
                second,
            ),
        decreases i,
    {
        i -= 1;
        let c = all[i];
        let ghost behind = depth;
        proof {
            assert(behind == depth_behind(all@, i as int));
        }
        if c == ')' {
            depth = depth + 1;
        } else if c == '(' {
            depth = depth - 1;
        } else if depth == 0 && (c == first || c == second) {
            proof {
                assert(is_outer_sign(all@, i as int, first, second));
            }
            return Some(i);
        }
        proof {
            assert(!is_outer_sign(all@, i as int, first, second));
            assert(last_outer_sign(all@, i + 1, first, second) == last_outer_sign(
                all@,
                i as int,
                first,
                second,
            ));
            if i > 0 {
                assert(depth_behind(all@, i - 1) == depth_behind(all@, i as int) + round_change(
                    all@[i as int],
                ));
            }
        }
    }
    None
}

/// A parse error of an expression, or the expression.
pub open spec fn read_as(r: Result<Expr, DslError>, wanted: Option<ExprView>, line_no: usize) -> bool {
    match wanted {
        Some(e) => r matches Ok(x) && x@ == e,
        None => r matches Err(DslError::Parse { line, .. }) && line == line_no,
    }
}

/// The expression a text stands for, read as a sum: see [`sum_of`].
pub fn parse_expr_add_sub(s: &str, line_no: usize) -> (r: Result<Expr, DslError>)
    ensures
        read_as(r, sum_of(s@), line_no),
    decreases s@.len(), 2int,
{
    let all = chars_of(s);
    let n = all.len();
    match find_outer_sign(&all, '+', '-') {
        Some(at) => {
            let (a, b) = trim_range(&all, 0, at);
            let (c, d) = trim_range(&all, at + 1, n);
            let left_str = s.substring_char(a, b);
            let right_str = s.substring_char(c, d);
            if a == b {
                return Err(refusal(line_no, "Unary operators are not supported", "", ""));
            }
            let left = match parse_expr_add_sub(left_str, line_no) {
                Ok(e) => e,
                Err(e) => {
                    return Err(e);
                },
            };
            let right = match parse_term_mul_div(right_str, line_no) {
                Ok(e) => e,
                Err(e) => {
                    return Err(e);
                },
            };
            let op = s.substring_char(at, at + 1).to_owned();
            proof {
                reveal_with_fuel(Expr::model, 2);
                assert(op@ =~= seq![s@[at as int]]);
            }
            Ok(Expr::BinaryExpr { left: Box::new(left), op, right: Box::new(right) })
        },
        None => parse_term_mul_div(s, line_no),
    }
}

/// The expression a text stands for, read as a product: see
/// [`product_of`].
pub fn parse_term_mul_div(s: &str, line_no: usize) -> (r: Result<Expr, DslError>)
    ensures
        read_as(r, product_of(s@), line_no),
    decreases s@.len(), 1int,
{
    let all = chars_of(s);
    let n = all.len();
    match find_outer_sign(&all, '*', '/') {
        Some(at) => {
            let (a, b) = trim_range(&all, 0, at);
            let (c, d) = trim_range(&all, at + 1, n);
            let left_str = s.substring_char(a, b);
            let right_str = s.substring_char(c, d);
            let left = match parse_term_mul_div(left_str, line_no) {
                Ok(e) => e,
                Err(e) => {
                    return Err(e);
                },
            };
            let right = match parse_factor(right_str, line_no) {
                Ok(e) => e,
                Err(e) => {
                    return Err(e);
                },
            };
            let op = s.substring_char(at, at + 1).to_owned();
            proof {
                reveal_with_fuel(Expr::model, 2);
                assert(op@ =~= seq![s@[at as int]]);
            }
            Ok(Expr::BinaryExpr { left: Box::new(left), op, right: Box::new(right) })
        },
        None => parse_factor(s, line_no),
    }
}

/// The expression a text stands for, read as a factor: see
/// [`factor_of`].
pub fn parse_factor(s: &str, line_no: usize) -> (r: Result<Expr, DslError>)
    ensures
        read_as(r, factor_of(s@), line_no),
    decreases s@.len(), 0int,
{
    let (t, all) = trimmed_text(s);
    let n = all.len();
    proof {
        lemma_trimmed_len(s@, 0, s@.len() as int);
    }
    if n >= 2 && all[0] == '(' && all[n - 1] == ')' {
        let inner = t.substring_char(1, n - 1);
        return parse_expr_add_sub(inner, line_no);
    }
    proof {
        reveal_with_fuel(Expr::model, 2);
    }
    match parse_single_value(t, line_no) {
        Ok(value) => Ok(Expr::Literal(value)),
        Err(_) => Ok(Expr::Column(t.to_owned())),
    }
}

/// A text without the white space around it is no longer than the text.
pub proof fn lemma_trimmed_len(s: Seq<char>, from: int, to: int)
    requires
        0 <= from <= to <= s.len(),
    ensures
        trimmed(s, from, to).len() <= to - from,
{
    lemma_first_solid(s, from, to);
    lemma_last_solid(s, first_solid(s, from, to), to);
}

/// Where the text begins after its white space.
pub proof fn lemma_first_solid(s: Seq<char>, from: int, to: int)
    requires
        from <= to,
    ensures
        from <= first_solid(s, from, to) <= to,
    decreases to - from,
{
    if from < to && crate::utils::parsing::is_space(s[from]) {
        lemma_first_solid(s, from + 1, to);
    }
}

/// Where the text ends before its white space.
pub proof fn lemma_last_solid(s: Seq<char>, from: int, to: int)
    requires
        from <= to,
    ensures
        from <= last_solid(s, from, to) <= to,
    decreases to - from,
{
    if from < to && crate::utils::parsing::is_space(s[to - 1]) {
        lemma_last_solid(s, from, to - 1);
    }
}

/// The expression a text stands for: see [`expression_of`].
pub fn parse_expression(s: &str, line_no: usize) -> (r: Result<Expr, DslError>)
    ensures
        read_as(r, expression_of(s@), line_no),
{
    parse_expr_add_sub(s, line_no)
}

/// The aggregate that a name in upper case stands for.
pub open spec fn aggregate_named(upper: Seq<char>) -> Option<AggregateFunction> {
    if upper == "SUM"@ {
        Some(AggregateFunction::Sum)
    } else if upper == "AVG"@ {
        Some(AggregateFunction::Avg)
    } else if upper == "COUNT"@ {
        Some(AggregateFunction::Count)
    } else if upper == "MIN"@ {
        Some(AggregateFunction::Min)
    } else if upper == "MAX"@ {
        Some(AggregateFunction::Max)
    } else {
        None
    }
}

/// The aggregate that a name in upper case stands for: see
/// [`aggregate_named`].
pub fn aggregate_function(upper: &str) -> (r: Option<AggregateFunction>)
    ensures
        r == aggregate_named(upper@),
{
    let all = chars_of(upper);
    if is_word(&all, "SUM") {
        Some(AggregateFunction::Sum)
    } else if is_word(&all, "AVG") {
        Some(AggregateFunction::Avg)
    } else if is_word(&all, "COUNT") {
        Some(AggregateFunction::Count)
    } else if is_word(&all, "MIN") {
        Some(AggregateFunction::Min)
    } else if is_word(&all, "MAX") {
        Some(AggregateFunction::Max)
    } else {
        None
    }
}

/// The aggregate an item calls, if it has the form `NAME(...)` with the
/// name of an aggregate in upper or lower case: the text before the
/// first `(` names the aggregate, and the item ends with `)`.
pub open spec fn called_aggregate(item: Seq<char>) -> Option<AggregateFunction> {
    let open = char_position(item, '(', 0, item.len() as int);
    if open < item.len() && item[item.len() - 1] == ')' {
        aggregate_named(uppercase(trimmed(item, 0, open)))
    } else {
        None
    }
}

/// The expression that an item of a selection stands for: `*` is the
/// column of that name; an aggregate called with `*` counts the constant
/// one, and called with anything else takes that expression; every other
/// item is an expression.
pub open spec fn item_of(item: Seq<char>) -> Option<ExprView> {
    if item == "*"@ {
        Some(ExprView::Column("*"@))
    } else {
        match called_aggregate(item) {
            Some(func) => {
                let open = char_position(item, '(', 0, item.len() as int);
                let content = trimmed(item, open + 1, item.len() - 1);
                if content == "*"@ {
                    Some(
                        ExprView::AggregateExpr {
                            func,
                            expr: Box::new(ExprView::Literal(ValueView::Int(1))),
                        },
                    )
                } else {
                    match expression_of(content) {
                        Some(e) => Some(ExprView::AggregateExpr { func, expr: Box::new(e) }),
                        None => None,
                    }
                }
            },
            None => expression_of(item),
        }
    }
}

/// The expressions that the first `n` items stand for.
pub open spec fn items_of(items: Seq<Seq<char>>, n: int) -> Option<Seq<ExprView>>
    decreases n,
{
    if n <= 0 {
        Some(Seq::empty())
    } else {
        match items_of(items, n - 1) {
            Some(list) => match item_of(items[n - 1]) {
                Some(e) => Some(list.push(e)),
                None => None,
            },
            None => None,
        }
    }
}

/// The items of a selection such as `name, SUM(price * 2), *`. There is
/// at least one character that is not white space.
pub open spec fn select_items(text: Seq<char>) -> Option<Seq<ExprView>> {
    let s = trimmed(text, 0, text.len() as int);
    if s.len() == 0 {
        None
    } else {
        let items = arguments(s);
        items_of(items, items.len() as int)
    }
}

/// Once the items up to a place stand for no expressions, neither do
/// more of them.
pub proof fn lemma_items_fail(items: Seq<Seq<char>>, k: int, n: int)
    requires
        k <= n,
        items_of(items, k) is None,
    ensures
        items_of(items, n) is None,
    decreases n - k,
{
    if k < n {
        lemma_items_fail(items, k, n - 1);
    }
}

/// The expression that an item of a selection stands for, given the
/// name before its first `(` in upper case: see [`item_of`].
pub fn parse_item_named(item: &str, upper_name: Option<String>, line_no: usize) -> (r: Result<
    Expr,
    DslError,
>)
    requires
        ({
            let open = char_position(item@, '(', 0, item@.len() as int);
            match upper_name {
                Some(name) => open < item@.len() && name@ == uppercase(trimmed(item@, 0, open)),
                None => open >= item@.len(),
            }
        }),
    ensures
        read_as(r, item_of(item@), line_no),
{
    let all = chars_of(item);
    let n = all.len();
    proof {
        reveal_with_fuel(Expr::model, 3);
    }
    if is_word(&all, "*") {
        return Ok(Expr::Column("*".to_owned()));
    }
    let func = match upper_name {
        Some(name) => if all[n - 1] == ')' {
            aggregate_function(name.as_str())
        } else {
            None
        },
        None => None,
    };
    match func {
        Some(func) => {
            let open = find_char(&all, '(', 0, n);
            let (a, b) = trim_range(&all, open + 1, n - 1);
            let content = item.substring_char(a, b);
            let content_chars = chars_of(content);
            let inner = if is_word(&content_chars, "*") {
                Expr::Literal(Value::Int(1))
            } else {
                match parse_expression(content, line_no) {
                    Ok(e) => e,
                    Err(e) => {
                        return Err(e);
                    },
                }
            };
            Ok(Expr::AggregateExpr { func, expr: Box::new(inner) })
        },
        None => parse_expression(item, line_no),
    }
}

/// The expression that an item of a selection stands for: see
/// [`item_of`].
pub fn parse_select_item(item: &str, line_no: usize) -> (r: Result<Expr, DslError>)
    ensures
        read_as(r, item_of(item@), line_no),
{
    let all = chars_of(item);
    let open = find_char(&all, '(', 0, all.len());
    if open < all.len() {
        let (a, b) = trim_range(&all, 0, open);
        let upper = to_upper(item.substring_char(a, b));
        parse_item_named(item, Some(upper), line_no)
    } else {
        parse_item_named(item, None, line_no)
    }
}

/// The items of a selection: see [`select_items`].
pub fn parse_select_items(s: &str, line_no: usize) -> (r: Result<Vec<Expr>, DslError>)
    ensures
        match select_items(s@) {
            Some(list) => r matches Ok(exprs) && expr_views(exprs@) == list,
            None => r matches Err(DslError::Parse { line, .. }) && line == line_no,
        },
{
    let (t, all) = trimmed_text(s);
    if all.len() == 0 {
        return Err(refusal(line_no, "Empty SELECT clause", "", ""));
    }
    let items = split_args(t);
    let mut exprs: Vec<Expr> = Vec::new();
    let mut k: usize = 0;
    proof {
        assert(expr_views(exprs@) =~= Seq::<ExprView>::empty());
    }
    while k < items.len()
        invariant
            k <= items@.len(),
            select_items(s@) == items_of(texts(items@), items@.len() as int),
            items_of(texts(items@), k as int) == Some(expr_views(exprs@)),
        decreases items@.len() - k,
    {
        let item = items[k].as_str();
        proof {
            assert(texts(items@)[k as int] == item@);
        }
        match parse_select_item(item, line_no) {
            Ok(e) => {
                let ghost before = expr_views(exprs@);
                let ghost added = e@;
                exprs.push(e);
                proof {
                    assert(expr_views(exprs@) =~= before.push(added));
                }
            },
            Err(e) => {
                proof {
                    lemma_items_fail(texts(items@), k + 1, items@.len() as int);
                }
                return Err(e);
            },
        }
        k += 1;
    }
    Ok(exprs)
}

} // verus!
