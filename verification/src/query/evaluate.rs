//! Evaluating expressions against a row.

use crate::float;
use crate::float::{
    float_difference, float_of_int, float_product, float_quotient, float_sum, is_zero,
};
use crate::order::Relation;
use crate::query::logical::{operator_of, parse_operator, Expr, ExprView, Operator};
use crate::tuple::{Tuple, TupleView};
use crate::value::{Value, ValueView};
use vstd::prelude::*;

verus! {

/// Integer arithmetic: sums, differences and products wrap around; a
/// quotient is truncated, and is `Null` when the divisor is zero or the
/// quotient is not representable. Every other operator gives `Null`.
pub open spec fn int_arithmetic(a: i64, operator: Option<Operator>, b: i64) -> ValueView {
    match operator {
        Some(Operator::Add) => ValueView::Int(a.wrapping_add(b)),
        Some(Operator::Subtract) => ValueView::Int(a.wrapping_sub(b)),
        Some(Operator::Multiply) => ValueView::Int(a.wrapping_mul(b)),
        Some(Operator::Divide) => match a.checked_div(b) {
            Some(q) => ValueView::Int(q),
            None => ValueView::Null,
        },
        _ => ValueView::Null,
    }
}

/// Arithmetic on two numbers. Division by zero is not refused: it gives
/// what the division gives. Every other operator gives `Null`.
pub open spec fn float_arithmetic(a: u32, operator: Option<Operator>, b: u32) -> ValueView {
    match operator {
        Some(Operator::Add) => ValueView::Float(float_sum(a, b)),
        Some(Operator::Subtract) => ValueView::Float(float_difference(a, b)),
        Some(Operator::Multiply) => ValueView::Float(float_product(a, b)),
        Some(Operator::Divide) => ValueView::Float(float_quotient(a, b)),
        _ => ValueView::Null,
    }
}

/// Arithmetic on one element of a matrix: an element divided by a zero of
/// either sign stays as it is, and so does an element under an operator
/// that is not arithmetic.
pub open spec fn element_arithmetic(x: u32, operator: Option<Operator>, y: u32) -> u32 {
    match operator {
        Some(Operator::Add) => float_sum(x, y),
        Some(Operator::Subtract) => float_difference(x, y),
        Some(Operator::Multiply) => float_product(x, y),
        Some(Operator::Divide) => if is_zero(y) {
            x
        } else {
            float_quotient(x, y)
        },
        _ => x,
    }
}

/// Whether two matrices have the same number of rows and, row by row, the
/// same number of columns.
pub open spec fn same_shape(a: Seq<Seq<u32>>, b: Seq<Seq<u32>>) -> bool {
    a.len() == b.len() && forall|i: int| 0 <= i < a.len() ==> (#[trigger] a[i]).len() == b[i].len()
}

/// Two matrices of one shape combined element by element.
pub open spec fn matrix_zip(a: Seq<Seq<u32>>, operator: Option<Operator>, b: Seq<Seq<u32>>) -> Seq<
    Seq<u32>,
> {
    Seq::new(
        a.len(),
        |i: int| Seq::new(a[i].len(), |j: int| element_arithmetic(a[i][j], operator, b[i][j])),
    )
}

/// Every element of a matrix combined with one number.
pub open spec fn matrix_with_scalar(a: Seq<Seq<u32>>, operator: Option<Operator>, s: u32) -> Seq<
    Seq<u32>,
> {
    Seq::new(a.len(), |i: int| Seq::new(a[i].len(), |j: int| element_arithmetic(a[i][j], operator, s)))
}

/// The value of a binary expression from the values of its two sides.
/// Two integers stay an integer; a number on either side makes the result
/// a number; two matrices of one shape are combined element by element and
/// matrices of different shapes give `Null`; a matrix and a scalar are
/// combined element by element with the scalar; every other pair gives
/// `Null`.
pub open spec fn combine(left: ValueView, op: Seq<char>, right: ValueView) -> ValueView {
    let operator = operator_of(op);
    match (left, right) {
        (ValueView::Int(a), ValueView::Int(b)) => int_arithmetic(a, operator, b),
        (ValueView::Float(a), ValueView::Float(b)) => float_arithmetic(a, operator, b),
        (ValueView::Int(a), ValueView::Float(b)) => float_arithmetic(
            float_of_int(a as int),
            operator,
            b,
        ),
        (ValueView::Float(a), ValueView::Int(b)) => float_arithmetic(
            a,
            operator,
            float_of_int(b as int),
        ),
        (ValueView::Matrix(a), ValueView::Matrix(b)) => if same_shape(a, b) {
            ValueView::Matrix(matrix_zip(a, operator, b))
        } else {
            ValueView::Null
        },
        (ValueView::Matrix(a), ValueView::Int(s)) => ValueView::Matrix(
            matrix_with_scalar(a, operator, float_of_int(s as int)),
        ),
        (ValueView::Matrix(a), ValueView::Float(s)) => ValueView::Matrix(
            matrix_with_scalar(a, operator, s),
        ),
        _ => ValueView::Null,
    }
}

/// The value of an expression on a row. A column that the row does not
/// have is `Null`, and so is an aggregate, which has no value on a single
/// row.
pub open spec fn evaluate(expr: ExprView, row: TupleView) -> ValueView
    decreases expr,
{
    match expr {
        ExprView::Column(name) => match row.get(name) {
            Some(value) => value,
            None => ValueView::Null,
        },
        ExprView::Literal(value) => value,
        ExprView::BinaryExpr { left, op, right } => combine(
            evaluate(*left, row),
            op,
            evaluate(*right, row),
        ),
        ExprView::AggregateExpr { .. } => ValueView::Null,
    }
}

/// Whether a relation satisfies a comparison operator. No relation at all
/// satisfies none, and an arithmetic operator is never satisfied.
pub open spec fn satisfies(relation: Option<Relation>, operator: Option<Operator>) -> bool {
    match (relation, operator) {
        (Some(rel), Some(Operator::Equal)) => rel == Relation::Equal,
        (Some(rel), Some(Operator::NotEqual)) => rel != Relation::Equal,
        (Some(rel), Some(Operator::Greater)) => rel == Relation::Greater,
        (Some(rel), Some(Operator::Less)) => rel == Relation::Less,
        (Some(rel), Some(Operator::GreaterOrEqual)) => rel != Relation::Less,
        (Some(rel), Some(Operator::LessOrEqual)) => rel != Relation::Greater,
        _ => false,
    }
}

/// Whether a row passes a predicate. Only a binary expression can be a
/// predicate: both sides are evaluated and compared, and the row passes if
/// their relation satisfies the operator.
pub open spec fn passes(predicate: ExprView, row: TupleView) -> bool {
    match predicate {
        ExprView::BinaryExpr { left, op, right } => satisfies(
            evaluate(*left, row).relation(evaluate(*right, row)),
            operator_of(op),
        ),
        _ => false,
    }
}

/// Computes [`element_arithmetic`].
fn element(x: u32, operator: Option<Operator>, y: u32) -> (r: u32)
    ensures
        r == element_arithmetic(x, operator, y),
{
    match operator {
        Some(Operator::Add) => float::sum(x, y),
        Some(Operator::Subtract) => float::difference(x, y),
        Some(Operator::Multiply) => float::product(x, y),
        Some(Operator::Divide) => {
            if float::zero(y) {
                x
            } else {
                float::quotient(x, y)
            }
        },
        _ => x,
    }
}

/// Computes [`float_arithmetic`].
fn arithmetic_on_floats(a: u32, operator: Option<Operator>, b: u32) -> (r: Value)
    ensures
        r@ == float_arithmetic(a, operator, b),
{
    match operator {
        Some(Operator::Add) => Value::Float(float::sum(a, b)),
        Some(Operator::Subtract) => Value::Float(float::difference(a, b)),
        Some(Operator::Multiply) => Value::Float(float::product(a, b)),
        Some(Operator::Divide) => Value::Float(float::quotient(a, b)),
        _ => Value::Null,
    }
}

/// Computes [`int_arithmetic`].
fn arithmetic_on_ints(a: i64, operator: Option<Operator>, b: i64) -> (r: Value)
    ensures
        r@ == int_arithmetic(a, operator, b),
{
    match operator {
        Some(Operator::Add) => Value::Int(a.wrapping_add(b)),
        Some(Operator::Subtract) => Value::Int(a.wrapping_sub(b)),
        Some(Operator::Multiply) => Value::Int(a.wrapping_mul(b)),
        Some(Operator::Divide) => match a.checked_div(b) {
            Some(q) => Value::Int(q),
            None => Value::Null,
        },
        _ => Value::Null,
    }
}

/// Computes [`same_shape`].
pub fn shapes_agree(a: &Vec<Vec<u32>>, b: &Vec<Vec<u32>>) -> (r: bool)
    ensures
        r == same_shape(a.deep_view(), b.deep_view()),
{
    if a.len() != b.len() {
        return false;
    }
    let mut i: usize = 0;
    while i < a.len()
        invariant
            a@.len() == b@.len(),
            i <= a@.len(),
            forall|k: int| 0 <= k < i ==> a@[k]@.len() == b@[k]@.len(),
        decreases a@.len() - i,
    {
        if a[i].len() != b[i].len() {
            assert(a.deep_view()[i as int] == a@[i as int]@);
            assert(b.deep_view()[i as int] == b@[i as int]@);
            return false;
        }
        i += 1;
    }
    assert forall|k: int| 0 <= k < a.deep_view().len() implies (#[trigger] a.deep_view()[k]).len()
        == b.deep_view()[k].len() by {
        assert(a.deep_view()[k] == a@[k]@);
        assert(b.deep_view()[k] == b@[k]@);
    }
    true
}

/// Computes [`matrix_zip`] on matrices of one shape.
pub fn zip_matrices(a: &Vec<Vec<u32>>, operator: Option<Operator>, b: &Vec<Vec<u32>>) -> (r: Vec<
    Vec<u32>,
>)
    requires
        same_shape(a.deep_view(), b.deep_view()),
    ensures
        r.deep_view() == matrix_zip(a.deep_view(), operator, b.deep_view()),
{
    let mut out: Vec<Vec<u32>> = Vec::with_capacity(a.len());
    let mut i: usize = 0;
    while i < a.len()
        invariant
            same_shape(a.deep_view(), b.deep_view()),
            i <= a@.len(),
            out@.len() == i,
            forall|k: int|
                0 <= k < i ==> (#[trigger] out@[k])@ == matrix_zip(
                    a.deep_view(),
                    operator,
                    b.deep_view(),
                )[k],
        decreases a@.len() - i,
    {
        proof {
            assert(a.deep_view()[i as int] == a@[i as int]@);
            assert(b.deep_view()[i as int] == b@[i as int]@);
        }
        let left = &a[i];
        let right = &b[i];
        let mut row: Vec<u32> = Vec::with_capacity(left.len());
        let mut j: usize = 0;
        while j < left.len()
            invariant
                left@.len() == right@.len(),
                j <= left@.len(),
                row@.len() == j,
                forall|k: int|
                    0 <= k < j ==> row@[k] == element_arithmetic(left@[k], operator, right@[k]),
            decreases left@.len() - j,
        {
            row.push(element(left[j], operator, right[j]));
            j += 1;
        }
        proof {
            assert(row@ =~= matrix_zip(a.deep_view(), operator, b.deep_view())[i as int]);
        }
        out.push(row);
        i += 1;
    }
    proof {
        assert forall|k: int| 0 <= k < out@.len() implies out.deep_view()[k] == matrix_zip(
            a.deep_view(),
            operator,
            b.deep_view(),
        )[k] by {
            assert(out.deep_view()[k] == out@[k]@);
        }
        assert(out.deep_view() =~= matrix_zip(a.deep_view(), operator, b.deep_view()));
    }
    out
}

/// Computes [`matrix_with_scalar`].
pub fn map_matrix(a: &Vec<Vec<u32>>, operator: Option<Operator>, s: u32) -> (r: Vec<Vec<u32>>)
    ensures
        r.deep_view() == matrix_with_scalar(a.deep_view(), operator, s),
{
    let mut out: Vec<Vec<u32>> = Vec::with_capacity(a.len());
    let mut i: usize = 0;
    while i < a.len()
        invariant
            i <= a@.len(),
            out@.len() == i,
            forall|k: int|
                0 <= k < i ==> (#[trigger] out@[k])@ == matrix_with_scalar(
                    a.deep_view(),
                    operator,
                    s,
                )[k],
        decreases a@.len() - i,
    {
        proof {
            assert(a.deep_view()[i as int] == a@[i as int]@);
        }
        let left = &a[i];
        let mut row: Vec<u32> = Vec::with_capacity(left.len());
        let mut j: usize = 0;
        while j < left.len()
            invariant
                j <= left@.len(),
                row@.len() == j,
                forall|k: int| 0 <= k < j ==> row@[k] == element_arithmetic(left@[k], operator, s),
            decreases left@.len() - j,
        {
            row.push(element(left[j], operator, s));
            j += 1;
        }
        proof {
            assert(row@ =~= matrix_with_scalar(a.deep_view(), operator, s)[i as int]);
        }
        out.push(row);
        i += 1;
    }
    proof {
        assert forall|k: int| 0 <= k < out@.len() implies out.deep_view()[k] == matrix_with_scalar(
            a.deep_view(),
            operator,
            s,
        )[k] by {
            assert(out.deep_view()[k] == out@[k]@);
        }
        assert(out.deep_view() =~= matrix_with_scalar(a.deep_view(), operator, s));
    }
    out
}

/// The value of a binary expression from the values of its two sides: see
/// [`combine`].
pub fn combine_values(left: &Value, op: &str, right: &Value) -> (r: Value)
    ensures
        r@ == combine(left@, op@, right@),
{
    let operator = parse_operator(op);
    match (left, right) {
        (Value::Int(a), Value::Int(b)) => arithmetic_on_ints(*a, operator, *b),
        (Value::Float(a), Value::Float(b)) => arithmetic_on_floats(*a, operator, *b),
        (Value::Int(a), Value::Float(b)) => arithmetic_on_floats(
            float::from_int(*a as i128),
            operator,
            *b,
        ),
        (Value::Float(a), Value::Int(b)) => arithmetic_on_floats(
            *a,
            operator,
            float::from_int(*b as i128),
        ),
        (Value::Matrix(a), Value::Matrix(b)) => {
            if shapes_agree(a, b) {
                Value::Matrix(zip_matrices(a, operator, b))
            } else {
                Value::Null
            }
        },
        (Value::Matrix(a), Value::Int(s)) => Value::Matrix(
            map_matrix(a, operator, float::from_int(*s as i128)),
        ),
        (Value::Matrix(a), Value::Float(s)) => Value::Matrix(map_matrix(a, operator, *s)),
        _ => Value::Null,
    }
}

/// The value of an expression on a row: see [`evaluate`].
pub fn evaluate_expression(expr: &Expr, row: &Tuple) -> (r: Value)
    ensures
        r@ == evaluate(expr@, row@),
    decreases expr,
{
    match expr {
        Expr::Column(name) => match row.get(name.as_str()) {
            Some(value) => value.clone(),
            None => Value::Null,
        },
        Expr::Literal(value) => value.clone(),
        Expr::BinaryExpr { left, op, right } => {
            let left_value = evaluate_expression(left, row);
            let right_value = evaluate_expression(right, row);
            combine_values(&left_value, op.as_str(), &right_value)
        },
        Expr::AggregateExpr { .. } => Value::Null,
    }
}

/// Whether a row passes a predicate: see [`passes`].
pub fn evaluate_predicate(predicate: &Expr, row: &Tuple) -> (r: bool)
    ensures
        r == passes(predicate@, row@),
{
    match predicate {
        Expr::BinaryExpr { left, op, right } => {
            let left_value = evaluate_expression(left, row);
            let right_value = evaluate_expression(right, row);
            let relation = left_value.relation(&right_value);
            match (relation, parse_operator(op.as_str())) {
                (Some(rel), Some(Operator::Equal)) => rel == Relation::Equal,
                (Some(rel), Some(Operator::NotEqual)) => rel != Relation::Equal,
                (Some(rel), Some(Operator::Greater)) => rel == Relation::Greater,
                (Some(rel), Some(Operator::Less)) => rel == Relation::Less,
                (Some(rel), Some(Operator::GreaterOrEqual)) => rel != Relation::Less,
                (Some(rel), Some(Operator::LessOrEqual)) => rel != Relation::Greater,
                _ => false,
            }
        },
        _ => false,
    }
}

} // verus!
