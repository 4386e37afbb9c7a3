//! Aggregation with grouping.
//!
//! Rows are put into groups by the values of the group expressions; each
//! aggregate is accumulated over the rows of a group from the first row to
//! the last, and one output row is produced per group, in the order in
//! which the groups first appear.

use crate::float;
use crate::float::{float_of_int, float_quotient, float_relation, float_sum};
use crate::order::Relation;
use crate::query::evaluate::{evaluate, evaluate_expression, same_shape, shapes_agree};
use crate::query::logical::{expr_views, AggregateFunction, Expr, ExprView};
use crate::tensor::another_handle;
use crate::tuple::{schema_accepts, Schema, Tuple, TupleView};
use crate::value::{views_of, Value, ValueView};
use std::sync::Arc;
use vstd::prelude::*;

verus! {

/// How two numbers are merged when an aggregate takes in a vector or a
/// matrix element by element.
#[derive(Debug, Clone, Copy, PartialEq, Eq, Structural)]
pub enum Merge {
    /// The sum of the two.
    Total,
    /// The smaller of the two.
    Least,
    /// The greater of the two.
    Greatest,
}

impl Merge {
    /// The merged number: the sum, or the incoming number where it is
    /// smaller (greater) than the current one, else the current one. A NaN
    /// is neither smaller nor greater than anything.
    pub open spec fn merged(self, current: u32, incoming: u32) -> u32 {
        match self {
            Merge::Total => float_sum(current, incoming),
            Merge::Least => if float_relation(incoming, current) == Some(Relation::Less) {
                incoming
            } else {
                current
            },
            Merge::Greatest => if float_relation(incoming, current) == Some(Relation::Greater) {
                incoming
            } else {
                current
            },
        }
    }

    /// Computes [`Merge::merged`].
    pub fn merge(self, current: u32, incoming: u32) -> (r: u32)
        ensures
            r == self.merged(current, incoming),
    {
        match self {
            Merge::Total => float::sum(current, incoming),
            Merge::Least => match float::relation(incoming, current) {
                Some(Relation::Less) => incoming,
                _ => current,
            },
            Merge::Greatest => match float::relation(incoming, current) {
                Some(Relation::Greater) => incoming,
                _ => current,
            },
        }
    }
}

/// Two vectors of one length merged element by element.
pub open spec fn merged_vector(merge: Merge, current: Seq<u32>, incoming: Seq<u32>) -> Seq<u32> {
    Seq::new(current.len(), |i: int| merge.merged(current[i], incoming[i]))
}

/// Two matrices of one shape merged element by element.
pub open spec fn merged_matrix(merge: Merge, current: Seq<Seq<u32>>, incoming: Seq<Seq<u32>>)
    -> Seq<Seq<u32>> {
    Seq::new(current.len(), |i: int| merged_vector(merge, current[i], incoming[i]))
}

/// A vector of `len` zeros.
pub open spec fn zero_vector(len: nat) -> Seq<u32> {
    Seq::new(len, |i: int| float::ZERO)
}

/// A matrix of zeros with the row lengths of the given matrix.
pub open spec fn zero_matrix(like: Seq<Seq<u32>>) -> Seq<Seq<u32>> {
    Seq::new(like.len(), |i: int| zero_vector(like[i].len()))
}

/// Every element of a vector divided by one number.
pub open spec fn scaled_vector(v: Seq<u32>, divisor: u32) -> Seq<u32> {
    Seq::new(v.len(), |i: int| float_quotient(v[i], divisor))
}

/// Every element of a matrix divided by one number.
pub open spec fn scaled_matrix(m: Seq<Seq<u32>>, divisor: u32) -> Seq<Seq<u32>> {
    Seq::new(m.len(), |i: int| scaled_vector(m[i], divisor))
}

/// The state of one aggregate over the rows of a group seen so far.
#[derive(Debug)]
pub enum Accumulator {
    /// The number of rows.
    Count(i64),
    /// The running sum.
    Sum(Value),
    /// The least value so far, `Null` before the first.
    Least(Value),
    /// The greatest value so far, `Null` before the first.
    Greatest(Value),
    /// The running sum and the number of rows behind an average.
    Mean { sum: Value, count: usize },
    /// The state of an expression that is no aggregate.
    Nothing,
}

/// Mathematical model of an [`Accumulator`].
pub enum AccumulatorView {
    Count(i64),
    Sum(ValueView),
    Least(ValueView),
    Greatest(ValueView),
    Mean { sum: ValueView, count: usize },
    Nothing,
}

impl View for Accumulator {
    type V = AccumulatorView;

    open spec fn view(&self) -> AccumulatorView {
        match self {
            Accumulator::Count(c) => AccumulatorView::Count(*c),
            Accumulator::Sum(v) => AccumulatorView::Sum(v@),
            Accumulator::Least(v) => AccumulatorView::Least(v@),
            Accumulator::Greatest(v) => AccumulatorView::Greatest(v@),
            Accumulator::Mean { sum, count } => AccumulatorView::Mean { sum: sum@, count: *count },
            Accumulator::Nothing => AccumulatorView::Nothing,
        }
    }
}

/// The zero a sum starts from, shaped like the first value of the group: a
/// vector or a matrix of zeros for a vector or a matrix, else `scalar`.
pub open spec fn zero_like(first: ValueView, scalar: ValueView) -> ValueView {
    match first {
        ValueView::Vector(v) => ValueView::Vector(zero_vector(v.len())),
        ValueView::Matrix(m) => ValueView::Matrix(zero_matrix(m)),
        _ => scalar,
    }
}

/// The state an aggregate starts from, given the first value of its group.
/// A sum starts from the integer 0 and an average from the number 0, or
/// either from zeros shaped like the first value.
pub open spec fn initial(func: AggregateFunction, first: ValueView) -> AccumulatorView {
    match func {
        AggregateFunction::Count => AccumulatorView::Count(0),
        AggregateFunction::Sum => AccumulatorView::Sum(zero_like(first, ValueView::Int(0))),
        AggregateFunction::Min => AccumulatorView::Least(ValueView::Null),
        AggregateFunction::Max => AccumulatorView::Greatest(ValueView::Null),
        AggregateFunction::Avg => AccumulatorView::Mean {
            sum: zero_like(first, ValueView::Float(float_of_int(0))),
            count: 0,
        },
    }
}

/// A running sum after one more value. Integers add up with wrap-around
/// and stay an integer until a number comes in, which makes the sum a
/// number from then on; vectors of one length and matrices of one shape
/// add up element by element; a value that does not fit the sum leaves it
/// as it is.
pub open spec fn summed(sum: ValueView, value: ValueView) -> ValueView {
    match (sum, value) {
        (ValueView::Int(s), ValueView::Int(v)) => ValueView::Int(s.wrapping_add(v)),
        (ValueView::Float(s), ValueView::Float(v)) => ValueView::Float(float_sum(s, v)),
        (ValueView::Int(s), ValueView::Float(v)) => ValueView::Float(
            float_sum(float_of_int(s as int), v),
        ),
        (ValueView::Float(s), ValueView::Int(v)) => ValueView::Float(
            float_sum(s, float_of_int(v as int)),
        ),
        (ValueView::Vector(s), ValueView::Vector(v)) => if s.len() == v.len() {
            ValueView::Vector(merged_vector(Merge::Total, s, v))
        } else {
            sum
        },
        (ValueView::Matrix(s), ValueView::Matrix(v)) => if same_shape(s, v) {
            ValueView::Matrix(merged_matrix(Merge::Total, s, v))
        } else {
            sum
        },
        _ => sum,
    }
}

/// The least (greatest) value after one more value. The first value is
/// taken as it is; after that `Null` is passed over, vectors of one length
/// and matrices of one shape are merged element by element, and any other
/// value replaces the current one where it is smaller (greater).
pub open spec fn extreme(merge: Merge, current: ValueView, value: ValueView) -> ValueView {
    let wanted = if merge == Merge::Least {
        Relation::Less
    } else {
        Relation::Greater
    };
    if current is Null {
        value
    } else if value is Null {
        current
    } else {
        match (current, value) {
            (ValueView::Vector(c), ValueView::Vector(v)) => if c.len() == v.len() {
                ValueView::Vector(merged_vector(merge, c, v))
            } else {
                current
            },
            (ValueView::Matrix(c), ValueView::Matrix(v)) => if same_shape(c, v) {
                ValueView::Matrix(merged_matrix(merge, c, v))
            } else {
                current
            },
            _ => if value.relation(current) == Some(wanted) {
                value
            } else {
                current
            },
        }
    }
}

/// A count after one more row. It stops at the largest number it can hold.
pub open spec fn counted(count: int, limit: int) -> int {
    if count < limit {
        count + 1
    } else {
        count
    }
}

/// The state of an aggregate after one more value.
pub open spec fn stepped(state: AccumulatorView, value: ValueView) -> AccumulatorView {
    match state {
        AccumulatorView::Count(c) => AccumulatorView::Count(
            counted(c as int, i64::MAX as int) as i64,
        ),
        AccumulatorView::Sum(s) => AccumulatorView::Sum(summed(s, value)),
        AccumulatorView::Least(c) => AccumulatorView::Least(extreme(Merge::Least, c, value)),
        AccumulatorView::Greatest(c) => AccumulatorView::Greatest(
            extreme(Merge::Greatest, c, value),
        ),
        AccumulatorView::Mean { sum, count } => AccumulatorView::Mean {
            sum: summed(sum, value),
            count: counted(count as int, usize::MAX as int) as usize,
        },
        AccumulatorView::Nothing => AccumulatorView::Nothing,
    }
}

/// The value an aggregate gives in the end. An average is its sum divided
/// by its count, element by element for a vector or a matrix, and `Null`
/// when the count is zero.
pub open spec fn finished(state: AccumulatorView) -> ValueView {
    match state {
        AccumulatorView::Count(c) => ValueView::Int(c),
        AccumulatorView::Sum(s) => s,
        AccumulatorView::Least(c) => c,
        AccumulatorView::Greatest(c) => c,
        AccumulatorView::Mean { sum, count } => if count == 0 {
            ValueView::Null
        } else {
            let divisor = float_of_int(count as int);
            match sum {
                ValueView::Float(s) => ValueView::Float(float_quotient(s, divisor)),
                ValueView::Int(s) => ValueView::Float(
                    float_quotient(float_of_int(s as int), divisor),
                ),
                ValueView::Vector(v) => ValueView::Vector(scaled_vector(v, divisor)),
                ValueView::Matrix(m) => ValueView::Matrix(scaled_matrix(m, divisor)),
                _ => ValueView::Null,
            }
        },
        AccumulatorView::Nothing => ValueView::Null,
    }
}

/// The key of a row: the values of the group expressions on it.
pub open spec fn key_of(row: TupleView, group: Seq<ExprView>) -> Seq<ValueView> {
    Seq::new(group.len(), |i: int| evaluate(group[i], row))
}

/// The keys of the groups, each once, in the order of first appearance.
pub open spec fn distinct_keys(rows: Seq<TupleView>, group: Seq<ExprView>) -> Seq<Seq<ValueView>>
    decreases rows.len(),
{
    if rows.len() == 0 {
        Seq::empty()
    } else {
        let before = distinct_keys(rows.drop_last(), group);
        let key = key_of(rows.last(), group);
        if before.contains(key) {
            before
        } else {
            before.push(key)
        }
    }
}

/// The state of an aggregate after one more row of its group: the state
/// before, or the initial state if this is the first row, stepped by the
/// value of the aggregate's inner expression on the row. An expression
/// that is no aggregate has the state `Nothing`.
pub open spec fn next_state(aggregate: ExprView, before: Option<AccumulatorView>, row: TupleView)
    -> AccumulatorView {
    match aggregate {
        ExprView::AggregateExpr { func, expr } => {
            let value = evaluate(*expr, row);
            let state = match before {
                Some(state) => state,
                None => initial(func, value),
            };
            stepped(state, value)
        },
        _ => AccumulatorView::Nothing,
    }
}

/// The state of an aggregate over the rows of the group with the given
/// key, taken in from the first row to the last; `None` while no row of
/// that group was seen.
pub open spec fn accumulated(
    aggregate: ExprView,
    rows: Seq<TupleView>,
    group: Seq<ExprView>,
    key: Seq<ValueView>,
) -> Option<AccumulatorView>
    decreases rows.len(),
{
    if rows.len() == 0 {
        None
    } else {
        let before = accumulated(aggregate, rows.drop_last(), group, key);
        let row = rows.last();
        if key_of(row, group) != key {
            before
        } else {
            Some(next_state(aggregate, before, row))
        }
    }
}

/// The value of an aggregate for the group with the given key.
pub open spec fn aggregate_value(
    aggregate: ExprView,
    rows: Seq<TupleView>,
    group: Seq<ExprView>,
    key: Seq<ValueView>,
) -> ValueView {
    match accumulated(aggregate, rows, group, key) {
        Some(state) => finished(state),
        None => ValueView::Null,
    }
}

/// The values of the output row of a group: its key, then the value of
/// each aggregate.
pub open spec fn output_values(
    rows: Seq<TupleView>,
    group: Seq<ExprView>,
    aggregates: Seq<ExprView>,
    key: Seq<ValueView>,
) -> Seq<ValueView> {
    key + Seq::new(aggregates.len(), |j: int| aggregate_value(aggregates[j], rows, group, key))
}

/// The values of every output row: one row per group, in the order of
/// first appearance. There is no row at all when there is no input row.
pub open spec fn aggregate_output(
    rows: Seq<TupleView>,
    group: Seq<ExprView>,
    aggregates: Seq<ExprView>,
) -> Seq<Seq<ValueView>> {
    let keys = distinct_keys(rows, group);
    Seq::new(keys.len(), |g: int| output_values(rows, group, aggregates, keys[g]))
}

/// The views of a list of rows.
pub open spec fn row_views(rows: Seq<Tuple>) -> Seq<TupleView> {
    rows.map_values(|t: Tuple| t@)
}

/// A key that is not among the distinct keys belongs to no row, so no
/// aggregate has a state for it.
pub proof fn lemma_unseen_key(
    aggregate: ExprView,
    rows: Seq<TupleView>,
    group: Seq<ExprView>,
    key: Seq<ValueView>,
)
    requires
        !distinct_keys(rows, group).contains(key),
    ensures
        accumulated(aggregate, rows, group, key) is None,
    decreases rows.len(),
{
    if rows.len() > 0 {
        let before = distinct_keys(rows.drop_last(), group);
        let last = key_of(rows.last(), group);
        if before.contains(last) {
            assert(last != key);
        } else {
            assert(before.push(last).last() == last);
            assert(last != key);
            assert forall|i: int| 0 <= i < before.len() implies before[i] != key by {
                assert(before.push(last)[i] == before[i]);
            }
        }
        lemma_unseen_key(aggregate, rows.drop_last(), group, key);
    }
}

/// No key occurs twice among the distinct keys.
pub proof fn lemma_distinct_keys(rows: Seq<TupleView>, group: Seq<ExprView>)
    ensures
        forall|i: int, j: int|
            0 <= i < j < distinct_keys(rows, group).len() ==> distinct_keys(rows, group)[i]
                != distinct_keys(rows, group)[j],
    decreases rows.len(),
{
    if rows.len() > 0 {
        lemma_distinct_keys(rows.drop_last(), group);
        let before = distinct_keys(rows.drop_last(), group);
        let last = key_of(rows.last(), group);
        let keys = distinct_keys(rows, group);
        if !before.contains(last) {
            assert forall|i: int, j: int| 0 <= i < j < keys.len() implies keys[i] != keys[j] by {
                assert(keys[i] == before[i]);
                if j < before.len() {
                    assert(keys[j] == before[j]);
                } else {
                    assert(keys[j] == last);
                    assert(before.contains(before[i]));
                }
            }
        }
    }
}

/// Aggregating no rows gives no rows, with or without group expressions.
pub proof fn law_empty_input(group: Seq<ExprView>, aggregates: Seq<ExprView>)
    ensures
        aggregate_output(Seq::empty(), group, aggregates).len() == 0,
{
}

/// Computes [`zero_vector`].
fn zeros(len: usize) -> (r: Vec<u32>)
    ensures
        r@ == zero_vector(len as nat),
{
    let mut out: Vec<u32> = Vec::with_capacity(len);
    let mut i: usize = 0;
    while i < len
        invariant
            i <= len,
            out@.len() == i,
            forall|k: int| 0 <= k < i ==> out@[k] == float::ZERO,
        decreases len - i,
    {
        out.push(float::ZERO);
        i += 1;
    }
    assert(out@ =~= zero_vector(len as nat));
    out
}

/// Computes [`zero_matrix`].
fn zero_rows(like: &Vec<Vec<u32>>) -> (r: Vec<Vec<u32>>)
    ensures
        r.deep_view() == zero_matrix(like.deep_view()),
{
    let mut out: Vec<Vec<u32>> = Vec::with_capacity(like.len());
    let mut i: usize = 0;
    while i < like.len()
        invariant
            i <= like@.len(),
            out@.len() == i,
            forall|k: int| 0 <= k < i ==> (#[trigger] out@[k])@ == zero_vector(like@[k]@.len()),
        decreases like@.len() - i,
    {
        out.push(zeros(like[i].len()));
        i += 1;
    }
    proof {
        assert forall|k: int| 0 <= k < out@.len() implies out.deep_view()[k] == zero_matrix(
            like.deep_view(),
        )[k] by {
            assert(out.deep_view()[k] == out@[k]@);
            assert(like.deep_view()[k] == like@[k]@);
        }
        assert(out.deep_view() =~= zero_matrix(like.deep_view()));
    }
    out
}

/// Computes [`merged_vector`] on vectors of one length.
fn merge_vectors(merge: Merge, current: &Vec<u32>, incoming: &Vec<u32>) -> (r: Vec<u32>)
    requires
        current@.len() == incoming@.len(),
    ensures
        r@ == merged_vector(merge, current@, incoming@),
{
    let mut out: Vec<u32> = Vec::with_capacity(current.len());
    let mut i: usize = 0;
    while i < current.len()
        invariant
            current@.len() == incoming@.len(),
            i <= current@.len(),
            out@.len() == i,
            forall|k: int| 0 <= k < i ==> out@[k] == merge.merged(current@[k], incoming@[k]),
        decreases current@.len() - i,
    {
        out.push(merge.merge(current[i], incoming[i]));
        i += 1;
    }
    assert(out@ =~= merged_vector(merge, current@, incoming@));
    out
}

/// Computes [`merged_matrix`] on matrices of one shape.
fn merge_matrices(merge: Merge, current: &Vec<Vec<u32>>, incoming: &Vec<Vec<u32>>) -> (r: Vec<
    Vec<u32>,
>)
    requires
        same_shape(current.deep_view(), incoming.deep_view()),
    ensures
        r.deep_view() == merged_matrix(merge, current.deep_view(), incoming.deep_view()),
{
    let mut out: Vec<Vec<u32>> = Vec::with_capacity(current.len());
    let mut i: usize = 0;
    while i < current.len()
        invariant
            same_shape(current.deep_view(), incoming.deep_view()),
            i <= current@.len(),
            out@.len() == i,
            forall|k: int|
                0 <= k < i ==> (#[trigger] out@[k])@ == merged_vector(
                    merge,
                    current@[k]@,
                    incoming@[k]@,
                ),
        decreases current@.len() - i,
    {
        proof {
            assert(current.deep_view()[i as int] == current@[i as int]@);
            assert(incoming.deep_view()[i as int] == incoming@[i as int]@);
        }
        out.push(merge_vectors(merge, &current[i], &incoming[i]));
        i += 1;
    }
    proof {
        assert forall|k: int| 0 <= k < out@.len() implies out.deep_view()[k] == merged_matrix(
            merge,
            current.deep_view(),
            incoming.deep_view(),
        )[k] by {
            assert(out.deep_view()[k] == out@[k]@);
            assert(current.deep_view()[k] == current@[k]@);
            assert(incoming.deep_view()[k] == incoming@[k]@);
        }
        assert(out.deep_view() =~= merged_matrix(
            merge,
            current.deep_view(),
            incoming.deep_view(),
        ));
    }
    out
}

/// Computes [`scaled_vector`].
fn scale_vector(v: &Vec<u32>, divisor: u32) -> (r: Vec<u32>)
    ensures
        r@ == scaled_vector(v@, divisor),
{
    let mut out: Vec<u32> = Vec::with_capacity(v.len());
    let mut i: usize = 0;
    while i < v.len()
        invariant
            i <= v@.len(),
            out@.len() == i,
            forall|k: int| 0 <= k < i ==> out@[k] == float_quotient(v@[k], divisor),
        decreases v@.len() - i,
    {
        out.push(float::quotient(v[i], divisor));
        i += 1;
    }
    assert(out@ =~= scaled_vector(v@, divisor));
    out
}

/// Computes [`scaled_matrix`].
fn scale_matrix(m: &Vec<Vec<u32>>, divisor: u32) -> (r: Vec<Vec<u32>>)
    ensures
        r.deep_view() == scaled_matrix(m.deep_view(), divisor),
{
    let mut out: Vec<Vec<u32>> = Vec::with_capacity(m.len());
    let mut i: usize = 0;
    while i < m.len()
        invariant
            i <= m@.len(),
            out@.len() == i,
            forall|k: int| 0 <= k < i ==> (#[trigger] out@[k])@ == scaled_vector(m@[k]@, divisor),
        decreases m@.len() - i,
    {
        out.push(scale_vector(&m[i], divisor));
        i += 1;
    }
    proof {
        assert forall|k: int| 0 <= k < out@.len() implies out.deep_view()[k] == scaled_matrix(
            m.deep_view(),
            divisor,
        )[k] by {
            assert(out.deep_view()[k] == out@[k]@);
            assert(m.deep_view()[k] == m@[k]@);
        }
        assert(out.deep_view() =~= scaled_matrix(m.deep_view(), divisor));
    }
    out
}

/// Computes [`zero_like`].
fn zero_for(first: &Value, scalar: Value) -> (r: Value)
    ensures
        r@ == zero_like(first@, scalar@),
{
    match first {
        Value::Vector(v) => Value::Vector(zeros(v.len())),
        Value::Matrix(m) => Value::Matrix(zero_rows(m)),
        _ => scalar,
    }
}

/// Computes [`initial`].
pub fn start(func: AggregateFunction, first: &Value) -> (r: Accumulator)
    ensures
        r@ == initial(func, first@),
{
    match func {
        AggregateFunction::Count => Accumulator::Count(0),
        AggregateFunction::Sum => Accumulator::Sum(zero_for(first, Value::Int(0))),
        AggregateFunction::Min => Accumulator::Least(Value::Null),
        AggregateFunction::Max => Accumulator::Greatest(Value::Null),
        AggregateFunction::Avg => Accumulator::Mean {
            sum: zero_for(first, Value::Float(float::from_int(0))),
            count: 0,
        },
    }
}

/// Computes [`summed`].
fn sum_step(sum: &Value, value: &Value) -> (r: Value)
    ensures
        r@ == summed(sum@, value@),
{
    match (sum, value) {
        (Value::Int(s), Value::Int(v)) => Value::Int(s.wrapping_add(*v)),
        (Value::Float(s), Value::Float(v)) => Value::Float(float::sum(*s, *v)),
        (Value::Int(s), Value::Float(v)) => Value::Float(
            float::sum(float::from_int(*s as i128), *v),
        ),
        (Value::Float(s), Value::Int(v)) => Value::Float(
            float::sum(*s, float::from_int(*v as i128)),
        ),
        (Value::Vector(s), Value::Vector(v)) => {
            if s.len() == v.len() {
                Value::Vector(merge_vectors(Merge::Total, s, v))
            } else {
                sum.clone()
            }
        },
        (Value::Matrix(s), Value::Matrix(v)) => {
            if shapes_agree(s, v) {
                Value::Matrix(merge_matrices(Merge::Total, s, v))
            } else {
                sum.clone()
            }
        },
        _ => sum.clone(),
    }
}

/// Computes [`extreme`].
fn extreme_step(merge: Merge, current: &Value, value: &Value) -> (r: Value)
    ensures
        r@ == extreme(merge, current@, value@),
{
    if current.is_null() {
        return value.clone();
    }
    if value.is_null() {
        return current.clone();
    }
    match (current, value) {
        (Value::Vector(c), Value::Vector(v)) => {
            if c.len() == v.len() {
                Value::Vector(merge_vectors(merge, c, v))
            } else {
                current.clone()
            }
        },
        (Value::Matrix(c), Value::Matrix(v)) => {
            if shapes_agree(c, v) {
                Value::Matrix(merge_matrices(merge, c, v))
            } else {
                current.clone()
            }
        },
        _ => {
            let wanted = match merge {
                Merge::Least => Relation::Less,
                _ => Relation::Greater,
            };
            match value.relation(current) {
                Some(found) => {
                    if found == wanted {
                        value.clone()
                    } else {
                        current.clone()
                    }
                },
                None => current.clone(),
            }
        },
    }
}

/// Computes [`stepped`].
pub fn step(state: &Accumulator, value: &Value) -> (r: Accumulator)
    ensures
        r@ == stepped(state@, value@),
{
    match state {
        Accumulator::Count(c) => Accumulator::Count(
            if *c < i64::MAX {
                *c + 1
            } else {
                *c
            },
        ),
        Accumulator::Sum(s) => Accumulator::Sum(sum_step(s, value)),
        Accumulator::Least(c) => Accumulator::Least(extreme_step(Merge::Least, c, value)),
        Accumulator::Greatest(c) => Accumulator::Greatest(extreme_step(Merge::Greatest, c, value)),
        Accumulator::Mean { sum, count } => Accumulator::Mean {
            sum: sum_step(sum, value),
            count: if *count < usize::MAX {
                *count + 1
            } else {
                *count
            },
        },
        Accumulator::Nothing => Accumulator::Nothing,
    }
}

/// Computes [`finished`].
pub fn finish(state: &Accumulator) -> (r: Value)
    ensures
        r@ == finished(state@),
{
    match state {
        Accumulator::Count(c) => Value::Int(*c),
        Accumulator::Sum(s) => s.clone(),
        Accumulator::Least(c) => c.clone(),
        Accumulator::Greatest(c) => c.clone(),
        Accumulator::Mean { sum, count } => {
            if *count == 0 {
                Value::Null
            } else {
                let divisor = float::from_int(*count as i128);
                match sum {
                    Value::Float(s) => Value::Float(float::quotient(*s, divisor)),
                    Value::Int(s) => Value::Float(
                        float::quotient(float::from_int(*s as i128), divisor),
                    ),
                    Value::Vector(v) => Value::Vector(scale_vector(v, divisor)),
                    Value::Matrix(m) => Value::Matrix(scale_matrix(m, divisor)),
                    _ => Value::Null,
                }
            }
        },
        Accumulator::Nothing => Value::Null,
    }
}

/// The key of a row: see [`key_of`].
pub fn evaluate_key(row: &Tuple, group: &Vec<Expr>) -> (r: Vec<Value>)
    ensures
        views_of(r@) == key_of(row@, expr_views(group@)),
{
    let mut key: Vec<Value> = Vec::with_capacity(group.len());
    let mut i: usize = 0;
    while i < group.len()
        invariant
            i <= group@.len(),
            key@.len() == i,
            forall|k: int| 0 <= k < i ==> (#[trigger] key@[k])@ == evaluate(group@[k]@, row@),
        decreases group@.len() - i,
    {
        key.push(evaluate_expression(&group[i], row));
        i += 1;
    }
    assert(views_of(key@) =~= key_of(row@, expr_views(group@)));
    key
}

/// Whether two lists of values are equal.
pub fn same_values(a: &Vec<Value>, b: &Vec<Value>) -> (r: bool)
    ensures
        r == (views_of(a@) == views_of(b@)),
{
    if a.len() != b.len() {
        assert(views_of(a@).len() != views_of(b@).len());
        return false;
    }
    let mut i: usize = 0;
    while i < a.len()
        invariant
            a@.len() == b@.len(),
            i <= a@.len(),
            forall|k: int| 0 <= k < i ==> a@[k]@ == b@[k]@,
        decreases a@.len() - i,
    {
        if !(a[i] == b[i]) {
            assert(views_of(a@)[i as int] != views_of(b@)[i as int]);
            return false;
        }
        i += 1;
    }
    assert(views_of(a@) =~= views_of(b@));
    true
}

/// The views of a list of keys.
pub open spec fn key_views(keys: Seq<Vec<Value>>) -> Seq<Seq<ValueView>> {
    keys.map_values(|k: Vec<Value>| views_of(k@))
}

/// The model of the state of aggregate `j` of group `g`.
pub open spec fn state_at(states: Seq<Vec<Accumulator>>, g: int, j: int) -> AccumulatorView {
    states[g]@[j]@
}

/// The position of a key among the keys, if it is there.
fn find_key(keys: &Vec<Vec<Value>>, key: &Vec<Value>) -> (r: Option<usize>)
    ensures
        match r {
            Some(g) => g < keys@.len() && key_views(keys@)[g as int] == views_of(key@),
            None => !key_views(keys@).contains(views_of(key@)),
        },
{
    let mut g: usize = 0;
    while g < keys.len()
        invariant
            g <= keys@.len(),
            forall|h: int| 0 <= h < g ==> key_views(keys@)[h] != views_of(key@),
        decreases keys@.len() - g,
    {
        if same_values(&keys[g], key) {
            return Some(g);
        }
        g += 1;
    }
    None
}

/// The states of all aggregates after one more row of their group: see
/// [`next_state`].
fn advance(aggregates: &Vec<Expr>, before: Option<&Vec<Accumulator>>, row: &Tuple) -> (r: Vec<
    Accumulator,
>)
    requires
        before matches Some(states) ==> states@.len() == aggregates@.len(),
    ensures
        r@.len() == aggregates@.len(),
        forall|j: int|
            0 <= j < aggregates@.len() ==> (#[trigger] r@[j])@ == next_state(
                aggregates@[j]@,
                match before {
                    Some(states) => Some(states@[j]@),
                    None => None,
                },
                row@,
            ),
{
    let mut out: Vec<Accumulator> = Vec::with_capacity(aggregates.len());
    let mut j: usize = 0;
    while j < aggregates.len()
        invariant
            before matches Some(states) ==> states@.len() == aggregates@.len(),
            j <= aggregates@.len(),
            out@.len() == j,
            forall|k: int|
                0 <= k < j ==> (#[trigger] out@[k])@ == next_state(
                    aggregates@[k]@,
                    match before {
                        Some(states) => Some(states@[k]@),
                        None => None,
                    },
                    row@,
                ),
        decreases aggregates@.len() - j,
    {
        let next = match &aggregates[j] {
            Expr::AggregateExpr { func, expr } => {
                let value = evaluate_expression(expr, row);
                match before {
                    Some(states) => step(&states[j], &value),
                    None => {
                        let first = start(*func, &value);
                        step(&first, &value)
                    },
                }
            },
            _ => Accumulator::Nothing,
        };
        out.push(next);
        j += 1;
    }
    out
}

/// Groups the rows by the values of the group expressions and computes
/// every aggregate over each group. The result has one row per group, in
/// the order in which the groups first appear, and none when there is no
/// input row; each row holds the key of its group followed by the values
/// of the aggregates, bound to `schema`. Fails when `schema` does not
/// accept the values of some output row.
pub fn aggregate_rows(
    rows: &Vec<Tuple>,
    group_expr: &Vec<Expr>,
    aggr_expr: &Vec<Expr>,
    schema: &Arc<Schema>,
) -> (r: Result<Vec<Tuple>, String>)
    ensures
        ({
            let output = aggregate_output(
                row_views(rows@),
                expr_views(group_expr@),
                expr_views(aggr_expr@),
            );
            &&& r is Ok <==> forall|g: int|
                0 <= g < output.len() ==> schema_accepts(schema@, #[trigger] output[g])
            &&& r matches Ok(out) ==> out@.len() == output.len() && forall|g: int|
                0 <= g < output.len() ==> (#[trigger] out@[g])@ == (TupleView {
                    schema: schema@,
                    values: output[g],
                })
        }),
        rows@.len() == 0 ==> (r matches Ok(out) && out@.len() == 0),
{
    let ghost rv = row_views(rows@);
    let ghost gv = expr_views(group_expr@);
    let ghost av = expr_views(aggr_expr@);
    let mut keys: Vec<Vec<Value>> = Vec::new();
    let mut states: Vec<Vec<Accumulator>> = Vec::new();
    let mut n: usize = 0;
    proof {
        assert(key_views(keys@) =~= distinct_keys(rv.take(0), gv));
    }
    while n < rows.len()
        invariant
            rv == row_views(rows@),
            gv == expr_views(group_expr@),
            av == expr_views(aggr_expr@),
            n <= rows@.len(),
            keys@.len() == states@.len(),
            key_views(keys@) == distinct_keys(rv.take(n as int), gv),
            forall|g: int| 0 <= g < states@.len() ==> (#[trigger] states@[g])@.len() == av.len(),
            forall|g: int, j: int|
                0 <= g < states@.len() && 0 <= j < av.len() ==> Some(
                    #[trigger] state_at(states@, g, j),
                ) == accumulated(av[j], rv.take(n as int), gv, key_views(keys@)[g]),
        decreases rows@.len() - n,
    {
        let row = &rows[n];
        let key = evaluate_key(row, group_expr);
        let ghost kv = views_of(key@);
        let ghost seen = rv.take(n as int);
        let ghost more = rv.take(n + 1);
        let ghost old_keys = key_views(keys@);
        let ghost old_states = states@;
        proof {
            assert(more.drop_last() =~= seen);
            assert(more.last() == row@);
            lemma_distinct_keys(seen, gv);
        }
        match find_key(&keys, &key) {
            Some(g) => {
                let updated = advance(aggr_expr, Some(&states[g]), row);
                states.set(g, updated);
                proof {
                    assert(old_keys.contains(kv));
                    assert forall|h: int, j: int|
                        0 <= h < states@.len() && 0 <= j < av.len() implies Some(
                        #[trigger] state_at(states@, h, j),
                    ) == accumulated(av[j], more, gv, key_views(keys@)[h]) by {
                        assert(Some(state_at(old_states, h, j)) == accumulated(
                            av[j],
                            seen,
                            gv,
                            old_keys[h],
                        ));
                        if h != g {
                            assert(old_keys[h] != old_keys[g as int]);
                            assert(state_at(states@, h, j) == state_at(old_states, h, j));
                        } else {
                            assert(updated@[j]@ == state_at(states@, h, j));
                        }
                    }
                }
            },
            None => {
                let fresh = advance(aggr_expr, None, row);
                keys.push(key);
                states.push(fresh);
                proof {
                    assert(key_views(keys@) =~= old_keys.push(kv));
                    assert forall|h: int, j: int|
                        0 <= h < states@.len() && 0 <= j < av.len() implies Some(
                        #[trigger] state_at(states@, h, j),
                    ) == accumulated(av[j], more, gv, key_views(keys@)[h]) by {
                        if h < old_states.len() {
                            assert(Some(state_at(old_states, h, j)) == accumulated(
                                av[j],
                                seen,
                                gv,
                                old_keys[h],
                            ));
                            assert(old_keys.contains(old_keys[h]));
                            assert(state_at(states@, h, j) == state_at(old_states, h, j));
                        } else {
                            lemma_unseen_key(av[j], seen, gv, kv);
                            assert(fresh@[j]@ == state_at(states@, h, j));
                        }
                    }
                }
            },
        }
        n += 1;
    }
    proof {
        assert(rv.take(rows@.len() as int) =~= rv);
    }
    let ghost output = aggregate_output(rv, gv, av);
    let mut out: Vec<Tuple> = Vec::with_capacity(keys.len());
    let mut g: usize = 0;
    while g < keys.len()
        invariant
            rv == row_views(rows@),
            gv == expr_views(group_expr@),
            av == expr_views(aggr_expr@),
            output == aggregate_output(rv, gv, av),
            output.len() == keys@.len(),
            keys@.len() == states@.len(),
            key_views(keys@) == distinct_keys(rv, gv),
            forall|h: int| 0 <= h < states@.len() ==> (#[trigger] states@[h])@.len() == av.len(),
            forall|h: int, j: int|
                0 <= h < states@.len() && 0 <= j < av.len() ==> Some(
                    #[trigger] state_at(states@, h, j),
                ) == accumulated(av[j], rv, gv, key_views(keys@)[h]),
            g <= keys@.len(),
            out@.len() == g,
            av.len() == aggr_expr@.len(),
            forall|h: int| 0 <= h < g ==> schema_accepts(schema@, #[trigger] output[h]),
            forall|h: int|
                0 <= h < g ==> (#[trigger] out@[h])@ == (TupleView {
                    schema: schema@,
                    values: output[h],
                }),
        decreases keys@.len() - g,
    {
        let ghost kv = key_views(keys@)[g as int];
        let mut values = crate::tuple::copy_values(&keys[g]);
        let group_states = &states[g];
        let mut j: usize = 0;
        while j < group_states.len()
            invariant
                group_states == states@[g as int],
                group_states@.len() == av.len(),
                0 <= g < states@.len(),
                kv == key_views(keys@)[g as int],
                forall|h: int, x: int|
                    0 <= h < states@.len() && 0 <= x < av.len() ==> Some(
                        #[trigger] state_at(states@, h, x),
                    ) == accumulated(av[x], rv, gv, key_views(keys@)[h]),
                j <= group_states@.len(),
                views_of(values@) == kv + Seq::new(
                    j as nat,
                    |x: int| aggregate_value(av[x], rv, gv, kv),
                ),
            decreases group_states@.len() - j,
        {
            let ghost before = views_of(values@);
            let value = finish(&group_states[j]);
            proof {
                assert(group_states@[j as int]@ == state_at(states@, g as int, j as int));
            }
            values.push(value);
            proof {
                assert(views_of(values@) =~= before.push(value@));
                assert(views_of(values@) =~= kv + Seq::new(
                    (j + 1) as nat,
                    |x: int| aggregate_value(av[x], rv, gv, kv),
                ));
            }
            j += 1;
        }
        proof {
            assert(group_states@.len() == av.len());
            assert(views_of(values@) == output[g as int]);
        }
        match Tuple::new(another_handle(schema), values) {
            Ok(tuple) => out.push(tuple),
            Err(e) => {
                return Err(e);
            },
        }
        g += 1;
    }
    Ok(out)
}

/// The number of rows of the group with the given key.
pub open spec fn group_size(rows: Seq<TupleView>, group: Seq<ExprView>, key: Seq<ValueView>) -> nat
    decreases rows.len(),
{
    if rows.len() == 0 {
        0
    } else {
        group_size(rows.drop_last(), group, key) + if key_of(rows.last(), group) == key {
            1nat
        } else {
            0nat
        }
    }
}

/// A group has no more rows than there are.
pub proof fn lemma_group_size_bound(rows: Seq<TupleView>, group: Seq<ExprView>, key: Seq<ValueView>)
    ensures
        group_size(rows, group, key) <= rows.len(),
    decreases rows.len(),
{
    if rows.len() > 0 {
        lemma_group_size_bound(rows.drop_last(), group, key);
    }
}

/// A sum divided by a count: a number by the count as a number, a vector
/// or a matrix element by element.
pub open spec fn divided(sum: ValueView, count: int) -> ValueView {
    let divisor = float_of_int(count);
    match sum {
        ValueView::Float(s) => ValueView::Float(float_quotient(s, divisor)),
        ValueView::Vector(v) => ValueView::Vector(scaled_vector(v, divisor)),
        ValueView::Matrix(m) => ValueView::Matrix(scaled_matrix(m, divisor)),
        _ => ValueView::Null,
    }
}

/// Whether a value is a number, a vector or a matrix.
pub open spec fn is_numeric(value: ValueView) -> bool {
    value is Float || value is Vector || value is Matrix
}

/// The aggregate of a function over an expression.
pub open spec fn aggregate_of(func: AggregateFunction, inner: ExprView) -> ExprView {
    ExprView::AggregateExpr { func, expr: Box::new(inner) }
}

/// Whether the expression is a number, a vector or a matrix on every row
/// of the group.
pub open spec fn numeric_on_group(
    inner: ExprView,
    rows: Seq<TupleView>,
    group: Seq<ExprView>,
    key: Seq<ValueView>,
) -> bool {
    forall|i: int|
        0 <= i < rows.len() && key_of(#[trigger] rows[i], group) == key ==> is_numeric(
            evaluate(inner, rows[i]),
        )
}

/// Over a group on which the expression is a number, a vector or a
/// matrix, the state of the sum and the state of the average hold the
/// same running sum, and the average counts the rows of the group.
pub proof fn lemma_sum_and_mean(
    inner: ExprView,
    rows: Seq<TupleView>,
    group: Seq<ExprView>,
    key: Seq<ValueView>,
)
    requires
        rows.len() <= usize::MAX,
        numeric_on_group(inner, rows, group, key),
    ensures
        match (
            accumulated(aggregate_of(AggregateFunction::Sum, inner), rows, group, key),
            accumulated(aggregate_of(AggregateFunction::Avg, inner), rows, group, key),
        ) {
            (None, None) => group_size(rows, group, key) == 0,
            (Some(AccumulatorView::Sum(s)), Some(AccumulatorView::Mean { sum, count })) => sum == s
                && count == group_size(rows, group, key) && count > 0 && is_numeric(s),
            _ => false,
        },
    decreases rows.len(),
{
    if rows.len() > 0 {
        let front = rows.drop_last();
        assert forall|i: int|
            0 <= i < front.len() && key_of(#[trigger] front[i], group) == key implies is_numeric(
            evaluate(inner, front[i]),
        ) by {
            assert(front[i] == rows[i]);
        }
        lemma_sum_and_mean(inner, front, group, key);
        lemma_group_size_bound(front, group, key);
        let row = rows.last();
        if key_of(row, group) == key {
            assert(rows[rows.len() - 1] == row);
            let value = evaluate(inner, row);
            assert(is_numeric(value));
        }
    }
}

/// An average is the sum divided by the number of rows, per group:
/// exactly so for a number, and element by element for a vector or a
/// matrix. This holds of groups on which the expression is a number, a
/// vector or a matrix throughout.
pub proof fn law_avg_is_sum_over_count(
    inner: ExprView,
    rows: Seq<TupleView>,
    group: Seq<ExprView>,
    key: Seq<ValueView>,
)
    requires
        rows.len() <= usize::MAX,
        group_size(rows, group, key) > 0,
        numeric_on_group(inner, rows, group, key),
    ensures
        aggregate_value(aggregate_of(AggregateFunction::Avg, inner), rows, group, key) == divided(
            aggregate_value(aggregate_of(AggregateFunction::Sum, inner), rows, group, key),
            group_size(rows, group, key) as int,
        ),
{
    lemma_sum_and_mean(inner, rows, group, key);
}

/// A count is the number of rows of its group, as long as that number is
/// one an integer value can hold.
pub proof fn law_count_is_group_size(
    inner: ExprView,
    rows: Seq<TupleView>,
    group: Seq<ExprView>,
    key: Seq<ValueView>,
)
    requires
        rows.len() <= i64::MAX,
        group_size(rows, group, key) > 0,
    ensures
        aggregate_value(aggregate_of(AggregateFunction::Count, inner), rows, group, key)
            == ValueView::Int(group_size(rows, group, key) as i64),
{
    lemma_count(inner, rows, group, key);
}

/// The state of a count holds the number of rows of its group.
pub proof fn lemma_count(
    inner: ExprView,
    rows: Seq<TupleView>,
    group: Seq<ExprView>,
    key: Seq<ValueView>,
)
    requires
        rows.len() <= i64::MAX,
    ensures
        match accumulated(aggregate_of(AggregateFunction::Count, inner), rows, group, key) {
            None => group_size(rows, group, key) == 0,
            Some(AccumulatorView::Count(c)) => c == group_size(rows, group, key) && c > 0,
            _ => false,
        },
    decreases rows.len(),
{
    if rows.len() > 0 {
        lemma_count(inner, rows.drop_last(), group, key);
        lemma_group_size_bound(rows.drop_last(), group, key);
    }
}

} // verus!
