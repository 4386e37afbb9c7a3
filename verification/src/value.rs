//! Values of a row and their type descriptors.

use crate::float;
use crate::float::{float_of_int, float_relation, int_of_float};
use crate::order::{int_relation, relate_bools, relate_ints, relate_texts, text_relation, Relation};
use std::cmp::Ordering;
use vstd::prelude::*;

verus! {

/// A value in a row. Single-precision numbers, alone or in a vector or a
/// matrix, are held as bit patterns, so two values are equal exactly when
/// they are the same variant with the same contents, bit for bit.
#[derive(Debug, Hash)]
pub enum Value {
    Float(u32),
    Int(i64),
    String(String),
    Bool(bool),
    /// A vector; its length is part of its type.
    Vector(Vec<u32>),
    /// A matrix as a list of rows, all of one length.
    Matrix(Vec<Vec<u32>>),
    Null,
}

/// Mathematical model of a [`Value`].
pub enum ValueView {
    Float(u32),
    Int(i64),
    String(Seq<char>),
    Bool(bool),
    Vector(Seq<u32>),
    Matrix(Seq<Seq<u32>>),
    Null,
}

/// Type descriptor of a value.
#[derive(Debug, Clone, Copy, PartialEq, Eq, Hash, Structural)]
pub enum ValueType {
    Float,
    Int,
    String,
    Bool,
    /// A vector of the given length.
    Vector(usize),
    /// A matrix of the given numbers of rows and columns.
    Matrix(usize, usize),
    Null,
}

impl View for Value {
    type V = ValueView;

    open spec fn view(&self) -> ValueView {
        match self {
            Value::Float(bits) => ValueView::Float(*bits),
            Value::Int(i) => ValueView::Int(*i),
            Value::String(s) => ValueView::String(s@),
            Value::Bool(b) => ValueView::Bool(*b),
            Value::Vector(v) => ValueView::Vector(v@),
            Value::Matrix(m) => ValueView::Matrix(m.deep_view()),
            Value::Null => ValueView::Null,
        }
    }
}

/// The views of a list of values.
pub open spec fn views_of(values: Seq<Value>) -> Seq<ValueView> {
    values.map_values(|v: Value| v@)
}

impl ValueView {
    /// The type descriptor. A matrix without rows has zero columns; the
    /// column count of any other matrix is the length of its first row.
    pub open spec fn value_type(self) -> ValueType {
        match self {
            ValueView::Float(_) => ValueType::Float,
            ValueView::Int(_) => ValueType::Int,
            ValueView::String(_) => ValueType::String,
            ValueView::Bool(_) => ValueType::Bool,
            ValueView::Vector(v) => ValueType::Vector(v.len() as usize),
            ValueView::Matrix(m) => if m.len() == 0 {
                ValueType::Matrix(0, 0)
            } else {
                ValueType::Matrix(m.len() as usize, m[0].len() as usize)
            },
            ValueView::Null => ValueType::Null,
        }
    }

    /// Whether the value matches a descriptor: the variants agree and, for
    /// a vector or a matrix, so do the dimensions. `Null` matches every
    /// descriptor.
    pub open spec fn matches_type(self, value_type: ValueType) -> bool {
        match (self, value_type) {
            (ValueView::Float(_), ValueType::Float) => true,
            (ValueView::Int(_), ValueType::Int) => true,
            (ValueView::String(_), ValueType::String) => true,
            (ValueView::Bool(_), ValueType::Bool) => true,
            (ValueView::Vector(v), ValueType::Vector(dim)) => v.len() == dim,
            (ValueView::Matrix(m), ValueType::Matrix(r, c)) => m.len() == r && (m.len() == 0
                || m[0].len() == c),
            (ValueView::Null, _) => true,
            _ => false,
        }
    }

    /// Whether every row of a matrix has the length of the first; true of
    /// every other variant.
    pub open spec fn is_rectangular(self) -> bool {
        match self {
            ValueView::Matrix(m) => forall|i: int| 0 <= i < m.len() ==> (#[trigger] m[i]).len()
                == m[0].len(),
            _ => true,
        }
    }

    /// How this value stands to another. Values of one scalar variant are
    /// ordered among themselves; an integer and a number are compared as
    /// numbers after the integer is converted; `Null` comes before every
    /// other value; vectors and matrices stand in no relation, nor does a
    /// NaN, nor do other mixed pairs.
    pub open spec fn relation(self, other: ValueView) -> Option<Relation> {
        match (self, other) {
            (ValueView::Float(a), ValueView::Float(b)) => float_relation(a, b),
            (ValueView::Int(a), ValueView::Int(b)) => Some(int_relation(a as int, b as int)),
            (ValueView::String(a), ValueView::String(b)) => Some(text_relation(a, b)),
            (ValueView::Bool(a), ValueView::Bool(b)) => Some(
                int_relation(if a { 1 } else { 0 }, if b { 1 } else { 0 }),
            ),
            (ValueView::Null, ValueView::Null) => Some(Relation::Equal),
            (ValueView::Null, _) => Some(Relation::Less),
            (_, ValueView::Null) => Some(Relation::Greater),
            (ValueView::Float(a), ValueView::Int(b)) => float_relation(a, float_of_int(b as int)),
            (ValueView::Int(a), ValueView::Float(b)) => float_relation(float_of_int(a as int), b),
            _ => None,
        }
    }
}

impl ValueType {
    /// The value a column of this type holds when nothing else is said:
    /// zero, the empty text, `false`, or zeros of the right dimensions.
    pub open spec fn default_view(self) -> ValueView {
        match self {
            ValueType::Int => ValueView::Int(0),
            ValueType::Float => ValueView::Float(float::ZERO),
            ValueType::String => ValueView::String(Seq::empty()),
            ValueType::Bool => ValueView::Bool(false),
            ValueType::Vector(dim) => ValueView::Vector(Seq::new(dim as nat, |i: int| float::ZERO)),
            ValueType::Matrix(rows, cols) => ValueView::Matrix(
                Seq::new(rows as nat, |i: int| Seq::new(cols as nat, |j: int| float::ZERO)),
            ),
            ValueType::Null => ValueView::Null,
        }
    }

    /// Computes [`ValueType::default_view`].
    pub fn default_value(&self) -> (r: Value)
        ensures
            r@ == self.default_view(),
    {
        match self {
            ValueType::Int => Value::Int(0),
            ValueType::Float => Value::Float(float::ZERO),
            ValueType::String => Value::String(String::new()),
            ValueType::Bool => Value::Bool(false),
            ValueType::Vector(dim) => Value::Vector(zero_numbers(*dim)),
            ValueType::Matrix(rows, cols) => {
                let mut out: Vec<Vec<u32>> = Vec::new();
                let mut i: usize = 0;
                while i < *rows
                    invariant
                        i <= *rows,
                        out@.len() == i,
                        forall|k: int|
                            0 <= k < i ==> (#[trigger] out@[k])@ == Seq::new(
                                *cols as nat,
                                |j: int| float::ZERO,
                            ),
                    decreases *rows - i,
                {
                    out.push(zero_numbers(*cols));
                    i += 1;
                }
                proof {
                    assert forall|k: int| 0 <= k < out@.len() implies out.deep_view()[k]
                        == Seq::new(*cols as nat, |j: int| float::ZERO) by {
                        assert(out.deep_view()[k] == out@[k]@);
                    }
                    assert(out.deep_view() =~= Seq::new(
                        *rows as nat,
                        |i: int| Seq::new(*cols as nat, |j: int| float::ZERO),
                    ));
                }
                Value::Matrix(out)
            },
            ValueType::Null => Value::Null,
        }
    }
}

/// A list of zeros.
pub fn zero_numbers(len: usize) -> (r: Vec<u32>)
    ensures
        r@ == Seq::new(len as nat, |i: int| float::ZERO),
{
    let mut out: Vec<u32> = Vec::with_capacity(len);
    let mut i: usize = 0;
    while i < len
        invariant
            i <= len,
            out@.len() == i,
            forall|k: int| 0 <= k < i ==> out@[k] == float::ZERO,
        decreases len - i,
    {
        out.push(float::ZERO);
        i += 1;
    }
    assert(out@ =~= Seq::new(len as nat, |i: int| float::ZERO));
    out
}

/// A copy of a list of numbers.
pub fn copy_numbers(source: &Vec<u32>) -> (r: Vec<u32>)
    ensures
        r@ == source@,
{
    let mut out: Vec<u32> = Vec::with_capacity(source.len());
    let mut i: usize = 0;
    while i < source.len()
        invariant
            i <= source@.len(),
            out@ == source@.take(i as int),
        decreases source@.len() - i,
    {
        out.push(source[i]);
        proof {
            assert(source@.take(i + 1) =~= source@.take(i as int).push(source@[i as int]));
        }
        i += 1;
    }
    proof {
        assert(source@.take(source@.len() as int) =~= source@);
    }
    out
}

/// A copy of a matrix.
pub fn copy_matrix(source: &Vec<Vec<u32>>) -> (r: Vec<Vec<u32>>)
    ensures
        r.deep_view() == source.deep_view(),
{
    let mut out: Vec<Vec<u32>> = Vec::with_capacity(source.len());
    let mut i: usize = 0;
    while i < source.len()
        invariant
            i <= source@.len(),
            out@.len() == i,
            forall|j: int| 0 <= j < i ==> out@[j]@ == source@[j]@,
        decreases source@.len() - i,
    {
        out.push(copy_numbers(&source[i]));
        i += 1;
    }
    proof {
        assert(out.deep_view() =~= source.deep_view());
    }
    out
}

/// Whether two lists of numbers are equal bit for bit.
pub fn same_numbers(a: &Vec<u32>, b: &Vec<u32>) -> (r: bool)
    ensures
        r == (a@ == b@),
{
    if a.len() != b.len() {
        return false;
    }
    let mut i: usize = 0;
    while i < a.len()
        invariant
            a@.len() == b@.len(),
            i <= a@.len(),
            forall|j: int| 0 <= j < i ==> a@[j] == b@[j],
        decreases a@.len() - i,
    {
        if a[i] != b[i] {
            return false;
        }
        i += 1;
    }
    assert(a@ =~= b@);
    true
}

/// Whether two matrices are equal bit for bit.
pub fn same_matrix(a: &Vec<Vec<u32>>, b: &Vec<Vec<u32>>) -> (r: bool)
    ensures
        r == (a.deep_view() == b.deep_view()),
{
    if a.len() != b.len() {
        assert(a.deep_view().len() != b.deep_view().len());
        return false;
    }
    let mut i: usize = 0;
    while i < a.len()
        invariant
            a@.len() == b@.len(),
            i <= a@.len(),
            forall|j: int| 0 <= j < i ==> a@[j]@ == b@[j]@,
        decreases a@.len() - i,
    {
        if !same_numbers(&a[i], &b[i]) {
            assert(a.deep_view()[i as int] == a@[i as int]@);
            assert(b.deep_view()[i as int] == b@[i as int]@);
            return false;
        }
        i += 1;
    }
    assert(a.deep_view() =~= b.deep_view());
    true
}

impl Clone for Value {
    fn clone(&self) -> (r: Self)
        ensures
            r@ == self@,
    {
        match self {
            Value::Float(bits) => Value::Float(*bits),
            Value::Int(i) => Value::Int(*i),
            Value::String(s) => Value::String(s.clone()),
            Value::Bool(b) => Value::Bool(*b),
            Value::Vector(v) => Value::Vector(copy_numbers(v)),
            Value::Matrix(m) => Value::Matrix(copy_matrix(m)),
            Value::Null => Value::Null,
        }
    }
}

impl PartialEq for Value {
    fn eq(&self, other: &Self) -> (r: bool) {
        match (self, other) {
            (Value::Float(a), Value::Float(b)) => *a == *b,
            (Value::Int(a), Value::Int(b)) => *a == *b,
            (Value::String(a), Value::String(b)) => crate::order::same_text(
                a.as_str(),
                b.as_str(),
            ),
            (Value::Bool(a), Value::Bool(b)) => *a == *b,
            (Value::Vector(a), Value::Vector(b)) => same_numbers(a, b),
            (Value::Matrix(a), Value::Matrix(b)) => same_matrix(a, b),
            (Value::Null, Value::Null) => true,
            _ => false,
        }
    }
}

impl vstd::std_specs::cmp::PartialEqSpecImpl for Value {
    open spec fn obeys_eq_spec() -> bool {
        true
    }

    open spec fn eq_spec(&self, other: &Self) -> bool {
        self@ == other@
    }
}

impl Eq for Value {

}

impl Value {
    /// The type descriptor of this value.
    pub fn value_type(&self) -> (r: ValueType)
        ensures
            r == self@.value_type(),
    {
        match self {
            Value::Float(_) => ValueType::Float,
            Value::Int(_) => ValueType::Int,
            Value::String(_) => ValueType::String,
            Value::Bool(_) => ValueType::Bool,
            Value::Vector(v) => ValueType::Vector(v.len()),
            Value::Matrix(m) => {
                if m.len() == 0 {
                    ValueType::Matrix(0, 0)
                } else {
                    assert(m.deep_view()[0] == m@[0]@);
                    ValueType::Matrix(m.len(), m[0].len())
                }
            },
            Value::Null => ValueType::Null,
        }
    }

    /// Whether this value is `Null`.
    pub fn is_null(&self) -> (r: bool)
        ensures
            r == (self@ is Null),
    {
        match self {
            Value::Null => true,
            _ => false,
        }
    }

    /// The value as a number: a number as it is, an integer converted with
    /// rounding to nearest.
    pub fn as_float(&self) -> (r: Option<u32>)
        ensures
            r == match self@ {
                ValueView::Float(bits) => Some(bits),
                ValueView::Int(i) => Some(float_of_int(i as int)),
                _ => None,
            },
    {
        match self {
            Value::Float(bits) => Some(*bits),
            Value::Int(i) => Some(float::from_int(*i as i128)),
            _ => None,
        }
    }

    /// The value as an integer: an integer as it is, a number truncated
    /// toward zero.
    pub fn as_int(&self) -> (r: Option<i64>)
        ensures
            r == match self@ {
                ValueView::Int(i) => Some(i),
                ValueView::Float(bits) => Some(int_of_float(bits)),
                _ => None,
            },
    {
        match self {
            Value::Int(i) => Some(*i),
            Value::Float(bits) => Some(float::to_int(*bits)),
            _ => None,
        }
    }

    /// The text of a `String` value.
    pub fn as_str(&self) -> (r: Option<&str>)
        ensures
            match self@ {
                ValueView::String(text) => r matches Some(s) && s@ == text,
                _ => r is None,
            },
    {
        match self {
            Value::String(s) => Some(s.as_str()),
            _ => None,
        }
    }

    /// The truth value of a `Bool` value.
    pub fn as_bool(&self) -> (r: Option<bool>)
        ensures
            r == match self@ {
                ValueView::Bool(b) => Some(b),
                _ => None,
            },
    {
        match self {
            Value::Bool(b) => Some(*b),
            _ => None,
        }
    }

    /// The numbers of a `Vector` value.
    pub fn as_vector(&self) -> (r: Option<&[u32]>)
        ensures
            match self@ {
                ValueView::Vector(numbers) => r matches Some(s) && s@ == numbers,
                _ => r is None,
            },
    {
        match self {
            Value::Vector(v) => Some(v.as_slice()),
            _ => None,
        }
    }

    /// How this value stands to another, for sorting and filtering: see
    /// [`ValueView::relation`].
    pub fn relation(&self, other: &Value) -> (r: Option<Relation>)
        ensures
            r == self@.relation(other@),
    {
        match (self, other) {
            (Value::Float(a), Value::Float(b)) => float::relation(*a, *b),
            (Value::Int(a), Value::Int(b)) => Some(relate_ints(*a, *b)),
            (Value::String(a), Value::String(b)) => Some(relate_texts(a.as_str(), b.as_str())),
            (Value::Bool(a), Value::Bool(b)) => Some(relate_bools(*a, *b)),
            (Value::Null, Value::Null) => Some(Relation::Equal),
            (Value::Null, _) => Some(Relation::Less),
            (_, Value::Null) => Some(Relation::Greater),
            (Value::Float(a), Value::Int(b)) => float::relation(*a, float::from_int(*b as i128)),
            (Value::Int(a), Value::Float(b)) => float::relation(float::from_int(*a as i128), *b),
            _ => None,
        }
    }

    /// How this value stands to another, in the terms of the standard
    /// library: see [`ValueView::relation`].
    pub fn compare(&self, other: &Value) -> (r: Option<Ordering>)
        ensures
            r == match self@.relation(other@) {
                Some(Relation::Less) => Some(Ordering::Less),
                Some(Relation::Equal) => Some(Ordering::Equal),
                Some(Relation::Greater) => Some(Ordering::Greater),
                None => None,
            },
    {
        match self.relation(other) {
            Some(Relation::Less) => Some(Ordering::Less),
            Some(Relation::Equal) => Some(Ordering::Equal),
            Some(Relation::Greater) => Some(Ordering::Greater),
            None => None,
        }
    }

    /// Whether this value matches a descriptor: see
    /// [`ValueView::matches_type`].
    pub fn matches_type(&self, value_type: &ValueType) -> (r: bool)
        ensures
            r == self@.matches_type(*value_type),
    {
        match (self, value_type) {
            (Value::Float(_), ValueType::Float) => true,
            (Value::Int(_), ValueType::Int) => true,
            (Value::String(_), ValueType::String) => true,
            (Value::Bool(_), ValueType::Bool) => true,
            (Value::Vector(v), ValueType::Vector(dim)) => v.len() == *dim,
            (Value::Matrix(m), ValueType::Matrix(r, c)) => {
                if m.len() != *r {
                    false
                } else if m.len() == 0 {
                    true
                } else {
                    assert(m.deep_view()[0] == m@[0]@);
                    m[0].len() == *c
                }
            },
            (Value::Null, _) => true,
            _ => false,
        }
    }
}

} // verus!
