//! Tensor kernels: pure functions from tensors to a new tensor or a number.
//!
//! Every kernel gives its output the identifier the caller passes in and
//! reports a violated condition as `Err`; none of them panics.

use crate::float;
use crate::float::{
    float_difference, float_product, float_quotient, float_sqrt, float_sum, is_zero,
};
use crate::tensor::{lemma_product_small, product, Shape, Tensor, TensorId, TensorView};
use crate::text::dims_text;
use vstd::prelude::*;
use vstd::string::StringExecFns;

verus! {

/// The four element-wise operations.
#[derive(Debug, Clone, Copy, PartialEq, Eq, Structural)]
pub enum Arithmetic {
    Add,
    Subtract,
    Multiply,
    Divide,
}

impl Arithmetic {
    /// The result of the operation on two numbers.
    pub open spec fn apply(self, x: u32, y: u32) -> u32 {
        match self {
            Arithmetic::Add => float_sum(x, y),
            Arithmetic::Subtract => float_difference(x, y),
            Arithmetic::Multiply => float_product(x, y),
            Arithmetic::Divide => float_quotient(x, y),
        }
    }

    /// Whether the operation refuses the right operand: only division
    /// does, and only a zero of either sign.
    pub open spec fn refuses(self, y: u32) -> bool {
        self == Arithmetic::Divide && is_zero(y)
    }

    /// The number that stands in for a missing element when vectors of
    /// different lengths are combined: 0 for sums and differences, 1 for
    /// products and quotients.
    pub open spec fn neutral(self) -> u32 {
        match self {
            Arithmetic::Add | Arithmetic::Subtract => float::ZERO,
            Arithmetic::Multiply | Arithmetic::Divide => float::ONE,
        }
    }

    /// Computes the operation, or `None` where it is refused.
    pub fn compute(self, x: u32, y: u32) -> (r: Option<u32>)
        ensures
            r == if self.refuses(y) {
                None
            } else {
                Some(self.apply(x, y))
            },
    {
        match self {
            Arithmetic::Add => Some(float::sum(x, y)),
            Arithmetic::Subtract => Some(float::difference(x, y)),
            Arithmetic::Multiply => Some(float::product(x, y)),
            Arithmetic::Divide => {
                if float::zero(y) {
                    None
                } else {
                    Some(float::quotient(x, y))
                }
            },
        }
    }

    /// The neutral element as a bit pattern.
    pub fn neutral_element(self) -> (r: u32)
        ensures
            r == self.neutral(),
            !is_zero(float::ONE),
    {
        assert(float::ONE & float::MAGNITUDE_MASK != 0) by (bit_vector);
        match self {
            Arithmetic::Add | Arithmetic::Subtract => float::ZERO,
            Arithmetic::Multiply | Arithmetic::Divide => float::ONE,
        }
    }
}

/// Element `i` of a vector padded with `fill` past its end.
pub open spec fn padded(data: Seq<u32>, i: int, fill: u32) -> u32 {
    if i < data.len() {
        data[i]
    } else {
        fill
    }
}

/// The operation applied position by position to two sequences of one
/// length.
pub open spec fn zip_with(op: Arithmetic, a: Seq<u32>, b: Seq<u32>) -> Seq<u32> {
    Seq::new(a.len(), |i: int| op.apply(a[i], b[i]))
}

/// Whether the operation refuses some element of `b`.
pub open spec fn refuses_any(op: Arithmetic, b: Seq<u32>) -> bool {
    exists|i: int| 0 <= i < b.len() && op.refuses(#[trigger] b[i])
}

/// What the shape-exact element-wise kernel returns: the shapes must be
/// equal and no right operand refused.
pub open spec fn strict_result(op: Arithmetic, a: TensorView, b: TensorView, id: TensorId)
    -> Option<TensorView> {
    if a.dims != b.dims || refuses_any(op, b.data) {
        None
    } else {
        Some(TensorView { id, dims: a.dims, data: zip_with(op, a.data, b.data) })
    }
}

/// What the relaxed element-wise kernel returns. A scalar on either side
/// is combined with every element of the other side; two vectors are
/// aligned to the longer one, the shorter padded with the neutral element;
/// every other pair of ranks is refused.
pub open spec fn relaxed_result(op: Arithmetic, a: TensorView, b: TensorView, id: TensorId)
    -> Option<TensorView> {
    if a.dims.len() == 0 {
        if refuses_any(op, b.data) {
            None
        } else {
            Some(
                TensorView {
                    id,
                    dims: b.dims,
                    data: Seq::new(b.data.len(), |i: int| op.apply(a.data[0], b.data[i])),
                },
            )
        }
    } else if b.dims.len() == 0 {
        if a.data.len() > 0 && op.refuses(b.data[0]) {
            None
        } else {
            Some(
                TensorView {
                    id,
                    dims: a.dims,
                    data: Seq::new(a.data.len(), |i: int| op.apply(a.data[i], b.data[0])),
                },
            )
        }
    } else if a.dims.len() == 1 && b.dims.len() == 1 {
        let len = if a.data.len() >= b.data.len() {
            a.data.len()
        } else {
            b.data.len()
        };
        if refuses_any(op, b.data) {
            None
        } else {
            Some(
                TensorView {
                    id,
                    dims: seq![len as usize],
                    data: Seq::new(
                        len,
                        |i: int|
                            op.apply(
                                padded(a.data, i, op.neutral()),
                                padded(b.data, i, op.neutral()),
                            ),
                    ),
                },
            )
        }
    } else {
        None
    }
}

/// What is said when two shapes differ: both shapes.
pub open spec fn shape_mismatch_text(a: Seq<usize>, b: Seq<usize>) -> Seq<char> {
    "Shape mismatch: "@ + crate::text::dims_spec(a) + " vs "@ + crate::text::dims_spec(b)
}

/// What is said when an element-wise operation on two tensors of one
/// shape fails: both shapes where they differ, and else that a divisor
/// is zero.
pub open spec fn strict_error(a: TensorView, b: TensorView) -> Seq<char> {
    if a.dims != b.dims {
        shape_mismatch_text(a.dims, b.dims)
    } else {
        "Division by zero in element-wise divide"@
    }
}

/// What is said when an operation on two vectors of one length fails:
/// that vectors are expected, in the words given, or both shapes.
pub open spec fn vectors_error(expected: Seq<char>, a: TensorView, b: TensorView) -> Seq<char> {
    if a.dims.len() != 1 || b.dims.len() != 1 {
        expected
    } else {
        shape_mismatch_text(a.dims, b.dims)
    }
}

/// What is said when the cosine similarity of two tensors cannot be
/// computed: what [`dot_1d`] says, or that a norm is zero.
pub open spec fn cosine_error(a: TensorView, b: TensorView) -> Seq<char> {
    if vectors_of_one_length(a, b) {
        "Cannot compute cosine similarity with zero-norm vector"@
    } else {
        vectors_error("dot_1d expects rank-1 tensors"@, a, b)
    }
}

/// What is said when a tensor cannot be normalized: that a vector is
/// expected, or that the vector is zero.
pub open spec fn normalize_error(a: TensorView) -> Seq<char> {
    if a.dims.len() != 1 {
        "l2_norm_1d expects rank-1 tensor"@
    } else {
        "Cannot normalize a zero vector"@
    }
}

/// Text of the failure when two shapes differ.
fn shape_mismatch(a: &Shape, b: &Shape) -> (r: String)
    ensures
        r@ == shape_mismatch_text(a@, b@),
{
    let mut text = "Shape mismatch: ".to_owned();
    text.append(dims_text(&a.dims).as_str());
    text.append(" vs ");
    text.append(dims_text(&b.dims).as_str());
    text
}

/// Succeeds exactly when the two shapes are equal.
pub fn ensure_same_shape(a: &Shape, b: &Shape) -> (r: Result<(), String>)
    ensures
        r is Ok <==> a@ == b@,
        r matches Err(text) ==> text@ == shape_mismatch_text(a@, b@),
{
    if a.same_as(b) {
        Ok(())
    } else {
        Err(shape_mismatch(a, b))
    }
}

/// The shape-exact element-wise kernel behind `add`, `sub`, `multiply` and
/// `divide`.
pub fn elementwise_strict(op: Arithmetic, a: &Tensor, b: &Tensor, new_id: TensorId) -> (r:
    Result<Tensor, String>)
    ensures
        match strict_result(op, a@, b@, new_id) {
            Some(view) => r matches Ok(t) && t@ == view,
            None => r is Err,
        },
        r matches Err(text) ==> text@ == strict_error(a@, b@),
{
    if ensure_same_shape(a.shape(), b.shape()).is_err() {
        return Err(shape_mismatch(a.shape(), b.shape()));
    }
    let left = a.data_ref();
    let right = b.data_ref();
    let mut data: Vec<u32> = Vec::with_capacity(left.len());
    let mut i: usize = 0;
    while i < left.len()
        invariant
            a@.dims == b@.dims,
            left@ == a@.data,
            right@ == b@.data,
            left@.len() == right@.len(),
            i <= left@.len(),
            data@.len() == i,
            forall|j: int| 0 <= j < i ==> !op.refuses(#[trigger] right@[j]),
            forall|j: int| 0 <= j < i ==> data@[j] == op.apply(left@[j], right@[j]),
        decreases left@.len() - i,
    {
        match op.compute(left[i], right[i]) {
            Some(value) => data.push(value),
            None => {
                return Err("Division by zero in element-wise divide".to_owned());
            },
        }
        i += 1;
    }
    assert(data@ =~= zip_with(op, a@.data, b@.data));
    Tensor::new(new_id, a.shape().clone(), data)
}

/// Element-wise sum of two tensors of one shape.
pub fn add(a: &Tensor, b: &Tensor, new_id: TensorId) -> (r: Result<Tensor, String>)
    ensures
        r is Ok <==> a@.dims == b@.dims,
        r matches Ok(t) ==> t@ == (TensorView {
            id: new_id,
            dims: a@.dims,
            data: zip_with(Arithmetic::Add, a@.data, b@.data),
        }),
        r matches Err(text) ==> text@ == strict_error(a@, b@),
{
    elementwise_strict(Arithmetic::Add, a, b, new_id)
}

/// Element-wise difference of two tensors of one shape.
pub fn sub(a: &Tensor, b: &Tensor, new_id: TensorId) -> (r: Result<Tensor, String>)
    ensures
        r is Ok <==> a@.dims == b@.dims,
        r matches Ok(t) ==> t@ == (TensorView {
            id: new_id,
            dims: a@.dims,
            data: zip_with(Arithmetic::Subtract, a@.data, b@.data),
        }),
        r matches Err(text) ==> text@ == strict_error(a@, b@),
{
    elementwise_strict(Arithmetic::Subtract, a, b, new_id)
}

/// Element-wise product of two tensors of one shape.
pub fn multiply(a: &Tensor, b: &Tensor, new_id: TensorId) -> (r: Result<Tensor, String>)
    ensures
        r is Ok <==> a@.dims == b@.dims,
        r matches Ok(t) ==> t@ == (TensorView {
            id: new_id,
            dims: a@.dims,
            data: zip_with(Arithmetic::Multiply, a@.data, b@.data),
        }),
        r matches Err(text) ==> text@ == strict_error(a@, b@),
{
    elementwise_strict(Arithmetic::Multiply, a, b, new_id)
}

/// Element-wise quotient of two tensors of one shape. Fails when any
/// divisor is a zero of either sign.
pub fn divide(a: &Tensor, b: &Tensor, new_id: TensorId) -> (r: Result<Tensor, String>)
    ensures
        r is Ok <==> a@.dims == b@.dims && forall|i: int|
            0 <= i < b@.data.len() ==> !is_zero(#[trigger] b@.data[i]),
        r matches Ok(t) ==> t@ == (TensorView {
            id: new_id,
            dims: a@.dims,
            data: zip_with(Arithmetic::Divide, a@.data, b@.data),
        }),
        r matches Err(text) ==> text@ == strict_error(a@, b@),
{
    elementwise_strict(Arithmetic::Divide, a, b, new_id)
}

/// The relaxed element-wise kernel behind `add_relaxed`, `sub_relaxed`,
/// `multiply_relaxed` and `divide_relaxed`: a scalar is combined with every
/// element of the other operand, and two vectors are aligned to the longer
/// one with the shorter padded by the neutral element.
pub fn elementwise_binary_op(op: Arithmetic, a: &Tensor, b: &Tensor, new_id: TensorId) -> (r:
    Result<Tensor, String>)
    ensures
        match relaxed_result(op, a@, b@, new_id) {
            Some(view) => r matches Ok(t) && t@ == view,
            None => r is Err,
        },
{
    let left = a.data_ref();
    let right = b.data_ref();
    proof {
        lemma_product_small(a@.dims);
        lemma_product_small(b@.dims);
    }
    if a.rank() == 0 {
        let scalar = left[0];
        let mut data: Vec<u32> = Vec::with_capacity(right.len());
        let mut i: usize = 0;
        while i < right.len()
            invariant
                a@.dims.len() == 0,
                right@ == b@.data,
                i <= right@.len(),
                data@.len() == i,
                forall|j: int| 0 <= j < i ==> !op.refuses(#[trigger] right@[j]),
                forall|j: int| 0 <= j < i ==> data@[j] == op.apply(scalar, right@[j]),
            decreases right@.len() - i,
        {
            match op.compute(scalar, right[i]) {
                Some(value) => data.push(value),
                None => {
                    assert(op.refuses(right@[i as int]));
                    return Err("Division by zero in element-wise divide".to_owned());
                },
            }
            i += 1;
        }
        assert(data@ =~= Seq::new(b@.data.len(), |i: int| op.apply(a@.data[0], b@.data[i])));
        Tensor::new(new_id, b.shape().clone(), data)
    } else if b.rank() == 0 {
        let scalar = right[0];
        let mut data: Vec<u32> = Vec::with_capacity(left.len());
        let mut i: usize = 0;
        while i < left.len()
            invariant
                a@.dims.len() != 0,
                b@.dims.len() == 0,
                b@.data.len() == 1,
                scalar == b@.data[0],
                left@ == a@.data,
                i <= left@.len(),
                data@.len() == i,
                i > 0 ==> !op.refuses(scalar),
                forall|j: int| 0 <= j < i ==> data@[j] == op.apply(left@[j], scalar),
            decreases left@.len() - i,
        {
            match op.compute(left[i], scalar) {
                Some(value) => data.push(value),
                None => {
                    assert(op.refuses(b@.data[0]));
                    return Err("Division by zero in element-wise divide".to_owned());
                },
            }
            i += 1;
        }
        assert(data@ =~= Seq::new(a@.data.len(), |i: int| op.apply(a@.data[i], b@.data[0])));
        Tensor::new(new_id, a.shape().clone(), data)
    } else if a.rank() == 1 && b.rank() == 1 {
        let len = if left.len() >= right.len() {
            left.len()
        } else {
            right.len()
        };
        let fill = op.neutral_element();
        let mut data: Vec<u32> = Vec::with_capacity(len);
        let mut i: usize = 0;
        while i < len
            invariant
                a@.dims.len() == 1,
                b@.dims.len() == 1,
                left@ == a@.data,
                right@ == b@.data,
                len >= left@.len(),
                len >= right@.len(),
                fill == op.neutral(),
                !op.refuses(fill),
                i <= len,
                data@.len() == i,
                forall|j: int| 0 <= j < i && j < right@.len() ==> !op.refuses(#[trigger] right@[j]),
                forall|j: int|
                    0 <= j < i ==> data@[j] == op.apply(
                        padded(left@, j, fill),
                        padded(right@, j, fill),
                    ),
            decreases len - i,
        {
            let x = if i < left.len() {
                left[i]
            } else {
                fill
            };
            let y = if i < right.len() {
                right[i]
            } else {
                fill
            };
            match op.compute(x, y) {
                Some(value) => data.push(value),
                None => {
                    assert(i < right@.len());
                    assert(op.refuses(right@[i as int]));
                    return Err("Division by zero in element-wise divide".to_owned());
                },
            }
            i += 1;
        }
        assert(data@ =~= Seq::new(
            len as nat,
            |i: int|
                op.apply(padded(a@.data, i, op.neutral()), padded(b@.data, i, op.neutral())),
        ));
        let mut dims: Vec<usize> = Vec::new();
        dims.push(len);
        proof {
            lemma_product_small(dims@);
            assert(dims@ =~= seq![len]);
        }
        Tensor::new(new_id, Shape::new(dims), data)
    } else {
        let mut text = "Unsupported shapes for element-wise op: ".to_owned();
        text.append(dims_text(&a.shape().dims).as_str());
        text.append(" vs ");
        text.append(dims_text(&b.shape().dims).as_str());
        Err(text)
    }
}

/// Relaxed sum: see [`relaxed_result`].
pub fn add_relaxed(a: &Tensor, b: &Tensor, new_id: TensorId) -> (r: Result<Tensor, String>)
    ensures
        match relaxed_result(Arithmetic::Add, a@, b@, new_id) {
            Some(view) => r matches Ok(t) && t@ == view,
            None => r is Err,
        },
        r is Ok <==> a@.dims.len() == 0 || b@.dims.len() == 0 || (a@.dims.len() == 1
            && b@.dims.len() == 1),
{
    elementwise_binary_op(Arithmetic::Add, a, b, new_id)
}

/// Relaxed difference: see [`relaxed_result`].
pub fn sub_relaxed(a: &Tensor, b: &Tensor, new_id: TensorId) -> (r: Result<Tensor, String>)
    ensures
        match relaxed_result(Arithmetic::Subtract, a@, b@, new_id) {
            Some(view) => r matches Ok(t) && t@ == view,
            None => r is Err,
        },
        r is Ok <==> a@.dims.len() == 0 || b@.dims.len() == 0 || (a@.dims.len() == 1
            && b@.dims.len() == 1),
{
    elementwise_binary_op(Arithmetic::Subtract, a, b, new_id)
}

/// Relaxed product: see [`relaxed_result`].
pub fn multiply_relaxed(a: &Tensor, b: &Tensor, new_id: TensorId) -> (r: Result<Tensor, String>)
    ensures
        match relaxed_result(Arithmetic::Multiply, a@, b@, new_id) {
            Some(view) => r matches Ok(t) && t@ == view,
            None => r is Err,
        },
        r is Ok <==> a@.dims.len() == 0 || b@.dims.len() == 0 || (a@.dims.len() == 1
            && b@.dims.len() == 1),
{
    elementwise_binary_op(Arithmetic::Multiply, a, b, new_id)
}

/// Relaxed quotient: see [`relaxed_result`]. A zero divisor is refused.
pub fn divide_relaxed(a: &Tensor, b: &Tensor, new_id: TensorId) -> (r: Result<Tensor, String>)
    ensures
        match relaxed_result(Arithmetic::Divide, a@, b@, new_id) {
            Some(view) => r matches Ok(t) && t@ == view,
            None => r is Err,
        },
{
    elementwise_binary_op(Arithmetic::Divide, a, b, new_id)
}

/// Every element multiplied by `s`; the shape is kept.
pub fn scalar_mul(a: &Tensor, s: u32, new_id: TensorId) -> (r: Result<Tensor, String>)
    ensures
        r matches Ok(t) && t@ == (TensorView {
            id: new_id,
            dims: a@.dims,
            data: Seq::new(a@.data.len(), |i: int| float_product(s, a@.data[i])),
        }),
{
    let source = a.data_ref();
    let mut data: Vec<u32> = Vec::with_capacity(source.len());
    let mut i: usize = 0;
    while i < source.len()
        invariant
            source@ == a@.data,
            i <= source@.len(),
            data@.len() == i,
            forall|j: int| 0 <= j < i ==> data@[j] == float_product(s, source@[j]),
        decreases source@.len() - i,
    {
        data.push(float::product(s, source[i]));
        i += 1;
    }
    assert(data@ =~= Seq::new(a@.data.len(), |i: int| float_product(s, a@.data[i])));
    Tensor::new(new_id, a.shape().clone(), data)
}

/// The dot product of two sequences of one length, accumulated from the
/// left starting at `+0.0`.
pub open spec fn dot(a: Seq<u32>, b: Seq<u32>) -> u32
    decreases a.len(),
{
    if a.len() == 0 {
        float::ZERO
    } else {
        float_sum(dot(a.drop_last(), b.drop_last()), float_product(a.last(), b.last()))
    }
}

/// The Euclidean norm: the square root of the dot product with itself.
pub open spec fn l2_norm(a: Seq<u32>) -> u32 {
    float_sqrt(dot(a, a))
}

/// The element-wise difference of two sequences of one length.
pub open spec fn differences(a: Seq<u32>, b: Seq<u32>) -> Seq<u32> {
    zip_with(Arithmetic::Subtract, a, b)
}

/// The Euclidean distance: the norm of the element-wise difference.
pub open spec fn distance(a: Seq<u32>, b: Seq<u32>) -> u32 {
    l2_norm(differences(a, b))
}

/// The cosine similarity: the dot product over the product of the norms.
pub open spec fn cosine(a: Seq<u32>, b: Seq<u32>) -> u32 {
    float_quotient(dot(a, b), float_product(l2_norm(a), l2_norm(b)))
}

/// Whether both tensors are vectors of one length.
pub open spec fn vectors_of_one_length(a: TensorView, b: TensorView) -> bool {
    a.dims.len() == 1 && b.dims.len() == 1 && a.dims == b.dims
}

/// The dot product over slices of one length.
fn dot_of(left: &[u32], right: &[u32]) -> (r: u32)
    requires
        left@.len() == right@.len(),
    ensures
        r == dot(left@, right@),
{
    let mut total: u32 = float::ZERO;
    let mut i: usize = 0;
    while i < left.len()
        invariant
            left@.len() == right@.len(),
            i <= left@.len(),
            total == dot(left@.take(i as int), right@.take(i as int)),
        decreases left@.len() - i,
    {
        proof {
            assert(left@.take(i + 1).drop_last() =~= left@.take(i as int));
            assert(right@.take(i + 1).drop_last() =~= right@.take(i as int));
        }
        total = float::sum(total, float::product(left[i], right[i]));
        i += 1;
    }
    proof {
        assert(left@.take(i as int) =~= left@);
        assert(right@.take(i as int) =~= right@);
    }
    total
}

/// Dot product of two vectors of one length.
pub fn dot_1d(a: &Tensor, b: &Tensor) -> (r: Result<u32, String>)
    ensures
        r is Ok <==> vectors_of_one_length(a@, b@),
        r matches Ok(value) ==> value == dot(a@.data, b@.data),
        r matches Err(text) ==> text@ == vectors_error("dot_1d expects rank-1 tensors"@, a@, b@),
{
    if a.rank() != 1 || b.rank() != 1 {
        return Err("dot_1d expects rank-1 tensors".to_owned());
    }
    if ensure_same_shape(a.shape(), b.shape()).is_err() {
        return Err(shape_mismatch(a.shape(), b.shape()));
    }
    Ok(dot_of(a.data_ref(), b.data_ref()))
}

/// Euclidean norm of a vector.
pub fn l2_norm_1d(a: &Tensor) -> (r: Result<u32, String>)
    ensures
        r is Ok <==> a@.dims.len() == 1,
        r matches Ok(value) ==> value == l2_norm(a@.data),
        r matches Err(text) ==> text@ == "l2_norm_1d expects rank-1 tensor"@,
{
    if a.rank() != 1 {
        return Err("l2_norm_1d expects rank-1 tensor".to_owned());
    }
    let data = a.data_ref();
    Ok(float::square_root(dot_of(data, data)))
}

/// Euclidean distance between two vectors of one length.
pub fn distance_1d(a: &Tensor, b: &Tensor) -> (r: Result<u32, String>)
    ensures
        r is Ok <==> vectors_of_one_length(a@, b@),
        r matches Ok(value) ==> value == distance(a@.data, b@.data),
        r matches Err(text) ==> text@ == vectors_error("distance_1d expects rank-1 tensors"@, a@, b@),
{
    if a.rank() != 1 || b.rank() != 1 {
        return Err("distance_1d expects rank-1 tensors".to_owned());
    }
    if ensure_same_shape(a.shape(), b.shape()).is_err() {
        return Err(shape_mismatch(a.shape(), b.shape()));
    }
    let left = a.data_ref();
    let right = b.data_ref();
    let mut gaps: Vec<u32> = Vec::with_capacity(left.len());
    let mut i: usize = 0;
    while i < left.len()
        invariant
            left@.len() == right@.len(),
            i <= left@.len(),
            gaps@.len() == i,
            forall|j: int| 0 <= j < i ==> gaps@[j] == float_difference(left@[j], right@[j]),
        decreases left@.len() - i,
    {
        gaps.push(float::difference(left[i], right[i]));
        i += 1;
    }
    assert(gaps@ =~= differences(left@, right@));
    Ok(float::square_root(dot_of(gaps.as_slice(), gaps.as_slice())))
}

/// Cosine similarity of two vectors of one length. Fails when either norm
/// is a zero of either sign.
pub fn cosine_similarity_1d(a: &Tensor, b: &Tensor) -> (r: Result<u32, String>)
    ensures
        r is Ok <==> vectors_of_one_length(a@, b@) && !is_zero(l2_norm(a@.data)) && !is_zero(
            l2_norm(b@.data),
        ),
        r matches Ok(value) ==> value == cosine(a@.data, b@.data),
        r matches Err(text) ==> text@ == cosine_error(a@, b@),
{
    let dot_ab = match dot_1d(a, b) {
        Ok(value) => value,
        Err(e) => {
            return Err(e);
        },
    };
    let norm_a = match l2_norm_1d(a) {
        Ok(value) => value,
        Err(e) => {
            return Err(e);
        },
    };
    let norm_b = match l2_norm_1d(b) {
        Ok(value) => value,
        Err(e) => {
            return Err(e);
        },
    };
    if float::zero(norm_a) || float::zero(norm_b) {
        return Err("Cannot compute cosine similarity with zero-norm vector".to_owned());
    }
    Ok(float::quotient(dot_ab, float::product(norm_a, norm_b)))
}

/// A vector rescaled by the inverse of its norm. Fails on a tensor that is
/// not a vector and on a norm that is a zero of either sign.
pub fn normalize_1d(a: &Tensor, new_id: TensorId) -> (r: Result<Tensor, String>)
    ensures
        r is Ok <==> a@.dims.len() == 1 && !is_zero(l2_norm(a@.data)),
        r matches Ok(t) ==> t@ == (TensorView {
            id: new_id,
            dims: a@.dims,
            data: Seq::new(
                a@.data.len(),
                |i: int|
                    float_product(float_quotient(float::ONE, l2_norm(a@.data)), a@.data[i]),
            ),
        }),
        r matches Err(text) ==> text@ == normalize_error(a@),
{
    let norm = match l2_norm_1d(a) {
        Ok(value) => value,
        Err(e) => {
            return Err(e);
        },
    };
    if float::zero(norm) {
        return Err("Cannot normalize a zero vector".to_owned());
    }
    let factor = float::quotient(float::ONE, norm);
    scalar_mul(a, factor, new_id)
}

/// In a row-major layout of `width` columns, cell `(i, j)` sits at
/// `i * width + j`, and that position gives the cell back.
pub proof fn lemma_row_major(i: int, j: int, width: int)
    requires
        0 <= i,
        0 <= j < width,
    ensures
        (i * width + j) / width == i,
        (i * width + j) % width == j,
{
    vstd::arithmetic::div_mod::lemma_fundamental_div_mod_converse(i * width + j, width, i, j);
}

/// Cell `(i, j)` of a `rows` by `cols` layout lies inside it.
pub proof fn lemma_cell_in_bounds(i: int, j: int, rows: int, cols: int)
    requires
        0 <= i < rows,
        0 <= j < cols,
    ensures
        0 <= i * cols + j < rows * cols,
{
    assert(0 <= i * cols + j < rows * cols) by (nonlinear_arith)
        requires
            0 <= i < rows,
            0 <= j < cols,
    ;
}

/// A position below `rows * cols` splits into a row below `rows` and a
/// column below `cols`.
pub proof fn lemma_position_splits(x: int, rows: int, cols: int)
    requires
        0 <= x < rows * cols,
        0 <= rows,
        0 < cols,
    ensures
        0 <= x / cols < rows,
        0 <= x % cols < cols,
        x == (x / cols) * cols + x % cols,
{
    vstd::arithmetic::div_mod::lemma_fundamental_div_mod(x, cols);
    vstd::arithmetic::div_mod::lemma_mod_bound(x, cols);
    let q = x / cols;
    assert(x == cols * q + x % cols);
    assert(cols * q == q * cols) by (nonlinear_arith);
    assert(0 <= q < rows) by (nonlinear_arith)
        requires
            x == q * cols + x % cols,
            0 <= x % cols < cols,
            0 <= x < rows * cols,
            0 < cols,
    ;
}

/// Entry `(i, j)` of a matrix product, accumulated over the first `k`
/// terms from the left starting at `+0.0`. `a` has `n` columns and `b` has
/// `p` columns.
pub open spec fn matmul_entry(a: Seq<u32>, b: Seq<u32>, n: int, p: int, i: int, j: int, k: int)
    -> u32
    decreases k,
{
    if k <= 0 {
        float::ZERO
    } else {
        float_sum(
            matmul_entry(a, b, n, p, i, j, k - 1),
            float_product(a[i * n + (k - 1)], b[(k - 1) * p + j]),
        )
    }
}

/// The elements of the product of an `m` by `n` and an `n` by `p` matrix.
pub open spec fn matmul_data(a: Seq<u32>, b: Seq<u32>, m: int, n: int, p: int) -> Seq<u32> {
    Seq::new((m * p) as nat, |x: int| matmul_entry(a, b, n, p, x / p, x % p, n))
}

/// What `matmul` returns: both operands must be matrices whose inner
/// extents agree, and the result must have a representable element count.
pub open spec fn matmul_result(a: TensorView, b: TensorView, id: TensorId) -> Option<TensorView> {
    if a.dims.len() != 2 || b.dims.len() != 2 || a.dims[1] != b.dims[0] || a.dims[0] * b.dims[1]
        > usize::MAX {
        None
    } else {
        Some(
            TensorView {
                id,
                dims: seq![a.dims[0], b.dims[1]],
                data: matmul_data(
                    a.data,
                    b.data,
                    a.dims[0] as int,
                    a.dims[1] as int,
                    b.dims[1] as int,
                ),
            },
        )
    }
}

/// A two-axis shape.
fn shape_of_two(first: usize, second: usize) -> (r: Shape)
    ensures
        r@ == seq![first, second],
        product(r@) == first * second,
{
    let mut dims: Vec<usize> = Vec::new();
    dims.push(first);
    dims.push(second);
    proof {
        lemma_product_small(dims@);
        assert(dims@ =~= seq![first, second]);
    }
    Shape::new(dims)
}

/// A one-axis shape.
fn shape_of_one(extent: usize) -> (r: Shape)
    ensures
        r@ == seq![extent],
        product(r@) == extent,
{
    let mut dims: Vec<usize> = Vec::new();
    dims.push(extent);
    proof {
        lemma_product_small(dims@);
        assert(dims@ =~= seq![extent]);
    }
    Shape::new(dims)
}

/// The shape of a scalar.
fn shape_of_none() -> (r: Shape)
    ensures
        r@ == Seq::<usize>::empty(),
        product(r@) == 1,
{
    let dims: Vec<usize> = Vec::new();
    proof {
        lemma_product_small(dims@);
        assert(dims@ =~= Seq::<usize>::empty());
    }
    Shape::new(dims)
}

/// Matrix product: `[m, n] * [n, p]` gives `[m, p]`.
pub fn matmul(a: &Tensor, b: &Tensor, new_id: TensorId) -> (r: Result<Tensor, String>)
    ensures
        match matmul_result(a@, b@, new_id) {
            Some(view) => r matches Ok(t) && t@ == view,
            None => r is Err,
        },
{
    if a.rank() != 2 || b.rank() != 2 {
        return Err("matmul expects rank-2 tensors (matrices)".to_owned());
    }
    let m = a.shape().dims[0];
    let n = a.shape().dims[1];
    let n2 = b.shape().dims[0];
    let p = b.shape().dims[1];
    if n != n2 {
        let mut text = "Matrix dimension mismatch: A is ".to_owned();
        text.append(dims_text(&a.shape().dims).as_str());
        text.append(", B is ");
        text.append(dims_text(&b.shape().dims).as_str());
        text.append(". Inner dimensions must match.");
        return Err(text);
    }
    let total = match m.checked_mul(p) {
        Some(total) => total,
        None => {
            return Err("Matrix product is too large".to_owned());
        },
    };
    let left = a.data_ref();
    let right = b.data_ref();
    let left_len = left.len();
    let right_len = right.len();
    proof {
        lemma_product_small(a@.dims);
        lemma_product_small(b@.dims);
    }
    let mut data: Vec<u32> = Vec::with_capacity(total);
    let mut i: usize = 0;
    while i < m
        invariant
            left@ == a@.data,
            right@ == b@.data,
            left@.len() == m * n,
            right@.len() == n * p,
            m * n <= usize::MAX,
            n * p <= usize::MAX,
            m * p <= usize::MAX,
            i <= m,
            data@.len() == i * p,
            forall|x: int|
                0 <= x < data@.len() ==> data@[x] == matmul_entry(
                    left@,
                    right@,
                    n as int,
                    p as int,
                    x / (p as int),
                    x % (p as int),
                    n as int,
                ),
        decreases m - i,
    {
        let mut j: usize = 0;
        while j < p
            invariant
                left@.len() == m * n,
                right@.len() == n * p,
                m * n <= usize::MAX,
                n * p <= usize::MAX,
                m * p <= usize::MAX,
                i < m,
                j <= p,
                data@.len() == i * p + j,
                forall|x: int|
                    0 <= x < data@.len() ==> data@[x] == matmul_entry(
                        left@,
                        right@,
                        n as int,
                        p as int,
                        x / (p as int),
                        x % (p as int),
                        n as int,
                    ),
            decreases p - j,
        {
            let mut total: u32 = float::ZERO;
            let mut k: usize = 0;
            while k < n
                invariant
                    left@.len() == m * n,
                    right@.len() == n * p,
                    m * n <= usize::MAX,
                    n * p <= usize::MAX,
                    i < m,
                    j < p,
                    k <= n,
                    total == matmul_entry(
                        left@,
                        right@,
                        n as int,
                        p as int,
                        i as int,
                        j as int,
                        k as int,
                    ),
                decreases n - k,
            {
                proof {
                    lemma_cell_in_bounds(i as int, k as int, m as int, n as int);
                    lemma_cell_in_bounds(k as int, j as int, n as int, p as int);
                }
                total = float::sum(total, float::product(left[i * n + k], right[k * p + j]));
                k += 1;
            }
            proof {
                lemma_row_major(i as int, j as int, p as int);
                lemma_cell_in_bounds(i as int, j as int, m as int, p as int);
            }
            data.push(total);
            j += 1;
        }
        proof {
            assert(i * p + p == (i + 1) * p) by (nonlinear_arith);
        }
        i += 1;
    }
    assert(data@ =~= matmul_data(a@.data, b@.data, m as int, n as int, p as int));
    Tensor::new(new_id, shape_of_two(m, p), data)
}

/// The elements of the transpose of an `m` by `n` matrix.
pub open spec fn transposed(a: Seq<u32>, m: int, n: int) -> Seq<u32> {
    Seq::new((n * m) as nat, |x: int| a[(x % m) * n + x / m])
}

/// Transpose of a matrix: `[m, n]` gives `[n, m]`.
pub fn transpose(a: &Tensor, new_id: TensorId) -> (r: Result<Tensor, String>)
    ensures
        r is Ok <==> a@.dims.len() == 2,
        r matches Ok(t) ==> t@ == (TensorView {
            id: new_id,
            dims: seq![a@.dims[1], a@.dims[0]],
            data: transposed(a@.data, a@.dims[0] as int, a@.dims[1] as int),
        }),
{
    if a.rank() != 2 {
        return Err("transpose expects rank-2 tensor (matrix)".to_owned());
    }
    let m = a.shape().dims[0];
    let n = a.shape().dims[1];
    let source = a.data_ref();
    let count = source.len();
    proof {
        lemma_product_small(a@.dims);
        assert(m * n == n * m) by (nonlinear_arith);
    }
    let mut data: Vec<u32> = Vec::with_capacity(source.len());
    let mut j: usize = 0;
    while j < n
        invariant
            source@ == a@.data,
            source@.len() == m * n,
            m * n <= usize::MAX,
            j <= n,
            data@.len() == j * m,
            forall|x: int|
                0 <= x < data@.len() ==> data@[x] == source@[(x % (m as int)) * n + x / (
                m as int)],
        decreases n - j,
    {
        let mut i: usize = 0;
        while i < m
            invariant
                source@.len() == m * n,
                m * n <= usize::MAX,
                j < n,
                i <= m,
                data@.len() == j * m + i,
                forall|x: int|
                    0 <= x < data@.len() ==> data@[x] == source@[(x % (m as int)) * n + x / (
                    m as int)],
            decreases m - i,
        {
            proof {
                lemma_cell_in_bounds(i as int, j as int, m as int, n as int);
                lemma_row_major(j as int, i as int, m as int);
            }
            data.push(source[i * n + j]);
            i += 1;
        }
        proof {
            assert(j * m + m == (j + 1) * m) by (nonlinear_arith);
        }
        j += 1;
    }
    assert(data@ =~= transposed(a@.data, m as int, n as int));
    Tensor::new(new_id, shape_of_two(n, m), data)
}

/// Transposing twice gives the elements back.
pub proof fn lemma_transpose_involution(a: Seq<u32>, m: int, n: int)
    requires
        0 <= m,
        0 <= n,
        a.len() == m * n,
    ensures
        transposed(transposed(a, m, n), n, m) == a,
{
    let once = transposed(a, m, n);
    let twice = transposed(once, n, m);
    assert(m * n == n * m) by (nonlinear_arith);
    assert forall|x: int| 0 <= x < a.len() implies twice[x] == a[x] by {
        assert(0 < n) by (nonlinear_arith)
            requires
                0 <= x < m * n,
                0 <= m,
                0 <= n,
        ;
        lemma_position_splits(x, m, n);
        let i = x / n;
        let j = x % n;
        lemma_cell_in_bounds(j, i, n, m);
        lemma_row_major(j, i, m);
        assert(twice[x] == once[j * m + i]);
        assert(once[j * m + i] == a[i * n + j]);
    }
    assert(twice =~= a);
}

/// A tensor with the same elements under another shape of the same
/// element count.
pub fn reshape(a: &Tensor, new_shape: Shape, new_id: TensorId) -> (r: Result<Tensor, String>)
    ensures
        r is Ok <==> product(new_shape@) == product(a@.dims),
        r matches Ok(t) ==> t@ == (TensorView { id: new_id, dims: new_shape@, data: a@.data }),
{
    let source = a.data_ref();
    let count = source.len();
    match new_shape.checked_num_elements() {
        Some(wanted) => {
            if wanted == count {
                return Tensor::new(new_id, new_shape, vstd::slice::slice_to_vec(source));
            }
        },
        None => {},
    }
    let mut text = "Cannot reshape: old shape ".to_owned();
    text.append(dims_text(&a.shape().dims).as_str());
    text.append(" and new shape ");
    text.append(dims_text(&new_shape.dims).as_str());
    text.append(" differ in element count");
    Err(text)
}

/// The same elements as a vector.
pub fn flatten(a: &Tensor, new_id: TensorId) -> (r: Result<Tensor, String>)
    ensures
        r matches Ok(t) && t@ == (TensorView {
            id: new_id,
            dims: seq![a@.data.len() as usize],
            data: a@.data,
        }),
{
    let source = a.data_ref();
    Tensor::new(new_id, shape_of_one(source.len()), vstd::slice::slice_to_vec(source))
}

/// The block of rows `r0..r1` and columns `c0..c1` of a row-major layout
/// with `cols` columns, itself in row-major order.
pub open spec fn block(data: Seq<u32>, cols: int, r0: int, r1: int, c0: int, c1: int) -> Seq<u32> {
    Seq::new(
        ((r1 - r0) * (c1 - c0)) as nat,
        |x: int| data[(r0 + x / (c1 - c0)) * cols + (c0 + x % (c1 - c0))],
    )
}

/// Copies a block out of a row-major layout.
fn copy_block(data: &[u32], rows: usize, cols: usize, r0: usize, r1: usize, c0: usize, c1: usize)
    -> (r: Vec<u32>)
    requires
        data@.len() == rows * cols,
        r0 <= r1 <= rows,
        c0 <= c1 <= cols,
    ensures
        r@ == block(data@, cols as int, r0 as int, r1 as int, c0 as int, c1 as int),
        r@.len() == (r1 - r0) * (c1 - c0),
{
    let count = data.len();
    let width = c1 - c0;
    let mut out: Vec<u32> = Vec::new();
    let mut i: usize = r0;
    while i < r1
        invariant
            data@.len() == rows * cols,
            rows * cols <= usize::MAX,
            r0 <= i <= r1 <= rows,
            c0 <= c1 <= cols,
            width == c1 - c0,
            out@.len() == (i - r0) * width,
            forall|x: int|
                0 <= x < out@.len() ==> out@[x] == data@[(r0 + x / (width as int)) * cols + (c0 + x
                    % (width as int))],
        decreases r1 - i,
    {
        let mut j: usize = c0;
        while j < c1
            invariant
                data@.len() == rows * cols,
                rows * cols <= usize::MAX,
                r0 <= i < r1 <= rows,
                c0 <= j <= c1 <= cols,
                width == c1 - c0,
                out@.len() == (i - r0) * width + (j - c0),
                forall|x: int|
                    0 <= x < out@.len() ==> out@[x] == data@[(r0 + x / (width as int)) * cols + (c0
                        + x % (width as int))],
            decreases c1 - j,
        {
            proof {
                lemma_cell_in_bounds(i as int, j as int, rows as int, cols as int);
                lemma_row_major((i - r0) as int, (j - c0) as int, width as int);
            }
            out.push(data[i * cols + j]);
            j += 1;
        }
        proof {
            assert((i - r0) * width + width == (i + 1 - r0) * width) by (nonlinear_arith);
        }
        i += 1;
    }
    assert(out@ =~= block(data@, cols as int, r0 as int, r1 as int, c0 as int, c1 as int));
    out
}

/// Copies `start..end` out of a slice.
fn copy_range(data: &[u32], start: usize, end: usize) -> (r: Vec<u32>)
    requires
        start <= end <= data@.len(),
    ensures
        r@ == data@.subrange(start as int, end as int),
{
    let mut out: Vec<u32> = Vec::with_capacity(end - start);
    let mut i: usize = start;
    while i < end
        invariant
            start <= i <= end <= data@.len(),
            out@.len() == i - start,
            forall|x: int| 0 <= x < out@.len() ==> out@[x] == data@[start + x],
        decreases end - i,
    {
        out.push(data[i]);
        i += 1;
    }
    assert(out@ =~= data@.subrange(start as int, end as int));
    out
}

/// What `slice` returns: a contiguous range `start..end` along axis `dim`
/// of a vector or a matrix.
pub open spec fn slice_result(a: TensorView, dim: usize, start: usize, end: usize, id: TensorId)
    -> Option<TensorView> {
    if dim >= a.dims.len() || start >= end || end > a.dims[dim as int] || a.dims.len() > 2 {
        None
    } else if a.dims.len() == 1 {
        Some(
            TensorView {
                id,
                dims: seq![(end - start) as usize],
                data: a.data.subrange(start as int, end as int),
            },
        )
    } else if dim == 0 {
        Some(
            TensorView {
                id,
                dims: seq![(end - start) as usize, a.dims[1]],
                data: block(a.data, a.dims[1] as int, start as int, end as int, 0, a.dims[1] as int),
            },
        )
    } else {
        Some(
            TensorView {
                id,
                dims: seq![a.dims[0], (end - start) as usize],
                data: block(a.data, a.dims[1] as int, 0, a.dims[0] as int, start as int, end as int),
            },
        )
    }
}

/// A contiguous range along one axis of a vector or a matrix. Fails when
/// the axis does not exist, when the range is empty or reversed, when it
/// ends past the extent, and on tensors of more than two axes.
pub fn slice(a: &Tensor, dim: usize, start: usize, end: usize, new_id: TensorId) -> (r: Result<
    Tensor,
    String,
>)
    ensures
        match slice_result(a@, dim, start, end, new_id) {
            Some(view) => r matches Ok(t) && t@ == view,
            None => r is Err,
        },
{
    let rank = a.rank();
    if dim >= rank {
        let mut text = "Dimension ".to_owned();
        text.append(crate::text::decimal_text(dim).as_str());
        text.append(" out of bounds for tensor with rank ");
        text.append(crate::text::decimal_text(rank).as_str());
        return Err(text);
    }
    if start >= end {
        let mut text = "Invalid slice range: start ".to_owned();
        text.append(crate::text::decimal_text(start).as_str());
        text.append(" >= end ");
        text.append(crate::text::decimal_text(end).as_str());
        return Err(text);
    }
    let extent = a.shape().dims[dim];
    if end > extent {
        let mut text = "Slice end ".to_owned();
        text.append(crate::text::decimal_text(end).as_str());
        text.append(" exceeds dimension size ");
        text.append(crate::text::decimal_text(extent).as_str());
        return Err(text);
    }
    let source = a.data_ref();
    proof {
        lemma_product_small(a@.dims);
    }
    if rank == 1 {
        Tensor::new(new_id, shape_of_one(end - start), copy_range(source, start, end))
    } else if rank == 2 {
        let rows = a.shape().dims[0];
        let cols = a.shape().dims[1];
        if dim == 0 {
            let data = copy_block(source, rows, cols, start, end, 0, cols);
            proof {
                assert((end - start) * cols <= rows * cols) by (nonlinear_arith)
                    requires
                        end - start <= rows,
                        0 <= cols,
                ;
            }
            Tensor::new(new_id, shape_of_two(end - start, cols), data)
        } else {
            let data = copy_block(source, rows, cols, 0, rows, start, end);
            proof {
                assert(rows * (end - start) <= rows * cols) by (nonlinear_arith)
                    requires
                        end - start <= cols,
                        0 <= rows,
                ;
            }
            Tensor::new(new_id, shape_of_two(rows, end - start), data)
        }
    } else {
        let mut text = "Slice is not supported for rank-".to_owned();
        text.append(crate::text::decimal_text(rank).as_str());
        text.append(" tensors");
        Err(text)
    }
}

/// Position of a cell in row-major order: each index is weighted by the
/// extents to its right.
pub open spec fn flat_index(indices: Seq<usize>, dims: Seq<usize>) -> nat
    decreases indices.len(),
{
    if indices.len() == 0 {
        0
    } else {
        flat_index(indices.drop_last(), dims.drop_last()) * (dims.last() as nat) + (
        indices.last() as nat)
    }
}

/// Whether there is one index per axis and each lies below its extent.
pub open spec fn in_bounds(indices: Seq<usize>, dims: Seq<usize>) -> bool {
    indices.len() == dims.len() && forall|i: int|
        0 <= i < indices.len() ==> indices[i] < dims[i]
}

/// A cell that is in bounds has a position below the element count.
pub proof fn lemma_flat_index_bound(indices: Seq<usize>, dims: Seq<usize>)
    requires
        in_bounds(indices, dims),
    ensures
        flat_index(indices, dims) < product(dims),
    decreases indices.len(),
{
    if indices.len() > 0 {
        lemma_flat_index_bound(indices.drop_last(), dims.drop_last());
        let before = flat_index(indices.drop_last(), dims.drop_last());
        let rest = product(dims.drop_last());
        let extent = dims.last() as nat;
        let last = indices.last() as nat;
        assert(before * extent + last < rest * extent) by (nonlinear_arith)
            requires
                before < rest,
                last < extent,
        ;
    }
}

/// The element at the given indices, one per axis.
pub fn index(a: &Tensor, indices: &[usize]) -> (r: Result<u32, String>)
    ensures
        r is Ok <==> in_bounds(indices@, a@.dims),
        r matches Ok(value) ==> value == a@.data[flat_index(indices@, a@.dims) as int],
{
    let rank = a.rank();
    if indices.len() != rank {
        let mut text = "Index dimension mismatch: tensor has rank ".to_owned();
        text.append(crate::text::decimal_text(rank).as_str());
        text.append(", got ");
        text.append(crate::text::decimal_text(indices.len()).as_str());
        text.append(" indices");
        return Err(text);
    }
    let source = a.data_ref();
    let count = source.len();
    let dims = &a.shape().dims;
    let mut i: usize = 0;
    while i < rank
        invariant
            rank == indices@.len(),
            rank == dims@.len(),
            dims@ == a@.dims,
            i <= rank,
            forall|j: int| 0 <= j < i ==> indices@[j] < dims@[j],
        decreases rank - i,
    {
        if indices[i] >= dims[i] {
            let mut text = "Index ".to_owned();
            text.append(crate::text::decimal_text(indices[i]).as_str());
            text.append(" out of bounds for dimension ");
            text.append(crate::text::decimal_text(i).as_str());
            return Err(text);
        }
        i += 1;
    }
    let mut flat: usize = 0;
    let mut k: usize = 0;
    while k < rank
        invariant
            rank == indices@.len(),
            rank == dims@.len(),
            in_bounds(indices@, dims@),
            k <= rank,
            flat == flat_index(indices@.take(k as int), dims@.take(k as int)),
            product(dims@) == count,
        decreases rank - k,
    {
        proof {
            let some_indices = indices@.take(k + 1);
            let some_dims = dims@.take(k + 1);
            assert(some_indices.drop_last() =~= indices@.take(k as int));
            assert(some_dims.drop_last() =~= dims@.take(k as int));
            assert(in_bounds(some_indices, some_dims));
            lemma_flat_index_bound(some_indices, some_dims);
            assert forall|z: int| 0 <= z < dims@.len() implies dims@[z] != 0 by {
                assert(indices@[z] < dims@[z]);
            }
            crate::tensor::lemma_product_prefix(dims@, k + 1);
            assert(flat * dims@[k as int] + indices@[k as int] == flat_index(
                some_indices,
                some_dims,
            ));
            assert(0 <= flat * dims@[k as int]) by (nonlinear_arith)
                requires
                    0 <= flat,
                    0 <= dims@[k as int],
            ;
        }
        flat = flat * dims[k] + indices[k];
        k += 1;
    }
    proof {
        assert(indices@.take(rank as int) =~= indices@);
        assert(dims@.take(rank as int) =~= dims@);
        lemma_flat_index_bound(indices@, dims@);
    }
    Ok(source[flat])
}

/// The element at the given indices as a scalar tensor.
pub fn index_to_scalar(a: &Tensor, indices: &[usize], new_id: TensorId) -> (r: Result<
    Tensor,
    String,
>)
    ensures
        r is Ok <==> in_bounds(indices@, a@.dims),
        r matches Ok(t) ==> t@ == (TensorView {
            id: new_id,
            dims: Seq::<usize>::empty(),
            data: seq![a@.data[flat_index(indices@, a@.dims) as int]],
        }),
{
    let value = match index(a, indices) {
        Ok(value) => value,
        Err(e) => {
            return Err(e);
        },
    };
    let mut data: Vec<u32> = Vec::new();
    data.push(value);
    assert(data@ =~= seq![value]);
    Tensor::new(new_id, shape_of_none(), data)
}

/// What to take along one axis.
#[derive(Debug, Clone, Copy, PartialEq, Eq, Structural)]
pub enum SliceSpec {
    /// One position; the axis disappears from the result.
    Index(usize),
    /// The positions from the first number up to, not including, the
    /// second.
    Range(usize, usize),
    /// The whole axis.
    All,
}

impl SliceSpec {
    /// The half-open range of positions taken along an axis of the given
    /// extent, or `None` when the specification does not fit it: an index
    /// must lie below the extent, a range must be non-empty and end within
    /// it.
    pub open spec fn bounds(self, extent: usize) -> Option<(usize, usize)> {
        match self {
            SliceSpec::Index(i) => if i < extent {
                Some((i, (i + 1) as usize))
            } else {
                None
            },
            SliceSpec::Range(start, end) => if start < end <= extent {
                Some((start, end))
            } else {
                None
            },
            SliceSpec::All => Some((0, extent)),
        }
    }

    /// Whether the axis stays in the result.
    pub open spec fn keeps_axis(self) -> bool {
        !(self is Index)
    }

    /// Computes [`SliceSpec::bounds`].
    pub fn resolve(&self, extent: usize) -> (r: Option<(usize, usize)>)
        ensures
            r == self.bounds(extent),
            r matches Some((start, end)) ==> start <= end <= extent,
    {
        match self {
            SliceSpec::Index(i) => if *i < extent {
                Some((*i, *i + 1))
            } else {
                None
            },
            SliceSpec::Range(start, end) => if *start < *end && *end <= extent {
                Some((*start, *end))
            } else {
                None
            },
            SliceSpec::All => Some((0, extent)),
        }
    }

    /// Computes [`SliceSpec::keeps_axis`].
    pub fn keeps(&self) -> (r: bool)
        ensures
            r == self.keeps_axis(),
    {
        match self {
            SliceSpec::Index(_) => false,
            _ => true,
        }
    }
}

/// The extents of the result of a multi-axis slice: one per axis that is
/// kept, each the length of the range taken.
pub open spec fn kept_dims(specs: Seq<SliceSpec>, dims: Seq<usize>) -> Seq<usize>
    decreases specs.len(),
{
    if specs.len() == 0 {
        Seq::empty()
    } else {
        let front = kept_dims(specs.drop_last(), dims.drop_last());
        match specs.last().bounds(dims.last()) {
            Some((start, end)) if specs.last().keeps_axis() => front.push((end - start) as usize),
            _ => front,
        }
    }
}

/// What `slice_multi` returns on a vector or a matrix: one specification
/// per axis, each of which must fit its axis.
pub open spec fn slice_multi_result(a: TensorView, specs: Seq<SliceSpec>, id: TensorId) -> Option<
    TensorView,
> {
    if specs.len() != a.dims.len() {
        None
    } else if a.dims.len() == 1 {
        match specs[0].bounds(a.dims[0]) {
            Some((start, end)) => Some(
                TensorView {
                    id,
                    dims: kept_dims(specs, a.dims),
                    data: a.data.subrange(start as int, end as int),
                },
            ),
            None => None,
        }
    } else if a.dims.len() == 2 {
        match (specs[0].bounds(a.dims[0]), specs[1].bounds(a.dims[1])) {
            (Some((r0, r1)), Some((c0, c1))) => Some(
                TensorView {
                    id,
                    dims: kept_dims(specs, a.dims),
                    data: block(a.data, a.dims[1] as int, r0 as int, r1 as int, c0 as int, c1 as int),
                },
            ),
            _ => None,
        }
    } else {
        None
    }
}

/// A slice along every axis of a vector or a matrix at once. An index
/// removes its axis, a range narrows it, and `All` keeps it whole; taking
/// an index on every axis gives a scalar.
pub fn slice_multi(a: &Tensor, specs: &[SliceSpec], new_id: TensorId) -> (r: Result<
    Tensor,
    String,
>)
    ensures
        match slice_multi_result(a@, specs@, new_id) {
            Some(view) => r matches Ok(t) && t@ == view,
            None => r is Err,
        },
{
    let rank = a.rank();
    if specs.len() != rank {
        let mut text = "Slice spec dimension mismatch: tensor has rank ".to_owned();
        text.append(crate::text::decimal_text(rank).as_str());
        text.append(", got ");
        text.append(crate::text::decimal_text(specs.len()).as_str());
        text.append(" specs");
        return Err(text);
    }
    let source = a.data_ref();
    proof {
        lemma_product_small(a@.dims);
        reveal_with_fuel(kept_dims, 3);
    }
    if rank == 1 {
        let extent = a.shape().dims[0];
        let (start, end) = match specs[0].resolve(extent) {
            Some(range) => range,
            None => {
                return Err("Slice specification out of bounds".to_owned());
            },
        };
        let data = copy_range(source, start, end);
        let mut dims: Vec<usize> = Vec::new();
        if specs[0].keeps() {
            dims.push(end - start);
        }
        proof {
            assert(specs@.drop_last() =~= Seq::<SliceSpec>::empty());
            assert(dims@ =~= kept_dims(specs@, a@.dims));
            lemma_product_small(dims@);
            assert(product(dims@) == end - start);
        }
        Tensor::new(new_id, Shape::new(dims), data)
    } else if rank == 2 {
        let rows = a.shape().dims[0];
        let cols = a.shape().dims[1];
        let (r0, r1) = match specs[0].resolve(rows) {
            Some(range) => range,
            None => {
                return Err("Slice specification out of bounds".to_owned());
            },
        };
        let (c0, c1) = match specs[1].resolve(cols) {
            Some(range) => range,
            None => {
                return Err("Slice specification out of bounds".to_owned());
            },
        };
        let data = copy_block(source, rows, cols, r0, r1, c0, c1);
        let mut dims: Vec<usize> = Vec::new();
        if specs[0].keeps() {
            dims.push(r1 - r0);
        }
        if specs[1].keeps() {
            dims.push(c1 - c0);
        }
        proof {
            let front = specs@.drop_last();
            assert(front.last() == specs@[0]);
            assert(a@.dims.drop_last().last() == a@.dims[0]);
            assert(front.drop_last() =~= Seq::<SliceSpec>::empty());
            assert(dims@ =~= kept_dims(specs@, a@.dims));
            lemma_product_small(dims@);
            let height = r1 - r0;
            let width = c1 - c0;
            assert(!specs@[0].keeps_axis() ==> height == 1);
            assert(!specs@[1].keeps_axis() ==> width == 1);
            assert(height == 1 ==> height * width == width) by (nonlinear_arith);
            assert(width == 1 ==> height * width == height) by (nonlinear_arith);
            assert(product(dims@) == height * width);
        }
        Tensor::new(new_id, Shape::new(dims), data)
    } else {
        let mut text = "Multi-dimensional slicing is not supported for rank-".to_owned();
        text.append(crate::text::decimal_text(rank).as_str());
        text.append(" tensors");
        Err(text)
    }
}

/// The models of a list of tensors.
pub open spec fn ref_views(tensors: Seq<&Tensor>) -> Seq<TensorView> {
    tensors.map_values(|t: &Tensor| t@)
}

/// The elements of the first `count` tensors, one tensor after another.
pub open spec fn concatenated(tensors: Seq<TensorView>, count: int) -> Seq<u32>
    decreases count,
{
    if count <= 0 {
        Seq::empty()
    } else {
        concatenated(tensors, count - 1) + tensors[count - 1].data
    }
}

/// Whether every tensor has the shape of the first.
pub open spec fn all_of_first_shape(tensors: Seq<TensorView>) -> bool {
    forall|i: int| 0 <= i < tensors.len() ==> (#[trigger] tensors[i]).dims == tensors[0].dims
}

/// The product of a shape with one more leading axis.
pub proof fn lemma_product_with_leading(count: usize, dims: Seq<usize>)
    ensures
        product(seq![count] + dims) == count * product(dims),
    decreases dims.len(),
{
    let all = seq![count] + dims;
    if dims.len() == 0 {
        assert(all =~= seq![count]);
        lemma_product_small(all);
        lemma_product_small(dims);
    } else {
        assert(all.drop_last() =~= seq![count] + dims.drop_last());
        assert(all.last() == dims.last());
        lemma_product_with_leading(count, dims.drop_last());
        assert(count * product(dims.drop_last()) * (dims.last() as nat) == count * (product(
            dims.drop_last(),
        ) * (dims.last() as nat))) by (nonlinear_arith);
    }
}

/// What `stack` returns: tensors of one shape, one after another, under
/// a new leading axis.
pub open spec fn stack_result(tensors: Seq<TensorView>, axis: usize, id: TensorId) -> Option<
    TensorView,
> {
    if tensors.len() > 0 && all_of_first_shape(tensors) && axis == 0 {
        Some(
            TensorView {
                id,
                dims: seq![tensors.len() as usize] + tensors[0].dims,
                data: concatenated(tensors, tensors.len() as int),
            },
        )
    } else {
        None
    }
}

/// Tensors of one shape stacked along a new leading axis. Fails on an
/// empty list, on tensors of different shapes and on any axis but 0.
pub fn stack(tensors: &[&Tensor], axis: usize, new_id: TensorId) -> (r: Result<Tensor, String>)
    ensures
        match stack_result(ref_views(tensors@), axis, new_id) {
            Some(view) => r matches Ok(t) && t@ == view,
            None => r is Err,
        },
{
    let ghost views = ref_views(tensors@);
    let count = tensors.len();
    if count == 0 {
        return Err("Cannot stack empty list of tensors".to_owned());
    }
    let first = tensors[0];
    let mut i: usize = 1;
    while i < count
        invariant
            views == ref_views(tensors@),
            count == tensors@.len(),
            first == tensors@[0],
            1 <= i <= count,
            forall|j: int| 0 <= j < i ==> (#[trigger] views[j]).dims == first@.dims,
        decreases count - i,
    {
        if !tensors[i].shape().same_as(first.shape()) {
            assert(views[i as int].dims != views[0].dims);
            let mut text = "Tensor at index ".to_owned();
            text.append(crate::text::decimal_text(i).as_str());
            text.append(" has different shape ");
            text.append(dims_text(&tensors[i].shape().dims).as_str());
            text.append(" compared to first tensor ");
            text.append(dims_text(&first.shape().dims).as_str());
            return Err(text);
        }
        i += 1;
    }
    if axis != 0 {
        return Err("Stack is only supported on axis 0".to_owned());
    }
    let each = first.len();
    let mut dims: Vec<usize> = Vec::new();
    dims.push(count);
    let extents = &first.shape().dims;
    let mut d: usize = 0;
    while d < extents.len()
        invariant
            d <= extents@.len(),
            dims@ == seq![count] + extents@.take(d as int),
        decreases extents@.len() - d,
    {
        dims.push(extents[d]);
        proof {
            assert(extents@.take(d + 1) =~= extents@.take(d as int).push(extents@[d as int]));
            assert(dims@ =~= seq![count] + extents@.take(d + 1));
        }
        d += 1;
    }
    proof {
        assert(extents@.take(extents@.len() as int) =~= extents@);
        lemma_product_with_leading(count, first@.dims);
    }
    let mut data: Vec<u32> = Vec::new();
    let mut k: usize = 0;
    while k < count
        invariant
            views == ref_views(tensors@),
            count == tensors@.len(),
            first == tensors@[0],
            all_of_first_shape(views),
            each == product(first@.dims),
            k <= count,
            data@ == concatenated(views, k as int),
            data@.len() == k * each,
        decreases count - k,
    {
        let source = tensors[k].data_ref();
        let mut j: usize = 0;
        while j < source.len()
            invariant
                source@ == views[k as int].data,
                j <= source@.len(),
                data@ == concatenated(views, k as int) + source@.take(j as int),
            decreases source@.len() - j,
        {
            data.push(source[j]);
            proof {
                assert(source@.take(j + 1) =~= source@.take(j as int).push(source@[j as int]));
                assert(data@ =~= concatenated(views, k as int) + source@.take(j + 1));
            }
            j += 1;
        }
        proof {
            assert(source@.take(source@.len() as int) =~= source@);
            assert(views[k as int].dims == views[0].dims);
            assert(source@.len() == each);
            assert(k * each + each == (k + 1) * each) by (nonlinear_arith);
        }
        k += 1;
    }
    Tensor::new(new_id, Shape::new(dims), data)
}

/// What `scalar_mul` returns.
pub open spec fn scalar_mul_result(a: TensorView, s: u32, id: TensorId) -> TensorView {
    TensorView { id, dims: a.dims, data: Seq::new(a.data.len(), |i: int| float_product(s, a.data[i])) }
}

/// What `normalize_1d` returns.
pub open spec fn normalize_result(a: TensorView, id: TensorId) -> Option<TensorView> {
    if a.dims.len() == 1 && !is_zero(l2_norm(a.data)) {
        Some(scalar_mul_result(a, float_quotient(float::ONE, l2_norm(a.data)), id))
    } else {
        None
    }
}

/// What `transpose` returns.
pub open spec fn transpose_result(a: TensorView, id: TensorId) -> Option<TensorView> {
    if a.dims.len() == 2 {
        Some(
            TensorView {
                id,
                dims: seq![a.dims[1], a.dims[0]],
                data: transposed(a.data, a.dims[0] as int, a.dims[1] as int),
            },
        )
    } else {
        None
    }
}

/// What `reshape` returns.
pub open spec fn reshape_result(a: TensorView, dims: Seq<usize>, id: TensorId) -> Option<
    TensorView,
> {
    if product(dims) == product(a.dims) {
        Some(TensorView { id, dims, data: a.data })
    } else {
        None
    }
}

/// What `flatten` returns.
pub open spec fn flatten_result(a: TensorView, id: TensorId) -> TensorView {
    TensorView { id, dims: seq![a.data.len() as usize], data: a.data }
}

/// What `index_to_scalar` returns.
pub open spec fn index_result(a: TensorView, indices: Seq<usize>, id: TensorId) -> Option<
    TensorView,
> {
    if in_bounds(indices, a.dims) {
        Some(
            TensorView {
                id,
                dims: Seq::empty(),
                data: seq![a.data[flat_index(indices, a.dims) as int]],
            },
        )
    } else {
        None
    }
}

/// A scalar tensor holding one number.
pub open spec fn scalar_view(value: u32, id: TensorId) -> TensorView {
    TensorView { id, dims: Seq::empty(), data: seq![value] }
}

/// A scalar tensor holding one number.
pub fn scalar_tensor(value: u32, new_id: TensorId) -> (r: Tensor)
    ensures
        r@ == scalar_view(value, new_id),
{
    let mut data: Vec<u32> = Vec::new();
    data.push(value);
    assert(data@ =~= seq![value]);
    match Tensor::new(new_id, shape_of_none(), data) {
        Ok(t) => t,
        Err(_) => vstd::pervasive::unreached(),
    }
}

/// Reshaping a well-formed tensor to its own shape succeeds, and
/// flattening the result gives the elements of the tensor back.
pub proof fn law_reshape_round_trip(t: TensorView, first: TensorId, second: TensorId)
    requires
        t.wf(),
    ensures
        reshape_result(t, t.dims, first) matches Some(reshaped) && flatten_result(
            reshaped,
            second,
        ).data == t.data,
{
}

/// Transposing a matrix twice gives the matrix back.
pub proof fn law_transpose_involution(t: TensorView, first: TensorId)
    requires
        t.wf(),
        t.dims.len() == 2,
    ensures
        transpose_result(t, first) matches Some(once) && transpose_result(once, t.id) == Some(t),
{
    lemma_product_small(t.dims);
    lemma_transpose_involution(t.data, t.dims[0] as int, t.dims[1] as int);
    let once = transpose_result(t, first).unwrap();
    assert(transpose_result(once, t.id).unwrap().dims =~= t.dims);
}

} // verus!
