//! Dense row-major tensors.

use std::sync::Arc;
use vstd::prelude::*;
use vstd::string::StringExecFns;

verus! {

/// Identifier of a tensor inside one store.
#[derive(Debug, Clone, Copy, PartialEq, Eq, Hash, Structural)]
pub struct TensorId(pub u64);

/// The extent of a tensor along each axis. `[]` is a scalar, `[3]` a vector
/// of three elements, `[2, 3]` a matrix of two rows and three columns.
#[derive(Debug)]
pub struct Shape {
    pub dims: Vec<usize>,
}

/// Product of the extents: the number of elements a shape describes.
pub open spec fn product(dims: Seq<usize>) -> nat
    decreases dims.len(),
{
    if dims.len() == 0 {
        1
    } else {
        product(dims.drop_last()) * (dims.last() as nat)
    }
}

/// A product with a zero extent is zero.
pub proof fn lemma_product_zero(dims: Seq<usize>, k: int)
    requires
        0 <= k < dims.len(),
        dims[k] == 0,
    ensures
        product(dims) == 0,
    decreases dims.len(),
{
    if k < dims.len() - 1 {
        lemma_product_zero(dims.drop_last(), k);
    }
    assert(product(dims.drop_last()) * (dims.last() as nat) == 0) by (nonlinear_arith)
        requires
            product(dims.drop_last()) == 0 || dims.last() == 0,
    ;
}

/// Without a zero extent, the product of a prefix never exceeds the product
/// of the whole.
pub proof fn lemma_product_prefix(dims: Seq<usize>, k: int)
    requires
        0 <= k <= dims.len(),
        forall|i: int| 0 <= i < dims.len() ==> dims[i] != 0,
    ensures
        1 <= product(dims.take(k)) <= product(dims),
    decreases dims.len() - k,
{
    if k == dims.len() {
        assert(dims.take(k) =~= dims);
        lemma_product_positive(dims);
    } else {
        lemma_product_prefix(dims, k + 1);
        let longer = dims.take(k + 1);
        assert(longer.drop_last() =~= dims.take(k));
        assert(longer.last() == dims[k]);
        lemma_product_positive(dims.take(k));
        assert(product(dims.take(k)) <= product(dims.take(k)) * (dims[k] as nat))
            by (nonlinear_arith)
            requires
                dims[k] as nat >= 1,
        ;
    }
}

/// Without a zero extent the product is at least one.
pub proof fn lemma_product_positive(dims: Seq<usize>)
    requires
        forall|i: int| 0 <= i < dims.len() ==> dims[i] != 0,
    ensures
        product(dims) >= 1,
    decreases dims.len(),
{
    if dims.len() > 0 {
        lemma_product_positive(dims.drop_last());
        assert(product(dims.drop_last()) * (dims.last() as nat) >= 1) by (nonlinear_arith)
            requires
                product(dims.drop_last()) >= 1,
                dims.last() as nat >= 1,
        ;
    }
}

/// The product of no extents is one, of one extent the extent itself, and
/// of two extents their product.
pub proof fn lemma_product_small(dims: Seq<usize>)
    ensures
        dims.len() == 0 ==> product(dims) == 1,
        dims.len() == 1 ==> product(dims) == dims[0],
        dims.len() == 2 ==> product(dims) == dims[0] * dims[1],
{
    reveal_with_fuel(product, 3);
    if dims.len() == 2 {
        assert(dims.drop_last().last() == dims[0]);
        assert(1 * (dims[0] as nat) * (dims[1] as nat) == dims[0] * dims[1]) by (nonlinear_arith);
    }
}

impl View for Shape {
    type V = Seq<usize>;

    open spec fn view(&self) -> Seq<usize> {
        self.dims@
    }
}

impl Clone for Shape {
    fn clone(&self) -> (r: Self)
        ensures
            r@ == self@,
    {
        Shape { dims: self.dims.clone() }
    }
}

impl Shape {
    /// A shape with the given extents.
    pub fn new(dims: Vec<usize>) -> (s: Self)
        ensures
            s@ == dims@,
    {
        Shape { dims }
    }

    /// Number of axes.
    pub fn rank(&self) -> (r: usize)
        ensures
            r == self@.len(),
    {
        self.dims.len()
    }

    /// Whether two shapes have the same extents.
    pub fn same_as(&self, other: &Shape) -> (r: bool)
        ensures
            r == (self@ == other@),
    {
        if self.dims.len() != other.dims.len() {
            return false;
        }
        let mut i: usize = 0;
        while i < self.dims.len()
            invariant
                self.dims.len() == other.dims.len(),
                i <= self.dims.len(),
                forall|j: int| 0 <= j < i ==> self.dims[j] == other.dims[j],
            decreases self.dims.len() - i,
        {
            if self.dims[i] != other.dims[i] {
                return false;
            }
            i += 1;
        }
        assert(self@ =~= other@);
        true
    }

    /// Number of elements, or `None` when the product does not fit in a
    /// `usize`.
    pub fn checked_num_elements(&self) -> (r: Option<usize>)
        ensures
            match r {
                Some(n) => n == product(self@),
                None => product(self@) > usize::MAX,
            },
    {
        let n = self.dims.len();
        let mut i: usize = 0;
        while i < n
            invariant
                n == self.dims.len(),
                i <= n,
                forall|j: int| 0 <= j < i ==> self.dims[j] != 0,
            decreases n - i,
        {
            if self.dims[i] == 0 {
                proof {
                    lemma_product_zero(self@, i as int);
                }
                return Some(0);
            }
            i += 1;
        }
        let mut total: usize = 1;
        let mut k: usize = 0;
        while k < n
            invariant
                n == self.dims.len(),
                k <= n,
                forall|j: int| 0 <= j < n ==> self.dims[j] != 0,
                total == product(self@.take(k as int)),
            decreases n - k,
        {
            let ghost longer = self@.take(k + 1);
            proof {
                assert(longer.drop_last() =~= self@.take(k as int));
                assert(longer.last() == self.dims[k as int]);
                lemma_product_prefix(self@, k + 1);
            }
            match total.checked_mul(self.dims[k]) {
                Some(next) => {
                    total = next;
                },
                None => {
                    return None;
                },
            }
            k += 1;
        }
        assert(self@.take(n as int) =~= self@);
        Some(total)
    }

    /// Number of elements.
    pub fn num_elements(&self) -> (n: usize)
        requires
            product(self@) <= usize::MAX,
        ensures
            n == product(self@),
    {
        match self.checked_num_elements() {
            Some(n) => n,
            None => 0,
        }
    }
}

/// A dense tensor of single-precision numbers in row-major order, each held
/// as its bit pattern. The elements live either in the tensor itself or in a
/// shared, reference-counted buffer; either way there are exactly as many as
/// the shape describes.
#[derive(Debug)]
pub struct Tensor {
    id: TensorId,
    shape: Shape,
    data: Vec<u32>,
    shared_data: Option<Arc<Vec<u32>>>,
}

/// What is said of a buffer that does not match a shape: the length of
/// the buffer and the extents of the shape.
pub open spec fn length_mismatch_text(len: nat, dims: Seq<usize>) -> Seq<char> {
    "Data length "@ + crate::text::decimal(len) + " does not match shape "@
        + crate::text::dims_spec(dims)
}

/// Mathematical model of a tensor.
pub struct TensorView {
    pub id: TensorId,
    pub dims: Seq<usize>,
    pub data: Seq<u32>,
}

impl TensorView {
    /// There is one element for each position the shape describes.
    pub open spec fn wf(self) -> bool {
        self.data.len() == product(self.dims)
    }
}

/// Calls `Arc::clone`: a second handle to the same allocation, hence to the
/// same contents.
#[verifier::external_body]
pub(crate) fn another_handle<T>(handle: &Arc<T>) -> (r: Arc<T>)
    ensures
        *r == **handle,
{
    Arc::clone(handle)
}

/// Calls `Arc::ptr_eq`: two handles to one allocation give `true`, and then
/// they hold the same contents. Handles to different allocations give
/// `false` even when the contents are equal.
#[verifier::external_body]
pub(crate) fn same_allocation<T>(a: &Arc<T>, b: &Arc<T>) -> (r: bool)
    ensures
        r ==> **a == **b,
{
    Arc::ptr_eq(a, b)
}

impl View for Tensor {
    type V = TensorView;

    closed spec fn view(&self) -> TensorView {
        TensorView {
            id: self.id,
            dims: self.shape@,
            data: match self.shared_data {
                Some(shared) => shared@,
                None => self.data@,
            },
        }
    }
}

impl Clone for Tensor {
    fn clone(&self) -> (r: Self)
        ensures
            r@ == self@,
            r.is_shared() == self.is_shared(),
    {
        proof {
            use_type_invariant(self);
        }
        let shared_data = match &self.shared_data {
            Some(shared) => Some(another_handle(shared)),
            None => None,
        };
        Tensor { id: self.id, shape: self.shape.clone(), data: self.data.clone(), shared_data }
    }
}

impl Tensor {
    #[verifier::type_invariant]
    spec fn inv(&self) -> bool {
        match self.shared_data {
            Some(shared) => self.data@.len() == 0 && shared@.len() == product(self.shape@),
            None => self.data@.len() == product(self.shape@),
        }
    }

    /// Whether the elements live in a shared buffer.
    pub closed spec fn is_shared(&self) -> bool {
        self.shared_data is Some
    }

    /// A tensor that owns `data`. Fails unless `data` has exactly as many
    /// elements as `shape` describes; the error is
    /// [`length_mismatch_text`].
    pub fn new(id: TensorId, shape: Shape, data: Vec<u32>) -> (r: Result<Self, String>)
        ensures
            r is Ok <==> data@.len() == product(shape@),
            r matches Ok(t) ==> t@ == (TensorView { id, dims: shape@, data: data@ })
                && !t.is_shared(),
            r matches Err(text) ==> text@ == length_mismatch_text(data@.len(), shape@),
    {
        match shape.checked_num_elements() {
            Some(expected) => {
                if data.len() != expected {
                    return Err(length_mismatch(data.len(), &shape));
                }
            },
            None => {
                return Err(length_mismatch(data.len(), &shape));
            },
        }
        Ok(Tensor { id, shape, data, shared_data: None })
    }

    /// A tensor over a shared buffer, which is not copied. Fails unless the
    /// buffer has exactly as many elements as `shape` describes; the error
    /// is [`length_mismatch_text`].
    pub fn from_shared(id: TensorId, shape: Shape, data: Arc<Vec<u32>>) -> (r: Result<
        Self,
        String,
    >)
        ensures
            r is Ok <==> data@.len() == product(shape@),
            r matches Ok(t) ==> t@ == (TensorView { id, dims: shape@, data: data@ })
                && t.is_shared(),
            r matches Err(text) ==> text@ == length_mismatch_text(data@.len(), shape@),
    {
        match shape.checked_num_elements() {
            Some(expected) => {
                if data.len() != expected {
                    return Err(length_mismatch(data.len(), &shape));
                }
            },
            None => {
                return Err(length_mismatch(data.len(), &shape));
            },
        }
        Ok(Tensor { id, shape, data: Vec::new(), shared_data: Some(data) })
    }

    /// The identifier.
    pub fn id(&self) -> (r: TensorId)
        ensures
            r == self@.id,
    {
        self.id
    }

    /// The shape.
    pub fn shape(&self) -> (r: &Shape)
        ensures
            r@ == self@.dims,
    {
        &self.shape
    }

    /// The elements, wherever they live. There are always as many as the
    /// shape describes.
    pub fn data_ref(&self) -> (r: &[u32])
        ensures
            r@ == self@.data,
            r@.len() == product(self@.dims),
            self@.wf(),
    {
        proof {
            use_type_invariant(self);
        }
        match &self.shared_data {
            Some(shared) => shared.as_slice(),
            None => self.data.as_slice(),
        }
    }

    /// Whether the elements live in a shared buffer.
    pub fn has_shared_data(&self) -> (r: bool)
        ensures
            r == self.is_shared(),
    {
        self.shared_data.is_some()
    }

    /// A shared handle to the elements: the buffer itself when the tensor
    /// is shared, a fresh copy otherwise.
    pub fn share(&self) -> (r: Arc<Vec<u32>>)
        ensures
            r@ == self@.data,
    {
        match &self.shared_data {
            Some(shared) => another_handle(shared),
            None => Arc::new(self.data.clone()),
        }
    }

    /// Makes the tensor own its elements, copying a shared buffer once, and
    /// leaves the contents as they were.
    pub fn make_owned(&mut self)
        ensures
            final(self)@ == old(self)@,
            !final(self).is_shared(),
    {
        proof {
            use_type_invariant(&*self);
        }
        let copy = match &self.shared_data {
            Some(shared) => Some((**shared).clone()),
            None => None,
        };
        match copy {
            Some(owned) => {
                *self = Tensor {
                    id: self.id,
                    shape: self.shape.clone(),
                    data: owned,
                    shared_data: None,
                };
            },
            None => {},
        }
    }

    /// Writes one element in place, detaching from a shared buffer first
    /// (copy on write).
    pub fn set(&mut self, position: usize, bits: u32)
        requires
            position < old(self)@.data.len(),
        ensures
            final(self)@ == (TensorView {
                data: old(self)@.data.update(position as int, bits),
                ..old(self)@
            }),
            !final(self).is_shared(),
    {
        self.make_owned();
        proof {
            use_type_invariant(&*self);
        }
        let mut none: Vec<usize> = Vec::new();
        none.push(0);
        proof {
            lemma_product_small(none@);
        }
        let mut taken = Tensor {
            id: self.id,
            shape: Shape::new(none),
            data: Vec::new(),
            shared_data: None,
        };
        core::mem::swap(self, &mut taken);
        let Tensor { id, shape, data: mut data, shared_data: _ } = taken;
        data.set(position, bits);
        *self = Tensor { id, shape, data, shared_data: None };
    }

    /// Number of axes.
    pub fn rank(&self) -> (r: usize)
        ensures
            r == self@.dims.len(),
    {
        self.shape.rank()
    }

    /// Number of elements.
    pub fn len(&self) -> (r: usize)
        ensures
            r == self@.data.len(),
            r == product(self@.dims),
    {
        self.data_ref().len()
    }

    /// Whether there are no elements.
    pub fn is_empty(&self) -> (r: bool)
        ensures
            r == (self@.data.len() == 0),
    {
        self.data_ref().len() == 0
    }
}

/// Text of the failure when a buffer does not match a shape: see
/// [`length_mismatch_text`].
fn length_mismatch(len: usize, shape: &Shape) -> (r: String)
    ensures
        r@ == length_mismatch_text(len as nat, shape@),
{
    let mut text = "Data length ".to_owned();
    text.append(crate::text::decimal_text(len).as_str());
    text.append(" does not match shape ");
    text.append(crate::text::dims_text(&shape.dims).as_str());
    text
}

} // verus!
