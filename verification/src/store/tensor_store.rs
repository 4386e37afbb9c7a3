//! The store of tensors of one database.

use crate::tensor::{product, Shape, Tensor, TensorId, TensorView};
use vstd::prelude::*;
use vstd::string::StringExecFns;

verus! {

/// What can go wrong in the tensor store.
#[derive(Debug)]
pub enum StoreError {
    ShapeMismatch(String),
    TensorNotFound(TensorId),
    InvalidTensor(String),
}

impl StoreError {
    /// The error as text.
    pub open spec fn text(&self) -> Seq<char> {
        match self {
            StoreError::ShapeMismatch(text) => "Shape mismatch: "@ + text@,
            StoreError::TensorNotFound(id) => "Tensor not found: TensorId("@ + crate::text::decimal(
                id.0 as nat,
            ) + ")"@,
            StoreError::InvalidTensor(text) => "Invalid tensor: "@ + text@,
        }
    }

    /// The error as text: see [`StoreError::text`].
    pub fn message(&self) -> (r: String)
        ensures
            r@ == self.text(),
    {
        match self {
            StoreError::ShapeMismatch(text) => {
                let mut out = "Shape mismatch: ".to_owned();
                out.append(text.as_str());
                out
            },
            StoreError::TensorNotFound(id) => {
                let mut out = "Tensor not found: TensorId(".to_owned();
                out.append(crate::text::decimal_text_long(id.0).as_str());
                out.append(")");
                out
            },
            StoreError::InvalidTensor(text) => {
                let mut out = "Invalid tensor: ".to_owned();
                out.append(text.as_str());
                out
            },
        }
    }
}

/// The views of a list of tensors.
pub open spec fn tensor_views(tensors: Seq<Tensor>) -> Seq<TensorView> {
    tensors.map_values(|t: Tensor| t@)
}

/// The first tensor with the given identifier, if any.
pub open spec fn first_with(tensors: Seq<TensorView>, id: TensorId) -> Option<TensorView>
    decreases tensors.len(),
{
    if tensors.len() == 0 {
        None
    } else {
        match first_with(tensors.drop_last(), id) {
            Some(t) => Some(t),
            None => if tensors.last().id == id {
                Some(tensors.last())
            } else {
                None
            },
        }
    }
}

/// A tensor found among the first tensors is the one found among all.
pub proof fn lemma_first_with_extends(tensors: Seq<TensorView>, id: TensorId, n: int)
    requires
        0 <= n <= tensors.len(),
        first_with(tensors.take(n), id) is Some,
    ensures
        first_with(tensors, id) == first_with(tensors.take(n), id),
    decreases tensors.len() - n,
{
    if n < tensors.len() {
        assert(tensors.take(n + 1).drop_last() =~= tensors.take(n));
        lemma_first_with_extends(tensors, id, n + 1);
    } else {
        assert(tensors.take(n) =~= tensors);
    }
}

/// An append-only store of tensors. Identifiers it hands out count up
/// from zero.
#[derive(Debug)]
pub struct InMemoryTensorStore {
    next_id: u64,
    tensors: Vec<Tensor>,
}

/// Mathematical model of an [`InMemoryTensorStore`].
pub struct TensorStoreView {
    pub next_id: u64,
    pub tensors: Seq<TensorView>,
}

impl View for InMemoryTensorStore {
    type V = TensorStoreView;

    closed spec fn view(&self) -> TensorStoreView {
        TensorStoreView { next_id: self.next_id, tensors: tensor_views(self.tensors@) }
    }
}

impl InMemoryTensorStore {
    /// An empty store.
    pub fn new() -> (r: Self)
        ensures
            r@ == (TensorStoreView { next_id: 0, tensors: Seq::empty() }),
    {
        let store = InMemoryTensorStore { next_id: 0, tensors: Vec::new() };
        proof {
            assert(tensor_views(store.tensors@) =~= Seq::<TensorView>::empty());
        }
        store
    }

    /// Hands out the next identifier. After `u64::MAX` the count starts
    /// again at zero.
    pub fn gen_id_internal(&mut self) -> (r: TensorId)
        ensures
            r == TensorId(old(self)@.next_id),
            final(self)@ == (TensorStoreView {
                next_id: old(self)@.next_id.wrapping_add(1),
                ..old(self)@
            }),
    {
        let id = TensorId(self.next_id);
        self.next_id = self.next_id.wrapping_add(1);
        id
    }

    /// Makes a tensor under the next identifier and stores it. The
    /// identifier is used up even when the tensor is refused, which
    /// happens exactly when `data` does not have as many elements as
    /// `shape` describes.
    pub fn insert_tensor(&mut self, shape: Shape, data: Vec<u32>) -> (r: Result<
        TensorId,
        StoreError,
    >)
        ensures
            final(self)@.next_id == old(self)@.next_id.wrapping_add(1),
            r is Ok <==> data@.len() == product(shape@),
            r matches Ok(id) ==> id == TensorId(old(self)@.next_id) && final(self)@.tensors == old(self)@.tensors.push(TensorView { id, dims: shape@, data: data@ }),
            r matches Err(e) ==> e is InvalidTensor && final(self)@.tensors == old(self)@.tensors,
    {
        let id = self.gen_id_internal();
        match Tensor::new(id, shape, data) {
            Ok(tensor) => {
                let ghost before = tensor_views(self.tensors@);
                self.tensors.push(tensor);
                proof {
                    assert(tensor_views(self.tensors@) =~= before.push(tensor@));
                }
                Ok(id)
            },
            Err(text) => Err(StoreError::InvalidTensor(text)),
        }
    }

    /// Stores a tensor under the identifier it has. Always succeeds.
    pub fn insert_existing_tensor(&mut self, tensor: Tensor) -> (r: Result<TensorId, StoreError>)
        ensures
            r == Ok::<TensorId, StoreError>(tensor@.id),
            final(self)@ == (TensorStoreView {
                tensors: old(self)@.tensors.push(tensor@),
                ..old(self)@
            }),
    {
        let id = tensor.id();
        let ghost before = tensor_views(self.tensors@);
        self.tensors.push(tensor);
        proof {
            assert(tensor_views(self.tensors@) =~= before.push(tensor@));
        }
        Ok(id)
    }

    /// The first tensor stored under the identifier.
    pub fn get(&self, id: TensorId) -> (r: Result<&Tensor, StoreError>)
        ensures
            match first_with(self@.tensors, id) {
                Some(view) => r matches Ok(t) && t@ == view,
                None => r == Err::<&Tensor, StoreError>(StoreError::TensorNotFound(id)),
            },
    {
        let ghost all = tensor_views(self.tensors@);
        let mut i: usize = 0;
        proof {
            assert(all.take(0) =~= Seq::<TensorView>::empty());
        }
        while i < self.tensors.len()
            invariant
                all == tensor_views(self.tensors@),
                i <= self.tensors@.len(),
                first_with(all.take(i as int), id) is None,
            decreases self.tensors@.len() - i,
        {
            proof {
                assert(all.take(i + 1).drop_last() =~= all.take(i as int));
                assert(all.take(i + 1).last() == self.tensors@[i as int]@);
            }
            if self.tensors[i].id() == id {
                proof {
                    lemma_first_with_extends(all, id, i + 1);
                }
                return Ok(&self.tensors[i]);
            }
            i += 1;
        }
        proof {
            assert(all.take(self.tensors@.len() as int) =~= all);
        }
        Err(StoreError::TensorNotFound(id))
    }

    /// Number of tensors stored.
    pub fn len(&self) -> (r: usize)
        ensures
            r == self@.tensors.len(),
    {
        self.tensors.len()
    }
}

} // verus!
