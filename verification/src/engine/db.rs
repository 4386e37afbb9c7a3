//! Databases: isolated namespaces of tensors and datasets, and the engine
//! that holds them.

use crate::dataset::{
    column_accepted, evaluated_values, has_lazy, indices_accept, kinds_of, names_after_insert,
    new_field, widened, Dataset, DatasetId, DatasetView,
};
use crate::ids::id_position;
use crate::index::{HashIndex, Index, IndexType, VectorIndex};
use crate::query::logical::{name_views, Expr};
use crate::stats::column;
use crate::tuple::{position_of, schema_accepts, Schema, Tuple, TupleView};
use crate::value::{views_of, Value, ValueType, ValueView};
use std::sync::Arc;
use crate::engine::error::EngineError;
use crate::engine::kernels;
use crate::engine::kernels::{
    cosine, distance, dot, flatten_result, index_result, l2_norm, matmul_result, normalize_result,
    ref_views, relaxed_result, reshape_result, scalar_mul_result, scalar_view, slice_multi_result,
    stack_result, strict_result, transpose_result, vectors_of_one_length, Arithmetic, SliceSpec,
};
use crate::engine::operations::{BinaryOp, TensorKind, UnaryOp};
use crate::float;
use crate::float::{float_of_int, is_zero};
use crate::names::{lemma_name_position, name_position, NameMap};
use crate::order::same_text;
use crate::store::tensor_store::first_with;
use crate::store::{DatasetStore, InMemoryTensorStore, StoreError};
use crate::tensor::{product, Shape, Tensor, TensorId, TensorView};
use vstd::prelude::*;
use vstd::string::StringExecFns;

verus! {

/// What a name of a tensor stands for.
#[derive(Debug, Clone, Copy, PartialEq, Eq, Structural)]
pub struct NameEntry {
    pub id: TensorId,
    pub kind: TensorKind,
}

/// One database: a store of tensors with names for them, and a store of
/// datasets.
#[derive(Debug)]
pub struct DatabaseInstance {
    pub name: String,
    store: InMemoryTensorStore,
    names: NameMap<NameEntry>,
    dataset_store: DatasetStore,
}

/// Mathematical model of the tensors of a [`DatabaseInstance`].
pub struct DatabaseView {
    pub name: Seq<char>,
    /// The identifier the next tensor gets.
    pub next_id: u64,
    /// The tensors, in the order of storing.
    pub tensors: Seq<TensorView>,
    /// The names of tensors, in the order of first use.
    pub tensor_names: Seq<Seq<char>>,
    /// What each name stands for.
    pub entries: Seq<NameEntry>,
}

impl DatabaseView {
    /// What a name stands for, if anything.
    pub open spec fn entry(self, name: Seq<char>) -> Option<NameEntry> {
        match name_position(self.tensor_names, name) {
            Some(k) => Some(self.entries[k]),
            None => None,
        }
    }

    /// The tensor a name stands for, if any.
    pub open spec fn tensor(self, name: Seq<char>) -> Option<TensorView> {
        match self.entry(name) {
            Some(e) => first_with(self.tensors, e.id),
            None => None,
        }
    }

    /// The database after an identifier was handed out.
    pub open spec fn advanced(self) -> DatabaseView {
        DatabaseView { next_id: self.next_id.wrapping_add(1), ..self }
    }

    /// The database after a tensor was stored and a name bound to it: a
    /// name in use is bound anew, a new name goes to the end.
    pub open spec fn bound(self, name: Seq<char>, tensor: TensorView, kind: TensorKind)
        -> DatabaseView {
        let entry = NameEntry { id: tensor.id, kind };
        DatabaseView {
            tensors: self.tensors.push(tensor),
            tensor_names: match name_position(self.tensor_names, name) {
                Some(_) => self.tensor_names,
                None => self.tensor_names.push(name),
            },
            entries: match name_position(self.tensor_names, name) {
                Some(k) => self.entries.update(k, entry),
                None => self.entries.push(entry),
            },
            ..self
        }
    }
}

/// What a unary operation gives for a tensor, under the identifier given.
pub open spec fn unary_result(op: UnaryOp, a: TensorView, id: TensorId) -> Option<TensorView> {
    match op {
        UnaryOp::Scale(s) => Some(scalar_mul_result(a, s, id)),
        UnaryOp::Normalize => normalize_result(a, id),
        UnaryOp::Transpose => transpose_result(a, id),
        UnaryOp::Flatten => Some(flatten_result(a, id)),
    }
}

/// The result of an element-wise operation: shape-exact when strict,
/// relaxed otherwise.
pub open spec fn elementwise_result(
    op: Arithmetic,
    strict: bool,
    a: TensorView,
    b: TensorView,
    id: TensorId,
) -> Option<TensorView> {
    if strict {
        strict_result(op, a, b, id)
    } else {
        relaxed_result(op, a, b, id)
    }
}

/// What a binary operation gives for two tensors, under the identifier
/// given. The reductions give a scalar and demand vectors of one length
/// whatever the kind.
pub open spec fn binary_result(
    op: BinaryOp,
    strict: bool,
    a: TensorView,
    b: TensorView,
    id: TensorId,
) -> Option<TensorView> {
    match op {
        BinaryOp::Add => elementwise_result(Arithmetic::Add, strict, a, b, id),
        BinaryOp::Subtract => elementwise_result(Arithmetic::Subtract, strict, a, b, id),
        BinaryOp::Multiply => elementwise_result(Arithmetic::Multiply, strict, a, b, id),
        BinaryOp::Divide => elementwise_result(Arithmetic::Divide, strict, a, b, id),
        BinaryOp::Correlate => if vectors_of_one_length(a, b) {
            Some(scalar_view(dot(a.data, b.data), id))
        } else {
            None
        },
        BinaryOp::Similarity => if vectors_of_one_length(a, b) && !is_zero(l2_norm(a.data))
            && !is_zero(l2_norm(b.data)) {
            Some(scalar_view(cosine(a.data, b.data), id))
        } else {
            None
        },
        BinaryOp::Distance => if vectors_of_one_length(a, b) {
            Some(scalar_view(distance(a.data, b.data), id))
        } else {
            None
        },
    }
}

/// How a database stands after an operation that makes a tensor from
/// named inputs and binds it to a name. Where an input is missing nothing
/// changes; otherwise an identifier is used up, and the result, if the
/// operation gives one, is stored and bound.
pub open spec fn evaluated(
    before: DatabaseView,
    after: DatabaseView,
    inputs_found: bool,
    output: Seq<char>,
    result: Option<TensorView>,
    kind: TensorKind,
    ok: bool,
) -> bool {
    if !inputs_found {
        !ok && after == before
    } else {
        match result {
            Some(view) => ok && after == before.advanced().bound(output, view, kind),
            None => !ok && after == before.advanced(),
        }
    }
}

impl View for DatabaseInstance {
    type V = DatabaseView;

    closed spec fn view(&self) -> DatabaseView {
        DatabaseView {
            name: self.name@,
            next_id: self.store@.next_id,
            tensors: self.store@.tensors,
            tensor_names: self.names.names_view(),
            entries: self.names.items_view(),
        }
    }
}

impl DatabaseInstance {
    /// The store of datasets.
    pub closed spec fn datasets(&self) -> DatasetStore {
        self.dataset_store
    }

    /// An empty database.
    pub fn new(name: String) -> (r: Self)
        ensures
            r@ == (DatabaseView {
                name: name@,
                next_id: 0,
                tensors: Seq::empty(),
                tensor_names: Seq::empty(),
                entries: Seq::empty(),
            }),
            r.datasets().ids().len() == 0,
            r.datasets().names().len() == 0,
            r.datasets().next_id() == 0,
    {
        let names: NameMap<NameEntry> = NameMap::new();
        proof {
            assert(names.names_view() =~= Seq::<Seq<char>>::empty());
            assert(names.items_view() =~= Seq::<NameEntry>::empty());
        }
        DatabaseInstance {
            name,
            store: InMemoryTensorStore::new(),
            names,
            dataset_store: DatasetStore::new(),
        }
    }

    /// Stores the tensor and binds the name to it.
    fn bind(&mut self, output: &str, tensor: Tensor, kind: TensorKind)
        ensures
            final(self)@ == old(self)@.bound(output@, tensor@, kind),
            final(self).datasets() == old(self).datasets(),
    {
        let id = tensor.id();
        let _ = self.store.insert_existing_tensor(tensor);
        self.names.insert(output.to_owned(), NameEntry { id, kind });
    }

    /// Stores a tensor of the given shape and elements under a name, as a
    /// normal tensor. See [`DatabaseInstance::insert_named_with_kind`].
    pub fn insert_named(&mut self, name: &str, shape: Shape, data: Vec<u32>) -> (r: Result<
        (),
        EngineError,
    >)
        ensures
            final(self).datasets() == old(self).datasets(),
            evaluated(
                old(self)@,
                final(self)@,
                true,
                name@,
                if data@.len() == product(shape@) {
                    Some(TensorView { id: TensorId(old(self)@.next_id), dims: shape@, data: data@ })
                } else {
                    None
                },
                TensorKind::Normal,
                r is Ok,
            ),
    {
        self.insert_named_with_kind(name, shape, data, TensorKind::Normal)
    }

    /// Stores a tensor of the given shape and elements under a name. The
    /// tensor gets the next identifier, which is used up even when the
    /// tensor is refused; that happens exactly when there are not as many
    /// elements as the shape describes.
    pub fn insert_named_with_kind(
        &mut self,
        name: &str,
        shape: Shape,
        data: Vec<u32>,
        kind: TensorKind,
    ) -> (r: Result<(), EngineError>)
        ensures
            final(self).datasets() == old(self).datasets(),
            evaluated(
                old(self)@,
                final(self)@,
                true,
                name@,
                if data@.len() == product(shape@) {
                    Some(TensorView { id: TensorId(old(self)@.next_id), dims: shape@, data: data@ })
                } else {
                    None
                },
                kind,
                r is Ok,
            ),
            r matches Err(e) ==> e matches EngineError::Store(inner) && inner is InvalidTensor,
    {
        match self.store.insert_tensor(shape, data) {
            Ok(id) => {
                self.names.insert(name.to_owned(), NameEntry { id, kind });
                Ok(())
            },
            Err(e) => Err(EngineError::Store(e)),
        }
    }

    /// The tensor a name stands for.
    pub fn get(&self, name: &str) -> (r: Result<&Tensor, EngineError>)
        ensures
            match self@.entry(name@) {
                Some(e) => match first_with(self@.tensors, e.id) {
                    Some(view) => r matches Ok(t) && t@ == view,
                    None => r matches Err(EngineError::Store(inner)) && inner
                        == StoreError::TensorNotFound(e.id),
                },
                None => r matches Err(EngineError::NameNotFound(n)) && n@ == name@,
            },
    {
        match self.get_with_kind(name) {
            Ok((t, _)) => Ok(t),
            Err(e) => Err(e),
        }
    }

    /// The tensor a name stands for, and its kind.
    pub fn get_with_kind(&self, name: &str) -> (r: Result<(&Tensor, TensorKind), EngineError>)
        ensures
            match self@.entry(name@) {
                Some(e) => match first_with(self@.tensors, e.id) {
                    Some(view) => r matches Ok((t, kind)) && t@ == view && kind == e.kind,
                    None => r matches Err(EngineError::Store(inner)) && inner
                        == StoreError::TensorNotFound(e.id),
                },
                None => r matches Err(EngineError::NameNotFound(n)) && n@ == name@,
            },
            r is Ok <==> self@.tensor(name@) is Some,
    {
        proof {
            lemma_name_position(self.names.names_view(), name@);
        }
        let entry = match self.names.get(name) {
            Some(entry) => *entry,
            None => {
                return Err(EngineError::NameNotFound(name.to_owned()));
            },
        };
        match self.store.get(entry.id) {
            Ok(t) => Ok((t, entry.kind)),
            Err(e) => Err(EngineError::Store(e)),
        }
    }

    /// A copy of the tensor a name stands for, and its kind.
    fn fetch(&self, name: &str) -> (r: Result<(Tensor, TensorKind), EngineError>)
        ensures
            r is Ok <==> self@.tensor(name@) is Some,
            r matches Ok((t, kind)) ==> Some(t@) == self@.tensor(name@) && Some(kind) == (
            match self@.entry(name@) {
                Some(e) => Some(e.kind),
                None => None,
            }),
            self@.entry(name@) is None ==> (r matches Err(EngineError::NameNotFound(n)) && n@
                == name@),
    {
        match self.get_with_kind(name) {
            Ok((t, kind)) => Ok((t.clone(), kind)),
            Err(e) => Err(e),
        }
    }

    /// The kind a name stands for; meaningful where the name is bound.
    pub open spec fn kind_of(&self, name: Seq<char>) -> TensorKind {
        match self@.entry(name) {
            Some(e) => e.kind,
            None => TensorKind::Normal,
        }
    }

    /// Applies a unary operation to a named tensor and binds the result to
    /// a name; the result has the kind of the input. Fails when the input
    /// is not there and when the operation refuses it.
    pub fn eval_unary(&mut self, output_name: &str, input_name: &str, op: UnaryOp) -> (r: Result<
        (),
        EngineError,
    >)
        ensures
            final(self).datasets() == old(self).datasets(),
            evaluated(
                old(self)@,
                final(self)@,
                old(self)@.tensor(input_name@) is Some,
                output_name@,
                match old(self)@.tensor(input_name@) {
                    Some(a) => unary_result(op, a, TensorId(old(self)@.next_id)),
                    None => None,
                },
                old(self).kind_of(input_name@),
                r is Ok,
            ),
    {
        let (input, kind) = match self.fetch(input_name) {
            Ok(found) => found,
            Err(e) => {
                return Err(e);
            },
        };
        let new_id = self.store.gen_id_internal();
        let outcome = match op {
            UnaryOp::Scale(s) => kernels::scalar_mul(&input, s, new_id),
            UnaryOp::Normalize => kernels::normalize_1d(&input, new_id),
            UnaryOp::Transpose => kernels::transpose(&input, new_id),
            UnaryOp::Flatten => kernels::flatten(&input, new_id),
        };
        match outcome {
            Ok(result) => {
                self.bind(output_name, result, kind);
                Ok(())
            },
            Err(text) => Err(EngineError::InvalidOp(text)),
        }
    }

    /// Applies a binary operation to two named tensors and binds the
    /// result to a name. The result is strict as soon as one input is; a
    /// strict element-wise operation demands equal shapes, a normal one
    /// is relaxed. Fails when an input is not there and when the
    /// operation refuses the inputs.
    pub fn eval_binary(
        &mut self,
        output_name: &str,
        left_name: &str,
        right_name: &str,
        op: BinaryOp,
    ) -> (r: Result<(), EngineError>)
        ensures
            final(self).datasets() == old(self).datasets(),
            evaluated(
                old(self)@,
                final(self)@,
                old(self)@.tensor(left_name@) is Some && old(self)@.tensor(right_name@) is Some,
                output_name@,
                match (old(self)@.tensor(left_name@), old(self)@.tensor(right_name@)) {
                    (Some(a), Some(b)) => binary_result(
                        op,
                        old(self).kind_of(left_name@).joined(old(self).kind_of(right_name@))
                            == TensorKind::Strict,
                        a,
                        b,
                        TensorId(old(self)@.next_id),
                    ),
                    _ => None,
                },
                old(self).kind_of(left_name@).joined(old(self).kind_of(right_name@)),
                r is Ok,
            ),
    {
        let (a, kind_a) = match self.fetch(left_name) {
            Ok(found) => found,
            Err(e) => {
                return Err(e);
            },
        };
        let (b, kind_b) = match self.fetch(right_name) {
            Ok(found) => found,
            Err(e) => {
                return Err(e);
            },
        };
        let new_id = self.store.gen_id_internal();
        let out_kind = kind_a.join(kind_b);
        let strict = out_kind == TensorKind::Strict;
        let outcome = match op {
            BinaryOp::Add => if strict {
                kernels::elementwise_strict(Arithmetic::Add, &a, &b, new_id)
            } else {
                kernels::elementwise_binary_op(Arithmetic::Add, &a, &b, new_id)
            },
            BinaryOp::Subtract => if strict {
                kernels::elementwise_strict(Arithmetic::Subtract, &a, &b, new_id)
            } else {
                kernels::elementwise_binary_op(Arithmetic::Subtract, &a, &b, new_id)
            },
            BinaryOp::Multiply => if strict {
                kernels::elementwise_strict(Arithmetic::Multiply, &a, &b, new_id)
            } else {
                kernels::elementwise_binary_op(Arithmetic::Multiply, &a, &b, new_id)
            },
            BinaryOp::Divide => if strict {
                kernels::elementwise_strict(Arithmetic::Divide, &a, &b, new_id)
            } else {
                kernels::elementwise_binary_op(Arithmetic::Divide, &a, &b, new_id)
            },
            BinaryOp::Correlate => match kernels::dot_1d(&a, &b) {
                Ok(value) => Ok(kernels::scalar_tensor(value, new_id)),
                Err(text) => Err(text),
            },
            BinaryOp::Similarity => match kernels::cosine_similarity_1d(&a, &b) {
                Ok(value) => Ok(kernels::scalar_tensor(value, new_id)),
                Err(text) => Err(text),
            },
            BinaryOp::Distance => match kernels::distance_1d(&a, &b) {
                Ok(value) => Ok(kernels::scalar_tensor(value, new_id)),
                Err(text) => Err(text),
            },
        };
        match outcome {
            Ok(result) => {
                self.bind(output_name, result, out_kind);
                Ok(())
            },
            Err(text) => Err(EngineError::InvalidOp(text)),
        }
    }

    /// The names of the tensors, in the order of first use.
    pub fn list_names(&self) -> (r: Vec<String>)
        ensures
            r@.map_values(|n: String| n@) == self@.tensor_names,
    {
        self.names.keys()
    }

    /// Multiplies two named matrices and binds the product to a name. The
    /// result is strict as soon as one input is.
    pub fn eval_matmul(&mut self, output_name: &str, left_name: &str, right_name: &str) -> (r:
        Result<(), EngineError>)
        ensures
            final(self).datasets() == old(self).datasets(),
            evaluated(
                old(self)@,
                final(self)@,
                old(self)@.tensor(left_name@) is Some && old(self)@.tensor(right_name@) is Some,
                output_name@,
                match (old(self)@.tensor(left_name@), old(self)@.tensor(right_name@)) {
                    (Some(a), Some(b)) => matmul_result(a, b, TensorId(old(self)@.next_id)),
                    _ => None,
                },
                old(self).kind_of(left_name@).joined(old(self).kind_of(right_name@)),
                r is Ok,
            ),
    {
        let (a, kind_a) = match self.fetch(left_name) {
            Ok(found) => found,
            Err(e) => {
                return Err(e);
            },
        };
        let (b, kind_b) = match self.fetch(right_name) {
            Ok(found) => found,
            Err(e) => {
                return Err(e);
            },
        };
        let new_id = self.store.gen_id_internal();
        match kernels::matmul(&a, &b, new_id) {
            Ok(result) => {
                self.bind(output_name, result, kind_a.join(kind_b));
                Ok(())
            },
            Err(text) => Err(EngineError::InvalidOp(text)),
        }
    }

    /// Reshapes a named tensor and binds the result to a name; the result
    /// has the kind of the input.
    pub fn eval_reshape(&mut self, output_name: &str, input_name: &str, new_shape: Shape) -> (r:
        Result<(), EngineError>)
        ensures
            final(self).datasets() == old(self).datasets(),
            evaluated(
                old(self)@,
                final(self)@,
                old(self)@.tensor(input_name@) is Some,
                output_name@,
                match old(self)@.tensor(input_name@) {
                    Some(a) => reshape_result(a, new_shape@, TensorId(old(self)@.next_id)),
                    None => None,
                },
                old(self).kind_of(input_name@),
                r is Ok,
            ),
    {
        let (input, kind) = match self.fetch(input_name) {
            Ok(found) => found,
            Err(e) => {
                return Err(e);
            },
        };
        let new_id = self.store.gen_id_internal();
        match kernels::reshape(&input, new_shape, new_id) {
            Ok(result) => {
                self.bind(output_name, result, kind);
                Ok(())
            },
            Err(text) => Err(EngineError::InvalidOp(text)),
        }
    }

    /// Takes one element of a named tensor and binds it, as a scalar, to a
    /// name; the result has the kind of the input.
    pub fn eval_index(&mut self, output_name: &str, tensor_name: &str, indices: Vec<usize>) -> (r:
        Result<(), EngineError>)
        ensures
            final(self).datasets() == old(self).datasets(),
            evaluated(
                old(self)@,
                final(self)@,
                old(self)@.tensor(tensor_name@) is Some,
                output_name@,
                match old(self)@.tensor(tensor_name@) {
                    Some(a) => index_result(a, indices@, TensorId(old(self)@.next_id)),
                    None => None,
                },
                old(self).kind_of(tensor_name@),
                r is Ok,
            ),
    {
        let (input, kind) = match self.fetch(tensor_name) {
            Ok(found) => found,
            Err(e) => {
                return Err(e);
            },
        };
        let new_id = self.store.gen_id_internal();
        match kernels::index_to_scalar(&input, indices.as_slice(), new_id) {
            Ok(result) => {
                self.bind(output_name, result, kind);
                Ok(())
            },
            Err(text) => Err(EngineError::InvalidOp(text)),
        }
    }

    /// Slices a named tensor along every axis and binds the result to a
    /// name; the result has the kind of the input.
    pub fn eval_slice(&mut self, output_name: &str, tensor_name: &str, specs: Vec<SliceSpec>) -> (r:
        Result<(), EngineError>)
        ensures
            final(self).datasets() == old(self).datasets(),
            evaluated(
                old(self)@,
                final(self)@,
                old(self)@.tensor(tensor_name@) is Some,
                output_name@,
                match old(self)@.tensor(tensor_name@) {
                    Some(a) => slice_multi_result(a, specs@, TensorId(old(self)@.next_id)),
                    None => None,
                },
                old(self).kind_of(tensor_name@),
                r is Ok,
            ),
    {
        let (input, kind) = match self.fetch(tensor_name) {
            Ok(found) => found,
            Err(e) => {
                return Err(e);
            },
        };
        let new_id = self.store.gen_id_internal();
        match kernels::slice_multi(&input, specs.as_slice(), new_id) {
            Ok(result) => {
                self.bind(output_name, result, kind);
                Ok(())
            },
            Err(text) => Err(EngineError::InvalidOp(text)),
        }
    }
}

/// The number a value stands for when it is put into a tensor: a number
/// as it is, an integer converted, `true` as one and `false` as zero.
/// Nothing else can be put into a tensor.
pub open spec fn as_number(value: ValueView) -> Option<u32> {
    match value {
        ValueView::Float(bits) => Some(bits),
        ValueView::Int(i) => Some(float_of_int(i as int)),
        ValueView::Bool(b) => Some(
            if b {
                float::ONE
            } else {
                float::ZERO
            },
        ),
        _ => None,
    }
}

/// Computes [`as_number`].
pub fn number_of(value: &Value) -> (r: Option<u32>)
    ensures
        r == as_number(value@),
{
    match value {
        Value::Float(bits) => Some(*bits),
        Value::Int(i) => Some(float::from_int(*i as i128)),
        Value::Bool(b) => Some(
            if *b {
                float::ONE
            } else {
                float::ZERO
            },
        ),
        _ => None,
    }
}

/// Whether every value can be put into a tensor.
pub open spec fn all_numbers(values: Seq<ValueView>) -> bool {
    forall|i: int| 0 <= i < values.len() ==> as_number(#[trigger] values[i]) is Some
}

/// The numbers of a list of values that can all be put into a tensor.
pub open spec fn numbers_of(values: Seq<ValueView>) -> Seq<u32> {
    Seq::new(values.len(), |i: int| as_number(values[i]).unwrap())
}

/// Whether two stores of datasets hold the same.
pub open spec fn same_store(before: &DatasetStore, after: &DatasetStore) -> bool {
    after.next_id() == before.next_id() && after.ids() == before.ids() && after.items()
        == before.items() && after.names() == before.names() && after.named_ids()
        == before.named_ids()
}

/// Whether two stores of datasets hold the same but for the dataset of
/// the given name, which is now the one given.
pub open spec fn dataset_replaced(
    before: &DatasetStore,
    after: &DatasetStore,
    name: Seq<char>,
    changed: Dataset,
) -> bool {
    after.next_id() == before.next_id() && after.ids() == before.ids() && after.names()
        == before.names() && after.named_ids() == before.named_ids() && match before.id_of(name) {
        Some(id) => match id_position(before.ids(), id.0) {
            Some(i) => after.items() == before.items().update(i, changed),
            None => false,
        },
        None => false,
    }
}

/// How the names of the datasets of a database stand after a dataset was
/// to be created under a name: the creation succeeds exactly when the
/// name was free, and then the name is taken.
pub open spec fn dataset_created(
    before: &DatabaseInstance,
    after: &DatabaseInstance,
    name: Seq<char>,
    ok: bool,
) -> bool {
    &&& ok <==> name_position(before.datasets().names(), name) is None
    &&& ok ==> after.datasets().names() == before.datasets().names().push(name)
    &&& !ok ==> after.datasets().names() == before.datasets().names()
}

/// Creating two datasets under one name in one database fails the second
/// time.
pub proof fn law_same_name_twice(
    first: &DatabaseInstance,
    second: &DatabaseInstance,
    third: &DatabaseInstance,
    name: Seq<char>,
    ok_first: bool,
    ok_second: bool,
)
    requires
        dataset_created(first, second, name, ok_first),
        dataset_created(second, third, name, ok_second),
        ok_first,
    ensures
        !ok_second,
{
    let names = first.datasets().names();
    assert(names.push(name).drop_last() =~= names);
}

/// Creating a dataset in one database leaves a name free in another
/// database free: a creation under the same name there succeeds.
pub proof fn law_same_name_elsewhere(
    here: &DatabaseInstance,
    here_after: &DatabaseInstance,
    there: &DatabaseInstance,
    there_after: &DatabaseInstance,
    name: Seq<char>,
    ok_here: bool,
    ok_there: bool,
)
    requires
        dataset_created(here, here_after, name, ok_here),
        dataset_created(there, there_after, name, ok_there),
        name_position(there.datasets().names(), name) is None,
    ensures
        ok_there,
{
}

/// The position of a named dataset lies within the store.
pub proof fn lemma_store_lookup(store: &DatasetStore, name: Seq<char>)
    ensures
        match store.id_of(name) {
            Some(id) => match id_position(store.ids(), id.0) {
                Some(i) => 0 <= i < store.ids().len(),
                None => true,
            },
            None => true,
        },
{
    match store.id_of(name) {
        Some(id) => {
            crate::ids::lemma_id_position(store.ids(), id.0);
        },
        None => {},
    }
}

/// How a dataset stands after a row was to be appended.
pub open spec fn row_appended(before: DatasetView, after: DatasetView, row: TupleView, ok: bool)
    -> bool {
    &&& ok ==> row.schema == before.schema && indices_accept(
        before.index_names,
        before.indices,
        row,
    ) && after.rows == before.rows.push(row) && after.id == before.id && after.schema
        == before.schema && after.name == before.name && after.lazy_names == before.lazy_names
        && after.lazy_exprs == before.lazy_exprs && after.index_names == before.index_names
        && kinds_of(after.indices) == kinds_of(before.indices)
    &&& !ok ==> after == before
    &&& after.wf()
}

/// How a dataset stands after a column with a default value was to be
/// added.
pub open spec fn column_added(
    before: DatasetView,
    after: DatasetView,
    name: Seq<char>,
    value_type: ValueType,
    default_value: ValueView,
    nullable: bool,
    ok: bool,
) -> bool {
    let field = new_field(name, value_type, nullable, false);
    &&& ok <==> position_of(before.schema, name) is None && (default_value is Null
        || default_value.matches_type(value_type)) && (before.rows.len() == 0 || field.accepts(
        default_value,
    ))
    &&& ok ==> after == (DatasetView {
        schema: before.schema.push(field),
        rows: widened(
            before.rows,
            before.schema.push(field),
            Seq::new(before.rows.len(), |i: int| default_value),
        ),
        ..before
    })
    &&& !ok ==> after == before
    &&& after.wf()
}

/// How a dataset stands after a computed column was to be added.
pub open spec fn computed_column_added(
    before: DatasetView,
    after: DatasetView,
    name: Seq<char>,
    value_type: ValueType,
    computed: Seq<ValueView>,
    expression: crate::query::logical::ExprView,
    lazy: bool,
    ok: bool,
) -> bool {
    &&& ok <==> position_of(before.schema, name) is None && (lazy || (computed.len()
        == before.rows.len() && forall|i: int|
        0 <= i < computed.len() ==> (#[trigger] computed[i]).matches_type(value_type) && new_field(
            name,
            value_type,
            false,
            false,
        ).accepts(computed[i])))
    &&& ok && lazy ==> after == (DatasetView {
        schema: before.schema.push(new_field(name, value_type, true, true)),
        rows: widened(
            before.rows,
            before.schema.push(new_field(name, value_type, true, true)),
            Seq::new(before.rows.len(), |i: int| ValueView::Null),
        ),
        lazy_names: before.lazy_names.push(name),
        lazy_exprs: before.lazy_exprs.push(expression),
        ..before
    })
    &&& ok && !lazy ==> after == (DatasetView {
        schema: before.schema.push(new_field(name, value_type, false, false)),
        rows: widened(
            before.rows,
            before.schema.push(new_field(name, value_type, false, false)),
            computed,
        ),
        ..before
    })
    &&& !ok ==> after == before
    &&& after.wf()
}

/// An index as it is listed: the dataset, the column and the kind.
pub type IndexEntry = (Seq<char>, Seq<char>, Seq<char>);

/// The kind of an index as it is written.
pub open spec fn kind_text(kind: IndexType) -> Seq<char> {
    match kind {
        IndexType::Hash => "HASH"@,
        IndexType::Vector => "VECTOR"@,
    }
}

/// The first `n` indices of a dataset as they are listed, in the order
/// in which they were first created.
pub open spec fn index_entries(name: Seq<char>, dataset: DatasetView, n: int) -> Seq<IndexEntry>
    decreases n,
{
    if n <= 0 {
        Seq::empty()
    } else {
        let before = index_entries(name, dataset, n - 1);
        match dataset.index(dataset.index_names[n - 1]) {
            Some(index) => before.push(
                (name, dataset.index_names[n - 1], kind_text(index.index_kind())),
            ),
            None => before,
        }
    }
}

/// The indices of the first `n` named datasets of a store as they are
/// listed, dataset by dataset in the order of their names.
pub open spec fn listed_indices(store: &DatasetStore, n: int) -> Seq<IndexEntry>
    decreases n,
{
    if n <= 0 {
        Seq::empty()
    } else {
        let before = listed_indices(store, n - 1);
        match store.by_name(store.names()[n - 1]) {
            Some(d) => before + index_entries(
                store.names()[n - 1],
                d@,
                d@.index_names.len() as int,
            ),
            None => before,
        }
    }
}

/// The model of a listed index.
pub open spec fn entry_view(entry: (String, String, String)) -> IndexEntry {
    (entry.0@, entry.1@, entry.2@)
}

/// The models of listed indices.
pub open spec fn entry_views(entries: Seq<(String, String, String)>) -> Seq<IndexEntry> {
    entries.map_values(|e: (String, String, String)| entry_view(e))
}

/// The names of the databases after the first `n` names of a list were
/// registered: each name that is not there yet goes to the end.
pub open spec fn registered(names: Seq<Seq<char>>, found: Seq<Seq<char>>, n: int) -> Seq<Seq<char>>
    decreases n,
{
    if n <= 0 {
        names
    } else {
        let before = registered(names, found, n - 1);
        if name_position(before, found[n - 1]) is Some {
            before
        } else {
            before.push(found[n - 1])
        }
    }
}

/// Whether a database of a name holds nothing.
pub open spec fn is_empty_database(instance: DatabaseInstance, name: Seq<char>) -> bool {
    instance@ == (DatabaseView {
        name,
        next_id: 0,
        tensors: Seq::empty(),
        tensor_names: Seq::empty(),
        entries: Seq::empty(),
    }) && instance.datasets().names().len() == 0
}

/// How a dataset stands after its rows were to be replaced: the rows must
/// all stand under its schema; the indices are dropped with the old
/// rows.
pub open spec fn rows_replaced(
    before: DatasetView,
    after: DatasetView,
    rows: Seq<TupleView>,
    ok: bool,
) -> bool {
    &&& ok <==> crate::dataset::rows_share(rows, before.schema)
    &&& ok ==> after == (DatasetView {
        rows,
        index_names: Seq::empty(),
        indices: Seq::empty(),
        ..before
    })
    &&& !ok ==> after == before
    &&& after.wf()
}

/// How a dataset stands after its lazy columns were to be materialized.
pub open spec fn materialized(before: DatasetView, after: DatasetView, ok: bool) -> bool {
    &&& ok <==> !has_lazy(before.schema) || forall|i: int|
        0 <= i < before.rows.len() ==> schema_accepts(
            before.schema,
            evaluated_values(
                before.schema,
                before.lazy_names,
                before.lazy_exprs,
                #[trigger] before.rows[i],
            ),
        )
    &&& ok && has_lazy(before.schema) ==> after == (DatasetView {
        schema: crate::dataset::cleared(before.schema),
        rows: Seq::new(
            before.rows.len(),
            |i: int|
                TupleView {
                    schema: crate::dataset::cleared(before.schema),
                    values: evaluated_values(
                        before.schema,
                        before.lazy_names,
                        before.lazy_exprs,
                        before.rows[i],
                    ),
                },
        ),
        lazy_names: Seq::empty(),
        lazy_exprs: Seq::empty(),
        index_names: Seq::empty(),
        indices: Seq::empty(),
        ..before
    })
    &&& ok && !has_lazy(before.schema) ==> after == before
    &&& !ok ==> after == before
    &&& after.wf()
}

/// How a dataset stands after an index of a kind was to be created on a
/// column.
pub open spec fn index_created(
    before: DatasetView,
    after: DatasetView,
    column_name: Seq<char>,
    like: Index,
    ok: bool,
) -> bool {
    &&& ok <==> position_of(before.schema, column_name) is Some && column_accepted(
        like,
        column(before.rows, column_name),
    )
    &&& ok ==> after.id == before.id && after.schema == before.schema && after.rows == before.rows
        && after.name == before.name && after.lazy_names == before.lazy_names && after.lazy_exprs
        == before.lazy_exprs && after.index_names == names_after_insert(
        before.index_names,
        column_name,
    ) && (after.index(column_name) matches Some(made) && made.index_kind() == like.index_kind())
        && forall|other: Seq<char>|
        other != column_name ==> (#[trigger] after.index(other)) == before.index(other)
    &&& !ok ==> after == before
    &&& after.wf()
}

/// The kind a name stands for in a database; normal where it stands for
/// nothing.
pub open spec fn any_kind(db: DatabaseView, name: Seq<char>) -> TensorKind {
    match db.entry(name) {
        Some(e) => e.kind,
        None => TensorKind::Normal,
    }
}

/// The kind of a stack of named tensors: strict as soon as one is.
pub open spec fn stacked_kind(db: DatabaseView, names: Seq<&str>) -> TensorKind {
    if exists|j: int| 0 <= j < names.len() && (#[trigger] any_kind(db, names[j]@))
        == TensorKind::Strict {
        TensorKind::Strict
    } else {
        TensorKind::Normal
    }
}

impl DatabaseInstance {
    /// Stacks named tensors of one shape along a new leading axis and
    /// binds the result to a name. The result is strict as soon as one
    /// input is. Fails when an input is not there and when the tensors
    /// cannot be stacked.
    pub fn eval_stack(&mut self, output_name: &str, input_names: Vec<&str>, axis: usize) -> (r:
        Result<(), EngineError>)
        ensures
            final(self).datasets() == old(self).datasets(),
            (exists|i: int|
                0 <= i < input_names@.len() && old(self)@.tensor(#[trigger] input_names@[i]@)
                    is None) ==> r is Err && final(self)@ == old(self)@,
            (forall|i: int|
                0 <= i < input_names@.len() ==> old(self)@.tensor(#[trigger] input_names@[i]@)
                    is Some) ==> evaluated(
                old(self)@,
                final(self)@,
                true,
                output_name@,
                stack_result(
                    Seq::new(
                        input_names@.len(),
                        |i: int| old(self)@.tensor(input_names@[i]@).unwrap(),
                    ),
                    axis,
                    TensorId(old(self)@.next_id),
                ),
                stacked_kind(old(self)@, input_names@),
                r is Ok,
            ),
    {
        let mut tensors: Vec<Tensor> = Vec::with_capacity(input_names.len());
        let mut kind = TensorKind::Normal;
        let mut i: usize = 0;
        while i < input_names.len()
            invariant
                *self == *old(self),
                i <= input_names@.len(),
                tensors@.len() == i,
                forall|j: int|
                    0 <= j < i ==> Some((#[trigger] tensors@[j])@) == self@.tensor(
                        input_names@[j]@,
                    ),
                forall|j: int|
                    0 <= j < i ==> self@.tensor(#[trigger] input_names@[j]@) is Some,
                kind == TensorKind::Strict <==> exists|j: int|
                    0 <= j < i && (#[trigger] any_kind(self@, input_names@[j]@))
                        == TensorKind::Strict,
            decreases input_names@.len() - i,
        {
            match self.fetch(input_names[i]) {
                Ok((t, k)) => {
                    proof {
                        assert(k == any_kind(self@, input_names@[i as int]@));
                    }
                    if k == TensorKind::Strict {
                        kind = TensorKind::Strict;
                    }
                    tensors.push(t);
                },
                Err(e) => {
                    return Err(e);
                },
            }
            i += 1;
        }
        let mut refs: Vec<&Tensor> = Vec::with_capacity(tensors.len());
        let mut j: usize = 0;
        while j < tensors.len()
            invariant
                j <= tensors@.len(),
                refs@.len() == j,
                forall|x: int| 0 <= x < j ==> *(#[trigger] refs@[x]) == tensors@[x],
            decreases tensors@.len() - j,
        {
            refs.push(&tensors[j]);
            j += 1;
        }
        proof {
            assert(ref_views(refs@) =~= Seq::new(
                input_names@.len(),
                |i: int| old(self)@.tensor(input_names@[i]@).unwrap(),
            ));
            assert(kind == stacked_kind(old(self)@, input_names@));
        }
        let new_id = self.store.gen_id_internal();
        match kernels::stack(refs.as_slice(), axis, new_id) {
            Ok(result) => {
                self.bind(output_name, result, kind);
                Ok(())
            },
            Err(text) => Err(EngineError::InvalidOp(text)),
        }
    }

    /// Makes an empty dataset of the given schema under the next
    /// identifier and stores it under the name. The identifier is used up
    /// even when the name is taken, which is the one way to fail.
    pub fn create_dataset(&mut self, name: String, schema: Arc<Schema>) -> (r: Result<
        DatasetId,
        EngineError,
    >)
        ensures
            final(self)@ == old(self)@,
            dataset_created(old(self), final(self), name@, r is Ok),
            final(self).datasets().next_id() == old(self).datasets().next_id().wrapping_add(1),
            r is Ok <==> name_position(old(self).datasets().names(), name@) is None,
            r matches Ok(id) ==> id == DatasetId(old(self).datasets().next_id()) && final(self).datasets().names() == old(self).datasets().names().push(name@) && final(self).datasets().named_ids() == old(self).datasets().named_ids().push(id) && (final(self).datasets().by_id(id) matches Some(made) && made@ == (DatasetView {
                id,
                schema: schema@,
                rows: Seq::empty(),
                name: Some(name@),
                lazy_names: Seq::empty(),
                lazy_exprs: Seq::empty(),
                index_names: Seq::empty(),
                indices: Seq::empty(),
            })) && forall|other: DatasetId|
                other != id ==> (#[trigger] final(self).datasets().by_id(other)) == old(self).datasets().by_id(other),
            r matches Err(e) ==> (e matches EngineError::DatasetError(inner) && inner
                is NameAlreadyExists) && final(self).datasets().ids() == old(self).datasets().ids()
                && final(self).datasets().items() == old(self).datasets().items() && final(self).datasets().names() == old(self).datasets().names() && final(self).datasets().named_ids() == old(self).datasets().named_ids(),
    {
        let id = self.dataset_store.gen_id();
        let dataset = Dataset::new(id, schema, Some(name.clone()));
        match self.dataset_store.insert(dataset, Some(name)) {
            Ok(id) => Ok(id),
            Err(e) => Err(EngineError::DatasetError(e)),
        }
    }

    /// Makes a dataset of the given rows under the next identifier and
    /// stores it under the name. The identifier is used up in any case.
    /// Fails, storing nothing, when a row is bound to another schema and
    /// when the name is taken.
    pub fn create_dataset_from_rows(
        &mut self,
        name: String,
        schema: Arc<Schema>,
        rows: Vec<Tuple>,
    ) -> (r: Result<DatasetId, EngineError>)
        ensures
            final(self)@ == old(self)@,
            final(self).datasets().next_id() == old(self).datasets().next_id().wrapping_add(1),
            r is Ok <==> name_position(old(self).datasets().names(), name@) is None && forall|
                i: int,
            | 0 <= i < rows@.len() ==> (#[trigger] rows@[i])@.schema == schema@,
            r matches Ok(id) ==> id == DatasetId(old(self).datasets().next_id()) && final(self).datasets().names() == old(self).datasets().names().push(name@) && final(self).datasets().named_ids() == old(self).datasets().named_ids().push(id) && (final(self).datasets().by_id(id) matches Some(made) && made@ == (DatasetView {
                id,
                schema: schema@,
                rows: crate::stats::rows_view(rows@),
                name: Some(name@),
                lazy_names: Seq::empty(),
                lazy_exprs: Seq::empty(),
                index_names: Seq::empty(),
                indices: Seq::empty(),
            })) && forall|other: DatasetId|
                other != id ==> (#[trigger] final(self).datasets().by_id(other)) == old(self).datasets().by_id(other),
            r is Err ==> final(self).datasets().ids() == old(self).datasets().ids() && final(self).datasets().items() == old(self).datasets().items() && final(self).datasets().names()
                == old(self).datasets().names() && final(self).datasets().named_ids() == old(self).datasets().named_ids(),
    {
        let id = self.dataset_store.gen_id();
        let dataset = match Dataset::from_rows(id, schema, rows, Some(name.clone()), true) {
            Ok(dataset) => dataset,
            Err(text) => {
                return Err(EngineError::InvalidOp(text));
            },
        };
        match self.dataset_store.insert(dataset, Some(name)) {
            Ok(id) => Ok(id),
            Err(e) => Err(EngineError::DatasetError(e)),
        }
    }

    /// The dataset a name stands for.
    pub fn get_dataset(&self, name: &str) -> (r: Result<&Dataset, EngineError>)
        ensures
            match self.datasets().by_name(name@) {
                Some(d) => r matches Ok(found) && *found == d,
                None => r matches Err(EngineError::DatasetNotFound(n)) && n@ == name@,
            },
    {
        match self.dataset_store.get_by_name(name) {
            Ok(d) => Ok(d),
            Err(_) => Err(EngineError::DatasetNotFound(name.to_owned())),
        }
    }

    /// The dataset a name stands for, for changing it in place.
    pub fn get_dataset_mut(&mut self, name: &str) -> (r: Result<&mut Dataset, EngineError>)
        ensures
            old(self).datasets().wf(),
            final(self)@ == old(self)@,
            match old(self).datasets().by_name(name@) {
                Some(d) => r matches Ok(found) && *found == d && dataset_replaced(
                    &old(self).datasets(),
                    &final(self).datasets(),
                    name@,
                    *final(found),
                ),
                None => (r matches Err(EngineError::DatasetNotFound(n)) && n@ == name@)
                    && same_store(&old(self).datasets(), &final(self).datasets()),
            },
    {
        match self.dataset_store.get_mut_by_name(name) {
            Ok(d) => Ok(d),
            Err(_) => Err(EngineError::DatasetNotFound(name.to_owned())),
        }
    }

    /// Appends a row to a named dataset: see [`Dataset::add_row`].
    pub fn insert_row(&mut self, dataset_name: &str, tuple: Tuple) -> (r: Result<(), EngineError>)
        ensures
            final(self)@ == old(self)@,
            match old(self).datasets().by_name(dataset_name@) {
                Some(d) => (final(self).datasets().by_name(dataset_name@) matches Some(changed)
                    && dataset_replaced(
                    &old(self).datasets(),
                    &final(self).datasets(),
                    dataset_name@,
                    changed,
                ) && row_appended(d@, changed@, tuple@, r is Ok)),
                None => (r matches Err(EngineError::DatasetNotFound(n)) && n@ == dataset_name@)
                    && same_store(&old(self).datasets(), &final(self).datasets()),
            },
    {
        proof {
            lemma_store_lookup(&self.datasets(), dataset_name@);
        }
        let dataset = match self.get_dataset_mut(dataset_name) {
            Ok(d) => d,
            Err(e) => {
                return Err(e);
            },
        };
        match dataset.add_row(tuple) {
            Ok(()) => Ok(()),
            Err(text) => Err(EngineError::InvalidOp(text)),
        }
    }

    /// The names of the datasets, in the order of creation.
    pub fn list_dataset_names(&self) -> (r: Vec<String>)
        ensures
            r@.map_values(|n: String| n@) == self.datasets().names(),
    {
        self.dataset_store.list_names()
    }

    /// Adds a column with a default value to a named dataset: see
    /// [`Dataset::add_column`].
    pub fn alter_dataset_add_column(
        &mut self,
        dataset_name: &str,
        column_name: String,
        value_type: ValueType,
        default_value: Value,
        nullable: bool,
    ) -> (r: Result<(), EngineError>)
        ensures
            final(self)@ == old(self)@,
            match old(self).datasets().by_name(dataset_name@) {
                Some(d) => (final(self).datasets().by_name(dataset_name@) matches Some(changed)
                    && dataset_replaced(
                    &old(self).datasets(),
                    &final(self).datasets(),
                    dataset_name@,
                    changed,
                ) && column_added(
                    d@,
                    changed@,
                    column_name@,
                    value_type,
                    default_value@,
                    nullable,
                    r is Ok,
                )),
                None => (r matches Err(EngineError::DatasetNotFound(n)) && n@ == dataset_name@)
                    && same_store(&old(self).datasets(), &final(self).datasets()),
            },
    {
        proof {
            lemma_store_lookup(&self.datasets(), dataset_name@);
        }
        let dataset = match self.get_dataset_mut(dataset_name) {
            Ok(d) => d,
            Err(e) => {
                return Err(e);
            },
        };
        match dataset.add_column(column_name, value_type, default_value, nullable) {
            Ok(()) => Ok(()),
            Err(text) => Err(EngineError::InvalidOp(text)),
        }
    }

    /// Adds a computed column to a named dataset: see
    /// [`Dataset::add_computed_column`].
    pub fn alter_dataset_add_computed_column(
        &mut self,
        dataset_name: &str,
        column_name: String,
        value_type: ValueType,
        computed_values: Vec<Value>,
        expression: Expr,
        lazy: bool,
    ) -> (r: Result<(), EngineError>)
        ensures
            final(self)@ == old(self)@,
            match old(self).datasets().by_name(dataset_name@) {
                Some(d) => (final(self).datasets().by_name(dataset_name@) matches Some(changed)
                    && dataset_replaced(
                    &old(self).datasets(),
                    &final(self).datasets(),
                    dataset_name@,
                    changed,
                ) && computed_column_added(
                    d@,
                    changed@,
                    column_name@,
                    value_type,
                    views_of(computed_values@),
                    expression@,
                    lazy,
                    r is Ok,
                )),
                None => (r matches Err(EngineError::DatasetNotFound(n)) && n@ == dataset_name@)
                    && same_store(&old(self).datasets(), &final(self).datasets()),
            },
    {
        proof {
            lemma_store_lookup(&self.datasets(), dataset_name@);
        }
        let dataset = match self.get_dataset_mut(dataset_name) {
            Ok(d) => d,
            Err(e) => {
                return Err(e);
            },
        };
        match dataset.add_computed_column(
            column_name,
            value_type,
            computed_values,
            expression,
            lazy,
        ) {
            Ok(()) => Ok(()),
            Err(text) => Err(EngineError::InvalidOp(text)),
        }
    }

    /// Materializes the lazy columns of a named dataset: see
    /// [`Dataset::materialize_lazy_columns`].
    pub fn materialize_lazy_columns(&mut self, dataset_name: &str) -> (r: Result<(), EngineError>)
        ensures
            final(self)@ == old(self)@,
            match old(self).datasets().by_name(dataset_name@) {
                Some(d) => (final(self).datasets().by_name(dataset_name@) matches Some(changed)
                    && dataset_replaced(
                    &old(self).datasets(),
                    &final(self).datasets(),
                    dataset_name@,
                    changed,
                ) && materialized(d@, changed@, r is Ok)),
                None => (r matches Err(EngineError::DatasetNotFound(n)) && n@ == dataset_name@)
                    && same_store(&old(self).datasets(), &final(self).datasets()),
            },
    {
        proof {
            lemma_store_lookup(&self.datasets(), dataset_name@);
        }
        let dataset = match self.get_dataset_mut(dataset_name) {
            Ok(d) => d,
            Err(e) => {
                return Err(e);
            },
        };
        match dataset.materialize_lazy_columns() {
            Ok(()) => Ok(()),
            Err(text) => Err(EngineError::InvalidOp(text)),
        }
    }

    /// Puts rows in the place of the rows of a named dataset: see
    /// [`Dataset::replace_rows`].
    pub fn replace_dataset_rows(&mut self, dataset_name: &str, rows: Vec<Tuple>) -> (r: Result<
        (),
        EngineError,
    >)
        ensures
            final(self)@ == old(self)@,
            match old(self).datasets().by_name(dataset_name@) {
                Some(d) => (final(self).datasets().by_name(dataset_name@) matches Some(changed)
                    && dataset_replaced(
                    &old(self).datasets(),
                    &final(self).datasets(),
                    dataset_name@,
                    changed,
                ) && rows_replaced(d@, changed@, crate::stats::rows_view(rows@), r is Ok)),
                None => (r matches Err(EngineError::DatasetNotFound(n)) && n@ == dataset_name@)
                    && same_store(&old(self).datasets(), &final(self).datasets()),
            },
    {
        proof {
            lemma_store_lookup(&self.datasets(), dataset_name@);
        }
        let dataset = match self.get_dataset_mut(dataset_name) {
            Ok(d) => d,
            Err(e) => {
                return Err(e);
            },
        };
        match dataset.replace_rows(rows) {
            Ok(()) => Ok(()),
            Err(text) => Err(EngineError::InvalidOp(text)),
        }
    }

    /// Gives a column of a named dataset an index of the kind of the
    /// given one.
    fn index_column(&mut self, dataset_name: &str, column_name: &str, like: Index) -> (r: Result<
        (),
        EngineError,
    >)
        ensures
            final(self)@ == old(self)@,
            match old(self).datasets().by_name(dataset_name@) {
                Some(d) => (final(self).datasets().by_name(dataset_name@) matches Some(changed)
                    && dataset_replaced(
                    &old(self).datasets(),
                    &final(self).datasets(),
                    dataset_name@,
                    changed,
                ) && index_created(d@, changed@, column_name@, like, r is Ok)),
                None => (r matches Err(EngineError::DatasetNotFound(n)) && n@ == dataset_name@)
                    && same_store(&old(self).datasets(), &final(self).datasets()),
            },
    {
        proof {
            lemma_store_lookup(&self.datasets(), dataset_name@);
        }
        let dataset = match self.get_dataset_mut(dataset_name) {
            Ok(d) => d,
            Err(e) => {
                return Err(e);
            },
        };
        match dataset.create_index(column_name.to_owned(), like) {
            Ok(()) => Ok(()),
            Err(text) => Err(EngineError::InvalidOp(text)),
        }
    }

    /// Gives a column of a named dataset a hash index: see
    /// [`Dataset::create_index`].
    pub fn create_index(&mut self, dataset_name: &str, column_name: &str) -> (r: Result<
        (),
        EngineError,
    >)
        ensures
            final(self)@ == old(self)@,
            match old(self).datasets().by_name(dataset_name@) {
                Some(d) => (final(self).datasets().by_name(dataset_name@) matches Some(changed)
                    && dataset_replaced(
                    &old(self).datasets(),
                    &final(self).datasets(),
                    dataset_name@,
                    changed,
                ) && exists|like: Index|
                    like is Hash && #[trigger] index_created(
                        d@,
                        changed@,
                        column_name@,
                        like,
                        r is Ok,
                    )),
                None => (r matches Err(EngineError::DatasetNotFound(n)) && n@ == dataset_name@)
                    && same_store(&old(self).datasets(), &final(self).datasets()),
            },
    {
        let like = Index::Hash(HashIndex::new());
        self.index_column(dataset_name, column_name, like)
    }

    /// Gives a column of a named dataset a vector index: see
    /// [`Dataset::create_index`].
    pub fn create_vector_index(&mut self, dataset_name: &str, column_name: &str) -> (r: Result<
        (),
        EngineError,
    >)
        ensures
            final(self)@ == old(self)@,
            match old(self).datasets().by_name(dataset_name@) {
                Some(d) => (final(self).datasets().by_name(dataset_name@) matches Some(changed)
                    && dataset_replaced(
                    &old(self).datasets(),
                    &final(self).datasets(),
                    dataset_name@,
                    changed,
                ) && exists|like: Index|
                    like is Vector && #[trigger] index_created(
                        d@,
                        changed@,
                        column_name@,
                        like,
                        r is Ok,
                    )),
                None => (r matches Err(EngineError::DatasetNotFound(n)) && n@ == dataset_name@)
                    && same_store(&old(self).datasets(), &final(self).datasets()),
            },
    {
        let like = Index::Vector(VectorIndex::new());
        self.index_column(dataset_name, column_name, like)
    }

    /// Puts a free-form entry into the metadata of a named dataset.
    pub fn set_dataset_metadata(&mut self, name: &str, key: String, value: String) -> (r: Result<
        (),
        EngineError,
    >)
        ensures
            final(self)@ == old(self)@,
            match old(self).datasets().by_name(name@) {
                Some(d) => r is Ok && (final(self).datasets().by_name(name@) matches Some(changed)
                    && dataset_replaced(
                    &old(self).datasets(),
                    &final(self).datasets(),
                    name@,
                    changed,
                ) && changed@ == d@ && crate::dataset::entry_set(
                    &d.extras(),
                    &changed.extras(),
                    key@,
                    value@,
                )),
                None => (r matches Err(EngineError::NameNotFound(n)) && n@ == name@)
                    && same_store(&old(self).datasets(), &final(self).datasets()),
            },
    {
        proof {
            lemma_store_lookup(&self.datasets(), name@);
        }
        match self.dataset_store.get_mut_by_name(name) {
            Ok(dataset) => {
                dataset.set_extra(key, value);
                Ok(())
            },
            Err(_) => Err(EngineError::NameNotFound(name.to_owned())),
        }
    }

    /// Every index of every named dataset, as the name of the dataset, the
    /// name of the column and `HASH` or `VECTOR`: see [`listed_indices`].
    pub fn list_indices(&self) -> (r: Vec<(String, String, String)>)
        ensures
            entry_views(r@) == listed_indices(
                &self.datasets(),
                self.datasets().names().len() as int,
            ),
    {
        let mut out: Vec<(String, String, String)> = Vec::new();
        let names = self.dataset_store.list_names();
        let ghost store = self.datasets();
        let mut i: usize = 0;
        proof {
            assert(entry_views(out@) =~= Seq::empty());
        }
        while i < names.len()
            invariant
                i <= names@.len(),
                store == self.datasets(),
                names@.map_values(|n: String| n@) == store.names(),
                entry_views(out@) == listed_indices(&store, i as int),
            decreases names@.len() - i,
        {
            let ghost name = store.names()[i as int];
            proof {
                assert(name == names@[i as int]@);
            }
            match self.get_dataset(names[i].as_str()) {
                Ok(dataset) => {
                    let columns = dataset.index_columns();
                    let ghost before = entry_views(out@);
                    let mut k: usize = 0;
                    proof {
                        assert(before + index_entries(name, dataset@, 0) =~= before);
                    }
                    while k < columns.len()
                        invariant
                            i < names@.len(),
                            name == names@[i as int]@,
                            k <= columns@.len(),
                            columns@.map_values(|n: String| n@) == dataset@.index_names,
                            entry_views(out@) == before + index_entries(name, dataset@, k as int),
                        decreases columns@.len() - k,
                    {
                        let ghost so_far = entry_views(out@);
                        proof {
                            assert(dataset@.index_names[k as int] == columns@[k as int]@);
                        }
                        match dataset.get_index(columns[k].as_str()) {
                            Some(index) => {
                                proof {
                                    reveal_strlit("HASH");
                                    reveal_strlit("VECTOR");
                                }
                                let kind = match index.index_type() {
                                    IndexType::Hash => "HASH".to_owned(),
                                    IndexType::Vector => "VECTOR".to_owned(),
                                };
                                let entry = (names[i].clone(), columns[k].clone(), kind);
                                let ghost added = entry_view(entry);
                                out.push(entry);
                                proof {
                                    assert(entry_views(out@) =~= so_far.push(added));
                                    assert(before + index_entries(name, dataset@, k + 1) =~= (
                                    before + index_entries(name, dataset@, k as int)).push(added));
                                }
                            },
                            None => {},
                        }
                        k += 1;
                    }
                },
                Err(_) => {},
            }
            i += 1;
        }
        out
    }

    /// Takes the value of a field of the first row of a named dataset and
    /// binds it, as a normal scalar tensor, to a name. Fails when the
    /// dataset is not there or has no row, when the row has no such field,
    /// and when the value cannot be put into a tensor.
    pub fn eval_field_access(&mut self, output_name: &str, tuple_name: &str, field_name: &str) -> (r:
        Result<(), EngineError>)
        ensures
            final(self).datasets() == old(self).datasets(),
            match old(self).datasets().by_name(tuple_name@) {
                Some(d) => if d@.rows.len() > 0 && d@.rows[0].get(field_name@) is Some {
                    evaluated(
                        old(self)@,
                        final(self)@,
                        true,
                        output_name@,
                        match as_number(d@.rows[0].get(field_name@).unwrap()) {
                            Some(number) => Some(
                                scalar_view(number, TensorId(old(self)@.next_id)),
                            ),
                            None => None,
                        },
                        TensorKind::Normal,
                        r is Ok,
                    )
                } else {
                    r is Err && final(self)@ == old(self)@
                },
                None => (r matches Err(EngineError::DatasetNotFound(n)) && n@ == tuple_name@)
                    && final(self)@ == old(self)@,
            },
    {
        let dataset = match self.get_dataset(tuple_name) {
            Ok(d) => d,
            Err(e) => {
                return Err(e);
            },
        };
        let rows = dataset.rows();
        if rows.len() == 0 {
            return Err(EngineError::InvalidOp("Cannot access field of empty dataset".to_owned()));
        }
        proof {
            assert(dataset@.rows[0] == rows@[0]@);
        }
        let number = match rows[0].get(field_name) {
            Some(value) => number_of(value),
            None => {
                return Err(EngineError::InvalidOp("Field not found".to_owned()));
            },
        };
        let new_id = self.store.gen_id_internal();
        match number {
            Some(bits) => {
                self.bind(output_name, kernels::scalar_tensor(bits, new_id), TensorKind::Normal);
                Ok(())
            },
            None => Err(EngineError::InvalidOp("Cannot convert field to tensor".to_owned())),
        }
    }

    /// Takes a column of a named dataset and binds it, as a normal vector
    /// tensor, to a name. Fails when the dataset is not there, when the
    /// column cannot be read, and when a value cannot be put into a
    /// tensor.
    pub fn eval_column_access(
        &mut self,
        output_name: &str,
        dataset_name: &str,
        column_name: &str,
    ) -> (r: Result<(), EngineError>)
        ensures
            final(self).datasets() == old(self).datasets(),
            match old(self).datasets().by_name(dataset_name@) {
                Some(d) => match d@.column_values(column_name@) {
                    Some(values) => if all_numbers(values) {
                        r is Ok && final(self)@ == old(self)@.advanced().bound(
                            output_name@,
                            TensorView {
                                id: TensorId(old(self)@.next_id),
                                dims: seq![values.len() as usize],
                                data: numbers_of(values),
                            },
                            TensorKind::Normal,
                        )
                    } else {
                        r is Err && final(self)@ == old(self)@
                    },
                    None => r is Err && final(self)@ == old(self)@,
                },
                None => (r matches Err(EngineError::DatasetNotFound(n)) && n@ == dataset_name@)
                    && final(self)@ == old(self)@,
            },
    {
        let dataset = match self.get_dataset(dataset_name) {
            Ok(d) => d,
            Err(e) => {
                return Err(e);
            },
        };
        let values = match dataset.get_column(column_name) {
            Ok(values) => values,
            Err(text) => {
                return Err(EngineError::InvalidOp(text));
            },
        };
        let mut data: Vec<u32> = Vec::with_capacity(values.len());
        let mut i: usize = 0;
        while i < values.len()
            invariant
                *self == *old(self),
                self.datasets().by_name(dataset_name@) == Some(*dataset),
                Some(views_of(values@)) == dataset@.column_values(column_name@),
                i <= values@.len(),
                data@.len() == i,
                forall|j: int|
                    0 <= j < i ==> as_number(#[trigger] views_of(values@)[j]) == Some(data@[j]),
            decreases values@.len() - i,
        {
            match number_of(&values[i]) {
                Some(bits) => data.push(bits),
                None => {
                    proof {
                        assert(as_number(views_of(values@)[i as int]) is None);
                    }
                    return Err(
                        EngineError::InvalidOp("Cannot convert value to tensor".to_owned()),
                    );
                },
            }
            i += 1;
        }
        let new_id = self.store.gen_id_internal();
        let mut dims: Vec<usize> = Vec::new();
        dims.push(values.len());
        proof {
            crate::tensor::lemma_product_small(dims@);
            assert(dims@ =~= seq![values@.len() as usize]);
            assert(data@ =~= numbers_of(views_of(values@)));
            assert(all_numbers(views_of(values@)));
        }
        match Tensor::new(new_id, Shape::new(dims), data) {
            Ok(tensor) => {
                self.bind(output_name, tensor, TensorKind::Normal);
                Ok(())
            },
            Err(text) => Err(EngineError::InvalidOp(text)),
        }
    }
}

/// The engine: databases by name, one of which is active. The database
/// `default` is always there.
#[derive(Debug)]
pub struct TensorDb {
    databases: NameMap<DatabaseInstance>,
    active_db: String,
}

impl TensorDb {
    #[verifier::type_invariant]
    spec fn inv(&self) -> bool {
        &&& self.databases.wf()
        &&& self.databases.has("default"@)
        &&& self.databases.has(self.active_db@)
    }

    /// The names of the databases, in the order of creation.
    pub closed spec fn names(&self) -> Seq<Seq<char>> {
        self.databases.names_view()
    }

    /// The databases, each at the position of its name.
    pub closed spec fn instances(&self) -> Seq<DatabaseInstance> {
        self.databases.items_view()
    }

    /// The name of the active database.
    pub closed spec fn active_name(&self) -> Seq<char> {
        self.active_db@
    }

    /// What holds of every engine: there is one database per name, no name
    /// occurs twice, and the database `default` and the active database
    /// are there.
    pub open spec fn wf(&self) -> bool {
        &&& self.names().len() == self.instances().len()
        &&& crate::names::distinct(self.names())
        &&& name_position(self.names(), "default"@) is Some
        &&& name_position(self.names(), self.active_name()) is Some
    }

    /// The database of a name, if there is one.
    pub open spec fn database(&self, name: Seq<char>) -> Option<DatabaseInstance> {
        match name_position(self.names(), name) {
            Some(k) => Some(self.instances()[k]),
            None => None,
        }
    }

    /// The active database.
    pub open spec fn active(&self) -> DatabaseInstance {
        self.instances()[name_position(self.names(), self.active_name()).unwrap()]
    }

    /// Whether another engine has the same databases under the same names
    /// and the same active database, but for what the active database
    /// holds.
    pub open spec fn others_kept(&self, after: &TensorDb) -> bool {
        &&& after.names() == self.names()
        &&& after.active_name() == self.active_name()
        &&& after.instances() == self.instances().update(
            name_position(self.names(), self.active_name()).unwrap(),
            after.active(),
        )
        &&& after.wf()
    }

    /// An engine with the one database `default`, which is active.
    pub fn new() -> (r: Self)
        ensures
            r.wf(),
            r.names() == seq!["default"@],
            r.active_name() == "default"@,
            r.active()@ == (DatabaseView {
                name: "default"@,
                next_id: 0,
                tensors: Seq::empty(),
                tensor_names: Seq::empty(),
                entries: Seq::empty(),
            }),
            r.active().datasets().names().len() == 0,
    {
        let mut databases: NameMap<DatabaseInstance> = NameMap::new();
        databases.insert("default".to_owned(), DatabaseInstance::new("default".to_owned()));
        proof {
            assert(databases.names_view() =~= seq!["default"@]);
            lemma_name_position(databases.names_view(), "default"@);
            assert(databases.names_view().drop_last() =~= Seq::<Seq<char>>::empty());
        }
        TensorDb { databases, active_db: "default".to_owned() }
    }

    /// The active database.
    pub fn active_instance(&self) -> (r: &DatabaseInstance)
        ensures
            *r == self.active(),
            self.wf(),
    {
        proof {
            use_type_invariant(self);
            lemma_name_position(self.databases.names_view(), self.active_db@);
        }
        match self.databases.position(self.active_db.as_str()) {
            Some(k) => self.databases.item_at(k),
            None => vstd::pervasive::unreached(),
        }
    }

    /// The active database, for changing it in place.
    pub fn active_instance_mut(&mut self) -> (r: &mut DatabaseInstance)
        ensures
            *r == old(self).active(),
            old(self).wf(),
            final(self).names() == old(self).names(),
            final(self).active_name() == old(self).active_name(),
            final(self).instances() == old(self).instances().update(
                name_position(old(self).names(), old(self).active_name()).unwrap(),
                *final(r),
            ),
            final(self).active() == *final(r),
            old(self).others_kept(final(self)),
    {
        proof {
            use_type_invariant(&*self);
            lemma_name_position(self.databases.names_view(), self.active_db@);
        }
        match self.databases.position(self.active_db.as_str()) {
            Some(k) => self.databases.item_at_mut(k),
            None => vstd::pervasive::unreached(),
        }
    }

    /// Makes an empty database under a new name. Fails, leaving the engine
    /// as it was, when the name is taken.
    pub fn create_database(&mut self, name: String) -> (r: Result<(), EngineError>)
        ensures
            crate::engine::effects::create_database_effect(
                &*old(self),
                &*final(self),
                name@,
                r,
            ),
    {
        proof {
            use_type_invariant(&*self);
        }
        if self.databases.contains(name.as_str()) {
            let mut text = "Database '".to_owned();
            text.append(name.as_str());
            text.append("' already exists");
            return Err(EngineError::InvalidOp(text));
        }
        let ghost old_names = self.databases.names_view();
        let ghost old_items = self.databases.items_view();
        let ghost active = self.active_db@;
        let instance = DatabaseInstance::new(name.clone());
        let mut taken = TensorDb::new();
        core::mem::swap(self, &mut taken);
        let TensorDb { databases: mut databases, active_db } = taken;
        databases.insert(name, instance);
        proof {
            assert(databases.names_view().drop_last() =~= old_names);
            assert(databases.items_view().drop_last() =~= old_items);
            lemma_name_position(old_names, "default"@);
            lemma_name_position(old_names, active);
            crate::dataset::lemma_names_after_insert(old_names, name@, "default"@);
            crate::dataset::lemma_names_after_insert(old_names, name@, active);
        }
        *self = TensorDb { databases, active_db };
        Ok(())
    }

    /// Makes an empty database for every name of a list that no database
    /// bears yet, in the order of the list: the databases found in a
    /// storage directory when the engine starts. The databases that are
    /// there stay as they are, and so does the active one.
    pub fn register_databases(&mut self, found: &Vec<String>)
        ensures
            final(self).wf(),
            final(self).active_name() == old(self).active_name(),
            final(self).names() == registered(
                old(self).names(),
                name_views(found@),
                found@.len() as int,
            ),
            final(self).instances().len() == final(self).names().len(),
            final(self).instances().take(old(self).instances().len() as int) == old(
                self,
            ).instances(),
            forall|k: int|
                old(self).instances().len() <= k < final(self).instances().len() ==> is_empty_database(
                    #[trigger] final(self).instances()[k],
                    final(self).names()[k],
                ),
    {
        proof {
            use_type_invariant(&*self);
            assert(self.instances().take(self.instances().len() as int) =~= self.instances());
        }
        let mut k: usize = 0;
        while k < found.len()
            invariant
                k <= found@.len(),
                self.wf(),
                self.active_name() == old(self).active_name(),
                self.names() == registered(old(self).names(), name_views(found@), k as int),
                self.instances().len() == self.names().len(),
                old(self).instances().len() <= self.instances().len(),
                self.instances().take(old(self).instances().len() as int) == old(self).instances(),
                forall|j: int|
                    old(self).instances().len() <= j < self.instances().len() ==> is_empty_database(
                        #[trigger] self.instances()[j],
                        self.names()[j],
                    ),
            decreases found@.len() - k,
        {
            let ghost before = *self;
            proof {
                assert(name_views(found@)[k as int] == found@[k as int]@);
            }
            let outcome = self.create_database(found[k].clone());
            proof {
                if outcome is Ok {
                    assert(self.instances().drop_last() == before.instances());
                    assert(self.instances().take(old(self).instances().len() as int)
                        =~= before.instances().take(old(self).instances().len() as int));
                    assert forall|j: int|
                        old(self).instances().len() <= j < self.instances().len() implies is_empty_database(
                        #[trigger] self.instances()[j],
                        self.names()[j],
                    ) by {
                        if j < before.instances().len() {
                            assert(self.instances()[j] == before.instances()[j]);
                            assert(self.names()[j] == before.names()[j]);
                        }
                    }
                }
            }
            k += 1;
        }
    }

    /// Makes a database the active one. Fails, leaving the engine as it
    /// was, when there is no database of that name.
    pub fn use_database(&mut self, name: &str) -> (r: Result<(), EngineError>)
        ensures
            crate::engine::effects::use_database_effect(
                &*old(self),
                &*final(self),
                name@,
                r,
            ),
    {
        proof {
            use_type_invariant(&*self);
        }
        if !self.databases.contains(name) {
            let mut text = "Database '".to_owned();
            text.append(name);
            text.append("' not found");
            return Err(EngineError::InvalidOp(text));
        }
        self.active_db = name.to_owned();
        Ok(())
    }

    /// Drops a database. The database `default` cannot be dropped; when
    /// the active database is dropped, `default` becomes the active one.
    /// Fails, leaving the engine as it was, on `default` and when there is
    /// no database of that name.
    pub fn drop_database(&mut self, name: &str) -> (r: Result<(), EngineError>)
        ensures
            crate::engine::effects::drop_database_effect(
                &*old(self),
                &*final(self),
                name@,
                r,
            ),
    {
        proof {
            use_type_invariant(&*self);
        }
        if same_text(name, "default") {
            return Err(EngineError::InvalidOp("Cannot drop the 'default' database".to_owned()));
        }
        if !self.databases.contains(name) {
            let mut text = "Database '".to_owned();
            text.append(name);
            text.append("' not found");
            return Err(EngineError::InvalidOp(text));
        }
        let ghost old_names = self.databases.names_view();
        let ghost gone = name_position(old_names, name@).unwrap();
        let was_active = same_text(self.active_db.as_str(), name);
        let mut taken = TensorDb::new();
        core::mem::swap(self, &mut taken);
        let TensorDb { databases: mut databases, active_db } = taken;
        let active = if was_active {
            "default".to_owned()
        } else {
            active_db
        };
        databases.remove(name);
        proof {
            lemma_name_position(old_names, name@);
            lemma_kept_after_remove(old_names, gone, "default"@);
            lemma_kept_after_remove(old_names, gone, active@);
        }
        *self = TensorDb { databases, active_db: active };
        Ok(())
    }

    /// The names of the databases, in the order of creation.
    pub fn list_databases(&self) -> (r: Vec<String>)
        ensures
            r@.map_values(|n: String| n@) == self.names(),
    {
        self.databases.keys()
    }

    /// In the active database: see [`DatabaseInstance::insert_named`].
    pub fn insert_named(&mut self, name: &str, shape: Shape, data: Vec<u32>) -> (r: Result<
        (),
        EngineError,
    >)
        ensures
            old(self).others_kept(final(self)),
            final(self).active().datasets() == old(self).active().datasets(),
            evaluated(
                old(self).active()@,
                final(self).active()@,
                true,
                name@,
                if data@.len() == product(shape@) {
                    Some(TensorView { id: TensorId(old(self).active()@.next_id), dims: shape@, data: data@ })
                } else {
                    None
                },
                TensorKind::Normal,
                r is Ok,
            ),
    {
        self.active_instance_mut().insert_named(name, shape, data)
    }

    /// In the active database: see [`DatabaseInstance::insert_named_with_kind`].
    pub fn insert_named_with_kind(
        &mut self,
        name: &str,
        shape: Shape,
        data: Vec<u32>,
        kind: TensorKind,
    ) -> (r: Result<(), EngineError>)
        ensures
            crate::engine::effects::insert_named_with_kind_effect(
                &*old(self),
                &*final(self),
                name@,
                shape@,
                data@,
                kind,
                r,
            ),
    {
        self.active_instance_mut().insert_named_with_kind(name, shape, data, kind)
    }

    /// In the active database: see [`DatabaseInstance::get`].
    pub fn get(&self, name: &str) -> (r: Result<&Tensor, EngineError>)
        ensures
            match self.active()@.entry(name@) {
                Some(e) => match first_with(self.active()@.tensors, e.id) {
                    Some(view) => r matches Ok(t) && t@ == view,
                    None => r matches Err(EngineError::Store(inner)) && inner
                        == StoreError::TensorNotFound(e.id),
                },
                None => r matches Err(EngineError::NameNotFound(n)) && n@ == name@,
            },
    {
        self.active_instance().get(name)
    }

    /// In the active database: see [`DatabaseInstance::get_with_kind`].
    pub fn get_with_kind(&self, name: &str) -> (r: Result<(&Tensor, TensorKind), EngineError>)
        ensures
            match self.active()@.entry(name@) {
                Some(e) => match first_with(self.active()@.tensors, e.id) {
                    Some(view) => r matches Ok((t, kind)) && t@ == view && kind == e.kind,
                    None => r matches Err(EngineError::Store(inner)) && inner
                        == StoreError::TensorNotFound(e.id),
                },
                None => r matches Err(EngineError::NameNotFound(n)) && n@ == name@,
            },
            r is Ok <==> self.active()@.tensor(name@) is Some,
    {
        self.active_instance().get_with_kind(name)
    }

    /// In the active database: see [`DatabaseInstance::eval_unary`].
    pub fn eval_unary(&mut self, output_name: &str, input_name: &str, op: UnaryOp) -> (r: Result<
        (),
        EngineError,
    >)
        ensures
            crate::engine::effects::eval_unary_effect(
                &*old(self),
                &*final(self),
                output_name@,
                input_name@,
                op,
                r,
            ),
    {
        self.active_instance_mut().eval_unary(output_name, input_name, op)
    }

    /// In the active database: see [`DatabaseInstance::eval_binary`].
    pub fn eval_binary(
        &mut self,
        output_name: &str,
        left_name: &str,
        right_name: &str,
        op: BinaryOp,
    ) -> (r: Result<(), EngineError>)
        ensures
            crate::engine::effects::eval_binary_effect(
                &*old(self),
                &*final(self),
                output_name@,
                left_name@,
                right_name@,
                op,
                r,
            ),
    {
        self.active_instance_mut().eval_binary(output_name, left_name, right_name, op)
    }

    /// In the active database: see [`DatabaseInstance::list_names`].
    pub fn list_names(&self) -> (r: Vec<String>)
        ensures
            r@.map_values(|n: String| n@) == self.active()@.tensor_names,
    {
        self.active_instance().list_names()
    }

    /// In the active database: see [`DatabaseInstance::eval_matmul`].
    pub fn eval_matmul(&mut self, output_name: &str, left_name: &str, right_name: &str) -> (r:
        Result<(), EngineError>)
        ensures
            crate::engine::effects::eval_matmul_effect(
                &*old(self),
                &*final(self),
                output_name@,
                left_name@,
                right_name@,
                r,
            ),
    {
        self.active_instance_mut().eval_matmul(output_name, left_name, right_name)
    }

    /// In the active database: see [`DatabaseInstance::eval_reshape`].
    pub fn eval_reshape(&mut self, output_name: &str, input_name: &str, new_shape: Shape) -> (r:
        Result<(), EngineError>)
        ensures
            crate::engine::effects::eval_reshape_effect(
                &*old(self),
                &*final(self),
                output_name@,
                input_name@,
                new_shape@,
                r,
            ),
    {
        self.active_instance_mut().eval_reshape(output_name, input_name, new_shape)
    }

    /// In the active database: see [`DatabaseInstance::eval_index`].
    pub fn eval_index(&mut self, output_name: &str, tensor_name: &str, indices: Vec<usize>) -> (r:
        Result<(), EngineError>)
        ensures
            crate::engine::effects::eval_index_effect(
                &*old(self),
                &*final(self),
                output_name@,
                tensor_name@,
                indices@,
                r,
            ),
    {
        self.active_instance_mut().eval_index(output_name, tensor_name, indices)
    }

    /// In the active database: see [`DatabaseInstance::eval_slice`].
    pub fn eval_slice(&mut self, output_name: &str, tensor_name: &str, specs: Vec<SliceSpec>) -> (r:
        Result<(), EngineError>)
        ensures
            crate::engine::effects::eval_slice_effect(
                &*old(self),
                &*final(self),
                output_name@,
                tensor_name@,
                specs@,
                r,
            ),
    {
        self.active_instance_mut().eval_slice(output_name, tensor_name, specs)
    }

    /// In the active database: see [`DatabaseInstance::eval_stack`].
    pub fn eval_stack(&mut self, output_name: &str, input_names: Vec<&str>, axis: usize) -> (r:
        Result<(), EngineError>)
        ensures
            crate::engine::effects::eval_stack_effect(
                &*old(self),
                &*final(self),
                output_name@,
                input_names@,
                axis,
                r,
            ),
    {
        self.active_instance_mut().eval_stack(output_name, input_names, axis)
    }

    /// In the active database: see [`DatabaseInstance::create_dataset`].
    pub fn create_dataset(&mut self, name: String, schema: Arc<Schema>) -> (r: Result<
        DatasetId,
        EngineError,
    >)
        ensures
            crate::engine::effects::create_dataset_effect(
                &*old(self),
                &*final(self),
                name@,
                schema@,
                r,
            ),
    {
        self.active_instance_mut().create_dataset(name, schema)
    }

    /// In the active database: see [`DatabaseInstance::create_dataset_from_rows`].
    pub fn create_dataset_from_rows(
        &mut self,
        name: String,
        schema: Arc<Schema>,
        rows: Vec<Tuple>,
    ) -> (r: Result<DatasetId, EngineError>)
        ensures
            crate::engine::effects::create_dataset_from_rows_effect(
                &*old(self),
                &*final(self),
                name@,
                schema@,
                crate::stats::rows_view(rows@),
                r,
            ),
    {
        proof {
            let views = crate::stats::rows_view(rows@);
            assert forall|i: int| 0 <= i < rows@.len() implies (#[trigger] views[i])
                == rows@[i]@ by {}
            assert((forall|i: int| 0 <= i < rows@.len() ==> (#[trigger] rows@[i])@.schema
                == schema@) <==> (forall|i: int|
                0 <= i < views.len() ==> (#[trigger] views[i]).schema == schema@)) by {
                if forall|i: int| 0 <= i < rows@.len() ==> (#[trigger] rows@[i])@.schema == schema@ {
                    assert forall|i: int| 0 <= i < views.len() implies (#[trigger] views[i]).schema
                        == schema@ by {
                        assert(rows@[i]@.schema == schema@);
                    }
                }
                if forall|i: int| 0 <= i < views.len() ==> (#[trigger] views[i]).schema == schema@ {
                    assert forall|i: int| 0 <= i < rows@.len() implies (#[trigger] rows@[i])@.schema
                        == schema@ by {
                        assert(views[i].schema == schema@);
                    }
                }
            }
        }
        self.active_instance_mut().create_dataset_from_rows(name, schema, rows)
    }

    /// In the active database: see [`DatabaseInstance::get_dataset`].
    pub fn get_dataset(&self, name: &str) -> (r: Result<&Dataset, EngineError>)
        ensures
            match self.active().datasets().by_name(name@) {
                Some(d) => r matches Ok(found) && *found == d,
                None => r matches Err(EngineError::DatasetNotFound(n)) && n@ == name@,
            },
    {
        self.active_instance().get_dataset(name)
    }

    /// In the active database: see [`DatabaseInstance::get_dataset_mut`].
    pub fn get_dataset_mut(&mut self, name: &str) -> (r: Result<&mut Dataset, EngineError>)
        ensures
            old(self).others_kept(final(self)),
            old(self).active().datasets().wf(),
            final(self).active()@ == old(self).active()@,
            match old(self).active().datasets().by_name(name@) {
                Some(d) => r matches Ok(found) && *found == d && dataset_replaced(
                    &old(self).active().datasets(),
                    &final(self).active().datasets(),
                    name@,
                    *final(found),
                ),
                None => (r matches Err(EngineError::DatasetNotFound(n)) && n@ == name@)
                    && same_store(&old(self).active().datasets(), &final(self).active().datasets()),
            },
    {
        self.active_instance_mut().get_dataset_mut(name)
    }

    /// In the active database: see [`DatabaseInstance::insert_row`].
    pub fn insert_row(&mut self, dataset_name: &str, tuple: Tuple) -> (r: Result<(), EngineError>)
        ensures
            crate::engine::effects::insert_row_effect(
                &*old(self),
                &*final(self),
                dataset_name@,
                tuple@,
                r,
            ),
    {
        self.active_instance_mut().insert_row(dataset_name, tuple)
    }

    /// In the active database: see [`DatabaseInstance::list_dataset_names`].
    pub fn list_dataset_names(&self) -> (r: Vec<String>)
        ensures
            r@.map_values(|n: String| n@) == self.active().datasets().names(),
    {
        self.active_instance().list_dataset_names()
    }

    /// In the active database: see [`DatabaseInstance::alter_dataset_add_column`].
    pub fn alter_dataset_add_column(
        &mut self,
        dataset_name: &str,
        column_name: String,
        value_type: ValueType,
        default_value: Value,
        nullable: bool,
    ) -> (r: Result<(), EngineError>)
        ensures
            crate::engine::effects::alter_dataset_add_column_effect(
                &*old(self),
                &*final(self),
                dataset_name@,
                column_name@,
                value_type,
                default_value@,
                nullable,
                r,
            ),
    {
        self.active_instance_mut().alter_dataset_add_column(dataset_name, column_name, value_type, default_value, nullable)
    }

    /// In the active database: see [`DatabaseInstance::alter_dataset_add_computed_column`].
    pub fn alter_dataset_add_computed_column(
        &mut self,
        dataset_name: &str,
        column_name: String,
        value_type: ValueType,
        computed_values: Vec<Value>,
        expression: Expr,
        lazy: bool,
    ) -> (r: Result<(), EngineError>)
        ensures
            crate::engine::effects::alter_dataset_add_computed_column_effect(
                &*old(self),
                &*final(self),
                dataset_name@,
                column_name@,
                value_type,
                views_of(computed_values@),
                expression@,
                lazy,
                r,
            ),
    {
        self.active_instance_mut().alter_dataset_add_computed_column(dataset_name, column_name, value_type, computed_values, expression, lazy)
    }

    /// In the active database: see [`DatabaseInstance::replace_dataset_rows`].
    pub fn replace_dataset_rows(&mut self, dataset_name: &str, rows: Vec<Tuple>) -> (r: Result<
        (),
        EngineError,
    >)
        ensures
            crate::engine::effects::replace_dataset_rows_effect(
                &*old(self),
                &*final(self),
                dataset_name@,
                crate::stats::rows_view(rows@),
                r,
            ),
    {
        self.active_instance_mut().replace_dataset_rows(dataset_name, rows)
    }

    /// In the active database: see [`DatabaseInstance::materialize_lazy_columns`].
    pub fn materialize_lazy_columns(&mut self, dataset_name: &str) -> (r: Result<(), EngineError>)
        ensures
            crate::engine::effects::materialize_lazy_columns_effect(
                &*old(self),
                &*final(self),
                dataset_name@,
                r,
            ),
    {
        self.active_instance_mut().materialize_lazy_columns(dataset_name)
    }

    /// In the active database: see [`DatabaseInstance::create_index`].
    pub fn create_index(&mut self, dataset_name: &str, column_name: &str) -> (r: Result<
        (),
        EngineError,
    >)
        ensures
            crate::engine::effects::create_index_effect(
                &*old(self),
                &*final(self),
                dataset_name@,
                column_name@,
                r,
            ),
    {
        self.active_instance_mut().create_index(dataset_name, column_name)
    }

    /// In the active database: see [`DatabaseInstance::create_vector_index`].
    pub fn create_vector_index(&mut self, dataset_name: &str, column_name: &str) -> (r: Result<
        (),
        EngineError,
    >)
        ensures
            crate::engine::effects::create_vector_index_effect(
                &*old(self),
                &*final(self),
                dataset_name@,
                column_name@,
                r,
            ),
    {
        self.active_instance_mut().create_vector_index(dataset_name, column_name)
    }

    /// In the active database: see [`DatabaseInstance::set_dataset_metadata`].
    pub fn set_dataset_metadata(&mut self, name: &str, key: String, value: String) -> (r: Result<
        (),
        EngineError,
    >)
        ensures
            crate::engine::effects::set_dataset_metadata_effect(
                &*old(self),
                &*final(self),
                name@,
                key@,
                value@,
                r,
            ),
    {
        self.active_instance_mut().set_dataset_metadata(name, key, value)
    }

    /// In the active database: see [`DatabaseInstance::list_indices`].
    pub fn list_indices(&self) -> (r: Vec<(String, String, String)>)
        ensures
            entry_views(r@) == listed_indices(
                &self.active().datasets(),
                self.active().datasets().names().len() as int,
            ),
    {
        self.active_instance().list_indices()
    }

    /// In the active database: see [`DatabaseInstance::eval_field_access`].
    pub fn eval_field_access(&mut self, output_name: &str, tuple_name: &str, field_name: &str) -> (r:
        Result<(), EngineError>)
        ensures
            crate::engine::effects::eval_field_access_effect(
                &*old(self),
                &*final(self),
                output_name@,
                tuple_name@,
                field_name@,
                r,
            ),
    {
        self.active_instance_mut().eval_field_access(output_name, tuple_name, field_name)
    }

    /// In the active database: see [`DatabaseInstance::eval_column_access`].
    pub fn eval_column_access(
        &mut self,
        output_name: &str,
        dataset_name: &str,
        column_name: &str,
    ) -> (r: Result<(), EngineError>)
        ensures
            crate::engine::effects::eval_column_access_effect(
                &*old(self),
                &*final(self),
                output_name@,
                dataset_name@,
                column_name@,
                r,
            ),
    {
        self.active_instance_mut().eval_column_access(output_name, dataset_name, column_name)
    }
}

/// A name other than the one removed still has a place afterwards.
pub proof fn lemma_kept_after_remove(names: Seq<Seq<char>>, gone: int, name: Seq<char>)
    requires
        crate::names::distinct(names),
        0 <= gone < names.len(),
        names[gone] != name,
        name_position(names, name) is Some,
    ensures
        name_position(names.remove(gone), name) is Some,
{
    lemma_name_position(names, name);
    lemma_name_position(names.remove(gone), name);
    let at = name_position(names, name).unwrap();
    let moved = if at < gone { at } else { at - 1 };
    assert(names.remove(gone)[moved] == name);
}

} // verus!
