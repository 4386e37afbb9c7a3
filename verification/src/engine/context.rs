//! The scratch space of one operation.

use crate::dataset::DatasetId;
use crate::tensor::TensorId;
use vstd::prelude::*;

verus! {

/// The arena type of the `bumpalo` crate, carried as an opaque value.
#[verifier::external_type_specification]
#[verifier::external_body]
pub struct ExBump<const MIN_ALIGN: usize>(bumpalo::Bump<MIN_ALIGN>);

/// Calls `bumpalo::Bump::new`: an arena that has allocated nothing yet.
#[verifier::external_body]
fn arena_new() -> bumpalo::Bump<1> {
    bumpalo::Bump::new()
}

/// Calls `bumpalo::Bump::try_with_capacity`: an arena with room for the
/// given number of bytes, or `None` when the memory cannot be had.
#[verifier::external_body]
fn arena_with_capacity(bytes: usize) -> Option<bumpalo::Bump<1>> {
    bumpalo::Bump::try_with_capacity(bytes).ok()
}

/// Calls `bumpalo::Bump::reset`: everything allocated in the arena is
/// given up at once.
#[verifier::external_body]
fn arena_reset(arena: &mut bumpalo::Bump<1>) {
    arena.reset()
}

/// Calls `bumpalo::Bump::alloc`: the value moved into the arena.
#[verifier::external_body]
fn arena_alloc<T>(arena: &bumpalo::Bump<1>, value: T) -> (r: &T)
    ensures
        *r == value,
{
    arena.alloc(value)
}

/// Calls `bumpalo::Bump::alloc_slice_copy`: a copy of the slice in the
/// arena.
#[verifier::external_body]
fn arena_alloc_slice<'a, T: Copy>(arena: &'a bumpalo::Bump<1>, slice: &[T]) -> (r: &'a [T])
    ensures
        r@ == slice@,
{
    arena.alloc_slice_copy(slice)
}

/// Calls `bumpalo::Bump::alloc_slice_fill_iter` with the items of the
/// vector: the items moved into the arena, in order.
#[verifier::external_body]
fn arena_alloc_vec<T>(arena: &bumpalo::Bump<1>, items: Vec<T>) -> (r: &[T])
    ensures
        r@ == items@,
{
    arena.alloc_slice_fill_iter(items.into_iter())
}

/// Calls `bumpalo::Bump::allocated_bytes`. Nothing is promised of the
/// number, which depends on how the allocator sized the chunks.
#[verifier::external_body]
fn arena_allocated_bytes(arena: &bumpalo::Bump<1>) -> usize {
    arena.allocated_bytes()
}

/// How much an arena has allocated.
#[derive(Debug, Clone, Copy)]
pub struct ArenaStats {
    pub allocated_bytes: usize,
}

/// The scratch space of one query or operation: an arena for temporary
/// values, and the temporary tensors and datasets to release afterwards.
pub struct ExecutionContext {
    arena: bumpalo::Bump<1>,
    temp_tensors: Option<Vec<TensorId>>,
    temp_datasets: Option<Vec<DatasetId>>,
}

impl ExecutionContext {
    /// The temporary tensors tracked, in the order of tracking.
    pub closed spec fn tracked_tensors(&self) -> Seq<TensorId> {
        match self.temp_tensors {
            Some(list) => list@,
            None => Seq::empty(),
        }
    }

    /// The temporary datasets tracked, in the order of tracking.
    pub closed spec fn tracked_datasets(&self) -> Seq<DatasetId> {
        match self.temp_datasets {
            Some(list) => list@,
            None => Seq::empty(),
        }
    }

    /// A context that tracks nothing.
    pub fn new() -> (r: Self)
        ensures
            r.tracked_tensors() == Seq::<TensorId>::empty(),
            r.tracked_datasets() == Seq::<DatasetId>::empty(),
    {
        ExecutionContext { arena: arena_new(), temp_tensors: None, temp_datasets: None }
    }

    /// A context that tracks nothing, with room for the given number of
    /// bytes in its arena; when the memory cannot be had the arena starts
    /// empty.
    pub fn with_capacity(bytes: usize) -> (r: Self)
        ensures
            r.tracked_tensors() == Seq::<TensorId>::empty(),
            r.tracked_datasets() == Seq::<DatasetId>::empty(),
    {
        let arena = match arena_with_capacity(bytes) {
            Some(arena) => arena,
            None => arena_new(),
        };
        ExecutionContext { arena, temp_tensors: None, temp_datasets: None }
    }

    /// Gives up everything in the arena and forgets what was tracked, so
    /// that the context can be used again.
    pub fn reset(&mut self)
        ensures
            final(self).tracked_tensors() == Seq::<TensorId>::empty(),
            final(self).tracked_datasets() == Seq::<DatasetId>::empty(),
    {
        arena_reset(&mut self.arena);
        self.clear_tracked();
    }

    /// Moves a value into the arena.
    pub fn alloc_temp<T>(&self, value: T) -> (r: &T)
        ensures
            *r == value,
    {
        arena_alloc(&self.arena, value)
    }

    /// Copies a slice into the arena.
    pub fn alloc_slice<T: Copy>(&self, slice: &[T]) -> (r: &[T])
        ensures
            r@ == slice@,
    {
        arena_alloc_slice(&self.arena, slice)
    }

    /// Moves the items of a vector into the arena.
    pub fn alloc_vec<T>(&self, vec: Vec<T>) -> (r: &[T])
        ensures
            r@ == vec@,
    {
        arena_alloc_vec(&self.arena, vec)
    }

    /// Tracks a temporary tensor.
    pub fn track_tensor(&mut self, id: TensorId)
        ensures
            final(self).tracked_tensors() == old(self).tracked_tensors().push(id),
            final(self).tracked_datasets() == old(self).tracked_datasets(),
    {
        let mut list = match self.temp_tensors.take() {
            Some(list) => list,
            None => Vec::with_capacity(8),
        };
        list.push(id);
        self.temp_tensors = Some(list);
    }

    /// Tracks a temporary dataset.
    pub fn track_dataset(&mut self, id: DatasetId)
        ensures
            final(self).tracked_datasets() == old(self).tracked_datasets().push(id),
            final(self).tracked_tensors() == old(self).tracked_tensors(),
    {
        let mut list = match self.temp_datasets.take() {
            Some(list) => list,
            None => Vec::with_capacity(8),
        };
        list.push(id);
        self.temp_datasets = Some(list);
    }

    /// The temporary tensors tracked.
    pub fn temp_tensors(&self) -> (r: Vec<TensorId>)
        ensures
            r@ == self.tracked_tensors(),
    {
        match &self.temp_tensors {
            Some(list) => list.clone(),
            None => Vec::new(),
        }
    }

    /// The temporary datasets tracked.
    pub fn temp_datasets(&self) -> (r: Vec<DatasetId>)
        ensures
            r@ == self.tracked_datasets(),
    {
        match &self.temp_datasets {
            Some(list) => list.clone(),
            None => Vec::new(),
        }
    }

    /// Forgets what was tracked.
    pub fn clear_tracked(&mut self)
        ensures
            final(self).tracked_tensors() == Seq::<TensorId>::empty(),
            final(self).tracked_datasets() == Seq::<DatasetId>::empty(),
    {
        match self.temp_tensors.take() {
            Some(mut list) => {
                list.clear();
                self.temp_tensors = Some(list);
            },
            None => {},
        }
        match self.temp_datasets.take() {
            Some(mut list) => {
                list.clear();
                self.temp_datasets = Some(list);
            },
            None => {},
        }
    }

    /// How much the arena has allocated.
    pub fn arena_stats(&self) -> (r: ArenaStats) {
        ArenaStats { allocated_bytes: arena_allocated_bytes(&self.arena) }
    }
}

} // verus!
