//! An in-memory engine for tabular datasets and dense tensors.
//!
//! Single-precision numbers are carried as their IEEE 754 bit patterns
//! (`u32`), so that equality, hashing and ordering are exact and every
//! value has a mathematical model.

pub mod dataset;
pub mod dsl;
pub mod engine;
pub mod float;
pub mod ids;
pub mod index;
pub mod names;
pub mod order;
pub mod query;
pub mod sort;
pub mod stats;
pub mod storage;
pub mod store;
pub mod tensor;
pub mod text;
pub mod tuple;
pub mod utils;
pub mod value;

pub use crate::dataset::{Dataset, DatasetId, DatasetMetadata};
pub use crate::dsl::DslError;
pub use crate::engine::kernels::{
    add, add_relaxed, cosine_similarity_1d, distance_1d, divide, divide_relaxed, dot_1d, flatten,
    index, l2_norm_1d, matmul, multiply, multiply_relaxed, normalize_1d, reshape, scalar_mul,
    slice, sub, sub_relaxed, transpose,
};
pub use crate::engine::{BinaryOp, EngineError, TensorDb, TensorKind, UnaryOp};
pub use crate::stats::ColumnStats;
pub use crate::storage::ParquetStorage;
pub use crate::store::{DatasetStore, DatasetStoreError, InMemoryTensorStore, StoreError};
pub use crate::tensor::{Shape, Tensor, TensorId};
pub use crate::tuple::{Field, Schema, Tuple};
pub use crate::value::{Value, ValueType};
