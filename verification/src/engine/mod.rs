pub mod context;
pub mod db;
pub mod effects;
pub mod error;
pub mod kernels;
pub mod operations;

pub use crate::engine::db::{DatabaseInstance, TensorDb};
pub use crate::engine::error::EngineError;
pub use crate::engine::operations::{BinaryOp, TensorKind, UnaryOp};
