pub mod dataset_store;
pub mod tensor_store;

pub use dataset_store::{DatasetStore, DatasetStoreError};
pub use tensor_store::{InMemoryTensorStore, StoreError};
