//! What can go wrong in the engine.

use crate::store::{DatasetStoreError, StoreError};
use vstd::prelude::*;
use vstd::string::StringExecFns;

verus! {

/// An error of the engine.
#[derive(Debug)]
pub enum EngineError {
    /// The tensor store refused.
    Store(StoreError),
    /// No tensor bears the name.
    NameNotFound(String),
    /// An operation was refused; the text says why.
    InvalidOp(String),
    /// The dataset store refused.
    DatasetError(DatasetStoreError),
    /// No dataset bears the name.
    DatasetNotFound(String),
}

impl From<StoreError> for EngineError {
    fn from(e: StoreError) -> (r: Self) {
        EngineError::Store(e)
    }
}

impl vstd::std_specs::convert::FromSpecImpl<StoreError> for EngineError {
    open spec fn obeys_from_spec() -> bool {
        true
    }

    open spec fn from_spec(e: StoreError) -> Self {
        EngineError::Store(e)
    }
}

impl From<DatasetStoreError> for EngineError {
    fn from(e: DatasetStoreError) -> (r: Self) {
        EngineError::DatasetError(e)
    }
}

impl vstd::std_specs::convert::FromSpecImpl<DatasetStoreError> for EngineError {
    open spec fn obeys_from_spec() -> bool {
        true
    }

    open spec fn from_spec(e: DatasetStoreError) -> Self {
        EngineError::DatasetError(e)
    }
}

impl EngineError {
    /// The error as text: what went wrong, after the kind of the error.
    pub open spec fn text(&self) -> Seq<char> {
        match self {
            EngineError::Store(e) => "Store error: "@ + e.text(),
            EngineError::NameNotFound(name) => "Tensor name not found: "@ + name@,
            EngineError::InvalidOp(text) => "Invalid operation: "@ + text@,
            EngineError::DatasetError(e) => "Dataset error: "@ + e.text(),
            EngineError::DatasetNotFound(name) => "Dataset not found: "@ + name@,
        }
    }

    /// The error as text: see [`EngineError::text`].
    pub fn message(&self) -> (r: String)
        ensures
            r@ == self.text(),
    {
        match self {
            EngineError::Store(e) => {
                let mut out = "Store error: ".to_owned();
                out.append(e.message().as_str());
                out
            },
            EngineError::NameNotFound(name) => {
                let mut out = "Tensor name not found: ".to_owned();
                out.append(name.as_str());
                out
            },
            EngineError::InvalidOp(text) => {
                let mut out = "Invalid operation: ".to_owned();
                out.append(text.as_str());
                out
            },
            EngineError::DatasetError(e) => {
                let mut out = "Dataset error: ".to_owned();
                out.append(e.message().as_str());
                out
            },
            EngineError::DatasetNotFound(name) => {
                let mut out = "Dataset not found: ".to_owned();
                out.append(name.as_str());
                out
            },
        }
    }
}

} // verus!
