//! The errors of the conversion between document values and JSON.

use vstd::prelude::*;
use crate::json::{JsonModel, JsonValue};

verus! {

/// What a conversion from JSON expected where it found something else.
#[derive(Debug, Clone, Copy, PartialEq, Eq, Structural)]
pub enum Expected {
    /// The JSON value was to be an array.
    JsonArray,
    /// The type was to be a list or an array.
    ListOrArray,
    /// The JSON value was to be one that a document value can hold: a bool,
    /// a number, a string or an array.
    Value,
}

/// Why a conversion between a document value and JSON failed.
#[derive(Debug, PartialEq)]
pub enum CafError {
    /// The JSON value and the type do not go together. Names the path of the
    /// type, the JSON value and what was expected.
    ShapeMismatch { type_path: String, json: JsonValue, expected: Expected },
    /// A float that JSON cannot hold, an infinity or a NaN. Names its bits.
    NonFiniteNumber { bits: u64 },
}

/// A [`CafError`] as a mathematical value.
pub enum ErrorModel {
    ShapeMismatch { type_path: Seq<char>, json: JsonModel, expected: Expected },
    NonFiniteNumber { bits: u64 },
}

impl View for CafError {
    type V = ErrorModel;

    open spec fn view(&self) -> ErrorModel {
        match self {
            CafError::ShapeMismatch { type_path, json, expected } => ErrorModel::ShapeMismatch {
                type_path: type_path@,
                json: json@,
                expected: *expected,
            },
            CafError::NonFiniteNumber { bits } => ErrorModel::NonFiniteNumber { bits: *bits },
        }
    }
}

/// A result with its value, or its error, seen as a mathematical value.
pub open spec fn result_view<T: View, E: View>(res: Result<T, E>) -> Result<T::V, E::V> {
    match res {
        Ok(value) => Ok(value@),
        Err(error) => Err(error@),
    }
}

} // verus!
