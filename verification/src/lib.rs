//! The CAF document format: a human-editable configuration language whose
//! documents keep their comments and whitespace when they are read, edited
//! and written back.
//!
//! A document value carries its *fill*, the insignificant text in front of
//! it, so that writing an unedited value gives back the text it was read
//! from. Values convert to and from JSON; the way from JSON is guided by a
//! type schema.

pub mod caf_array;
pub mod caf_bool;
pub mod caf_fill;
pub mod caf_manifest;
pub mod caf_number;
pub mod caf_string;
pub mod caf_value;
pub mod error;
pub mod escape;
pub mod json;
pub mod laws;
pub mod schema;

pub use caf_array::CafArray;
pub use caf_bool::CafBool;
pub use caf_fill::CafFill;
pub use caf_manifest::{
    CafFilePath, CafManifest, CafManifestEntry, CafManifestFile, CafManifestKey,
};
pub use caf_number::{
    CafNumber, CafNumberValue, NumberValue, NumberVisit, NumberWidth, TypeRequest, UnexpectedNumber,
};
pub use caf_string::CafString;
pub use caf_value::CafValue;
pub use error::{CafError, Expected};
pub use escape::{format_escaped_str_contents, CharEscape};
pub use json::{JsonMember, JsonValue};
pub use schema::{TypeInfo, TypeKind, TypeRegistry};
