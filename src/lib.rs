//! A column of application-defined values ("objects") for a vectorized
//! query engine: slicing, filtering, scattering, replicating, and encoding
//! to and from a length-delimited binary array.

use vstd::prelude::*;

pub mod object_type;
pub mod json;
pub mod binary;
pub mod column;
pub mod mutable;
pub mod laws;
pub mod iterator;

pub use binary::BinaryArray;
pub use column::ObjectColumn;
pub use iterator::ObjectValueIter;
pub use mutable::MutableObjectColumn;
pub use object_type::{DataType, ObjectType, ParseError};

verus! {

/// A column of JSON documents.
pub type JsonColumn = ObjectColumn<serde_json::Value>;

} // verus!
