//! Errors of the library.
use vstd::prelude::*;

use crate::schema::DataType;
use crate::columnar::NativeType;

verus! {

#[derive(Debug)]
pub enum Error {
    /// A required field was absent or null; holds the field's name.
    MissingRequiredData(String),
    /// The declared and native types of a field both exist but differ.
    TypeMismatch { field: String, declared: DataType, native: NativeType },
    /// The declared type of a field has no native representation at all.
    UnsupportedType { field: String, declared: DataType },
    /// The declared and native types agree, but no accessor exists for that type.
    UnextractableType { field: String, declared: DataType },
    /// A value was asked of an accessor of another type; holds the type asked for.
    UnexpectedColumnType(String),
    /// A data object of another kind than the one expected was handed over.
    EngineDataType(String),
    /// A deletion vector whose content contradicts its descriptor.
    MalformedDeletionVector { cardinality: i64, deleted: u64 },
    /// A relative deletion vector path too short to end in an encoded identifier.
    MalformedDeletionVectorPath(String),
    /// A deletion vector descriptor names a storage type that is not known.
    UnknownStorageType(String),
    /// A requested field is absent from the schema.
    MissingField(String),
    /// Two fields of one struct share this name.
    DuplicateField(String),
    /// A handle that was never given out or was freed.
    InvalidHandle(usize),
    /// A handle table that has given out every number it can.
    HandlesExhausted,
    /// A location that is not a valid URL.
    InvalidUrl(String),
}

} // verus!
