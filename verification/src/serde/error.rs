//! Why serialization or deserialization failed.
use vstd::prelude::*;

use crate::info::TypeId;

verus! {

/// Why a reflected value could not be serialized.
pub enum SerError {
    /// The value represents no type.
    MissingTypeInfo { type_path: &'static str },
    /// The represented type is of another kind than the value.
    KindMismatch { expected: &'static str, type_path: &'static str },
    /// The value has another number of fields than its represented type.
    FieldCountMismatch { type_path: &'static str, expected: usize, actual: usize },
    /// The represented enum has no variant at the value's variant index.
    NoVariantAt { index: usize, type_path: &'static str },
    /// The value is of a primitive type whose registration offers no serialization.
    NotSerializable { type_path: &'static str },
}

/// Why serialized data could not be turned into a reflected value.
pub enum DeError {
    /// No registration exists for the type with this identifier.
    NoTypeMeta { type_id: TypeId },
    /// No registration exists for the type path that tags the data.
    NoRegistration { type_path: String },
    /// The data is not a map whose keys are type paths.
    NotTagged,
    /// The tagged form holds another number of entries than one.
    NotSingleEntry { len: usize },
    /// The data does not have the shape that the type expects.
    InvalidType { type_path: &'static str },
    /// A field name in the data is not a field of the type.
    UnknownField { name: String, type_path: &'static str },
    /// A field of the type is missing from the data.
    MissingField { name: &'static str, type_path: &'static str },
    /// A skipped field's type offers no default value.
    NoDefault { type_id: TypeId, type_path: &'static str },
    /// The data holds another number of elements than the type has.
    InvalidLength { type_path: &'static str, expected: usize, actual: usize },
    /// The enum has no variant at this index.
    NoVariantAt { index: u64, type_path: &'static str },
    /// The enum has no variant of this name.
    NoVariantNamed { name: String, type_path: &'static str },
    /// The type is opaque and offers no deserialization.
    NotDeserializable { type_path: &'static str },
}

/// The content of a deserialization error: its texts as sequences of characters.
pub enum DeFault {
    NoTypeMeta { type_id: TypeId },
    NoRegistration { type_path: Seq<char> },
    NotTagged,
    NotSingleEntry { len: usize },
    InvalidType { type_path: &'static str },
    UnknownField { name: Seq<char>, type_path: &'static str },
    MissingField { name: &'static str, type_path: &'static str },
    NoDefault { type_id: TypeId, type_path: &'static str },
    InvalidLength { type_path: &'static str, expected: usize, actual: usize },
    NoVariantAt { index: u64, type_path: &'static str },
    NoVariantNamed { name: Seq<char>, type_path: &'static str },
    NotDeserializable { type_path: &'static str },
}

impl DeError {
    /// The content of the error.
    pub open spec fn fault(self) -> DeFault {
        match self {
            DeError::NoTypeMeta { type_id } => DeFault::NoTypeMeta { type_id },
            DeError::NoRegistration { type_path } => DeFault::NoRegistration { type_path: type_path@ },
            DeError::NotTagged => DeFault::NotTagged,
            DeError::NotSingleEntry { len } => DeFault::NotSingleEntry { len },
            DeError::InvalidType { type_path } => DeFault::InvalidType { type_path },
            DeError::UnknownField { name, type_path } => DeFault::UnknownField { name: name@, type_path },
            DeError::MissingField { name, type_path } => DeFault::MissingField { name, type_path },
            DeError::NoDefault { type_id, type_path } => DeFault::NoDefault { type_id, type_path },
            DeError::InvalidLength { type_path, expected, actual } => DeFault::InvalidLength {
                type_path,
                expected,
                actual,
            },
            DeError::NoVariantAt { index, type_path } => DeFault::NoVariantAt { index, type_path },
            DeError::NoVariantNamed { name, type_path } => DeFault::NoVariantNamed {
                name: name@,
                type_path,
            },
            DeError::NotDeserializable { type_path } => DeFault::NotDeserializable { type_path },
        }
    }
}

} // verus!
