//! Dynamic reflection: type information, type-erased values and their dynamic containers,
//! a registry of types, and serialization driven by type information.
pub mod info;
pub mod ops;
pub mod reflection;
pub mod registry;
pub mod serde;
pub mod value;
