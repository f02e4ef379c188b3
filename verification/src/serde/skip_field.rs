//! What a field that serialization skips takes when it is read back.
use vstd::prelude::*;

use crate::info::{TypeId, TypePath};
use crate::reflection::Reflect;
use crate::registry::TypeRegistry;
use crate::serde::{DeError, DeFault, default_of};
use crate::value::{Data, Value};

verus! {

/// The value that a skipped field takes when it is read back: none, its type's default value,
/// or a copy of a given value.
pub enum SkipSerde {
    Empty,
    Default,
    Clone(Value),
}

/// The content that a skipped field of the type takes: nothing, or the value's content.
pub open spec fn skip_spec(s: SkipSerde, id: TypeId, reg: TypeRegistry) -> Result<Option<Data>, DeFault> {
    match s {
        SkipSerde::Empty => Ok(None),
        SkipSerde::Default => match default_of(reg, id) {
            Some(d) => Ok(Some(d)),
            None => Err(DeFault::NoDefault { type_id: id, type_path: "vc_reflect::serde::SkipSerde" }),
        },
        SkipSerde::Clone(v) => if v.spec_ty_id() == id {
            Ok(Some(v.deep()))
        } else {
            Err(DeFault::InvalidType { type_path: "vc_reflect::serde::SkipSerde" })
        },
    }
}

impl SkipSerde {
    /// Skipping with a copy of `x`.
    pub fn clone<T: Reflect>(x: T) -> (r: Self)
        ensures
            r == SkipSerde::Clone(x.spec_value()),
    {
        SkipSerde::Clone(x.into_value())
    }

    /// The value that a skipped field of the type takes; a copy must be of that type.
    pub fn get(&self, id: TypeId, registry: &TypeRegistry) -> (r: Result<Option<Value>, DeError>)
        ensures
            match skip_spec(*self, id, *registry) {
                Ok(Some(d)) => r matches Ok(Some(v)) && v.deep() == d,
                Ok(None) => r matches Ok(None),
                Err(e) => r matches Err(x) && x.fault() == e,
            },
    {
        match self {
            SkipSerde::Empty => Ok(None),
            SkipSerde::Default => {
                match registry.get(id) {
                    Some(m) => match m.get_default() {
                        Some(d) => return Ok(Some(d.default())),
                        None => {},
                    },
                    None => {},
                }
                Err(DeError::NoDefault { type_id: id, type_path: "vc_reflect::serde::SkipSerde" })
            },
            SkipSerde::Clone(v) => {
                if v.ty_id() != id {
                    return Err(DeError::InvalidType { type_path: "vc_reflect::serde::SkipSerde" });
                }
                match v.reflect_clone() {
                    Ok(c) => Ok(Some(c)),
                    Err(_) => Err(DeError::InvalidType { type_path: "vc_reflect::serde::SkipSerde" }),
                }
            },
        }
    }
}

impl TypePath for SkipSerde {
    open spec fn spec_type_path() -> Seq<char> {
        "vc_reflect::serde::SkipSerde"@
    }

    open spec fn spec_type_short_name() -> Seq<char> {
        "SkipSerde"@
    }

    open spec fn spec_type_ident() -> Seq<char> {
        "SkipSerde"@
    }

    open spec fn spec_type_module() -> Option<Seq<char>> {
        Some("vc_reflect::serde"@)
    }

    fn type_path() -> &'static str {
        "vc_reflect::serde::SkipSerde"
    }

    fn type_short_name() -> &'static str {
        "SkipSerde"
    }

    fn type_ident() -> &'static str {
        "SkipSerde"
    }

    fn type_module() -> Option<&'static str> {
        Some("vc_reflect::serde")
    }
}

} // verus!
