//! A registry of types: their information and the capabilities they offer.
mod traits;

pub use traits::{FromType, ReflectDefault, ReflectDeserialize, ReflectFromReflect, ReflectSerialize};
pub use traits::{primitive_from_serial, primitive_path, primitive_serial};
mod type_meta;

pub use type_meta::{TraitKind, TypeMeta, TypeTrait, meta_id, same_default, same_default_opt};
mod type_registry;

pub use type_registry::{GetTypeMeta, TypeRegistry, primitive_meta_built, ambiguous_after, index_map, meta_table, names_after};
pub use type_registry::{ids_distinct, keys_unique, str_set, strs_unique};
pub use type_registry::{indices_disjoint, lemma_added_lookup, lemma_same_name_ambiguous};
pub use type_registry::lemma_trait_after_register;
