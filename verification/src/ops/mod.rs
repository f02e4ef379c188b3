//! Dynamic containers and the operations on them.
mod array_ops;
mod clone_error;
mod enum_ops;
mod list_ops;
pub(crate) mod map_ops;
pub(crate) mod set_ops;
pub(crate) mod struct_ops;
mod tuple_ops;
mod tuple_struct_ops;
mod variant_ops;

pub use array_ops::{Array, ArrayItemIter, DynamicArray};
pub use clone_error::{ApplyError, ReflectCloneError};
pub use enum_ops::{DynamicEnum, Enum};
pub use list_ops::{DynamicList, List, ListItemIter, lemma_list_iteration, list_step};
pub use map_ops::MapLike;
pub use map_ops::{DynamicMap, has_key, key_position, keys_distinct, lemma_get_after_insert};
pub use map_ops::lemma_remove_after_insert as lemma_map_remove_after_insert;
pub use set_ops::SetLike;
pub use set_ops::{DynamicSet, has_value, lemma_contains_after_insert, value_position, values_distinct};
pub use set_ops::lemma_remove_after_insert as lemma_set_remove_after_insert;
pub use struct_ops::Struct;
pub use struct_ops::{DynamicStruct, StructFieldIter, field_position, has_field, names_distinct};
pub use tuple_ops::{DynamicTuple, Tuple, TupleFieldIter};
pub use tuple_struct_ops::{DynamicTupleStruct, TupleStruct, TupleStructFieldIter};
pub use variant_ops::{DynamicVariant, VariantField, VariantFieldIter};
pub use variant_ops::{lemma_variant_iteration, variant_field_count, variant_step};
