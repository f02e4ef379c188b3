//! Serialization and deserialization of reflected values, driven by type information.
pub(crate) mod serial;

pub use serial::{Serial, SerialData, serial_entries, serial_fields, serial_seq};
mod error;

pub use error::{DeError, DeFault, SerError};
mod ser;

pub use ser::{Outcome, has_serializer, is_option, ser_elems, ser_entries, ser_enum, ser_named};
pub use ser::{ser_spec, ser_tagged_spec, ser_unnamed, ser_unnamed_of_named, serializers_match};
pub use ser::{named_all_skipped, unnamed_all_skipped, variant_len};
pub use ser::{ReflectSerializeDriver, SerializeDriver, serializers_consistent, view_serial};
pub use ser::is_option_info;
mod de;

pub use de::{Parsed, buffer_map, buffer_named, de_elems, de_entries, de_seq_node, de_spec};
pub use de::{de_struct, de_struct_seq, de_struct_seq_all, de_tuple, de_tuple_all, de_tuple_node};
pub use de::{de_tuple_struct, default_of, field_fold, field_put, fill, fill_fields, map_fold};
pub use de::{map_put, meta_of, named_index, set_fold, set_put};
pub use de::{de_enum, de_payload, de_unit_variant, variant_by_index};
pub use de::{variant_by_name, variant_index_named};
pub use de::{default_marks, enum_typed, named_typed, tagged_meta, typed_by, typed_like, unnamed_typed, variant_typed};
pub use de::{DeserializeDriver, Read, ReflectDeserializeDriver, de_tagged_spec, de_value, view_value};
mod info_stack;

pub use info_stack::{TypeInfoStack, stack_text};
mod skip_field;

pub use skip_field::{SkipSerde, skip_spec};
mod roundtrip;

pub use roundtrip::{all_conform, conforms, entries_conform, fields_in_place, info_names_distinct};
pub use roundtrip::{lemma_roundtrip, lemma_tagged_roundtrip, named_conform, names_in_place, ser_ok};
pub use roundtrip::{tuple_conform, unnamed_conform, variant_conform};
pub use roundtrip::{lemma_read_array, lemma_read_array_unregistered};
pub use roundtrip::{lemma_read_tuple, lemma_read_tuple_from_sequence};
pub use roundtrip::{lemma_enum_node_index, names_value_variant};
