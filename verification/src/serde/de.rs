//! Deserialization: from serialized data to a reflected value of a registered type, guided by
//! the type's information.
use vstd::prelude::*;

use crate::info::{EnumInfo, NamedField, TypeId, TypeInfo, UnnamedField, VariantInfo};
use crate::info::{first_named, has_named, serde_count_named, serde_count_unnamed};
use crate::registry::{TypeMeta, TypeRegistry, primitive_from_serial, primitive_path};
use crate::serde::{DeError, DeFault, Serial, SerialData, is_option, serial_entries, serial_fields};
use crate::serde::serial_seq;
use crate::ops::{DynamicArray, DynamicEnum, DynamicList, DynamicMap, DynamicSet, DynamicStruct};
use crate::ops::{DynamicTuple, DynamicTupleStruct, DynamicVariant, names_distinct};
use crate::ops::{key_position, keys_distinct, value_position, values_distinct};
use crate::value::{Value, deep_entries, deep_fields, deep_seq, deep_variant, names_of};
use vstd::string::StringExecFns;
use crate::value::{Data, Marks, VariantData};
use crate::value::{lemma_same_content_via, same_content};

verus! {

/// What deserialization comes to: a result, a failure, or a type information that the reading
/// cannot go on with (a newtype struct whose one field is skipped).
pub enum Parsed<T> {
    Done(T),
    Failed(DeFault),
    Malformed,
}

/// The map content after putting `v` under `k`: an entry with key `k` keeps its place and takes
/// the value; otherwise the entry comes last.
pub open spec fn map_put(s: Seq<(Data, Data)>, k: Data, v: Data) -> Seq<(Data, Data)> {
    if exists|i: int| 0 <= i < s.len() && same_content(s[i].0, k) {
        let i = choose|i: int| 0 <= i < s.len() && same_content(s[i].0, k);
        s.update(i, (s[i].0, v))
    } else {
        s.push((k, v))
    }
}

/// The map content after putting the entries in order.
pub open spec fn map_fold(s: Seq<(Data, Data)>) -> Seq<(Data, Data)>
    decreases s.len(),
{
    if s.len() == 0 {
        Seq::empty()
    } else {
        map_put(map_fold(s.drop_last()), s.last().0, s.last().1)
    }
}

/// The set content after putting `v`: `v` takes the place of an equal value, else comes last.
pub open spec fn set_put(s: Seq<Data>, v: Data) -> Seq<Data> {
    if exists|i: int| 0 <= i < s.len() && same_content(s[i], v) {
        let i = choose|i: int| 0 <= i < s.len() && same_content(s[i], v);
        s.update(i, v)
    } else {
        s.push(v)
    }
}

/// The set content after putting the values in order.
pub open spec fn set_fold(s: Seq<Data>) -> Seq<Data>
    decreases s.len(),
{
    if s.len() == 0 {
        Seq::empty()
    } else {
        set_put(set_fold(s.drop_last()), s.last())
    }
}

/// The struct content after putting `d` under `name`: a field of that name keeps its place and
/// takes the value; otherwise the field comes last.
pub open spec fn field_put(names: Seq<Seq<char>>, datas: Seq<Data>, name: Seq<char>, d: Data) -> (
    Seq<Seq<char>>,
    Seq<Data>,
) {
    if names.contains(name) {
        let i = choose|i: int| 0 <= i < names.len() && names[i] == name;
        (names, datas.update(i, d))
    } else {
        (names.push(name), datas.push(d))
    }
}

/// The struct content after putting the named values in order.
pub open spec fn field_fold(s: Seq<(Seq<char>, Data)>) -> (Seq<Seq<char>>, Seq<Data>)
    decreases s.len(),
{
    if s.len() == 0 {
        (Seq::empty(), Seq::empty())
    } else {
        let prev = field_fold(s.drop_last());
        field_put(prev.0, prev.1, s.last().0, s.last().1)
    }
}

/// The registration of the type, if there is one.
pub open spec fn meta_of(reg: TypeRegistry, id: TypeId) -> Option<TypeMeta> {
    if reg.table().dom().contains(id) {
        Some(reg.table()[id])
    } else {
        None
    }
}

/// The content of the default value of the type, if its registration offers one.
pub open spec fn default_of(reg: TypeRegistry, id: TypeId) -> Option<Data> {
    match meta_of(reg, id) {
        Some(m) => match m.spec_default() {
            Some(d) => Some(d.spec_value().deep()),
            None => None,
        },
        None => None,
    }
}

/// The marks of the default value of the type, if its registration offers one.
pub open spec fn default_marks(reg: TypeRegistry, id: TypeId) -> Option<Marks> {
    match meta_of(reg, id) {
        Some(m) => match m.spec_default() {
            Some(d) => Some(d.spec_value().marks()),
            None => None,
        },
        None => None,
    }
}

/// Whether a value fits an unnamed field: read as the field's type, or, for a skipped field,
/// the type's default value with its represented types.
pub open spec fn unnamed_typed(v: Value, f: UnnamedField, reg: TypeRegistry) -> bool
    decreases v, 1nat,
{
    typed_by(v, reg.table()[f.type_id], reg) || (f.skip_serde && default_marks(reg, f.type_id) == Some(
        v.marks(),
    ))
}

/// Whether a named field fits the field info of its name: read as that field's type, or, for a
/// skipped field, the type's default value with its represented types.
pub open spec fn named_typed(name: Seq<char>, v: Value, infos: Seq<NamedField>, reg: TypeRegistry) -> bool
    decreases v, 1nat,
{
    exists|j: int|
        0 <= j < infos.len() && #[trigger] infos[j].name@ == name && (typed_by(
            v,
            reg.table()[infos[j].type_id],
            reg,
        ) || (infos[j].skip_serde && default_marks(reg, infos[j].type_id) == Some(v.marks())))
}

/// Whether the data of a variant fits the variant info: each field fits its field info (a unit
/// variant has none).
pub open spec fn variant_typed(d: DynamicVariant, vinfo: VariantInfo, reg: TypeRegistry) -> bool
    decreases d, 0nat,
{
    proof {
        match d {
            DynamicVariant::Tuple(t) => t.lemma_decreases(),
            DynamicVariant::Struct(s) => s.lemma_decreases(),
            DynamicVariant::Unit => {},
        }
    }
    match (d, vinfo) {
        (DynamicVariant::Unit, _) => true,
        (DynamicVariant::Tuple(t), VariantInfo::Tuple(tv)) => {
            &&& t.spec_fields().len() == tv.fields@.len()
            &&& forall|i: int|
                0 <= i < t.spec_fields().len() ==> unnamed_typed(t.spec_fields()[i], tv.fields@[i], reg)
        },
        (DynamicVariant::Struct(st), VariantInfo::Struct(sv)) => forall|i: int|
            0 <= i < st.spec_fields().len() ==> named_typed(
                st.spec_fields()[i].0@,
                st.spec_fields()[i].1,
                sv.fields@,
                reg,
            ),
        _ => false,
    }
}

/// Whether an enum value is of a variant of the enum info with its name, and its data fits that
/// variant.
pub open spec fn enum_typed(e: DynamicEnum, info: EnumInfo, reg: TypeRegistry) -> bool
    decreases e, 0nat,
{
    proof {
        e.lemma_decreases();
    }
    exists|j: int|
        0 <= j < info.variants@.len() && #[trigger] info.variants@[j].spec_name()@ == e.spec_variant_name()
            && variant_typed(e.spec_variant(), info.variants@[j], reg)
}

/// Whether a value carries, at every level, the represented types that reading it as the
/// registered type `meta` gives: a value read by the type's own deserializer is of its target
/// type; any other represents the type `meta` describes, and what it holds fits the types that
/// the type information names for it.
pub open spec fn typed_by(v: Value, meta: TypeMeta, reg: TypeRegistry) -> bool
    decreases v, 0nat,
{
    proof {
        match v {
            Value::Array(a) => a.lemma_decreases(),
            Value::List(l) => l.lemma_decreases(),
            Value::Tuple(t) => t.lemma_decreases(),
            Value::TupleStruct(t) => t.lemma_decreases(),
            Value::Struct(s) => s.lemma_decreases(),
            Value::MapLike(m) => m.lemma_decreases(),
            Value::SetLike(s) => s.lemma_decreases(),
            Value::Enum(e) => e.lemma_decreases(),
            _ => {},
        }
    }
    match meta.spec_deserialize() {
        Some(ds) => v.spec_ty_id() == ds.spec_target(),
        None => {
            &&& v.spec_represented() == Some(meta.spec_info())
            &&& match (v, meta.spec_info()) {
                (Value::List(l), TypeInfo::List(info)) => forall|i: int|
                    0 <= i < l.spec_values().len() ==> typed_by(l.spec_values()[i], reg.table()[info.item], reg),
                (Value::Array(a), TypeInfo::Array(info)) => forall|i: int|
                    0 <= i < a.spec_values().len() ==> typed_by(a.spec_values()[i], reg.table()[info.item], reg),
                (Value::SetLike(s), TypeInfo::SetLike(info)) => forall|i: int|
                    0 <= i < s.spec_values().len() ==> typed_by(s.spec_values()[i], reg.table()[info.value], reg),
                (Value::MapLike(m), TypeInfo::MapLike(info)) => forall|i: int|
                    0 <= i < m.spec_entries().len() ==> {
                        &&& typed_by(m.spec_entries()[i].0, reg.table()[info.key], reg)
                        &&& typed_by(m.spec_entries()[i].1, reg.table()[info.value], reg)
                    },
                (Value::Tuple(t), TypeInfo::Tuple(info)) => {
                    &&& t.spec_fields().len() == info.fields@.len()
                    &&& forall|i: int|
                        0 <= i < t.spec_fields().len() ==> unnamed_typed(t.spec_fields()[i], info.fields@[i], reg)
                },
                (Value::TupleStruct(t), TypeInfo::TupleStruct(info)) => {
                    &&& t.spec_fields().len() == info.fields@.len()
                    &&& forall|i: int|
                        0 <= i < t.spec_fields().len() ==> unnamed_typed(t.spec_fields()[i], info.fields@[i], reg)
                },
                (Value::Struct(st), TypeInfo::Struct(info)) => forall|i: int|
                    0 <= i < st.spec_fields().len() ==> named_typed(
                        st.spec_fields()[i].0@,
                        st.spec_fields()[i].1,
                        info.fields@,
                        reg,
                    ),
                (Value::Enum(e), TypeInfo::Enum(info)) => enum_typed(e, info, reg),
                _ => false,
            }
        },
    }
}

/// The index of the first named field info with the name.
pub open spec fn named_index(infos: Seq<NamedField>, name: Seq<char>) -> Option<int> {
    if has_named(infos, name) {
        Some(choose|i: int| first_named(infos, name, i))
    } else {
        None
    }
}

/// The index of the first variant with the name.
pub open spec fn variant_index_named(variants: Seq<VariantInfo>, name: Seq<char>) -> Option<int> {
    if exists|i: int| crate::info::first_variant(variants, name, i) {
        Some(choose|i: int| crate::info::first_variant(variants, name, i))
    } else {
        None
    }
}

/// The index of the first variant of the enum with the name; 0 where none has it.
pub open spec fn index_named(info: EnumInfo, name: Seq<char>) -> int {
    match variant_index_named(info.variants@, name) {
        Some(i) => i,
        None => 0,
    }
}

/// Reads data as a value of the registered type: by the deserializer its registration offers,
/// or else by its type information.
pub open spec fn de_spec(d: SerialData, meta: TypeMeta, reg: TypeRegistry) -> Parsed<Data>
    decreases d, 2nat,
{
    match meta.spec_deserialize() {
        Some(ds) => match primitive_from_serial(ds.spec_target(), d) {
            Some(x) => Parsed::Done(x),
            None => Parsed::Failed(DeFault::InvalidType { type_path: primitive_path(ds.spec_target()) }),
        },
        None => match meta.spec_info() {
            TypeInfo::Struct(info) => match de_struct(d, info.fields@, info.ty.path, reg) {
                Parsed::Done(pairs) => Parsed::Done(
                    Data::Struct(field_fold(pairs).0, field_fold(pairs).1),
                ),
                Parsed::Failed(e) => Parsed::Failed(e),
                Parsed::Malformed => Parsed::Malformed,
            },
            TypeInfo::TupleStruct(info) => match de_tuple_struct(d, info.fields@, info.ty.path, reg) {
                Parsed::Done(s) => Parsed::Done(Data::TupleStruct(s)),
                Parsed::Failed(e) => Parsed::Failed(e),
                Parsed::Malformed => Parsed::Malformed,
            },
            TypeInfo::Tuple(info) => match de_tuple_node(d, info.fields@, info.ty.path, reg) {
                Parsed::Done(s) => Parsed::Done(Data::Tuple(s)),
                Parsed::Failed(e) => Parsed::Failed(e),
                Parsed::Malformed => Parsed::Malformed,
            },
            TypeInfo::List(info) => match meta_of(reg, info.item) {
                Some(im) => match de_seq_node(d, im, info.ty.path, reg) {
                    Parsed::Done(s) => Parsed::Done(Data::List(s)),
                    Parsed::Failed(e) => Parsed::Failed(e),
                    Parsed::Malformed => Parsed::Malformed,
                },
                None => Parsed::Failed(DeFault::NoTypeMeta { type_id: info.item }),
            },
            TypeInfo::Array(info) => match meta_of(reg, info.item) {
                Some(im) => match de_seq_node(d, im, info.ty.path, reg) {
                    Parsed::Done(s) => if s.len() != info.len {
                        Parsed::Failed(
                            DeFault::InvalidLength {
                                type_path: info.ty.path,
                                expected: info.len,
                                actual: s.len() as usize,
                            },
                        )
                    } else {
                        Parsed::Done(Data::Array(s))
                    },
                    Parsed::Failed(e) => Parsed::Failed(e),
                    Parsed::Malformed => Parsed::Malformed,
                },
                None => Parsed::Failed(DeFault::NoTypeMeta { type_id: info.item }),
            },
            TypeInfo::MapLike(info) => match meta_of(reg, info.key) {
                Some(km) => match meta_of(reg, info.value) {
                    Some(vm) => match d {
                        SerialData::Mapping(entries) => match de_entries(
                            entries,
                            km,
                            vm,
                            reg,
                            entries.len(),
                        ) {
                            Parsed::Done(s) => Parsed::Done(Data::MapLike(map_fold(s))),
                            Parsed::Failed(e) => Parsed::Failed(e),
                            Parsed::Malformed => Parsed::Malformed,
                        },
                        _ => Parsed::Failed(DeFault::InvalidType { type_path: info.ty.path }),
                    },
                    None => Parsed::Failed(DeFault::NoTypeMeta { type_id: info.value }),
                },
                None => Parsed::Failed(DeFault::NoTypeMeta { type_id: info.key }),
            },
            TypeInfo::SetLike(info) => match meta_of(reg, info.value) {
                Some(im) => match de_seq_node(d, im, info.ty.path, reg) {
                    Parsed::Done(s) => Parsed::Done(Data::SetLike(set_fold(s))),
                    Parsed::Failed(e) => Parsed::Failed(e),
                    Parsed::Malformed => Parsed::Malformed,
                },
                None => Parsed::Failed(DeFault::NoTypeMeta { type_id: info.value }),
            },
            TypeInfo::Enum(info) => de_enum(d, info, reg),
            TypeInfo::Opaque(info) => Parsed::Failed(DeFault::NotDeserializable { type_path: info.ty.path }),
        },
    }
}

/// Reads the elements of a sequence node, each as a value of the item type.
pub open spec fn de_seq_node(d: SerialData, item: TypeMeta, owner: &'static str, reg: TypeRegistry) -> Parsed<
    Seq<Data>,
>
    decreases d, 1nat,
{
    match d {
        SerialData::Sequence(s) => de_elems(s, item, reg, s.len()),
        SerialData::Tuple(s) => de_elems(s, item, reg, s.len()),
        SerialData::TupleStruct { fields, .. } => de_elems(fields, item, reg, fields.len()),
        _ => Parsed::Failed(DeFault::InvalidType { type_path: owner }),
    }
}

/// Reads a sequence node as the fields of a tuple-like type.
pub open spec fn de_tuple_node(
    d: SerialData,
    infos: Seq<UnnamedField>,
    owner: &'static str,
    reg: TypeRegistry,
) -> Parsed<Seq<Data>>
    decreases d, 1nat,
{
    match d {
        SerialData::Sequence(s) => de_tuple_all(infos, owner, reg, s),
        SerialData::Tuple(s) => de_tuple_all(infos, owner, reg, s),
        SerialData::TupleStruct { fields, .. } => de_tuple_all(infos, owner, reg, fields),
        _ => Parsed::Failed(DeFault::InvalidType { type_path: owner }),
    }
}

/// Reads the fields of a tuple-like type from the elements, then checks that none is left over.
pub open spec fn de_tuple_all(
    infos: Seq<UnnamedField>,
    owner: &'static str,
    reg: TypeRegistry,
    items: Seq<SerialData>,
) -> Parsed<Seq<Data>>
    decreases items, infos.len() + 1,
{
    match de_tuple(infos, owner, reg, items, infos.len()) {
        Parsed::Done(s) => if items.len() > serde_count_unnamed(infos) {
            Parsed::Failed(
                DeFault::InvalidLength {
                    type_path: owner,
                    expected: infos.len() as usize,
                    actual: items.len() as usize,
                },
            )
        } else {
            Parsed::Done(s)
        },
        other => other,
    }
}

/// Reads the data of a tuple struct: one field from a newtype node, else from a sequence node.
pub open spec fn de_tuple_struct(
    d: SerialData,
    infos: Seq<UnnamedField>,
    owner: &'static str,
    reg: TypeRegistry,
) -> Parsed<Seq<Data>>
    decreases d, 1nat,
{
    match d {
        SerialData::NewtypeStruct { value, .. } => if infos.len() == 1 {
            if infos[0].skip_serde {
                Parsed::Malformed
            } else {
                match meta_of(reg, infos[0].type_id) {
                    Some(fm) => match de_spec(*value, fm, reg) {
                        Parsed::Done(x) => Parsed::Done(seq![x]),
                        Parsed::Failed(e) => Parsed::Failed(e),
                        Parsed::Malformed => Parsed::Malformed,
                    },
                    None => Parsed::Failed(DeFault::NoTypeMeta { type_id: infos[0].type_id }),
                }
            }
        } else {
            Parsed::Failed(DeFault::InvalidType { type_path: owner })
        },
        SerialData::Sequence(s) => de_tuple_all(infos, owner, reg, s),
        SerialData::Tuple(s) => de_tuple_all(infos, owner, reg, s),
        SerialData::TupleStruct { fields, .. } => de_tuple_all(infos, owner, reg, fields),
        _ => Parsed::Failed(DeFault::InvalidType { type_path: owner }),
    }
}

/// Reads the fields of a struct-like type from a map node, a struct node or a sequence node.
pub open spec fn de_struct(
    d: SerialData,
    infos: Seq<NamedField>,
    owner: &'static str,
    reg: TypeRegistry,
) -> Parsed<Seq<(Seq<char>, Data)>>
    decreases d, 1nat,
{
    match d {
        SerialData::Mapping(entries) => match buffer_map(entries, infos, owner, reg, entries.len()) {
            Parsed::Done(buf) => fill_fields(infos, owner, reg, buf, infos.len()),
            Parsed::Failed(e) => Parsed::Failed(e),
            Parsed::Malformed => Parsed::Malformed,
        },
        SerialData::Struct { fields, .. } => match buffer_named(fields, infos, owner, reg, fields.len()) {
            Parsed::Done(buf) => fill_fields(infos, owner, reg, buf, infos.len()),
            Parsed::Failed(e) => Parsed::Failed(e),
            Parsed::Malformed => Parsed::Malformed,
        },
        SerialData::Sequence(s) => de_struct_seq_all(infos, owner, reg, s),
        SerialData::Tuple(s) => de_struct_seq_all(infos, owner, reg, s),
        SerialData::TupleStruct { fields, .. } => de_struct_seq_all(infos, owner, reg, fields),
        _ => Parsed::Failed(DeFault::InvalidType { type_path: owner }),
    }
}

/// Reads struct fields in order from the elements, then checks that none is left over.
pub open spec fn de_struct_seq_all(
    infos: Seq<NamedField>,
    owner: &'static str,
    reg: TypeRegistry,
    items: Seq<SerialData>,
) -> Parsed<Seq<(Seq<char>, Data)>>
    decreases items, infos.len() + 1,
{
    match de_struct_seq(infos, owner, reg, items, infos.len()) {
        Parsed::Done(s) => if items.len() > serde_count_named(infos) {
            Parsed::Failed(
                DeFault::InvalidLength {
                    type_path: owner,
                    expected: infos.len() as usize,
                    actual: items.len() as usize,
                },
            )
        } else {
            Parsed::Done(s)
        },
        other => other,
    }
}

/// Reads the elements of the first `n` entries of a sequence, each as a value of the item type.
pub open spec fn de_elems(s: Seq<SerialData>, item: TypeMeta, reg: TypeRegistry, n: nat) -> Parsed<
    Seq<Data>,
>
    decreases s, n,
{
    if n == 0 || n > s.len() {
        Parsed::Done(Seq::empty())
    } else {
        match de_elems(s, item, reg, (n - 1) as nat) {
            Parsed::Done(acc) => match de_spec(s[n - 1], item, reg) {
                Parsed::Done(x) => Parsed::Done(acc.push(x)),
                Parsed::Failed(e) => Parsed::Failed(e),
                Parsed::Malformed => Parsed::Malformed,
            },
            other => other,
        }
    }
}

/// Reads the first `n` map entries, key before value.
pub open spec fn de_entries(
    s: Seq<(SerialData, SerialData)>,
    key: TypeMeta,
    value: TypeMeta,
    reg: TypeRegistry,
    n: nat,
) -> Parsed<Seq<(Data, Data)>>
    decreases s, n,
{
    if n == 0 || n > s.len() {
        Parsed::Done(Seq::empty())
    } else {
        match de_entries(s, key, value, reg, (n - 1) as nat) {
            Parsed::Done(acc) => match de_spec(s[n - 1].0, key, reg) {
                Parsed::Done(k) => match de_spec(s[n - 1].1, value, reg) {
                    Parsed::Done(v) => Parsed::Done(acc.push((k, v))),
                    Parsed::Failed(e) => Parsed::Failed(e),
                    Parsed::Malformed => Parsed::Malformed,
                },
                Parsed::Failed(e) => Parsed::Failed(e),
                Parsed::Malformed => Parsed::Malformed,
            },
            other => other,
        }
    }
}

/// Reads the values of the first `n` entries of a map node into a buffer by field name; a later
/// entry of the same name replaces an earlier one. The buffer is a sequence of distinct names and
/// a sequence of values of the same length.
pub open spec fn buffer_map(
    entries: Seq<(SerialData, SerialData)>,
    infos: Seq<NamedField>,
    owner: &'static str,
    reg: TypeRegistry,
    n: nat,
) -> Parsed<(Seq<Seq<char>>, Seq<Data>)>
    decreases entries, n,
{
    if n == 0 || n > entries.len() {
        Parsed::Done((Seq::empty(), Seq::empty()))
    } else {
        match buffer_map(entries, infos, owner, reg, (n - 1) as nat) {
            Parsed::Done(buf) => match entries[n - 1].0 {
                SerialData::Str(name) => match named_index(infos, name) {
                    Some(fi) => match meta_of(reg, infos[fi].type_id) {
                        Some(fm) => match de_spec(entries[n - 1].1, fm, reg) {
                            Parsed::Done(x) => Parsed::Done(field_put(buf.0, buf.1, name, x)),
                            Parsed::Failed(e) => Parsed::Failed(e),
                            Parsed::Malformed => Parsed::Malformed,
                        },
                        None => Parsed::Failed(DeFault::NoTypeMeta { type_id: infos[fi].type_id }),
                    },
                    None => Parsed::Failed(DeFault::UnknownField { name, type_path: owner }),
                },
                _ => Parsed::Failed(DeFault::InvalidType { type_path: owner }),
            },
            other => other,
        }
    }
}

/// As `buffer_map`, over the fields of a struct node.
pub open spec fn buffer_named(
    fields: Seq<(Seq<char>, SerialData)>,
    infos: Seq<NamedField>,
    owner: &'static str,
    reg: TypeRegistry,
    n: nat,
) -> Parsed<(Seq<Seq<char>>, Seq<Data>)>
    decreases fields, n,
{
    if n == 0 || n > fields.len() {
        Parsed::Done((Seq::empty(), Seq::empty()))
    } else {
        match buffer_named(fields, infos, owner, reg, (n - 1) as nat) {
            Parsed::Done(buf) => {
                let name = fields[n - 1].0;
                match named_index(infos, name) {
                    Some(fi) => match meta_of(reg, infos[fi].type_id) {
                        Some(fm) => match de_spec(fields[n - 1].1, fm, reg) {
                            Parsed::Done(x) => Parsed::Done(field_put(buf.0, buf.1, name, x)),
                            Parsed::Failed(e) => Parsed::Failed(e),
                            Parsed::Malformed => Parsed::Malformed,
                        },
                        None => Parsed::Failed(DeFault::NoTypeMeta { type_id: infos[fi].type_id }),
                    },
                    None => Parsed::Failed(DeFault::UnknownField { name, type_path: owner }),
                }
            },
            other => other,
        }
    }
}

/// The struct fields that the first `n` field infos take, in order, from the buffer: a buffered
/// value is taken out; a skipped field takes its type's default value; any other is missing.
pub open spec fn fill(
    infos: Seq<NamedField>,
    owner: &'static str,
    reg: TypeRegistry,
    buf: (Seq<Seq<char>>, Seq<Data>),
    n: nat,
) -> Parsed<((Seq<Seq<char>>, Seq<Data>), Seq<(Seq<char>, Data)>)>
    decreases n,
{
    if n == 0 || n > infos.len() {
        Parsed::Done((buf, Seq::empty()))
    } else {
        match fill(infos, owner, reg, buf, (n - 1) as nat) {
            Parsed::Done((b, acc)) => {
                let f = infos[n - 1];
                if b.0.contains(f.name@) {
                    let i = choose|i: int| 0 <= i < b.0.len() && b.0[i] == f.name@;
                    Parsed::Done(((b.0.remove(i), b.1.remove(i)), acc.push((f.name@, b.1[i]))))
                } else if f.skip_serde {
                    match default_of(reg, f.type_id) {
                        Some(x) => Parsed::Done((b, acc.push((f.name@, x)))),
                        None => Parsed::Failed(DeFault::NoDefault { type_id: f.type_id, type_path: owner }),
                    }
                } else {
                    Parsed::Failed(DeFault::MissingField { name: f.name, type_path: owner })
                }
            },
            Parsed::Failed(e) => Parsed::Failed(e),
            Parsed::Malformed => Parsed::Malformed,
        }
    }
}

/// The struct fields that all field infos take from the buffer.
pub open spec fn fill_fields(
    infos: Seq<NamedField>,
    owner: &'static str,
    reg: TypeRegistry,
    buf: (Seq<Seq<char>>, Seq<Data>),
    n: nat,
) -> Parsed<Seq<(Seq<char>, Data)>> {
    match fill(infos, owner, reg, buf, n) {
        Parsed::Done((_, acc)) => Parsed::Done(acc),
        Parsed::Failed(e) => Parsed::Failed(e),
        Parsed::Malformed => Parsed::Malformed,
    }
}

/// Reads the fields of the first `n` named field infos from the elements in order: a skipped
/// field takes its type's default value and no element.
pub open spec fn de_struct_seq(
    infos: Seq<NamedField>,
    owner: &'static str,
    reg: TypeRegistry,
    items: Seq<SerialData>,
    n: nat,
) -> Parsed<Seq<(Seq<char>, Data)>>
    decreases items, n,
{
    if n == 0 || n > infos.len() {
        Parsed::Done(Seq::empty())
    } else {
        match de_struct_seq(infos, owner, reg, items, (n - 1) as nat) {
            Parsed::Done(acc) => {
                let f = infos[n - 1];
                if f.skip_serde {
                    match default_of(reg, f.type_id) {
                        Some(x) => Parsed::Done(acc.push((f.name@, x))),
                        None => Parsed::Failed(DeFault::NoDefault { type_id: f.type_id, type_path: owner }),
                    }
                } else {
                    match meta_of(reg, f.type_id) {
                        Some(fm) => {
                            let c = serde_count_named(infos.take(n - 1));
                            if c < items.len() {
                                match de_spec(items[c as int], fm, reg) {
                                    Parsed::Done(x) => Parsed::Done(acc.push((f.name@, x))),
                                    Parsed::Failed(e) => Parsed::Failed(e),
                                    Parsed::Malformed => Parsed::Malformed,
                                }
                            } else {
                                Parsed::Failed(
                                    DeFault::InvalidLength {
                                        type_path: owner,
                                        expected: infos.len() as usize,
                                        actual: (n - 1) as usize,
                                    },
                                )
                            }
                        },
                        None => Parsed::Failed(DeFault::NoTypeMeta { type_id: f.type_id }),
                    }
                }
            },
            other => other,
        }
    }
}

/// Reads the fields of the first `n` unnamed field infos from the elements in order.
pub open spec fn de_tuple(
    infos: Seq<UnnamedField>,
    owner: &'static str,
    reg: TypeRegistry,
    items: Seq<SerialData>,
    n: nat,
) -> Parsed<Seq<Data>>
    decreases items, n,
{
    if n == 0 || n > infos.len() {
        Parsed::Done(Seq::empty())
    } else {
        match de_tuple(infos, owner, reg, items, (n - 1) as nat) {
            Parsed::Done(acc) => {
                let f = infos[n - 1];
                if f.skip_serde {
                    match default_of(reg, f.type_id) {
                        Some(x) => Parsed::Done(acc.push(x)),
                        None => Parsed::Failed(DeFault::NoDefault { type_id: f.type_id, type_path: owner }),
                    }
                } else {
                    match meta_of(reg, f.type_id) {
                        Some(fm) => {
                            let c = serde_count_unnamed(infos.take(n - 1));
                            if c < items.len() {
                                match de_spec(items[c as int], fm, reg) {
                                    Parsed::Done(x) => Parsed::Done(acc.push(x)),
                                    Parsed::Failed(e) => Parsed::Failed(e),
                                    Parsed::Malformed => Parsed::Malformed,
                                }
                            } else {
                                Parsed::Failed(
                                    DeFault::InvalidLength {
                                        type_path: owner,
                                        expected: infos.len() as usize,
                                        actual: (n - 1) as usize,
                                    },
                                )
                            }
                        },
                        None => Parsed::Failed(DeFault::NoTypeMeta { type_id: f.type_id }),
                    }
                }
            },
            other => other,
        }
    }
}

/// The variant of the name: the first that bears it.
pub open spec fn variant_by_name(info: EnumInfo, name: Seq<char>) -> Result<VariantInfo, DeFault> {
    match variant_index_named(info.variants@, name) {
        Some(i) => Ok(info.variants@[i]),
        None => Err(DeFault::NoVariantNamed { name, type_path: info.ty.path }),
    }
}

/// The variant at the index.
pub open spec fn variant_by_index(info: EnumInfo, index: int) -> Result<VariantInfo, DeFault> {
    if index > u32::MAX {
        Err(DeFault::InvalidType { type_path: info.ty.path })
    } else if index < info.variants@.len() {
        Ok(info.variants@[index])
    } else {
        Err(DeFault::NoVariantAt { index: index as u64, type_path: info.ty.path })
    }
}

/// A unit variant read from a node that carries no data.
pub open spec fn de_unit_variant(v: Result<VariantInfo, DeFault>, info: EnumInfo) -> Parsed<Data> {
    match v {
        Ok(VariantInfo::Unit(u)) => Parsed::Done(
            Data::Enum(u.name@, index_named(info, u.name@), VariantData::Unit),
        ),
        Ok(_) => Parsed::Failed(DeFault::InvalidType { type_path: info.ty.path }),
        Err(e) => Parsed::Failed(e),
    }
}

/// Reads an enum: `core::option::Option` from an optional node, any other from a variant node,
/// a variant name or index, or a map of one entry from variant name or index to the data.
pub open spec fn de_enum(d: SerialData, info: EnumInfo, reg: TypeRegistry) -> Parsed<Data>
    decreases d, 1nat,
{
    if is_option(info) {
        match d {
            SerialData::OptionNone => match variant_index_named(info.variants@, "None"@) {
                Some(_) => Parsed::Done(
                    Data::Enum("None"@, index_named(info, "None"@), VariantData::Unit),
                ),
                None => Parsed::Failed(DeFault::NoVariantNamed { name: "None"@, type_path: info.ty.path }),
            },
            SerialData::Unit => match variant_index_named(info.variants@, "None"@) {
                Some(_) => Parsed::Done(
                    Data::Enum("None"@, index_named(info, "None"@), VariantData::Unit),
                ),
                None => Parsed::Failed(DeFault::NoVariantNamed { name: "None"@, type_path: info.ty.path }),
            },
            SerialData::OptionSome(v) => match variant_index_named(info.variants@, "Some"@) {
                Some(i) => match info.variants@[i] {
                    VariantInfo::Tuple(tv) => if tv.fields@.len() == 1 {
                        match meta_of(reg, tv.fields@[0].type_id) {
                            Some(fm) => match de_spec(*v, fm, reg) {
                                Parsed::Done(x) => Parsed::Done(
                                    Data::Enum("Some"@, index_named(info, "Some"@), VariantData::Tuple(seq![x])),
                                ),
                                Parsed::Failed(e) => Parsed::Failed(e),
                                Parsed::Malformed => Parsed::Malformed,
                            },
                            None => Parsed::Failed(DeFault::NoTypeMeta { type_id: tv.fields@[0].type_id }),
                        }
                    } else {
                        Parsed::Failed(DeFault::InvalidType { type_path: info.ty.path })
                    },
                    _ => Parsed::Failed(DeFault::InvalidType { type_path: info.ty.path }),
                },
                None => Parsed::Failed(DeFault::InvalidType { type_path: info.ty.path }),
            },
            _ => Parsed::Failed(DeFault::InvalidType { type_path: info.ty.path }),
        }
    } else {
        match d {
            SerialData::UnitVariant { variant, .. } => de_unit_variant(
                variant_by_name(info, variant),
                info,
            ),
            SerialData::Str(name) => de_unit_variant(variant_by_name(info, name), info),
            SerialData::U64(index) => de_unit_variant(variant_by_index(info, index), info),
            SerialData::NewtypeVariant { variant, value, .. } => match variant_by_name(info, variant) {
                Ok(vinfo) => de_payload(*value, vinfo, info, reg),
                Err(e) => Parsed::Failed(e),
            },
            SerialData::TupleVariant { variant, fields, .. } => match variant_by_name(info, variant) {
                Ok(VariantInfo::Tuple(tv)) => if tv.fields@.len() != 1 {
                    match de_tuple_all(tv.fields@, tv.name, reg, fields) {
                        Parsed::Done(s) => Parsed::Done(Data::Enum(tv.name@, index_named(info, tv.name@), VariantData::Tuple(s))),
                        Parsed::Failed(e) => Parsed::Failed(e),
                        Parsed::Malformed => Parsed::Malformed,
                    }
                } else {
                    Parsed::Failed(DeFault::InvalidType { type_path: info.ty.path })
                },
                Ok(_) => Parsed::Failed(DeFault::InvalidType { type_path: info.ty.path }),
                Err(e) => Parsed::Failed(e),
            },
            SerialData::StructVariant { variant, fields, .. } => match variant_by_name(info, variant) {
                Ok(VariantInfo::Struct(sv)) => match buffer_named(
                    fields,
                    sv.fields@,
                    sv.name,
                    reg,
                    fields.len(),
                ) {
                    Parsed::Done(buf) => match fill_fields(sv.fields@, sv.name, reg, buf, sv.fields@.len()) {
                        Parsed::Done(pairs) => Parsed::Done(
                            Data::Enum(
                                sv.name@,
                                index_named(info, sv.name@),
                                VariantData::Struct(field_fold(pairs).0, field_fold(pairs).1),
                            ),
                        ),
                        Parsed::Failed(e) => Parsed::Failed(e),
                        Parsed::Malformed => Parsed::Malformed,
                    },
                    Parsed::Failed(e) => Parsed::Failed(e),
                    Parsed::Malformed => Parsed::Malformed,
                },
                Ok(_) => Parsed::Failed(DeFault::InvalidType { type_path: info.ty.path }),
                Err(e) => Parsed::Failed(e),
            },
            SerialData::Mapping(entries) => if entries.len() == 1 {
                let chosen = match entries[0].0 {
                    SerialData::Str(name) => variant_by_name(info, name),
                    SerialData::U64(index) => variant_by_index(info, index),
                    _ => Err(DeFault::InvalidType { type_path: info.ty.path }),
                };
                match chosen {
                    Ok(vinfo) => de_payload(entries[0].1, vinfo, info, reg),
                    Err(e) => Parsed::Failed(e),
                }
            } else {
                Parsed::Failed(DeFault::InvalidType { type_path: info.ty.path })
            },
            _ => Parsed::Failed(DeFault::InvalidType { type_path: info.ty.path }),
        }
    }
}

/// Reads the data of the variant from the node that follows its name or index.
pub open spec fn de_payload(n: SerialData, vinfo: VariantInfo, info: EnumInfo, reg: TypeRegistry) -> Parsed<
    Data,
>
    decreases n, 3nat,
{
    match vinfo {
        VariantInfo::Unit(u) => match n {
            SerialData::Unit => Parsed::Done(
                Data::Enum(u.name@, index_named(info, u.name@), VariantData::Unit),
            ),
            _ => Parsed::Failed(DeFault::InvalidType { type_path: info.ty.path }),
        },
        VariantInfo::Struct(sv) => match de_struct(n, sv.fields@, sv.name, reg) {
            Parsed::Done(pairs) => Parsed::Done(
                Data::Enum(
                    sv.name@,
                    index_named(info, sv.name@),
                    VariantData::Struct(field_fold(pairs).0, field_fold(pairs).1),
                ),
            ),
            Parsed::Failed(e) => Parsed::Failed(e),
            Parsed::Malformed => Parsed::Malformed,
        },
        VariantInfo::Tuple(tv) => if tv.fields@.len() == 1 {
            match meta_of(reg, tv.fields@[0].type_id) {
                Some(fm) => match de_spec(n, fm, reg) {
                    Parsed::Done(x) => Parsed::Done(Data::Enum(tv.name@, index_named(info, tv.name@), VariantData::Tuple(seq![x]))),
                    Parsed::Failed(e) => Parsed::Failed(e),
                    Parsed::Malformed => Parsed::Malformed,
                },
                None => Parsed::Failed(DeFault::NoTypeMeta { type_id: tv.fields@[0].type_id }),
            }
        } else {
            match de_tuple_node(n, tv.fields@, tv.name, reg) {
                Parsed::Done(s) => Parsed::Done(Data::Enum(tv.name@, index_named(info, tv.name@), VariantData::Tuple(s))),
                Parsed::Failed(e) => Parsed::Failed(e),
                Parsed::Malformed => Parsed::Malformed,
            }
        },
    }
}

/// What reading comes to, in executable form.
pub enum Read<T> {
    Done(T),
    Failed(DeError),
    Malformed,
}

/// The content of a named value sequence.
pub open spec fn deep_named(s: Seq<(&'static str, Value)>) -> Seq<(Seq<char>, Data)> {
    Seq::new(s.len(), |i: int| (s[i].0@, s[i].1.deep()))
}

/// The content of the outcome of reading one value.
pub open spec fn view_value(r: Read<Value>) -> Parsed<Data> {
    match r {
        Read::Done(v) => Parsed::Done(v.deep()),
        Read::Failed(e) => Parsed::Failed(e.fault()),
        Read::Malformed => Parsed::Malformed,
    }
}

/// The content of the outcome of reading a sequence of values.
pub open spec fn view_values(r: Read<Vec<Value>>) -> Parsed<Seq<Data>> {
    match r {
        Read::Done(v) => Parsed::Done(deep_seq(v@)),
        Read::Failed(e) => Parsed::Failed(e.fault()),
        Read::Malformed => Parsed::Malformed,
    }
}

/// The content of the outcome of reading named values.
pub open spec fn view_named(r: Read<Vec<(&'static str, Value)>>) -> Parsed<Seq<(Seq<char>, Data)>> {
    match r {
        Read::Done(v) => Parsed::Done(deep_named(v@)),
        Read::Failed(e) => Parsed::Failed(e.fault()),
        Read::Malformed => Parsed::Malformed,
    }
}

/// The content of the outcome of reading map entries.
pub open spec fn view_entries(r: Read<Vec<(Value, Value)>>) -> Parsed<Seq<(Data, Data)>> {
    match r {
        Read::Done(v) => Parsed::Done(crate::value::deep_entries(v@)),
        Read::Failed(e) => Parsed::Failed(e.fault()),
        Read::Malformed => Parsed::Malformed,
    }
}

/// The content of the outcome of buffering struct fields by name.
pub open spec fn view_buffer(r: Read<Vec<(String, Value)>>) -> Parsed<(Seq<Seq<char>>, Seq<Data>)> {
    match r {
        Read::Done(v) => Parsed::Done((names_of(v@), deep_fields(v@))),
        Read::Failed(e) => Parsed::Failed(e.fault()),
        Read::Malformed => Parsed::Malformed,
    }
}

proof fn lemma_buf_typed(
    old: Seq<(String, Value)>,
    new: Seq<(String, Value)>,
    name: Seq<char>,
    v: Value,
    infos: Seq<NamedField>,
    reg: TypeRegistry,
)
    requires
        forall|k: int| 0 <= k < old.len() ==> named_typed(old[k].0@, #[trigger] old[k].1, infos, reg),
        named_typed(name, v, infos, reg),
        forall|k: int|
            0 <= k < new.len() ==> (#[trigger] new[k].0@ == name && new[k].1 == v) || old.contains(new[k]),
    ensures
        forall|k: int| 0 <= k < new.len() ==> named_typed(new[k].0@, #[trigger] new[k].1, infos, reg),
{
    assert forall|k: int| 0 <= k < new.len() implies named_typed(new[k].0@, #[trigger] new[k].1, infos, reg) by {
        if !(new[k].0@ == name && new[k].1 == v) {
            let j = choose|j: int| 0 <= j < old.len() && old[j] == new[k];
            assert(named_typed(old[j].0@, old[j].1, infos, reg));
        }
    }
}

proof fn lemma_enum_typed(e: DynamicEnum, info: EnumInfo, reg: TypeRegistry, j: int)
    requires
        0 <= j < info.variants@.len(),
        info.variants@[j].spec_name()@ == e.spec_variant_name(),
        variant_typed(e.spec_variant(), info.variants@[j], reg),
    ensures
        enum_typed(e, info, reg),
{
}

/// Putting a named value in a buffer of distinct names, as `field_put` describes.
fn buf_put(buf: &mut Vec<(String, Value)>, name: String, v: Value)
    requires
        names_distinct(old(buf)@),
    ensures
        names_distinct(final(buf)@),
        (names_of(final(buf)@), deep_fields(final(buf)@)) == field_put(
            names_of(old(buf)@),
            deep_fields(old(buf)@),
            name@,
            v.deep(),
        ),
        forall|k: int|
            0 <= k < final(buf)@.len() ==> (#[trigger] final(buf)@[k].0@ == name@ && final(buf)@[k].1 == v)
                || old(buf)@.contains(final(buf)@[k]),
{
    broadcast use crate::value::group_deep;

    let ghost old_buf = buf@;
    match crate::ops::struct_ops::position_of(buf, name.as_str()) {
        Some(i) => {
            let old_name = buf[i].0.clone();
            buf.set(i, (old_name, v));
            proof {
                assert(names_of(old_buf)[i as int] == name@);
                let j = choose|j: int|
                    0 <= j < names_of(old_buf).len() && names_of(old_buf)[j] == name@;
                assert(names_of(old_buf)[j] == old_buf[j].0@);
                assert(j == i);
                assert(names_of(buf@) =~= names_of(old_buf));
                assert(deep_fields(buf@) =~= deep_fields(old_buf).update(i as int, v.deep()));
                assert(names_distinct(buf@)) by {
                    assert forall|a: int, b: int|
                        0 <= a < buf@.len() && 0 <= b < buf@.len() && a != b implies buf@[a].0@
                        != buf@[b].0@ by {
                        assert(names_of(buf@)[a] == buf@[a].0@);
                        assert(names_of(buf@)[b] == buf@[b].0@);
                    }
                }
            }
        },
        None => {
            let ghost nm = name@;
            buf.push((name, v));
            proof {
                assert(!names_of(old_buf).contains(nm)) by {
                    if names_of(old_buf).contains(nm) {
                        let j = choose|j: int| 0 <= j < names_of(old_buf).len() && names_of(old_buf)[j] == nm;
                        assert(old_buf[j].0@ == nm);
                    }
                }
                assert(names_of(buf@) =~= names_of(old_buf).push(nm));
                assert(deep_fields(buf@) =~= deep_fields(old_buf).push(v.deep()));
            }
        },
    }
}

/// Takes the value of the name out of a buffer of distinct names.
fn buf_take(buf: &mut Vec<(String, Value)>, name: &str) -> (r: Option<Value>)
    requires
        names_distinct(old(buf)@),
    ensures
        names_distinct(final(buf)@),
        names_of(old(buf)@).contains(name@) ==> {
            let i = choose|i: int|
                0 <= i < names_of(old(buf)@).len() && names_of(old(buf)@)[i] == name@;
            &&& r matches Some(v) && v.deep() == deep_fields(old(buf)@)[i]
            &&& names_of(final(buf)@) == names_of(old(buf)@).remove(i)
            &&& deep_fields(final(buf)@) == deep_fields(old(buf)@).remove(i)
        },
        !names_of(old(buf)@).contains(name@) ==> r is None && final(buf)@ == old(buf)@,
        r matches Some(v) ==> exists|i: int|
            0 <= i < old(buf)@.len() && #[trigger] old(buf)@[i].1 == v && old(buf)@[i].0@ == name@,
        forall|k: int| 0 <= k < final(buf)@.len() ==> old(buf)@.contains(#[trigger] final(buf)@[k]),
{
    broadcast use crate::value::group_deep;

    let ghost old_buf = buf@;
    match crate::ops::struct_ops::position_of(buf, name) {
        Some(i) => {
            let (_, v) = buf.remove(i);
            proof {
                assert(names_of(old_buf)[i as int] == name@);
                let j = choose|j: int|
                    0 <= j < names_of(old_buf).len() && names_of(old_buf)[j] == name@;
                assert(names_of(old_buf)[j] == old_buf[j].0@);
                assert(j == i);
                assert(names_of(buf@) =~= names_of(old_buf).remove(i as int));
                assert(deep_fields(buf@) =~= deep_fields(old_buf).remove(i as int));
                assert(names_distinct(buf@)) by {
                    assert forall|a: int, b: int|
                        0 <= a < buf@.len() && 0 <= b < buf@.len() && a != b implies buf@[a].0@
                        != buf@[b].0@ by {
                        let sa = if a < i { a } else { a + 1 };
                        let sb = if b < i { b } else { b + 1 };
                        assert(buf@[a] == old_buf[sa]);
                        assert(buf@[b] == old_buf[sb]);
                    }
                }
            }
            Some(v)
        },
        None => {
            proof {
                assert(!names_of(old_buf).contains(name@)) by {
                    if names_of(old_buf).contains(name@) {
                        let j = choose|j: int| 0 <= j < names_of(old_buf).len() && names_of(old_buf)[j] == name@;
                        assert(old_buf[j].0@ == name@);
                    }
                }
            }
            None
        },
    }
}

pub(crate) proof fn lemma_field_fold_push(acc: Seq<(Seq<char>, Data)>, name: Seq<char>, d: Data)
    ensures
        field_fold(acc.push((name, d))) == field_put(field_fold(acc).0, field_fold(acc).1, name, d),
{
    assert(acc.push((name, d)).drop_last() =~= acc);
}

/// The content of the outcome of reading a map.
pub open spec fn view_map(r: Read<DynamicMap>, p: Parsed<Seq<(Data, Data)>>) -> bool {
    match p {
        Parsed::Done(s) => r matches Read::Done(m) && deep_entries(m.spec_entries()) == map_fold(s)
            && m.spec_info() is None,
        Parsed::Failed(e) => r matches Read::Failed(x) && x.fault() == e,
        Parsed::Malformed => r is Malformed,
    }
}

/// The content of the outcome of reading a set.
pub open spec fn view_set(r: Read<DynamicSet>, p: Parsed<Seq<Data>>) -> bool {
    match p {
        Parsed::Done(s) => r matches Read::Done(m) && deep_seq(m.spec_values()) == set_fold(s)
            && m.spec_info() is None,
        Parsed::Failed(e) => r matches Read::Failed(x) && x.fault() == e,
        Parsed::Malformed => r is Malformed,
    }
}

/// The content of the outcome of reading struct fields, put in order.
pub open spec fn view_struct(r: Read<Vec<(String, Value)>>, p: Parsed<Seq<(Seq<char>, Data)>>) -> bool {
    match p {
        Parsed::Done(pairs) => r matches Read::Done(buf) && names_distinct(buf@) && (
        names_of(buf@), deep_fields(buf@)) == field_fold(pairs),
        Parsed::Failed(e) => r matches Read::Failed(x) && x.fault() == e,
        Parsed::Malformed => r is Malformed,
    }
}

/// The content of the outcome of reading an enum.
pub open spec fn view_enum(r: Read<DynamicEnum>) -> Parsed<Data> {
    match r {
        Read::Done(e) => Parsed::Done(Value::Enum(e).deep()),
        Read::Failed(e) => Parsed::Failed(e.fault()),
        Read::Malformed => Parsed::Malformed,
    }
}

/// The content of a variant lookup.
pub open spec fn view_variant(r: Result<VariantInfo, DeError>) -> Result<VariantInfo, DeFault> {
    match r {
        Ok(v) => Ok(v),
        Err(e) => Err(e.fault()),
    }
}

proof fn lemma_map_put_link(old: Seq<(Value, Value)>, new: Seq<(Value, Value)>, k: Value, v: Value)
    requires
        keys_distinct(old),
        match key_position(old, k.deep()) {
            Some(i) => new == old.update(i, (old[i].0, v)),
            None => new == old.push((k, v)),
        },
    ensures
        deep_entries(new) == map_put(deep_entries(old), k.deep(), v.deep()),
{
    broadcast use crate::value::group_deep;

    let d = deep_entries(old);
    match key_position(old, k.deep()) {
        Some(i) => {
            assert(same_content(d[i].0, k.deep()));
            let j = choose|j: int| 0 <= j < d.len() && same_content(d[j].0, k.deep());
            assert(d[j].0 == old[j].0.deep());
            if j != i {
                lemma_same_content_via(old[j].0.deep(), old[i].0.deep(), k.deep());
            }
            assert(j == i);
            assert(deep_entries(new) =~= d.update(i, (d[i].0, v.deep())));
        },
        None => {
            assert(!(exists|j: int| 0 <= j < d.len() && same_content(d[j].0, k.deep()))) by {
                if exists|j: int| 0 <= j < d.len() && same_content(d[j].0, k.deep()) {
                    let j = choose|j: int| 0 <= j < d.len() && same_content(d[j].0, k.deep());
                    assert(same_content(old[j].0.deep(), k.deep()));
                }
            }
            assert(deep_entries(new) =~= d.push((k.deep(), v.deep())));
        },
    }
}

proof fn lemma_set_put_link(old: Seq<Value>, new: Seq<Value>, v: Value)
    requires
        values_distinct(old),
        match value_position(old, v.deep()) {
            Some(i) => new == old.update(i, v),
            None => new == old.push(v),
        },
    ensures
        deep_seq(new) == set_put(deep_seq(old), v.deep()),
{
    broadcast use crate::value::group_deep;

    let d = deep_seq(old);
    match value_position(old, v.deep()) {
        Some(i) => {
            assert(same_content(d[i], v.deep()));
            let j = choose|j: int| 0 <= j < d.len() && same_content(d[j], v.deep());
            assert(d[j] == old[j].deep());
            if j != i {
                lemma_same_content_via(old[j].deep(), old[i].deep(), v.deep());
            }
            assert(j == i);
            assert(deep_seq(new) =~= d.update(i, v.deep()));
        },
        None => {
            assert(!(exists|j: int| 0 <= j < d.len() && same_content(d[j], v.deep()))) by {
                if exists|j: int| 0 <= j < d.len() && same_content(d[j], v.deep()) {
                    let j = choose|j: int| 0 <= j < d.len() && same_content(d[j], v.deep());
                    assert(same_content(old[j].deep(), v.deep()));
                }
            }
            assert(deep_seq(new) =~= d.push(v.deep()));
        },
    }
}

pub(crate) proof fn lemma_map_fold_push(acc: Seq<(Data, Data)>, k: Data, v: Data)
    ensures
        map_fold(acc.push((k, v))) == map_put(map_fold(acc), k, v),
{
    assert(acc.push((k, v)).drop_last() =~= acc);
}

pub(crate) proof fn lemma_set_fold_push(acc: Seq<Data>, v: Data)
    ensures
        set_fold(acc.push(v)) == set_put(set_fold(acc), v),
{
    assert(acc.push(v).drop_last() =~= acc);
}

pub(crate) proof fn lemma_first_variant_unique(vs: Seq<VariantInfo>, name: Seq<char>, i: int, j: int)
    requires
        crate::info::first_variant(vs, name, i),
        crate::info::first_variant(vs, name, j),
    ensures
        i == j,
{
    if i < j {
        assert(vs[i].spec_name()@ != name);
    }
    if j < i {
        assert(vs[j].spec_name()@ != name);
    }
}

pub(crate) proof fn lemma_first_named_unique(fs: Seq<NamedField>, name: Seq<char>, i: int, j: int)
    requires
        first_named(fs, name, i),
        first_named(fs, name, j),
    ensures
        i == j,
{
    if i < j {
        assert(fs[i].name@ != name);
    }
    if j < i {
        assert(fs[j].name@ != name);
    }
}

proof fn lemma_elems_stuck(s: Seq<SerialData>, item: TypeMeta, reg: TypeRegistry, k: nat, m: nat)
    requires
        k <= m <= s.len(),
        !(de_elems(s, item, reg, k) is Done),
    ensures
        de_elems(s, item, reg, m) == de_elems(s, item, reg, k),
    decreases m - k,
{
    if m > k {
        lemma_elems_stuck(s, item, reg, k, (m - 1) as nat);
    }
}

proof fn lemma_entries_stuck(
    s: Seq<(SerialData, SerialData)>,
    key: TypeMeta,
    value: TypeMeta,
    reg: TypeRegistry,
    k: nat,
    m: nat,
)
    requires
        k <= m <= s.len(),
        !(de_entries(s, key, value, reg, k) is Done),
    ensures
        de_entries(s, key, value, reg, m) == de_entries(s, key, value, reg, k),
    decreases m - k,
{
    if m > k {
        lemma_entries_stuck(s, key, value, reg, k, (m - 1) as nat);
    }
}

proof fn lemma_tuple_stuck(
    infos: Seq<UnnamedField>,
    owner: &'static str,
    reg: TypeRegistry,
    items: Seq<SerialData>,
    k: nat,
    m: nat,
)
    requires
        k <= m <= infos.len(),
        !(de_tuple(infos, owner, reg, items, k) is Done),
    ensures
        de_tuple(infos, owner, reg, items, m) == de_tuple(infos, owner, reg, items, k),
    decreases m - k,
{
    if m > k {
        lemma_tuple_stuck(infos, owner, reg, items, k, (m - 1) as nat);
    }
}

proof fn lemma_struct_seq_stuck(
    infos: Seq<NamedField>,
    owner: &'static str,
    reg: TypeRegistry,
    items: Seq<SerialData>,
    k: nat,
    m: nat,
)
    requires
        k <= m <= infos.len(),
        !(de_struct_seq(infos, owner, reg, items, k) is Done),
    ensures
        de_struct_seq(infos, owner, reg, items, m) == de_struct_seq(infos, owner, reg, items, k),
    decreases m - k,
{
    if m > k {
        lemma_struct_seq_stuck(infos, owner, reg, items, k, (m - 1) as nat);
    }
}

proof fn lemma_buffer_map_stuck(
    entries: Seq<(SerialData, SerialData)>,
    infos: Seq<NamedField>,
    owner: &'static str,
    reg: TypeRegistry,
    k: nat,
    m: nat,
)
    requires
        k <= m <= entries.len(),
        !(buffer_map(entries, infos, owner, reg, k) is Done),
    ensures
        buffer_map(entries, infos, owner, reg, m) == buffer_map(entries, infos, owner, reg, k),
    decreases m - k,
{
    if m > k {
        lemma_buffer_map_stuck(entries, infos, owner, reg, k, (m - 1) as nat);
    }
}

proof fn lemma_buffer_named_stuck(
    fields: Seq<(Seq<char>, SerialData)>,
    infos: Seq<NamedField>,
    owner: &'static str,
    reg: TypeRegistry,
    k: nat,
    m: nat,
)
    requires
        k <= m <= fields.len(),
        !(buffer_named(fields, infos, owner, reg, k) is Done),
    ensures
        buffer_named(fields, infos, owner, reg, m) == buffer_named(fields, infos, owner, reg, k),
    decreases m - k,
{
    if m > k {
        lemma_buffer_named_stuck(fields, infos, owner, reg, k, (m - 1) as nat);
    }
}

proof fn lemma_fill_stuck(
    infos: Seq<NamedField>,
    owner: &'static str,
    reg: TypeRegistry,
    buf: (Seq<Seq<char>>, Seq<Data>),
    k: nat,
    m: nat,
)
    requires
        k <= m <= infos.len(),
        !(fill(infos, owner, reg, buf, k) is Done),
    ensures
        fill(infos, owner, reg, buf, m) == fill(infos, owner, reg, buf, k),
    decreases m - k,
{
    if m > k {
        lemma_fill_stuck(infos, owner, reg, buf, k, (m - 1) as nat);
    }
}

pub(crate) proof fn lemma_count_unnamed_step(infos: Seq<UnnamedField>, i: int)
    requires
        0 <= i < infos.len(),
    ensures
        serde_count_unnamed(infos.take(i + 1)) == serde_count_unnamed(infos.take(i)) + if infos[i].skip_serde {
            0nat
        } else {
            1nat
        },
        serde_count_unnamed(infos.take(i)) <= i,
    decreases i,
{
    assert(infos.take(i + 1).drop_last() =~= infos.take(i));
    if i > 0 {
        lemma_count_unnamed_step(infos, i - 1);
    } else {
        assert(infos.take(0) =~= Seq::<UnnamedField>::empty());
    }
}

pub(crate) proof fn lemma_count_named_step(infos: Seq<NamedField>, i: int)
    requires
        0 <= i < infos.len(),
    ensures
        serde_count_named(infos.take(i + 1)) == serde_count_named(infos.take(i)) + if infos[i].skip_serde {
            0nat
        } else {
            1nat
        },
        serde_count_named(infos.take(i)) <= i,
    decreases i,
{
    assert(infos.take(i + 1).drop_last() =~= infos.take(i));
    if i > 0 {
        lemma_count_named_step(infos, i - 1);
    } else {
        assert(infos.take(0) =~= Seq::<NamedField>::empty());
    }
}

/// The default value of the type, if its registration offers one.
fn default_value(reg: &TypeRegistry, id: TypeId) -> (r: Option<Value>)
    ensures
        match default_of(*reg, id) {
            Some(x) => r matches Some(v) && v.deep() == x,
            None => r is None,
        },
        r matches Some(v) ==> default_marks(*reg, id) == Some(v.marks()),
{
    match reg.get(id) {
        Some(m) => match m.get_default() {
            Some(d) => Some(d.default()),
            None => None,
        },
        None => None,
    }
}

/// An enum value of the variant of the name, at the index the enum gives that name.
fn enum_of(info: &EnumInfo, name: &'static str, variant: DynamicVariant) -> (r: DynamicEnum)
    ensures
        Value::Enum(r).deep() == Data::Enum(name@, index_named(*info, name@), deep_variant(variant)),
        r.spec_info() is None,
        r.spec_variant_name() == name@,
        r.spec_variant() == variant,
{
    let index = match info.index_of(name) {
        Some(i) => {
            proof {
                let j = choose|j: int| crate::info::first_variant(info.variants@, name@, j);
                lemma_first_variant_unique(info.variants@, name@, j, i as int);
            }
            i
        },
        None => {
            proof {
                if exists|j: int| crate::info::first_variant(info.variants@, name@, j) {
                    let j = choose|j: int| crate::info::first_variant(info.variants@, name@, j);
                    assert(info.variants@[j].spec_name()@ == name@);
                }
            }
            0
        },
    };
    DynamicEnum::new_with_index(index, String::from_str(name), variant)
}

/// Reads data as a value of the registered type; see `de_spec`.
pub fn de_value(data: &Serial, meta: &TypeMeta, reg: &TypeRegistry) -> (r: Read<Value>)
    ensures
        view_value(r) == de_spec(data.data(), *meta, *reg),
        r matches Read::Done(v) ==> match meta.spec_deserialize() {
            Some(ds) => v.spec_ty_id() == ds.spec_target(),
            None => v.spec_represented() == Some(meta.spec_info()),
        },
        r matches Read::Done(v) ==> typed_by(v, *meta, *reg),
    decreases data, 2nat,
{
    match meta.get_deserialize() {
        Some(ds) => {
            return match ds.deserialize(data) {
                Ok(v) => Read::Done(v),
                Err(e) => Read::Failed(e),
            };
        },
        None => {},
    }
    let info = meta.type_info();
    match info {
        TypeInfo::Struct(si) => match de_struct_x(data, si.fields, si.ty.path, reg) {
            Read::Done(buf) => {
                let mut st = DynamicStruct::from_distinct_fields(buf);
                st.set_type_info(Some(info));
                assert(typed_by(Value::Struct(st), *meta, *reg));
                Read::Done(Value::Struct(st))
            },
            Read::Failed(e) => Read::Failed(e),
            Read::Malformed => Read::Malformed,
        },
        TypeInfo::TupleStruct(ti) => match de_tuple_struct_x(data, ti.fields, ti.ty.path, reg) {
            Read::Done(v) => {
                let mut t = DynamicTupleStruct::from_fields(v);
                t.set_type_info(Some(info));
                assert(typed_by(Value::TupleStruct(t), *meta, *reg));
                Read::Done(Value::TupleStruct(t))
            },
            Read::Failed(e) => Read::Failed(e),
            Read::Malformed => Read::Malformed,
        },
        TypeInfo::Tuple(ti) => match de_tuple_node_x(data, ti.fields, ti.ty.path, reg) {
            Read::Done(v) => {
                let mut t = DynamicTuple::from_fields(v);
                t.set_type_info(Some(info));
                assert(typed_by(Value::Tuple(t), *meta, *reg));
                Read::Done(Value::Tuple(t))
            },
            Read::Failed(e) => Read::Failed(e),
            Read::Malformed => Read::Malformed,
        },
        TypeInfo::List(li) => match reg.get(li.item) {
            Some(im) => match de_seq_node_x(data, im, li.ty.path, reg) {
                Read::Done(v) => {
                    let mut l = DynamicList::from_values(v);
                    l.set_type_info(Some(info));
                    assert(typed_by(Value::List(l), *meta, *reg));
                    Read::Done(Value::List(l))
                },
                Read::Failed(e) => Read::Failed(e),
                Read::Malformed => Read::Malformed,
            },
            None => Read::Failed(DeError::NoTypeMeta { type_id: li.item }),
        },
        TypeInfo::Array(ai) => match reg.get(ai.item) {
            Some(im) => match de_seq_node_x(data, im, ai.ty.path, reg) {
                Read::Done(v) => {
                    if v.len() != ai.len {
                        proof {
                            broadcast use crate::value::group_deep;

                        }
                        return Read::Failed(
                            DeError::InvalidLength { type_path: ai.ty.path, expected: ai.len, actual: v.len() },
                        );
                    }
                    let mut a = DynamicArray::from_values(v);
                    a.set_type_info(Some(info));
                    assert(typed_by(Value::Array(a), *meta, *reg));
                    Read::Done(Value::Array(a))
                },
                Read::Failed(e) => Read::Failed(e),
                Read::Malformed => Read::Malformed,
            },
            None => Read::Failed(DeError::NoTypeMeta { type_id: ai.item }),
        },
        TypeInfo::MapLike(mi) => match reg.get(mi.key) {
            Some(km) => match reg.get(mi.value) {
                Some(vm) => match data {
                    Serial::Mapping(entries) => {
                        proof {
                            broadcast use crate::serde::serial::group_serial;

                        }
                        let out = de_map_entries_x(entries, km, vm, reg);
                        match out {
                            Read::Done(mut m) => {
                                m.set_type_info(Some(info));
                                assert(typed_by(Value::MapLike(m), *meta, *reg));
                                Read::Done(Value::MapLike(m))
                            },
                            Read::Failed(e) => Read::Failed(e),
                            Read::Malformed => Read::Malformed,
                        }
                    },
                    _ => Read::Failed(DeError::InvalidType { type_path: mi.ty.path }),
                },
                None => Read::Failed(DeError::NoTypeMeta { type_id: mi.value }),
            },
            None => Read::Failed(DeError::NoTypeMeta { type_id: mi.key }),
        },
        TypeInfo::SetLike(si) => match reg.get(si.value) {
            Some(im) => match de_set_node_x(data, im, si.ty.path, reg) {
                Read::Done(mut st) => {
                    st.set_type_info(Some(info));
                    assert(typed_by(Value::SetLike(st), *meta, *reg));
                    Read::Done(Value::SetLike(st))
                },
                Read::Failed(e) => Read::Failed(e),
                Read::Malformed => Read::Malformed,
            },
            None => Read::Failed(DeError::NoTypeMeta { type_id: si.value }),
        },
        TypeInfo::Enum(ei) => match de_enum_x(data, ei, reg) {
            Read::Done(mut e) => {
                let ghost e0 = e;
                e.set_type_info(Some(info));
                proof {
                    let j = choose|j: int|
                        0 <= j < ei.variants@.len() && #[trigger] ei.variants@[j].spec_name()@ == e0.spec_variant_name()
                            && variant_typed(e0.spec_variant(), ei.variants@[j], *reg);
                    lemma_enum_typed(e, ei, *reg, j);
                }
                assert(typed_by(Value::Enum(e), *meta, *reg));
                Read::Done(Value::Enum(e))
            },
            Read::Failed(e) => Read::Failed(e),
            Read::Malformed => Read::Malformed,
        },
        TypeInfo::Opaque(oi) => Read::Failed(DeError::NotDeserializable { type_path: oi.ty.path }),
    }
}

/// Reads the elements of a sequence node; see `de_seq_node`.
fn de_seq_node_x(data: &Serial, item: &TypeMeta, owner: &'static str, reg: &TypeRegistry) -> (r: Read<
    Vec<Value>,
>)
    ensures
        view_values(r) == de_seq_node(data.data(), *item, owner, *reg),
        r matches Read::Done(vs) ==> forall|i: int| 0 <= i < vs@.len() ==> typed_by(#[trigger] vs@[i], *item, *reg),
    decreases data, 1nat,
{
    broadcast use crate::serde::serial::group_serial;
    broadcast use vstd::std_specs::vec::axiom_vec_decreases_to_view;

    match data {
        Serial::Sequence(v) => de_elems_x(v, item, reg),
        Serial::Tuple(v) => de_elems_x(v, item, reg),
        Serial::TupleStruct { fields, .. } => de_elems_x(fields, item, reg),
        _ => Read::Failed(DeError::InvalidType { type_path: owner }),
    }
}

/// Reads the elements of a sequence node into a set.
fn de_set_node_x(data: &Serial, item: &TypeMeta, owner: &'static str, reg: &TypeRegistry) -> (r: Read<
    DynamicSet,
>)
    ensures
        view_set(r, de_seq_node(data.data(), *item, owner, *reg)),
        r matches Read::Done(st) ==> forall|i: int|
            0 <= i < st.spec_values().len() ==> typed_by(#[trigger] st.spec_values()[i], *item, *reg),
    decreases data, 1nat,
{
    broadcast use crate::serde::serial::group_serial;
    broadcast use vstd::std_specs::vec::axiom_vec_decreases_to_view;

    match data {
        Serial::Sequence(v) => de_set_elems_x(v, item, reg),
        Serial::Tuple(v) => de_set_elems_x(v, item, reg),
        Serial::TupleStruct { fields, .. } => de_set_elems_x(fields, item, reg),
        _ => Read::Failed(DeError::InvalidType { type_path: owner }),
    }
}

/// Reads each element as a value of the item type; see `de_elems`.
fn de_elems_x(items: &Vec<Serial>, item: &TypeMeta, reg: &TypeRegistry) -> (r: Read<Vec<Value>>)
    ensures
        view_values(r) == de_elems(serial_seq(items@), *item, *reg, items@.len()),
        r matches Read::Done(vs) ==> forall|i: int| 0 <= i < vs@.len() ==> typed_by(#[trigger] vs@[i], *item, *reg),
    decreases items@, 0nat,
{
    broadcast use crate::serde::serial::group_serial;
    broadcast use crate::value::group_deep;

    let ghost d = serial_seq(items@);
    let mut out: Vec<Value> = Vec::new();
    let mut i: usize = 0;
    assert(deep_seq(out@) =~= Seq::empty());
    while i < items.len()
        invariant
            i <= items@.len(),
            d == serial_seq(items@),
            d.len() == items@.len(),
            de_elems(d, *item, *reg, i as nat) == Parsed::Done(deep_seq(out@)),
            forall|k: int| 0 <= k < out@.len() ==> typed_by(#[trigger] out@[k], *item, *reg),
        decreases items@.len() - i,
    {
        assert(d[i as int] == items@[i as int].data());
        match de_value(&items[i], item, reg) {
            Read::Done(x) => {
                let ghost before = out@;
                out.push(x);
                assert(deep_seq(out@) =~= deep_seq(before).push(x.deep()));
                assert forall|k: int| 0 <= k < out@.len() implies typed_by(#[trigger] out@[k], *item, *reg) by {
                    if k < before.len() {
                        assert(out@[k] == before[k]);
                    }
                }
            },
            Read::Failed(e) => {
                proof {
                    lemma_elems_stuck(d, *item, *reg, (i + 1) as nat, d.len());
                }
                return Read::Failed(e);
            },
            Read::Malformed => {
                proof {
                    lemma_elems_stuck(d, *item, *reg, (i + 1) as nat, d.len());
                }
                return Read::Malformed;
            },
        }
        i = i + 1;
    }
    Read::Done(out)
}

/// Reads each element as a value of the item type and puts it in a set, in order.
fn de_set_elems_x(items: &Vec<Serial>, item: &TypeMeta, reg: &TypeRegistry) -> (r: Read<DynamicSet>)
    ensures
        view_set(r, de_elems(serial_seq(items@), *item, *reg, items@.len())),
        r matches Read::Done(st) ==> forall|i: int|
            0 <= i < st.spec_values().len() ==> typed_by(#[trigger] st.spec_values()[i], *item, *reg),
    decreases items@, 0nat,
{
    broadcast use crate::serde::serial::group_serial;
    broadcast use crate::value::group_deep;

    let ghost d = serial_seq(items@);
    let ghost mut acc: Seq<Data> = Seq::empty();
    let mut out = DynamicSet::new();
    let mut i: usize = 0;
    assert(deep_seq(out.spec_values()) =~= Seq::empty());
    while i < items.len()
        invariant
            i <= items@.len(),
            d == serial_seq(items@),
            d.len() == items@.len(),
            de_elems(d, *item, *reg, i as nat) == Parsed::Done(acc),
            deep_seq(out.spec_values()) == set_fold(acc),
            out.spec_info() is None,
            forall|k: int|
                0 <= k < out.spec_values().len() ==> typed_by(#[trigger] out.spec_values()[k], *item, *reg),
        decreases items@.len() - i,
    {
        assert(d[i as int] == items@[i as int].data());
        match de_value(&items[i], item, reg) {
            Read::Done(x) => {
                let ghost before = out.spec_values();
                let ghost xd = x.deep();
                let ghost xx = x;
                out.check_values();
                out.extend_boxed(x);
                proof {
                    assert forall|k: int| 0 <= k < out.spec_values().len() implies typed_by(
                        #[trigger] out.spec_values()[k],
                        *item,
                        *reg,
                    ) by {
                        match value_position(before, xd) {
                            Some(j) => {
                                if k != j {
                                    assert(out.spec_values()[k] == before[k]);
                                }
                            },
                            None => {
                                if k < before.len() {
                                    assert(out.spec_values()[k] == before[k]);
                                }
                            },
                        }
                    }
                    lemma_set_put_link(before, out.spec_values(), x);
                    lemma_set_fold_push(acc, xd);
                    acc = acc.push(xd);
                }
            },
            Read::Failed(e) => {
                proof {
                    lemma_elems_stuck(d, *item, *reg, (i + 1) as nat, d.len());
                }
                return Read::Failed(e);
            },
            Read::Malformed => {
                proof {
                    lemma_elems_stuck(d, *item, *reg, (i + 1) as nat, d.len());
                }
                return Read::Malformed;
            },
        }
        i = i + 1;
    }
    Read::Done(out)
}

/// Reads each entry, key before value, and puts it in a map, in order.
fn de_map_entries_x(
    entries: &Vec<(Serial, Serial)>,
    key: &TypeMeta,
    value: &TypeMeta,
    reg: &TypeRegistry,
) -> (r: Read<DynamicMap>)
    ensures
        view_map(r, de_entries(serial_entries(entries@), *key, *value, *reg, entries@.len())),
        r matches Read::Done(m) ==> forall|i: int|
            0 <= i < m.spec_entries().len() ==> {
                &&& typed_by((#[trigger] m.spec_entries()[i]).0, *key, *reg)
                &&& typed_by(m.spec_entries()[i].1, *value, *reg)
            },
    decreases entries@, 0nat,
{
    broadcast use crate::serde::serial::group_serial;
    broadcast use crate::value::group_deep;

    let ghost d = serial_entries(entries@);
    let ghost mut acc: Seq<(Data, Data)> = Seq::empty();
    let mut out = DynamicMap::new();
    let mut i: usize = 0;
    assert(deep_entries(out.spec_entries()) =~= Seq::empty());
    while i < entries.len()
        invariant
            i <= entries@.len(),
            d == serial_entries(entries@),
            d.len() == entries@.len(),
            de_entries(d, *key, *value, *reg, i as nat) == Parsed::Done(acc),
            deep_entries(out.spec_entries()) == map_fold(acc),
            out.spec_info() is None,
            forall|k: int|
                0 <= k < out.spec_entries().len() ==> {
                    &&& typed_by((#[trigger] out.spec_entries()[k]).0, *key, *reg)
                    &&& typed_by(out.spec_entries()[k].1, *value, *reg)
                },
        decreases entries@.len() - i,
    {
        assert(d[i as int] == (entries@[i as int].0.data(), entries@[i as int].1.data()));
        let k = match de_value(&entries[i].0, key, reg) {
            Read::Done(k) => k,
            Read::Failed(e) => {
                proof {
                    lemma_entries_stuck(d, *key, *value, *reg, (i + 1) as nat, d.len());
                }
                return Read::Failed(e);
            },
            Read::Malformed => {
                proof {
                    lemma_entries_stuck(d, *key, *value, *reg, (i + 1) as nat, d.len());
                }
                return Read::Malformed;
            },
        };
        match de_value(&entries[i].1, value, reg) {
            Read::Done(v) => {
                let ghost before = out.spec_entries();
                let ghost kd = k.deep();
                let ghost vd = v.deep();
                out.check_keys();
                let ghost kk = k;
                let ghost vv = v;
                out.extend_boxed(k, v);
                proof {
                    assert forall|k2: int| 0 <= k2 < out.spec_entries().len() implies {
                        &&& typed_by((#[trigger] out.spec_entries()[k2]).0, *key, *reg)
                        &&& typed_by(out.spec_entries()[k2].1, *value, *reg)
                    } by {
                        match key_position(before, kd) {
                            Some(j) => {
                                if k2 != j {
                                    assert(out.spec_entries()[k2] == before[k2]);
                                } else {
                                    assert(out.spec_entries()[k2] == (before[j].0, vv));
                                }
                            },
                            None => {
                                if k2 < before.len() {
                                    assert(out.spec_entries()[k2] == before[k2]);
                                } else {
                                    assert(out.spec_entries()[k2] == (kk, vv));
                                }
                            },
                        }
                    }
                    lemma_map_put_link(before, out.spec_entries(), kk, vv);
                    lemma_map_fold_push(acc, kd, vd);
                    acc = acc.push((kd, vd));
                }
            },
            Read::Failed(e) => {
                proof {
                    lemma_entries_stuck(d, *key, *value, *reg, (i + 1) as nat, d.len());
                }
                return Read::Failed(e);
            },
            Read::Malformed => {
                proof {
                    lemma_entries_stuck(d, *key, *value, *reg, (i + 1) as nat, d.len());
                }
                return Read::Malformed;
            },
        }
        i = i + 1;
    }
    Read::Done(out)
}

/// Reads a sequence node as the fields of a tuple-like type; see `de_tuple_node`.
fn de_tuple_node_x(
    data: &Serial,
    infos: &'static [UnnamedField],
    owner: &'static str,
    reg: &TypeRegistry,
) -> (r: Read<Vec<Value>>)
    ensures
        view_values(r) == de_tuple_node(data.data(), infos@, owner, *reg),
        r matches Read::Done(vs) ==> vs@.len() == infos@.len() && forall|i: int|
            0 <= i < vs@.len() ==> unnamed_typed(#[trigger] vs@[i], infos@[i], *reg),
    decreases data, 1nat,
{
    broadcast use vstd::std_specs::vec::axiom_vec_decreases_to_view;

    match data {
        Serial::Sequence(v) => de_tuple_all_x(infos, owner, reg, v),
        Serial::Tuple(v) => de_tuple_all_x(infos, owner, reg, v),
        Serial::TupleStruct { fields, .. } => de_tuple_all_x(infos, owner, reg, fields),
        _ => Read::Failed(DeError::InvalidType { type_path: owner }),
    }
}

/// Reads the fields of a tuple-like type, then checks that no element is left; see
/// `de_tuple_all`.
fn de_tuple_all_x(
    infos: &'static [UnnamedField],
    owner: &'static str,
    reg: &TypeRegistry,
    items: &Vec<Serial>,
) -> (r: Read<Vec<Value>>)
    ensures
        view_values(r) == de_tuple_all(infos@, owner, *reg, serial_seq(items@)),
        r matches Read::Done(vs) ==> vs@.len() == infos@.len() && forall|i: int|
            0 <= i < vs@.len() ==> unnamed_typed(#[trigger] vs@[i], infos@[i], *reg),
    decreases items@, 1nat,
{
    broadcast use crate::serde::serial::group_serial;

    match de_tuple_x(infos, owner, reg, items) {
        Read::Done(v) => {
            if items.len() > crate::info::count_serde_unnamed(infos) {
                Read::Failed(
                    DeError::InvalidLength { type_path: owner, expected: infos.len(), actual: items.len() },
                )
            } else {
                Read::Done(v)
            }
        },
        other => other,
    }
}

/// Reads the fields of a tuple-like type from the elements in order; see `de_tuple`.
fn de_tuple_x(
    infos: &'static [UnnamedField],
    owner: &'static str,
    reg: &TypeRegistry,
    items: &Vec<Serial>,
) -> (r: Read<Vec<Value>>)
    ensures
        view_values(r) == de_tuple(infos@, owner, *reg, serial_seq(items@), infos@.len()),
        r matches Read::Done(vs) ==> vs@.len() == infos@.len() && forall|i: int|
            0 <= i < vs@.len() ==> unnamed_typed(#[trigger] vs@[i], infos@[i], *reg),
    decreases items@, 0nat,
{
    broadcast use crate::serde::serial::group_serial;
    broadcast use crate::value::group_deep;

    let ghost d = serial_seq(items@);
    let mut out: Vec<Value> = Vec::new();
    let mut i: usize = 0;
    let mut c: usize = 0;
    assert(deep_seq(out@) =~= Seq::empty());
    assert(infos@.take(0) =~= Seq::<UnnamedField>::empty());
    while i < infos.len()
        invariant
            i <= infos@.len(),
            d == serial_seq(items@),
            d.len() == items@.len(),
            c == serde_count_unnamed(infos@.take(i as int)),
            c <= i,
            de_tuple(infos@, owner, *reg, d, i as nat) == Parsed::Done(deep_seq(out@)),
            out@.len() == i,
            forall|k: int| 0 <= k < out@.len() ==> unnamed_typed(#[trigger] out@[k], infos@[k], *reg),
        decreases infos@.len() - i,
    {
        let f = infos[i];
        proof {
            lemma_count_unnamed_step(infos@, i as int);
        }
        if f.skip_serde {
            match default_value(reg, f.type_id) {
                Some(x) => {
                    let ghost before = out@;
                    out.push(x);
                    assert(deep_seq(out@) =~= deep_seq(before).push(x.deep()));
                    assert forall|k: int| 0 <= k < out@.len() implies unnamed_typed(
                        #[trigger] out@[k],
                        infos@[k],
                        *reg,
                    ) by {
                        if k < before.len() {
                            assert(out@[k] == before[k]);
                        }
                    }
                },
                None => {
                    proof {
                        lemma_tuple_stuck(infos@, owner, *reg, d, (i + 1) as nat, infos@.len());
                    }
                    return Read::Failed(DeError::NoDefault { type_id: f.type_id, type_path: owner });
                },
            }
        } else {
            match reg.get(f.type_id) {
                Some(fm) => {
                    if c < items.len() {
                        assert(d[c as int] == items@[c as int].data());
                        match de_value(&items[c], fm, reg) {
                            Read::Done(x) => {
                                let ghost before = out@;
                                out.push(x);
                                assert(deep_seq(out@) =~= deep_seq(before).push(x.deep()));
                                assert forall|k: int| 0 <= k < out@.len() implies unnamed_typed(
                                    #[trigger] out@[k],
                                    infos@[k],
                                    *reg,
                                ) by {
                                    if k < before.len() {
                                        assert(out@[k] == before[k]);
                                    }
                                }
                            },
                            Read::Failed(e) => {
                                proof {
                                    lemma_tuple_stuck(infos@, owner, *reg, d, (i + 1) as nat, infos@.len());
                                }
                                return Read::Failed(e);
                            },
                            Read::Malformed => {
                                proof {
                                    lemma_tuple_stuck(infos@, owner, *reg, d, (i + 1) as nat, infos@.len());
                                }
                                return Read::Malformed;
                            },
                        }
                        c = c + 1;
                    } else {
                        proof {
                            lemma_tuple_stuck(infos@, owner, *reg, d, (i + 1) as nat, infos@.len());
                        }
                        return Read::Failed(
                            DeError::InvalidLength { type_path: owner, expected: infos.len(), actual: i },
                        );
                    }
                },
                None => {
                    proof {
                        lemma_tuple_stuck(infos@, owner, *reg, d, (i + 1) as nat, infos@.len());
                    }
                    return Read::Failed(DeError::NoTypeMeta { type_id: f.type_id });
                },
            }
        }
        i = i + 1;
    }
    proof {
        assert(infos@.take(infos@.len() as int) =~= infos@);
    }
    Read::Done(out)
}

/// Reads the data of a tuple struct; see `de_tuple_struct`.
fn de_tuple_struct_x(
    data: &Serial,
    infos: &'static [UnnamedField],
    owner: &'static str,
    reg: &TypeRegistry,
) -> (r: Read<Vec<Value>>)
    ensures
        view_values(r) == de_tuple_struct(data.data(), infos@, owner, *reg),
        r matches Read::Done(vs) ==> vs@.len() == infos@.len() && forall|i: int|
            0 <= i < vs@.len() ==> unnamed_typed(#[trigger] vs@[i], infos@[i], *reg),
    decreases data, 1nat,
{
    broadcast use vstd::std_specs::vec::axiom_vec_decreases_to_view;
    broadcast use crate::value::group_deep;

    match data {
        Serial::NewtypeStruct { value, .. } => {
            if infos.len() != 1 {
                return Read::Failed(DeError::InvalidType { type_path: owner });
            }
            if infos[0].skip_serde {
                return Read::Malformed;
            }
            match reg.get(infos[0].type_id) {
                Some(fm) => match de_value(value, fm, reg) {
                    Read::Done(x) => {
                        let v = vec![x];
                        assert(deep_seq(v@) =~= seq![x.deep()]);
                        Read::Done(v)
                    },
                    Read::Failed(e) => Read::Failed(e),
                    Read::Malformed => Read::Malformed,
                },
                None => Read::Failed(DeError::NoTypeMeta { type_id: infos[0].type_id }),
            }
        },
        Serial::Sequence(v) => de_tuple_all_x(infos, owner, reg, v),
        Serial::Tuple(v) => de_tuple_all_x(infos, owner, reg, v),
        Serial::TupleStruct { fields, .. } => de_tuple_all_x(infos, owner, reg, fields),
        _ => Read::Failed(DeError::InvalidType { type_path: owner }),
    }
}

/// Reads the fields of a struct-like type; see `de_struct`.
fn de_struct_x(
    data: &Serial,
    infos: &'static [NamedField],
    owner: &'static str,
    reg: &TypeRegistry,
) -> (r: Read<Vec<(String, Value)>>)
    ensures
        view_struct(r, de_struct(data.data(), infos@, owner, *reg)),
        r matches Read::Done(b) ==> forall|i: int|
            0 <= i < b@.len() ==> named_typed(b@[i].0@, #[trigger] b@[i].1, infos@, *reg),
    decreases data, 1nat,
{
    broadcast use vstd::std_specs::vec::axiom_vec_decreases_to_view;
    broadcast use crate::serde::serial::group_serial;

    match data {
        Serial::Mapping(entries) => match buffer_map_x(entries, infos, owner, reg) {
            Read::Done(mut buf) => fill_x(infos, owner, reg, &mut buf),
            Read::Failed(e) => Read::Failed(e),
            Read::Malformed => Read::Malformed,
        },
        Serial::Struct { fields, .. } => match buffer_named_x(fields, infos, owner, reg) {
            Read::Done(mut buf) => fill_x(infos, owner, reg, &mut buf),
            Read::Failed(e) => Read::Failed(e),
            Read::Malformed => Read::Malformed,
        },
        Serial::Sequence(v) => de_struct_seq_all_x(infos, owner, reg, v),
        Serial::Tuple(v) => de_struct_seq_all_x(infos, owner, reg, v),
        Serial::TupleStruct { fields, .. } => de_struct_seq_all_x(infos, owner, reg, fields),
        _ => Read::Failed(DeError::InvalidType { type_path: owner }),
    }
}

/// Reads struct fields from the elements, then checks that no element is left; see
/// `de_struct_seq_all`.
fn de_struct_seq_all_x(
    infos: &'static [NamedField],
    owner: &'static str,
    reg: &TypeRegistry,
    items: &Vec<Serial>,
) -> (r: Read<Vec<(String, Value)>>)
    ensures
        view_struct(r, de_struct_seq_all(infos@, owner, *reg, serial_seq(items@))),
        r matches Read::Done(b) ==> forall|i: int|
            0 <= i < b@.len() ==> named_typed(b@[i].0@, #[trigger] b@[i].1, infos@, *reg),
    decreases items@, 1nat,
{
    broadcast use crate::serde::serial::group_serial;

    match de_struct_seq_x(infos, owner, reg, items) {
        Read::Done(v) => {
            if items.len() > crate::info::count_serde_named(infos) {
                Read::Failed(
                    DeError::InvalidLength { type_path: owner, expected: infos.len(), actual: items.len() },
                )
            } else {
                Read::Done(v)
            }
        },
        other => other,
    }
}

/// Reads struct fields from the elements in order; see `de_struct_seq`.
fn de_struct_seq_x(
    infos: &'static [NamedField],
    owner: &'static str,
    reg: &TypeRegistry,
    items: &Vec<Serial>,
) -> (r: Read<Vec<(String, Value)>>)
    ensures
        view_struct(r, de_struct_seq(infos@, owner, *reg, serial_seq(items@), infos@.len())),
        r matches Read::Done(b) ==> forall|i: int|
            0 <= i < b@.len() ==> named_typed(b@[i].0@, #[trigger] b@[i].1, infos@, *reg),
    decreases items@, 0nat,
{
    broadcast use crate::serde::serial::group_serial;
    broadcast use crate::value::group_deep;

    let ghost d = serial_seq(items@);
    let ghost mut acc: Seq<(Seq<char>, Data)> = Seq::empty();
    let mut out: Vec<(String, Value)> = Vec::new();
    let mut i: usize = 0;
    let mut c: usize = 0;
    assert(names_of(out@) =~= Seq::empty());
    assert(deep_fields(out@) =~= Seq::empty());
    assert(infos@.take(0) =~= Seq::<NamedField>::empty());
    while i < infos.len()
        invariant
            i <= infos@.len(),
            d == serial_seq(items@),
            d.len() == items@.len(),
            c == serde_count_named(infos@.take(i as int)),
            c <= i,
            names_distinct(out@),
            forall|k: int| 0 <= k < out@.len() ==> named_typed(out@[k].0@, #[trigger] out@[k].1, infos@, *reg),
            de_struct_seq(infos@, owner, *reg, d, i as nat) == Parsed::Done(acc),
            (names_of(out@), deep_fields(out@)) == field_fold(acc),
        decreases infos@.len() - i,
    {
        let f = infos[i];
        proof {
            lemma_count_named_step(infos@, i as int);
        }
        let x = if f.skip_serde {
            match default_value(reg, f.type_id) {
                Some(x) => x,
                None => {
                    proof {
                        lemma_struct_seq_stuck(infos@, owner, *reg, d, (i + 1) as nat, infos@.len());
                    }
                    return Read::Failed(DeError::NoDefault { type_id: f.type_id, type_path: owner });
                },
            }
        } else {
            match reg.get(f.type_id) {
                Some(fm) => {
                    if c < items.len() {
                        assert(d[c as int] == items@[c as int].data());
                        let x = match de_value(&items[c], fm, reg) {
                            Read::Done(x) => x,
                            Read::Failed(e) => {
                                proof {
                                    lemma_struct_seq_stuck(infos@, owner, *reg, d, (i + 1) as nat, infos@.len());
                                }
                                return Read::Failed(e);
                            },
                            Read::Malformed => {
                                proof {
                                    lemma_struct_seq_stuck(infos@, owner, *reg, d, (i + 1) as nat, infos@.len());
                                }
                                return Read::Malformed;
                            },
                        };
                        c = c + 1;
                        x
                    } else {
                        proof {
                            lemma_struct_seq_stuck(infos@, owner, *reg, d, (i + 1) as nat, infos@.len());
                        }
                        return Read::Failed(
                            DeError::InvalidLength { type_path: owner, expected: infos.len(), actual: i },
                        );
                    }
                },
                None => {
                    proof {
                        lemma_struct_seq_stuck(infos@, owner, *reg, d, (i + 1) as nat, infos@.len());
                    }
                    return Read::Failed(DeError::NoTypeMeta { type_id: f.type_id });
                },
            }
        };
        let ghost xd = x.deep();
        let ghost xx = x;
        let ghost before = out@;
        proof {
            assert(infos@[i as int] == f);
            assert(infos@[i as int].name@ == f.name@);
            assert(named_typed(f.name@, xx, infos@, *reg));
        }
        buf_put(&mut out, String::from_str(f.name), x);
        proof {
            lemma_buf_typed(before, out@, f.name@, xx, infos@, *reg);
            lemma_field_fold_push(acc, f.name@, xd);
            acc = acc.push((f.name@, xd));
        }
        i = i + 1;
    }
    proof {
        assert(infos@.take(infos@.len() as int) =~= infos@);
    }
    Read::Done(out)
}

/// Reads the entries of a map node into a buffer by field name; see `buffer_map`.
fn buffer_map_x(
    entries: &Vec<(Serial, Serial)>,
    infos: &'static [NamedField],
    owner: &'static str,
    reg: &TypeRegistry,
) -> (r: Read<Vec<(String, Value)>>)
    ensures
        view_buffer(r) == buffer_map(serial_entries(entries@), infos@, owner, *reg, entries@.len()),
        r matches Read::Done(b) ==> forall|i: int|
            0 <= i < b@.len() ==> named_typed(b@[i].0@, #[trigger] b@[i].1, infos@, *reg),
        r matches Read::Done(b) ==> names_distinct(b@),
    decreases entries@, 0nat,
{
    broadcast use crate::serde::serial::group_serial;
    broadcast use crate::value::group_deep;

    let ghost d = serial_entries(entries@);
    let mut buf: Vec<(String, Value)> = Vec::new();
    let mut i: usize = 0;
    assert(names_of(buf@) =~= Seq::empty());
    assert(deep_fields(buf@) =~= Seq::empty());
    while i < entries.len()
        invariant
            i <= entries@.len(),
            d == serial_entries(entries@),
            d.len() == entries@.len(),
            names_distinct(buf@),
            forall|k: int| 0 <= k < buf@.len() ==> named_typed(buf@[k].0@, #[trigger] buf@[k].1, infos@, *reg),
            buffer_map(d, infos@, owner, *reg, i as nat) == Parsed::Done(
                (names_of(buf@), deep_fields(buf@)),
            ),
        decreases entries@.len() - i,
    {
        assert(d[i as int] == (entries@[i as int].0.data(), entries@[i as int].1.data()));
        match &entries[i].0 {
            Serial::Str(name) => {
                match crate::info::find_named(infos, name.as_str()) {
                    Some(fi) => {
                        proof {
                            let j = choose|j: int| first_named(infos@, name@, j);
                            lemma_first_named_unique(infos@, name@, j, fi as int);
                        }
                        match reg.get(infos[fi].type_id) {
                            Some(fm) => match de_value(&entries[i].1, fm, reg) {
                                Read::Done(x) => {
                                    let ghost xx = x;
                                    let ghost before = buf@;
                                    proof {
                                        assert(infos@[fi as int].name@ == name@);
                                        assert(named_typed(name@, xx, infos@, *reg));
                                    }
                                    buf_put(&mut buf, name.clone(), x);
                                    proof {
                                        lemma_buf_typed(before, buf@, name@, xx, infos@, *reg);
                                    }
                                },
                                Read::Failed(e) => {
                                    proof {
                                        lemma_buffer_map_stuck(d, infos@, owner, *reg, (i + 1) as nat, d.len());
                                    }
                                    return Read::Failed(e);
                                },
                                Read::Malformed => {
                                    proof {
                                        lemma_buffer_map_stuck(d, infos@, owner, *reg, (i + 1) as nat, d.len());
                                    }
                                    return Read::Malformed;
                                },
                            },
                            None => {
                                proof {
                                    lemma_buffer_map_stuck(d, infos@, owner, *reg, (i + 1) as nat, d.len());
                                }
                                return Read::Failed(DeError::NoTypeMeta { type_id: infos[fi].type_id });
                            },
                        }
                    },
                    None => {
                        proof {
                            lemma_buffer_map_stuck(d, infos@, owner, *reg, (i + 1) as nat, d.len());
                        }
                        return Read::Failed(DeError::UnknownField { name: name.clone(), type_path: owner });
                    },
                }
            },
            _ => {
                proof {
                    lemma_buffer_map_stuck(d, infos@, owner, *reg, (i + 1) as nat, d.len());
                }
                return Read::Failed(DeError::InvalidType { type_path: owner });
            },
        }
        i = i + 1;
    }
    Read::Done(buf)
}

/// Reads the fields of a struct node into a buffer by field name; see `buffer_named`.
fn buffer_named_x(
    fields: &Vec<(&'static str, Serial)>,
    infos: &'static [NamedField],
    owner: &'static str,
    reg: &TypeRegistry,
) -> (r: Read<Vec<(String, Value)>>)
    ensures
        view_buffer(r) == buffer_named(serial_fields(fields@), infos@, owner, *reg, fields@.len()),
        r matches Read::Done(b) ==> forall|i: int|
            0 <= i < b@.len() ==> named_typed(b@[i].0@, #[trigger] b@[i].1, infos@, *reg),
        r matches Read::Done(b) ==> names_distinct(b@),
    decreases fields@, 0nat,
{
    broadcast use crate::serde::serial::group_serial;
    broadcast use crate::value::group_deep;

    let ghost d = serial_fields(fields@);
    let mut buf: Vec<(String, Value)> = Vec::new();
    let mut i: usize = 0;
    assert(names_of(buf@) =~= Seq::empty());
    assert(deep_fields(buf@) =~= Seq::empty());
    while i < fields.len()
        invariant
            i <= fields@.len(),
            d == serial_fields(fields@),
            d.len() == fields@.len(),
            names_distinct(buf@),
            forall|k: int| 0 <= k < buf@.len() ==> named_typed(buf@[k].0@, #[trigger] buf@[k].1, infos@, *reg),
            buffer_named(d, infos@, owner, *reg, i as nat) == Parsed::Done(
                (names_of(buf@), deep_fields(buf@)),
            ),
        decreases fields@.len() - i,
    {
        assert(d[i as int] == (fields@[i as int].0@, fields@[i as int].1.data()));
        let name = fields[i].0;
        match crate::info::find_named(infos, name) {
            Some(fi) => {
                proof {
                    let j = choose|j: int| first_named(infos@, name@, j);
                    lemma_first_named_unique(infos@, name@, j, fi as int);
                }
                match reg.get(infos[fi].type_id) {
                    Some(fm) => match de_value(&fields[i].1, fm, reg) {
                        Read::Done(x) => {
                            let ghost xx = x;
                            let ghost before = buf@;
                            proof {
                                assert(infos@[fi as int].name@ == name@);
                                assert(named_typed(name@, xx, infos@, *reg));
                            }
                            buf_put(&mut buf, String::from_str(name), x);
                            proof {
                                lemma_buf_typed(before, buf@, name@, xx, infos@, *reg);
                            }
                        },
                        Read::Failed(e) => {
                            proof {
                                lemma_buffer_named_stuck(d, infos@, owner, *reg, (i + 1) as nat, d.len());
                            }
                            return Read::Failed(e);
                        },
                        Read::Malformed => {
                            proof {
                                lemma_buffer_named_stuck(d, infos@, owner, *reg, (i + 1) as nat, d.len());
                            }
                            return Read::Malformed;
                        },
                    },
                    None => {
                        proof {
                            lemma_buffer_named_stuck(d, infos@, owner, *reg, (i + 1) as nat, d.len());
                        }
                        return Read::Failed(DeError::NoTypeMeta { type_id: infos[fi].type_id });
                    },
                }
            },
            None => {
                proof {
                    lemma_buffer_named_stuck(d, infos@, owner, *reg, (i + 1) as nat, d.len());
                }
                return Read::Failed(DeError::UnknownField { name: String::from_str(name), type_path: owner });
            },
        }
        i = i + 1;
    }
    Read::Done(buf)
}

/// Takes the struct fields from the buffer in the order of the field infos; see `fill_fields`.
fn fill_x(
    infos: &'static [NamedField],
    owner: &'static str,
    reg: &TypeRegistry,
    buf: &mut Vec<(String, Value)>,
) -> (r: Read<Vec<(String, Value)>>)
    requires
        names_distinct(old(buf)@),
        forall|i: int|
            0 <= i < old(buf)@.len() ==> named_typed(old(buf)@[i].0@, #[trigger] old(buf)@[i].1, infos@, *reg),
    ensures
        view_struct(
            r,
            fill_fields(infos@, owner, *reg, (names_of(old(buf)@), deep_fields(old(buf)@)), infos@.len()),
        ),
        r matches Read::Done(b) ==> forall|i: int|
            0 <= i < b@.len() ==> named_typed(b@[i].0@, #[trigger] b@[i].1, infos@, *reg),
{
    broadcast use crate::value::group_deep;

    let ghost b0 = (names_of(old(buf)@), deep_fields(old(buf)@));
    let pending = buf;
    let ghost mut acc: Seq<(Seq<char>, Data)> = Seq::empty();
    let mut out: Vec<(String, Value)> = Vec::new();
    let mut i: usize = 0;
    assert(names_of(out@) =~= Seq::empty());
    assert(deep_fields(out@) =~= Seq::empty());
    while i < infos.len()
        invariant
            i <= infos@.len(),
            b0 == (names_of(old(buf)@), deep_fields(old(buf)@)),
            names_distinct(pending@),
            names_distinct(out@),
            forall|k: int|
                0 <= k < pending@.len() ==> named_typed(pending@[k].0@, #[trigger] pending@[k].1, infos@, *reg),
            forall|k: int| 0 <= k < out@.len() ==> named_typed(out@[k].0@, #[trigger] out@[k].1, infos@, *reg),
            fill(infos@, owner, *reg, b0, i as nat) == Parsed::Done(
                ((names_of(pending@), deep_fields(pending@)), acc),
            ),
            (names_of(out@), deep_fields(out@)) == field_fold(acc),
        decreases infos@.len() - i,
    {
        let f = infos[i];
        let ghost bn = names_of(pending@);
        let ghost bd = deep_fields(pending@);
        let ghost pending0 = pending@;
        let x = match buf_take(pending, f.name) {
            Some(x) => x,
            None => {
                assert(!bn.contains(f.name@));
                assert(fill(infos@, owner, *reg, b0, i as nat) == Parsed::Done(((bn, bd), acc)));
                if f.skip_serde {
                    match default_value(reg, f.type_id) {
                        Some(x) => x,
                        None => {
                            proof {
                                assert(fill(infos@, owner, *reg, b0, (i + 1) as nat) == Parsed::<
                                    ((Seq<Seq<char>>, Seq<Data>), Seq<(Seq<char>, Data)>),
                                >::Failed(DeFault::NoDefault { type_id: f.type_id, type_path: owner }));
                                lemma_fill_stuck(infos@, owner, *reg, b0, (i + 1) as nat, infos@.len());
                                assert(fill_fields(infos@, owner, *reg, b0, infos@.len()) == Parsed::<
                                    Seq<(Seq<char>, Data)>,
                                >::Failed(DeFault::NoDefault { type_id: f.type_id, type_path: owner }));
                            }
                            return Read::Failed(DeError::NoDefault { type_id: f.type_id, type_path: owner });
                        },
                    }
                } else {
                    proof {
                        assert(fill(infos@, owner, *reg, b0, (i + 1) as nat) == Parsed::<
                            ((Seq<Seq<char>>, Seq<Data>), Seq<(Seq<char>, Data)>),
                        >::Failed(DeFault::MissingField { name: f.name, type_path: owner }));
                        lemma_fill_stuck(infos@, owner, *reg, b0, (i + 1) as nat, infos@.len());
                        assert(fill_fields(infos@, owner, *reg, b0, infos@.len()) == Parsed::<
                            Seq<(Seq<char>, Data)>,
                        >::Failed(DeFault::MissingField { name: f.name, type_path: owner }));
                    }
                    return Read::Failed(DeError::MissingField { name: f.name, type_path: owner });
                }
            },
        };
        let ghost xd = x.deep();
        let ghost xx = x;
        let ghost before = out@;
        proof {
            assert(infos@[i as int] == f);
            assert(infos@[i as int].name@ == f.name@);
            assert forall|k: int| 0 <= k < pending@.len() implies named_typed(
                pending@[k].0@,
                #[trigger] pending@[k].1,
                infos@,
                *reg,
            ) by {
                assert(pending0.contains(pending@[k]));
                let j = choose|j: int| 0 <= j < pending0.len() && pending0[j] == pending@[k];
                assert(named_typed(pending0[j].0@, pending0[j].1, infos@, *reg));
            }
            if bn.contains(f.name@) {
                let j = choose|j: int|
                    0 <= j < pending0.len() && #[trigger] pending0[j].1 == xx && pending0[j].0@ == f.name@;
                assert(named_typed(pending0[j].0@, pending0[j].1, infos@, *reg));
            }
            assert(named_typed(f.name@, xx, infos@, *reg));
        }
        buf_put(&mut out, String::from_str(f.name), x);
        proof {
            lemma_buf_typed(before, out@, f.name@, xx, infos@, *reg);
            lemma_field_fold_push(acc, f.name@, xd);
            acc = acc.push((f.name@, xd));
        }
        i = i + 1;
    }
    Read::Done(out)
}

/// The variant of the name; see `variant_by_name`.
fn variant_by_name_x(info: &EnumInfo, name: &str) -> (r: Result<VariantInfo, DeError>)
    ensures
        view_variant(r) == variant_by_name(*info, name@),
        r matches Ok(v) ==> exists|j: int| 0 <= j < info.variants@.len() && #[trigger] info.variants@[j] == v,
{
    match info.index_of(name) {
        Some(i) => {
            proof {
                let j = choose|j: int| crate::info::first_variant(info.variants@, name@, j);
                lemma_first_variant_unique(info.variants@, name@, j, i as int);
            }
            Ok(info.variants[i])
        },
        None => Err(DeError::NoVariantNamed { name: String::from_str(name), type_path: info.ty.path }),
    }
}

/// The variant at the index; see `variant_by_index`.
fn variant_by_index_x(info: &EnumInfo, index: u64) -> (r: Result<VariantInfo, DeError>)
    ensures
        view_variant(r) == variant_by_index(*info, index as int),
        r matches Ok(v) ==> exists|j: int| 0 <= j < info.variants@.len() && #[trigger] info.variants@[j] == v,
{
    if index > u32::MAX as u64 {
        Err(DeError::InvalidType { type_path: info.ty.path })
    } else if (index as usize) < info.variants.len() {
        Ok(info.variants[index as usize])
    } else {
        Err(DeError::NoVariantAt { index, type_path: info.ty.path })
    }
}

/// A unit variant read from a node that carries no data; see `de_unit_variant`.
fn unit_variant_x(v: Result<VariantInfo, DeError>, info: &EnumInfo) -> (r: Read<DynamicEnum>)
    ensures
        view_enum(r) == de_unit_variant(view_variant(v), *info),
        r matches Read::Done(e) ==> (v matches Ok(vi) && e.spec_variant() is Unit && vi is Unit
            && e.spec_variant_name() == vi.spec_name()@),
{
    match v {
        Ok(VariantInfo::Unit(u)) => Read::Done(enum_of(info, u.name, DynamicVariant::Unit)),
        Ok(_) => Read::Failed(DeError::InvalidType { type_path: info.ty.path }),
        Err(e) => Read::Failed(e),
    }
}

/// An enum of a tuple variant with the given fields.
fn tuple_enum(info: &EnumInfo, name: &'static str, fields: Vec<Value>) -> (r: DynamicEnum)
    ensures
        Value::Enum(r).deep() == Data::Enum(
            name@,
            index_named(*info, name@),
            VariantData::Tuple(deep_seq(fields@)),
        ),
        r.spec_variant_name() == name@,
        r.spec_variant() matches DynamicVariant::Tuple(t) && t.spec_fields() == fields@,
{
    enum_of(info, name, DynamicVariant::Tuple(DynamicTuple::from_fields(fields)))
}

/// An enum of a struct variant with the given fields, whose names are distinct.
fn struct_enum(info: &EnumInfo, name: &'static str, fields: Vec<(String, Value)>) -> (r: DynamicEnum)
    requires
        names_distinct(fields@),
    ensures
        Value::Enum(r).deep() == Data::Enum(
            name@,
            index_named(*info, name@),
            VariantData::Struct(names_of(fields@), deep_fields(fields@)),
        ),
        r.spec_variant_name() == name@,
        r.spec_variant() matches DynamicVariant::Struct(st) && st.spec_fields() == fields@,
{
    enum_of(info, name, DynamicVariant::Struct(DynamicStruct::from_distinct_fields(fields)))
}

/// Reads an enum; see `de_enum`.
#[verifier::rlimit(40)]
#[verifier::spinoff_prover]
fn de_enum_x(data: &Serial, info: EnumInfo, reg: &TypeRegistry) -> (r: Read<DynamicEnum>)
    ensures
        view_enum(r) == de_enum(data.data(), info, *reg),
        r matches Read::Done(e) ==> enum_typed(e, info, *reg),
    decreases data, 1nat,
{
    broadcast use vstd::std_specs::vec::axiom_vec_decreases_to_view;
    broadcast use crate::serde::serial::group_serial;
    broadcast use crate::value::group_deep;

    if crate::serde::ser::is_option_info(&info) {
        proof {
            reveal_strlit("None");
            reveal_strlit("Some");
        }
        match data {
            Serial::OptionNone | Serial::Unit => match info.index_of("None") {
                Some(i) => Read::Done(
                    DynamicEnum::new_with_index(i, String::from_str("None"), DynamicVariant::Unit),
                ),
                None => Read::Failed(
                    DeError::NoVariantNamed { name: String::from_str("None"), type_path: info.ty.path },
                ),
            },
            Serial::OptionSome(v) => match info.index_of("Some") {
                Some(i) => {
                    proof {
                        let j = choose|j: int| crate::info::first_variant(info.variants@, "Some"@, j);
                        lemma_first_variant_unique(info.variants@, "Some"@, j, i as int);
                    }
                    match info.variants[i] {
                        VariantInfo::Tuple(tv) => if tv.fields.len() == 1 {
                            match reg.get(tv.fields[0].type_id) {
                                Some(fm) => match de_value(v, fm, reg) {
                                    Read::Done(x) => {
                                        let fields = vec![x];
                                        assert(deep_seq(fields@) =~= seq![x.deep()]);
                                        let t = DynamicTuple::from_fields(fields);
                                        Read::Done(
                                            DynamicEnum::new_with_index(
                                                i,
                                                String::from_str("Some"),
                                                DynamicVariant::Tuple(t),
                                            ),
                                        )
                                    },
                                    Read::Failed(e) => Read::Failed(e),
                                    Read::Malformed => Read::Malformed,
                                },
                                None => Read::Failed(DeError::NoTypeMeta { type_id: tv.fields[0].type_id }),
                            }
                        } else {
                            Read::Failed(DeError::InvalidType { type_path: info.ty.path })
                        },
                        _ => Read::Failed(DeError::InvalidType { type_path: info.ty.path }),
                    }
                },
                None => Read::Failed(DeError::InvalidType { type_path: info.ty.path }),
            },
            _ => Read::Failed(DeError::InvalidType { type_path: info.ty.path }),
        }
    } else {
        match data {
            Serial::UnitVariant { variant, .. } => unit_variant_x(variant_by_name_x(&info, variant), &info),
            Serial::Str(name) => unit_variant_x(variant_by_name_x(&info, name.as_str()), &info),
            Serial::U64(index) => unit_variant_x(variant_by_index_x(&info, *index), &info),
            Serial::NewtypeVariant { variant, value, .. } => match variant_by_name_x(&info, variant) {
                Ok(vinfo) => de_payload_x(value, vinfo, info, reg),
                Err(e) => Read::Failed(e),
            },
            Serial::TupleVariant { variant, fields, .. } => match variant_by_name_x(&info, variant) {
                Ok(VariantInfo::Tuple(tv)) => if tv.fields.len() != 1 {
                    match de_tuple_all_x(tv.fields, tv.name, reg, fields) {
                        Read::Done(v) => Read::Done(tuple_enum(&info, tv.name, v)),
                        Read::Failed(e) => Read::Failed(e),
                        Read::Malformed => Read::Malformed,
                    }
                } else {
                    Read::Failed(DeError::InvalidType { type_path: info.ty.path })
                },
                Ok(_) => Read::Failed(DeError::InvalidType { type_path: info.ty.path }),
                Err(e) => Read::Failed(e),
            },
            Serial::StructVariant { variant, fields, .. } => match variant_by_name_x(&info, variant) {
                Ok(VariantInfo::Struct(sv)) => match buffer_named_x(fields, sv.fields, sv.name, reg) {
                    Read::Done(mut buf) => match fill_x(sv.fields, sv.name, reg, &mut buf) {
                        Read::Done(out) => Read::Done(struct_enum(&info, sv.name, out)),
                        Read::Failed(e) => Read::Failed(e),
                        Read::Malformed => Read::Malformed,
                    },
                    Read::Failed(e) => Read::Failed(e),
                    Read::Malformed => Read::Malformed,
                },
                Ok(_) => Read::Failed(DeError::InvalidType { type_path: info.ty.path }),
                Err(e) => Read::Failed(e),
            },
            Serial::Mapping(entries) => {
                assert(serial_entries(entries@).len() == entries@.len());
                if entries.len() != 1 {
                    return Read::Failed(DeError::InvalidType { type_path: info.ty.path });
                }
                assert(serial_entries(entries@)[0] == (entries@[0].0.data(), entries@[0].1.data()));
                let chosen = match &entries[0].0 {
                    Serial::Str(name) => variant_by_name_x(&info, name.as_str()),
                    Serial::U64(index) => variant_by_index_x(&info, *index),
                    _ => Err(DeError::InvalidType { type_path: info.ty.path }),
                };
                match chosen {
                    Ok(vinfo) => de_payload_x(&entries[0].1, vinfo, info, reg),
                    Err(e) => Read::Failed(e),
                }
            },
            _ => Read::Failed(DeError::InvalidType { type_path: info.ty.path }),
        }
    }
}

/// Reads the data of the variant from the node that follows its name or index; see
/// `de_payload`.
fn de_payload_x(n: &Serial, vinfo: VariantInfo, info: EnumInfo, reg: &TypeRegistry) -> (r: Read<
    DynamicEnum,
>)
    requires
        exists|j: int| 0 <= j < info.variants@.len() && #[trigger] info.variants@[j] == vinfo,
    ensures
        view_enum(r) == de_payload(n.data(), vinfo, info, *reg),
        r matches Read::Done(e) ==> enum_typed(e, info, *reg),
    decreases n, 3nat,
{
    broadcast use crate::value::group_deep;

    let ghost j = choose|j: int| 0 <= j < info.variants@.len() && #[trigger] info.variants@[j] == vinfo;
    match vinfo {
        VariantInfo::Unit(u) => match n {
            Serial::Unit => {
                let e = enum_of(&info, u.name, DynamicVariant::Unit);
                proof {
                    lemma_enum_typed(e, info, *reg, j);
                }
                Read::Done(e)
            },
            _ => Read::Failed(DeError::InvalidType { type_path: info.ty.path }),
        },
        VariantInfo::Struct(sv) => match de_struct_x(n, sv.fields, sv.name, reg) {
            Read::Done(out) => {
                let e = struct_enum(&info, sv.name, out);
                proof {
                    lemma_enum_typed(e, info, *reg, j);
                }
                Read::Done(e)
            },
            Read::Failed(e) => Read::Failed(e),
            Read::Malformed => Read::Malformed,
        },
        VariantInfo::Tuple(tv) => if tv.fields.len() == 1 {
            match reg.get(tv.fields[0].type_id) {
                Some(fm) => match de_value(n, fm, reg) {
                    Read::Done(x) => {
                        let ghost xx = x;
                        let fields = vec![x];
                        assert(deep_seq(fields@) =~= seq![x.deep()]);
                        assert(fields@[0] == xx);
                        let e = tuple_enum(&info, tv.name, fields);
                        proof {
                            assert(unnamed_typed(xx, tv.fields@[0], *reg));
                            lemma_enum_typed(e, info, *reg, j);
                        }
                        Read::Done(e)
                    },
                    Read::Failed(e) => Read::Failed(e),
                    Read::Malformed => Read::Malformed,
                },
                None => Read::Failed(DeError::NoTypeMeta { type_id: tv.fields[0].type_id }),
            }
        } else {
            match de_tuple_node_x(n, tv.fields, tv.name, reg) {
                Read::Done(v) => {
                    let e = tuple_enum(&info, tv.name, v);
                    proof {
                        lemma_enum_typed(e, info, *reg, j);
                    }
                    Read::Done(e)
                },
                Read::Failed(e) => Read::Failed(e),
                Read::Malformed => Read::Malformed,
            }
        },
    }
}

/// Reads data tagged with a type path: a map of one entry, from the full path of a registered
/// type to the data of a value of that type.
pub open spec fn de_tagged_spec(d: SerialData, reg: TypeRegistry) -> Parsed<Data> {
    match d {
        SerialData::Mapping(entries) => if entries.len() == 0 {
            Parsed::Failed(DeFault::NotSingleEntry { len: 0 })
        } else {
            match entries[0].0 {
                SerialData::Str(path) => match reg.path_index().get(path) {
                    Some(id) => match de_spec(entries[0].1, reg.table()[id], reg) {
                        Parsed::Done(x) => if entries.len() > 1 {
                            Parsed::Failed(DeFault::NotSingleEntry { len: entries.len() as usize })
                        } else {
                            Parsed::Done(x)
                        },
                        Parsed::Failed(e) => Parsed::Failed(e),
                        Parsed::Malformed => Parsed::Malformed,
                    },
                    None => Parsed::Failed(DeFault::NoRegistration { type_path: path }),
                },
                _ => Parsed::Failed(DeFault::NotTagged),
            }
        },
        _ => Parsed::Failed(DeFault::NotTagged),
    }
}

/// The registration of the type whose full path tags the data, if it is registered.
pub open spec fn tagged_meta(d: SerialData, reg: TypeRegistry) -> Option<TypeMeta> {
    match d {
        SerialData::Mapping(entries) => if entries.len() == 0 {
            None
        } else {
            match entries[0].0 {
                SerialData::Str(path) => match reg.path_index().get(path) {
                    Some(id) => Some(reg.table()[id]),
                    None => None,
                },
                _ => None,
            }
        },
        _ => None,
    }
}

/// Whether a value has the content and the represented types, at every level, of a value that
/// fits the registered type `meta` (see `typed_by`).
pub open spec fn typed_like(v: Value, meta: TypeMeta, reg: TypeRegistry) -> bool {
    exists|w: Value| #[trigger] typed_by(w, meta, reg) && w.deep() == v.deep() && w.marks() == v.marks()
}

/// Reads serialized data as a value of one registered type.
pub struct DeserializeDriver<'a> {
    type_meta: &'a TypeMeta,
    registry: &'a TypeRegistry,
}

impl<'a> DeserializeDriver<'a> {
    pub closed spec fn spec_meta(self) -> TypeMeta {
        *self.type_meta
    }

    pub closed spec fn spec_registry(self) -> TypeRegistry {
        *self.registry
    }

    /// A reader of values of the type that `type_meta` registers.
    pub fn new(type_meta: &'a TypeMeta, registry: &'a TypeRegistry) -> (r: Self)
        ensures
            r.spec_meta() == *type_meta,
            r.spec_registry() == *registry,
    {
        DeserializeDriver { type_meta, registry }
    }

    /// A reader of values of `T`, which must be registered.
    pub fn of<T: crate::info::Typed>(registry: &'a TypeRegistry) -> (r: Self)
        requires
            registry.table().dom().contains(T::spec_type_info().spec_ty().id),
        ensures
            r.spec_meta() == registry.table()[T::spec_type_info().spec_ty().id],
            r.spec_registry() == *registry,
    {
        let id = T::type_info().type_id();
        let type_meta = registry.get(id).unwrap();
        DeserializeDriver { type_meta, registry }
    }

    /// Reads the data; a type whose reading cannot go on comes out as `Malformed`.
    pub fn try_deserialize(&self, data: &Serial) -> (r: Read<Value>)
        ensures
            view_value(r) == de_spec(data.data(), self.spec_meta(), self.spec_registry()),
            r matches Read::Done(v) ==> match self.spec_meta().spec_deserialize() {
                Some(ds) => v.spec_ty_id() == ds.spec_target(),
                None => v.spec_represented() == Some(self.spec_meta().spec_info()),
            },
            r matches Read::Done(v) ==> typed_by(v, self.spec_meta(), self.spec_registry()),
    {
        de_value(data, self.type_meta, self.registry)
    }

    /// Reads the data.
    pub fn deserialize(&self, data: &Serial) -> (r: Result<Value, DeError>)
        requires
            !(de_spec(data.data(), self.spec_meta(), self.spec_registry()) is Malformed),
        ensures
            match de_spec(data.data(), self.spec_meta(), self.spec_registry()) {
                Parsed::Done(x) => r matches Ok(v) && v.deep() == x,
                Parsed::Failed(e) => r matches Err(x) && x.fault() == e,
                Parsed::Malformed => false,
            },
            r matches Ok(v) ==> match self.spec_meta().spec_deserialize() {
                Some(ds) => v.spec_ty_id() == ds.spec_target(),
                None => v.spec_represented() == Some(self.spec_meta().spec_info()),
            },
            r matches Ok(v) ==> typed_by(v, self.spec_meta(), self.spec_registry()),
    {
        match de_value(data, self.type_meta, self.registry) {
            Read::Done(v) => Ok(v),
            Read::Failed(e) => Err(e),
            Read::Malformed => Err(DeError::NotDeserializable { type_path: self.type_meta.type_path() }),
        }
    }
}

/// Reads data tagged with the full path of a registered type.
pub struct ReflectDeserializeDriver<'a> {
    registry: &'a TypeRegistry,
}

impl<'a> ReflectDeserializeDriver<'a> {
    pub closed spec fn spec_registry(self) -> TypeRegistry {
        *self.registry
    }

    /// A reader of tagged data with the types of `registry`.
    pub fn new(registry: &'a TypeRegistry) -> (r: Self)
        ensures
            r.spec_registry() == *registry,
    {
        ReflectDeserializeDriver { registry }
    }

    /// Reads tagged data; a type whose reading cannot go on comes out as `Malformed`.
    ///
    /// A value read as a dynamic container is rebuilt by the type's converter from reflected
    /// values, when the type offers one that takes it.
    pub fn try_deserialize(&self, data: &Serial) -> (r: Read<Value>)
        ensures
            view_value(r) == de_tagged_spec(data.data(), self.spec_registry()),
            r matches Read::Done(v) ==> (tagged_meta(data.data(), self.spec_registry()) matches Some(m)
                && typed_like(v, m, self.spec_registry())),
    {
        broadcast use crate::serde::serial::group_serial;

        let entries = match data {
            Serial::Mapping(entries) => entries,
            _ => return Read::Failed(DeError::NotTagged),
        };
        assert(serial_entries(entries@).len() == entries@.len());
        if entries.len() == 0 {
            return Read::Failed(DeError::NotSingleEntry { len: 0 });
        }
        assert(serial_entries(entries@)[0] == (entries@[0].0.data(), entries@[0].1.data()));
        let path = match &entries[0].0 {
            Serial::Str(path) => path,
            _ => return Read::Failed(DeError::NotTagged),
        };
        let type_meta = match self.registry.get_with_type_path(path.as_str()) {
            Some(m) => m,
            None => return Read::Failed(DeError::NoRegistration { type_path: path.clone() }),
        };
        let value = match de_value(&entries[0].1, type_meta, self.registry) {
            Read::Done(v) => v,
            Read::Failed(e) => return Read::Failed(e),
            Read::Malformed => return Read::Malformed,
        };
        assert(typed_like(value, *type_meta, *self.registry));
        if entries.len() > 1 {
            return Read::Failed(DeError::NotSingleEntry { len: entries.len() });
        }
        if value.ty_id() != type_meta.type_id() {
            match type_meta.get_from_reflect() {
                Some(fr) => match fr.from_reflect(&value) {
                    Some(target) => return Read::Done(target),
                    None => {},
                },
                None => {},
            }
        }
        Read::Done(value)
    }

    /// Reads tagged data.
    pub fn deserialize(&self, data: &Serial) -> (r: Result<Value, DeError>)
        requires
            !(de_tagged_spec(data.data(), self.spec_registry()) is Malformed),
        ensures
            match de_tagged_spec(data.data(), self.spec_registry()) {
                Parsed::Done(x) => r matches Ok(v) && v.deep() == x,
                Parsed::Failed(e) => r matches Err(x) && x.fault() == e,
                Parsed::Malformed => false,
            },
            r matches Ok(v) ==> (tagged_meta(data.data(), self.spec_registry()) matches Some(m) && typed_like(
                v,
                m,
                self.spec_registry(),
            )),
    {
        match self.try_deserialize(data) {
            Read::Done(v) => Ok(v),
            Read::Failed(e) => Err(e),
            Read::Malformed => Err(DeError::NotTagged),
        }
    }
}

} // verus!
