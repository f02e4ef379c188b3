//! Serialization: from a reflected value to its serialized form, guided by the type information
//! that the value represents.
use vstd::prelude::*;

use crate::info::{EnumInfo, NamedField, TypeId, TypeInfo, Typed, UnnamedField, VariantInfo};
use crate::info::{serde_count_named, serde_count_unnamed};
use crate::ops::{DynamicEnum, DynamicStruct, DynamicTupleStruct, DynamicVariant, field_position};
use crate::registry::{TypeRegistry, primitive_serial};
use crate::serde::{SerError, Serial, SerialData, serial_entries, serial_fields, serial_seq};
use crate::info::str_eq;
use vstd::string::StringExecFns;
use crate::value::Value;

verus! {

/// What serialization comes to: a result, a failure, or a value that lacks a field which its
/// represented type declares, so that serialization cannot go on.
pub enum Outcome<T> {
    Done(T),
    Failed(SerError),
    Malformed,
}

/// Whether every serializer in the registry serializes values of the type it is registered for.
pub open spec fn serializers_match(reg: TypeRegistry) -> bool {
    forall|id: TypeId| #[trigger]
        reg.table().dom().contains(id) ==> (reg.table()[id].spec_serialize() matches Some(s)
            ==> s.spec_target() == id)
}

/// Whether the registry offers a serializer for the type.
pub open spec fn has_serializer(reg: TypeRegistry, id: TypeId) -> bool {
    reg.table().dom().contains(id) && reg.table()[id].spec_serialize() is Some
}

/// Whether the enum is `core::option::Option`, which serializes as an optional value.
pub open spec fn is_option(info: EnumInfo) -> bool {
    &&& info.ty.ident@ == "Option"@
    &&& info.ty.module matches Some(m) && m@ == "core::option"@
}

/// Whether every named field info is skipped.
pub open spec fn named_all_skipped(infos: Seq<NamedField>) -> bool {
    forall|i: int| 0 <= i < infos.len() ==> #[trigger] infos[i].skip_serde
}

/// Whether every unnamed field info is skipped.
pub open spec fn unnamed_all_skipped(infos: Seq<UnnamedField>) -> bool {
    forall|i: int| 0 <= i < infos.len() ==> #[trigger] infos[i].skip_serde
}

/// The number of fields of the variant data.
pub open spec fn variant_len(e: DynamicEnum) -> nat {
    match e.spec_variant() {
        DynamicVariant::Unit => 0,
        DynamicVariant::Tuple(t) => t.spec_fields().len(),
        DynamicVariant::Struct(s) => s.spec_fields().len(),
    }
}

/// Serializes a value: a primitive by the serializer its registration offers, a container by
/// its kind and the type information it represents.
pub open spec fn ser_spec(v: Value, reg: TypeRegistry) -> Outcome<SerialData>
    decreases v, 0nat,
{
    proof {
        match v {
            Value::Array(a) => a.lemma_decreases(),
            Value::List(l) => l.lemma_decreases(),
            Value::Tuple(t) => t.lemma_decreases(),
            Value::TupleStruct(t) => t.lemma_decreases(),
            Value::Struct(s) => s.lemma_decreases(),
            Value::MapLike(m) => m.lemma_decreases(),
            Value::SetLike(s) => s.lemma_decreases(),
            Value::Enum(e) => e.lemma_decreases(),
            _ => {},
        }
    }
    if has_serializer(reg, v.spec_ty_id()) {
        Outcome::Done(primitive_serial(v))
    } else {
        match v {
            Value::Array(a) => match ser_elems(a.spec_values(), reg, a.spec_values().len()) {
                Outcome::Done(s) => Outcome::Done(SerialData::Tuple(s)),
                Outcome::Failed(e) => Outcome::Failed(e),
                Outcome::Malformed => Outcome::Malformed,
            },
            Value::List(l) => match ser_elems(l.spec_values(), reg, l.spec_values().len()) {
                Outcome::Done(s) => Outcome::Done(SerialData::Sequence(s)),
                Outcome::Failed(e) => Outcome::Failed(e),
                Outcome::Malformed => Outcome::Malformed,
            },
            Value::Tuple(t) => match ser_elems(t.spec_fields(), reg, t.spec_fields().len()) {
                Outcome::Done(s) => Outcome::Done(SerialData::Tuple(s)),
                Outcome::Failed(e) => Outcome::Failed(e),
                Outcome::Malformed => Outcome::Malformed,
            },
            Value::SetLike(st) => match ser_elems(st.spec_values(), reg, st.spec_values().len()) {
                Outcome::Done(s) => Outcome::Done(SerialData::Sequence(s)),
                Outcome::Failed(e) => Outcome::Failed(e),
                Outcome::Malformed => Outcome::Malformed,
            },
            Value::MapLike(m) => match ser_entries(m.spec_entries(), reg, m.spec_entries().len()) {
                Outcome::Done(s) => Outcome::Done(SerialData::Mapping(s)),
                Outcome::Failed(e) => Outcome::Failed(e),
                Outcome::Malformed => Outcome::Malformed,
            },
            Value::Struct(s) => match s.spec_info() {
                Some(TypeInfo::Struct(info)) => if s.spec_fields().len() != info.fields@.len() {
                    Outcome::Failed(
                        SerError::FieldCountMismatch {
                            type_path: info.ty.path,
                            expected: info.fields@.len() as usize,
                            actual: s.spec_fields().len() as usize,
                        },
                    )
                } else {
                    match ser_named(info.fields@, s.spec_fields(), reg, info.fields@.len()) {
                        Outcome::Done(f) => Outcome::Done(
                            SerialData::Struct { name: info.ty.ident@, fields: f },
                        ),
                        Outcome::Failed(e) => Outcome::Failed(e),
                        Outcome::Malformed => Outcome::Malformed,
                    }
                },
                Some(other) => Outcome::Failed(
                    SerError::KindMismatch { expected: "struct", type_path: other.spec_ty().path },
                ),
                None => Outcome::Failed(
                    SerError::MissingTypeInfo { type_path: v.spec_reflect_type_info().spec_ty().path },
                ),
            },
            Value::TupleStruct(t) => match t.spec_info() {
                Some(TypeInfo::TupleStruct(info)) => if t.spec_fields().len() != info.fields@.len() {
                    Outcome::Failed(
                        SerError::FieldCountMismatch {
                            type_path: info.ty.path,
                            expected: info.fields@.len() as usize,
                            actual: t.spec_fields().len() as usize,
                        },
                    )
                } else if info.fields@.len() == 1 && serde_count_unnamed(info.fields@) == 1 {
                    match ser_spec(t.spec_fields()[0], reg) {
                        Outcome::Done(d) => Outcome::Done(
                            SerialData::NewtypeStruct { name: info.ty.ident@, value: Box::new(d) },
                        ),
                        Outcome::Failed(e) => Outcome::Failed(e),
                        Outcome::Malformed => Outcome::Malformed,
                    }
                } else {
                    match ser_unnamed(info.fields@, t.spec_fields(), reg, info.fields@.len()) {
                        Outcome::Done(f) => Outcome::Done(
                            SerialData::TupleStruct { name: info.ty.ident@, fields: f },
                        ),
                        Outcome::Failed(e) => Outcome::Failed(e),
                        Outcome::Malformed => Outcome::Malformed,
                    }
                },
                Some(other) => Outcome::Failed(
                    SerError::KindMismatch {
                        expected: "tuple struct",
                        type_path: other.spec_ty().path,
                    },
                ),
                None => Outcome::Failed(
                    SerError::MissingTypeInfo { type_path: v.spec_reflect_type_info().spec_ty().path },
                ),
            },
            Value::Enum(e) => match e.spec_info() {
                Some(TypeInfo::Enum(info)) => ser_enum(e, info, reg),
                Some(other) => Outcome::Failed(
                    SerError::KindMismatch { expected: "enum", type_path: other.spec_ty().path },
                ),
                None => Outcome::Failed(
                    SerError::MissingTypeInfo { type_path: v.spec_reflect_type_info().spec_ty().path },
                ),
            },
            _ => Outcome::Failed(
                SerError::NotSerializable { type_path: v.spec_reflect_type_info().spec_ty().path },
            ),
        }
    }
}

/// Serializes an enum value by the variant its represented enum has at the value's index.
pub open spec fn ser_enum(e: DynamicEnum, info: EnumInfo, reg: TypeRegistry) -> Outcome<SerialData>
    decreases e, 1nat,
{
    proof {
        e.lemma_decreases();
        match e.spec_variant() {
            DynamicVariant::Tuple(t) => t.lemma_decreases(),
            DynamicVariant::Struct(s) => s.lemma_decreases(),
            _ => {},
        }
    }
    let index = (e.spec_variant_index() as u32) as int;
    if index >= info.variants@.len() {
        Outcome::Failed(SerError::NoVariantAt { index: e.spec_variant_index(), type_path: info.ty.path })
    } else {
        let vinfo = info.variants@[index];
        if variant_len(e) != vinfo.spec_field_len() {
            Outcome::Failed(
                SerError::FieldCountMismatch {
                    type_path: info.ty.path,
                    expected: vinfo.spec_field_len() as usize,
                    actual: variant_len(e) as usize,
                },
            )
        } else {
            match vinfo {
                VariantInfo::Unit(u) => if is_option(info) {
                    Outcome::Done(SerialData::OptionNone)
                } else {
                    Outcome::Done(
                        SerialData::UnitVariant { name: info.ty.ident@, index, variant: u.name@ },
                    )
                },
                VariantInfo::Struct(sv) => match (match e.spec_variant() {
                    DynamicVariant::Struct(s) => ser_named(sv.fields@, s.spec_fields(), reg, sv.fields@.len()),
                    _ => if named_all_skipped(sv.fields@) {
                        Outcome::Done(Seq::empty())
                    } else {
                        Outcome::Malformed
                    },
                }) {
                    Outcome::Done(f) => Outcome::Done(
                        SerialData::StructVariant {
                            name: info.ty.ident@,
                            index,
                            variant: sv.name@,
                            fields: f,
                        },
                    ),
                    Outcome::Failed(x) => Outcome::Failed(x),
                    Outcome::Malformed => Outcome::Malformed,
                },
                VariantInfo::Tuple(tv) => if tv.fields@.len() == 1 && serde_count_unnamed(tv.fields@)
                    == 1 {
                    let inner = match e.spec_variant() {
                        DynamicVariant::Tuple(t) => ser_spec(t.spec_fields()[0], reg),
                        DynamicVariant::Struct(s) => ser_spec(s.spec_fields()[0].1, reg),
                        DynamicVariant::Unit => Outcome::Malformed,
                    };
                    match inner {
                        Outcome::Done(d) => if is_option(info) {
                            Outcome::Done(SerialData::OptionSome(Box::new(d)))
                        } else {
                            Outcome::Done(
                                SerialData::NewtypeVariant {
                                    name: info.ty.ident@,
                                    index,
                                    variant: tv.name@,
                                    value: Box::new(d),
                                },
                            )
                        },
                        Outcome::Failed(x) => Outcome::Failed(x),
                        Outcome::Malformed => Outcome::Malformed,
                    }
                } else {
                    let out = match e.spec_variant() {
                        DynamicVariant::Tuple(t) => ser_unnamed(
                            tv.fields@,
                            t.spec_fields(),
                            reg,
                            tv.fields@.len(),
                        ),
                        DynamicVariant::Struct(s) => ser_unnamed_of_named(
                            tv.fields@,
                            s.spec_fields(),
                            reg,
                            tv.fields@.len(),
                        ),
                        DynamicVariant::Unit => if unnamed_all_skipped(tv.fields@) {
                            Outcome::Done(Seq::empty())
                        } else {
                            Outcome::Malformed
                        },
                    };
                    match out {
                        Outcome::Done(f) => Outcome::Done(
                            SerialData::TupleVariant {
                                name: info.ty.ident@,
                                index,
                                variant: tv.name@,
                                fields: f,
                            },
                        ),
                        Outcome::Failed(x) => Outcome::Failed(x),
                        Outcome::Malformed => Outcome::Malformed,
                    }
                },
            }
        }
    }
}

/// Serializes the first `n` elements, in order; stops at the first that cannot be.
pub open spec fn ser_elems(s: Seq<Value>, reg: TypeRegistry, n: nat) -> Outcome<Seq<SerialData>>
    decreases s, n,
{
    if n == 0 || n > s.len() {
        Outcome::Done(Seq::empty())
    } else {
        match ser_elems(s, reg, (n - 1) as nat) {
            Outcome::Done(acc) => match ser_spec(s[n - 1], reg) {
                Outcome::Done(d) => Outcome::Done(acc.push(d)),
                Outcome::Failed(e) => Outcome::Failed(e),
                Outcome::Malformed => Outcome::Malformed,
            },
            other => other,
        }
    }
}

/// Serializes the first `n` map entries, key before value, in order.
pub open spec fn ser_entries(s: Seq<(Value, Value)>, reg: TypeRegistry, n: nat) -> Outcome<
    Seq<(SerialData, SerialData)>,
>
    decreases s, n,
{
    if n == 0 || n > s.len() {
        Outcome::Done(Seq::empty())
    } else {
        match ser_entries(s, reg, (n - 1) as nat) {
            Outcome::Done(acc) => match ser_spec(s[n - 1].0, reg) {
                Outcome::Done(k) => match ser_spec(s[n - 1].1, reg) {
                    Outcome::Done(d) => Outcome::Done(acc.push((k, d))),
                    Outcome::Failed(e) => Outcome::Failed(e),
                    Outcome::Malformed => Outcome::Malformed,
                },
                Outcome::Failed(e) => Outcome::Failed(e),
                Outcome::Malformed => Outcome::Malformed,
            },
            other => other,
        }
    }
}

/// Serializes the named fields that the first `n` field infos describe and do not skip, each
/// looked up by name; a field missing from the value makes the value malformed.
pub open spec fn ser_named(
    infos: Seq<NamedField>,
    fields: Seq<(String, Value)>,
    reg: TypeRegistry,
    n: nat,
) -> Outcome<Seq<(Seq<char>, SerialData)>>
    decreases fields, n,
{
    if n == 0 || n > infos.len() {
        Outcome::Done(Seq::empty())
    } else {
        match ser_named(infos, fields, reg, (n - 1) as nat) {
            Outcome::Done(acc) => {
                let f = infos[n - 1];
                if f.skip_serde {
                    Outcome::Done(acc)
                } else {
                    match field_position(fields, f.name@) {
                        Some(j) => match ser_spec(fields[j].1, reg) {
                            Outcome::Done(d) => Outcome::Done(acc.push((f.name@, d))),
                            Outcome::Failed(e) => Outcome::Failed(e),
                            Outcome::Malformed => Outcome::Malformed,
                        },
                        None => Outcome::Malformed,
                    }
                }
            },
            other => other,
        }
    }
}

/// Serializes the fields that the first `n` field infos describe and do not skip, each taken at
/// the info's index; an index past the fields makes the value malformed.
pub open spec fn ser_unnamed(
    infos: Seq<UnnamedField>,
    fields: Seq<Value>,
    reg: TypeRegistry,
    n: nat,
) -> Outcome<Seq<SerialData>>
    decreases fields, n,
{
    if n == 0 || n > infos.len() {
        Outcome::Done(Seq::empty())
    } else {
        match ser_unnamed(infos, fields, reg, (n - 1) as nat) {
            Outcome::Done(acc) => {
                let f = infos[n - 1];
                if f.skip_serde {
                    Outcome::Done(acc)
                } else if f.index < fields.len() {
                    match ser_spec(fields[f.index as int], reg) {
                        Outcome::Done(d) => Outcome::Done(acc.push(d)),
                        Outcome::Failed(e) => Outcome::Failed(e),
                        Outcome::Malformed => Outcome::Malformed,
                    }
                } else {
                    Outcome::Malformed
                }
            },
            other => other,
        }
    }
}

/// As `ser_unnamed`, over the values of named fields.
pub open spec fn ser_unnamed_of_named(
    infos: Seq<UnnamedField>,
    fields: Seq<(String, Value)>,
    reg: TypeRegistry,
    n: nat,
) -> Outcome<Seq<SerialData>>
    decreases fields, n,
{
    if n == 0 || n > infos.len() {
        Outcome::Done(Seq::empty())
    } else {
        match ser_unnamed_of_named(infos, fields, reg, (n - 1) as nat) {
            Outcome::Done(acc) => {
                let f = infos[n - 1];
                if f.skip_serde {
                    Outcome::Done(acc)
                } else if f.index < fields.len() {
                    match ser_spec(fields[f.index as int].1, reg) {
                        Outcome::Done(d) => Outcome::Done(acc.push(d)),
                        Outcome::Failed(e) => Outcome::Failed(e),
                        Outcome::Malformed => Outcome::Malformed,
                    }
                } else {
                    Outcome::Malformed
                }
            },
            other => other,
        }
    }
}

/// Serializes a value tagged with the full path of the type it represents: a map of one entry.
pub open spec fn ser_tagged_spec(v: Value, reg: TypeRegistry) -> Outcome<SerialData> {
    match v.spec_represented() {
        Some(info) => match ser_spec(v, reg) {
            Outcome::Done(d) => Outcome::Done(
                SerialData::Mapping(seq![(SerialData::Str(info.spec_ty().path@), d)]),
            ),
            Outcome::Failed(e) => Outcome::Failed(e),
            Outcome::Malformed => Outcome::Malformed,
        },
        None => Outcome::Failed(
            SerError::MissingTypeInfo { type_path: v.spec_reflect_type_info().spec_ty().path },
        ),
    }
}

/// The content of a serialization outcome.
pub open spec fn view_serial(o: Outcome<Serial>) -> Outcome<SerialData> {
    match o {
        Outcome::Done(s) => Outcome::Done(s.data()),
        Outcome::Failed(e) => Outcome::Failed(e),
        Outcome::Malformed => Outcome::Malformed,
    }
}

/// The content of the outcome of serializing a sequence.
pub open spec fn view_serials(o: Outcome<Vec<Serial>>) -> Outcome<Seq<SerialData>> {
    match o {
        Outcome::Done(s) => Outcome::Done(serial_seq(s@)),
        Outcome::Failed(e) => Outcome::Failed(e),
        Outcome::Malformed => Outcome::Malformed,
    }
}

/// The content of the outcome of serializing map entries.
pub open spec fn view_entries(o: Outcome<Vec<(Serial, Serial)>>) -> Outcome<
    Seq<(SerialData, SerialData)>,
> {
    match o {
        Outcome::Done(s) => Outcome::Done(serial_entries(s@)),
        Outcome::Failed(e) => Outcome::Failed(e),
        Outcome::Malformed => Outcome::Malformed,
    }
}

/// The content of the outcome of serializing named fields.
pub open spec fn view_fields(o: Outcome<Vec<(&'static str, Serial)>>) -> Outcome<
    Seq<(Seq<char>, SerialData)>,
> {
    match o {
        Outcome::Done(s) => Outcome::Done(serial_fields(s@)),
        Outcome::Failed(e) => Outcome::Failed(e),
        Outcome::Malformed => Outcome::Malformed,
    }
}

proof fn lemma_elems_stuck(s: Seq<Value>, reg: TypeRegistry, k: nat, m: nat)
    requires
        k <= m <= s.len(),
        !(ser_elems(s, reg, k) is Done),
    ensures
        ser_elems(s, reg, m) == ser_elems(s, reg, k),
    decreases m - k,
{
    if m > k {
        lemma_elems_stuck(s, reg, k, (m - 1) as nat);
    }
}

proof fn lemma_entries_stuck(s: Seq<(Value, Value)>, reg: TypeRegistry, k: nat, m: nat)
    requires
        k <= m <= s.len(),
        !(ser_entries(s, reg, k) is Done),
    ensures
        ser_entries(s, reg, m) == ser_entries(s, reg, k),
    decreases m - k,
{
    if m > k {
        lemma_entries_stuck(s, reg, k, (m - 1) as nat);
    }
}

proof fn lemma_named_stuck(
    infos: Seq<NamedField>,
    fields: Seq<(String, Value)>,
    reg: TypeRegistry,
    k: nat,
    m: nat,
)
    requires
        k <= m <= infos.len(),
        !(ser_named(infos, fields, reg, k) is Done),
    ensures
        ser_named(infos, fields, reg, m) == ser_named(infos, fields, reg, k),
    decreases m - k,
{
    if m > k {
        lemma_named_stuck(infos, fields, reg, k, (m - 1) as nat);
    }
}

proof fn lemma_unnamed_stuck(
    infos: Seq<UnnamedField>,
    fields: Seq<Value>,
    reg: TypeRegistry,
    k: nat,
    m: nat,
)
    requires
        k <= m <= infos.len(),
        !(ser_unnamed(infos, fields, reg, k) is Done),
    ensures
        ser_unnamed(infos, fields, reg, m) == ser_unnamed(infos, fields, reg, k),
    decreases m - k,
{
    if m > k {
        lemma_unnamed_stuck(infos, fields, reg, k, (m - 1) as nat);
    }
}

proof fn lemma_unnamed_of_named_stuck(
    infos: Seq<UnnamedField>,
    fields: Seq<(String, Value)>,
    reg: TypeRegistry,
    k: nat,
    m: nat,
)
    requires
        k <= m <= infos.len(),
        !(ser_unnamed_of_named(infos, fields, reg, k) is Done),
    ensures
        ser_unnamed_of_named(infos, fields, reg, m) == ser_unnamed_of_named(infos, fields, reg, k),
    decreases m - k,
{
    if m > k {
        lemma_unnamed_of_named_stuck(infos, fields, reg, k, (m - 1) as nat);
    }
}

/// Whether the enum is `core::option::Option`.
pub fn is_option_info(info: &EnumInfo) -> (r: bool)
    ensures
        r == is_option(*info),
{
    if !str_eq(info.ty.ident, "Option") {
        return false;
    }
    match info.ty.module {
        Some(m) => str_eq(m, "core::option"),
        None => false,
    }
}

/// Serializes a value; see `ser_spec`.
pub fn serialize_value(value: &Value, reg: &TypeRegistry) -> (r: Outcome<Serial>)
    requires
        serializers_match(*reg),
    ensures
        view_serial(r) == ser_spec(*value, *reg),
    decreases value,
{
    match reg.get(value.ty_id()) {
        Some(m) => match m.get_serialize() {
            Some(s) => {
                assert(reg.table().dom().contains(value.spec_ty_id()));
                return Outcome::Done(s.serialize(value));
            },
            None => {},
        },
        None => {},
    }
    match value {
        Value::Array(a) => {
            proof {
                a.lemma_decreases();
            }
            match serialize_elems(a.items(), reg) {
                Outcome::Done(v) => Outcome::Done(Serial::Tuple(v)),
                Outcome::Failed(e) => Outcome::Failed(e),
                Outcome::Malformed => Outcome::Malformed,
            }
        },
        Value::List(l) => {
            proof {
                l.lemma_decreases();
            }
            match serialize_elems(l.items(), reg) {
                Outcome::Done(v) => Outcome::Done(Serial::Sequence(v)),
                Outcome::Failed(e) => Outcome::Failed(e),
                Outcome::Malformed => Outcome::Malformed,
            }
        },
        Value::Tuple(t) => {
            proof {
                t.lemma_decreases();
            }
            match serialize_elems(t.items(), reg) {
                Outcome::Done(v) => Outcome::Done(Serial::Tuple(v)),
                Outcome::Failed(e) => Outcome::Failed(e),
                Outcome::Malformed => Outcome::Malformed,
            }
        },
        Value::SetLike(st) => {
            proof {
                st.lemma_decreases();
            }
            match serialize_elems(st.items(), reg) {
                Outcome::Done(v) => Outcome::Done(Serial::Sequence(v)),
                Outcome::Failed(e) => Outcome::Failed(e),
                Outcome::Malformed => Outcome::Malformed,
            }
        },
        Value::MapLike(m) => {
            proof {
                m.lemma_decreases();
            }
            match serialize_entries(m.items(), reg) {
                Outcome::Done(v) => Outcome::Done(Serial::Mapping(v)),
                Outcome::Failed(e) => Outcome::Failed(e),
                Outcome::Malformed => Outcome::Malformed,
            }
        },
        Value::Struct(s) => {
            proof {
                s.lemma_decreases();
            }
            match s.represented_type_info() {
                Some(TypeInfo::Struct(info)) => {
                    if s.field_len() != info.fields.len() {
                        return Outcome::Failed(
                            SerError::FieldCountMismatch {
                                type_path: info.ty.path,
                                expected: info.fields.len(),
                                actual: s.field_len(),
                            },
                        );
                    }
                    match serialize_named(info.fields, s.items(), reg) {
                        Outcome::Done(f) => Outcome::Done(Serial::Struct { name: info.ty.ident, fields: f }),
                        Outcome::Failed(e) => Outcome::Failed(e),
                        Outcome::Malformed => Outcome::Malformed,
                    }
                },
                Some(other) => Outcome::Failed(
                    SerError::KindMismatch { expected: "struct", type_path: other.type_path() },
                ),
                None => Outcome::Failed(SerError::MissingTypeInfo { type_path: value.reflect_type_path() }),
            }
        },
        Value::TupleStruct(t) => {
            proof {
                t.lemma_decreases();
            }
            match t.represented_type_info() {
                Some(TypeInfo::TupleStruct(info)) => {
                    let items = t.items();
                    if items.len() != info.fields.len() {
                        return Outcome::Failed(
                            SerError::FieldCountMismatch {
                                type_path: info.ty.path,
                                expected: info.fields.len(),
                                actual: items.len(),
                            },
                        );
                    }
                    if info.fields.len() == 1 && crate::info::count_serde_unnamed(info.fields) == 1 {
                        match serialize_value(&items[0], reg) {
                            Outcome::Done(d) => Outcome::Done(
                                Serial::NewtypeStruct { name: info.ty.ident, value: Box::new(d) },
                            ),
                            Outcome::Failed(e) => Outcome::Failed(e),
                            Outcome::Malformed => Outcome::Malformed,
                        }
                    } else {
                        match serialize_unnamed(info.fields, items, reg) {
                            Outcome::Done(f) => Outcome::Done(
                                Serial::TupleStruct { name: info.ty.ident, fields: f },
                            ),
                            Outcome::Failed(e) => Outcome::Failed(e),
                            Outcome::Malformed => Outcome::Malformed,
                        }
                    }
                },
                Some(other) => Outcome::Failed(
                    SerError::KindMismatch { expected: "tuple struct", type_path: other.type_path() },
                ),
                None => Outcome::Failed(SerError::MissingTypeInfo { type_path: value.reflect_type_path() }),
            }
        },
        Value::Enum(e) => {
            match e.represented_type_info() {
                Some(TypeInfo::Enum(info)) => serialize_enum(e, info, reg),
                Some(other) => Outcome::Failed(
                    SerError::KindMismatch { expected: "enum", type_path: other.type_path() },
                ),
                None => Outcome::Failed(SerError::MissingTypeInfo { type_path: value.reflect_type_path() }),
            }
        },
        _ => Outcome::Failed(SerError::NotSerializable { type_path: value.reflect_type_path() }),
    }
}

/// Serializes an enum value by the variant its represented enum has at the value's index; see
/// `ser_enum`.
fn serialize_enum(e: &DynamicEnum, info: EnumInfo, reg: &TypeRegistry) -> (r: Outcome<Serial>)
    requires
        serializers_match(*reg),
    ensures
        view_serial(r) == ser_enum(*e, info, *reg),
    decreases e,
{
    proof {
        e.lemma_decreases();
    }
    let index: u32 = e.variant_index() as u32;
    if index as usize >= info.variants.len() {
        return Outcome::Failed(SerError::NoVariantAt { index: e.variant_index(), type_path: info.ty.path });
    }
    let vinfo = info.variants[index as usize];
    if e.field_len() != vinfo.field_len() {
        return Outcome::Failed(
            SerError::FieldCountMismatch {
                type_path: info.ty.path,
                expected: vinfo.field_len(),
                actual: e.field_len(),
            },
        );
    }
    match vinfo {
        VariantInfo::Unit(u) => if is_option_info(&info) {
            Outcome::Done(Serial::OptionNone)
        } else {
            Outcome::Done(Serial::UnitVariant { name: info.ty.ident, index, variant: u.name })
        },
        VariantInfo::Struct(sv) => {
            let out = match e.variant() {
                DynamicVariant::Struct(s) => {
                    proof {
                        s.lemma_decreases();
                    }
                    serialize_named(sv.fields, s.items(), reg)
                },
                _ => if all_named_skipped(sv.fields) {
                    Outcome::Done(Vec::new())
                } else {
                    Outcome::Malformed
                },
            };
            proof {
                assert(serial_fields(Seq::<(&'static str, Serial)>::empty()) =~= Seq::empty());
            }
            match out {
                Outcome::Done(f) => Outcome::Done(
                    Serial::StructVariant { name: info.ty.ident, index, variant: sv.name, fields: f },
                ),
                Outcome::Failed(x) => Outcome::Failed(x),
                Outcome::Malformed => Outcome::Malformed,
            }
        },
        VariantInfo::Tuple(tv) => {
            if tv.fields.len() == 1 && crate::info::count_serde_unnamed(tv.fields) == 1 {
                let inner = match e.variant() {
                    DynamicVariant::Tuple(t) => {
                        proof {
                            t.lemma_decreases();
                        }
                        serialize_value(&t.items()[0], reg)
                    },
                    DynamicVariant::Struct(s) => {
                        proof {
                            s.lemma_decreases();
                        }
                        serialize_value(&s.items()[0].1, reg)
                    },
                    DynamicVariant::Unit => Outcome::Malformed,
                };
                match inner {
                    Outcome::Done(d) => if is_option_info(&info) {
                        Outcome::Done(Serial::OptionSome(Box::new(d)))
                    } else {
                        Outcome::Done(
                            Serial::NewtypeVariant {
                                name: info.ty.ident,
                                index,
                                variant: tv.name,
                                value: Box::new(d),
                            },
                        )
                    },
                    Outcome::Failed(x) => Outcome::Failed(x),
                    Outcome::Malformed => Outcome::Malformed,
                }
            } else {
                let out = match e.variant() {
                    DynamicVariant::Tuple(t) => {
                        proof {
                            t.lemma_decreases();
                        }
                        serialize_unnamed(tv.fields, t.items(), reg)
                    },
                    DynamicVariant::Struct(s) => {
                        proof {
                            s.lemma_decreases();
                        }
                        serialize_unnamed_of_named(tv.fields, s.items(), reg)
                    },
                    DynamicVariant::Unit => if all_unnamed_skipped(tv.fields) {
                        Outcome::Done(Vec::new())
                    } else {
                        Outcome::Malformed
                    },
                };
                proof {
                    assert(serial_seq(Seq::<Serial>::empty()) =~= Seq::empty());
                }
                match out {
                    Outcome::Done(f) => Outcome::Done(
                        Serial::TupleVariant { name: info.ty.ident, index, variant: tv.name, fields: f },
                    ),
                    Outcome::Failed(x) => Outcome::Failed(x),
                    Outcome::Malformed => Outcome::Malformed,
                }
            }
        },
    }
}

/// Whether every named field info is skipped.
fn all_named_skipped(infos: &[NamedField]) -> (r: bool)
    ensures
        r == named_all_skipped(infos@),
{
    let mut i: usize = 0;
    while i < infos.len()
        invariant
            i <= infos@.len(),
            forall|j: int| 0 <= j < i ==> #[trigger] infos@[j].skip_serde,
        decreases infos@.len() - i,
    {
        if !infos[i].skip_serde {
            return false;
        }
        i = i + 1;
    }
    true
}

/// Whether every unnamed field info is skipped.
fn all_unnamed_skipped(infos: &[UnnamedField]) -> (r: bool)
    ensures
        r == unnamed_all_skipped(infos@),
{
    let mut i: usize = 0;
    while i < infos.len()
        invariant
            i <= infos@.len(),
            forall|j: int| 0 <= j < i ==> #[trigger] infos@[j].skip_serde,
        decreases infos@.len() - i,
    {
        if !infos[i].skip_serde {
            return false;
        }
        i = i + 1;
    }
    true
}

/// Serializes the elements in order; see `ser_elems`.
fn serialize_elems(items: &Vec<Value>, reg: &TypeRegistry) -> (r: Outcome<Vec<Serial>>)
    requires
        serializers_match(*reg),
    ensures
        view_serials(r) == ser_elems(items@, *reg, items@.len()),
    decreases items@,
{
    let mut out: Vec<Serial> = Vec::new();
    let mut i: usize = 0;
    assert(serial_seq(out@) =~= Seq::empty());
    while i < items.len()
        invariant
            i <= items@.len(),
            serializers_match(*reg),
            ser_elems(items@, *reg, i as nat) == Outcome::Done(serial_seq(out@)),
        decreases items@.len() - i,
    {
        match serialize_value(&items[i], reg) {
            Outcome::Done(d) => {
                let ghost before = out@;
                out.push(d);
                proof {
                    broadcast use crate::serde::serial::group_serial;

                    assert(serial_seq(out@) =~= serial_seq(before).push(d.data()));
                }
            },
            Outcome::Failed(e) => {
                proof {
                    lemma_elems_stuck(items@, *reg, (i + 1) as nat, items@.len());
                }
                return Outcome::Failed(e);
            },
            Outcome::Malformed => {
                proof {
                    lemma_elems_stuck(items@, *reg, (i + 1) as nat, items@.len());
                }
                return Outcome::Malformed;
            },
        }
        i = i + 1;
    }
    Outcome::Done(out)
}

/// Serializes the map entries in order; see `ser_entries`.
fn serialize_entries(items: &Vec<(Value, Value)>, reg: &TypeRegistry) -> (r: Outcome<
    Vec<(Serial, Serial)>,
>)
    requires
        serializers_match(*reg),
    ensures
        view_entries(r) == ser_entries(items@, *reg, items@.len()),
    decreases items@,
{
    let mut out: Vec<(Serial, Serial)> = Vec::new();
    let mut i: usize = 0;
    assert(serial_entries(out@) =~= Seq::empty());
    while i < items.len()
        invariant
            i <= items@.len(),
            serializers_match(*reg),
            ser_entries(items@, *reg, i as nat) == Outcome::Done(serial_entries(out@)),
        decreases items@.len() - i,
    {
        let k = match serialize_value(&items[i].0, reg) {
            Outcome::Done(k) => k,
            Outcome::Failed(e) => {
                proof {
                    lemma_entries_stuck(items@, *reg, (i + 1) as nat, items@.len());
                }
                return Outcome::Failed(e);
            },
            Outcome::Malformed => {
                proof {
                    lemma_entries_stuck(items@, *reg, (i + 1) as nat, items@.len());
                }
                return Outcome::Malformed;
            },
        };
        match serialize_value(&items[i].1, reg) {
            Outcome::Done(d) => {
                let ghost before = out@;
                out.push((k, d));
                proof {
                    broadcast use crate::serde::serial::group_serial;

                    assert(serial_entries(out@) =~= serial_entries(before).push((k.data(), d.data())));
                }
            },
            Outcome::Failed(e) => {
                proof {
                    lemma_entries_stuck(items@, *reg, (i + 1) as nat, items@.len());
                }
                return Outcome::Failed(e);
            },
            Outcome::Malformed => {
                proof {
                    lemma_entries_stuck(items@, *reg, (i + 1) as nat, items@.len());
                }
                return Outcome::Malformed;
            },
        }
        i = i + 1;
    }
    Outcome::Done(out)
}

/// Serializes the named fields that the infos do not skip, each looked up by name; see
/// `ser_named`.
fn serialize_named(infos: &[NamedField], fields: &Vec<(String, Value)>, reg: &TypeRegistry) -> (r:
    Outcome<Vec<(&'static str, Serial)>>)
    requires
        serializers_match(*reg),
        crate::ops::names_distinct(fields@),
    ensures
        view_fields(r) == ser_named(infos@, fields@, *reg, infos@.len()),
    decreases fields@,
{
    let mut out: Vec<(&'static str, Serial)> = Vec::new();
    let mut i: usize = 0;
    assert(serial_fields(out@) =~= Seq::empty());
    while i < infos.len()
        invariant
            i <= infos@.len(),
            serializers_match(*reg),
            crate::ops::names_distinct(fields@),
            ser_named(infos@, fields@, *reg, i as nat) == Outcome::Done(serial_fields(out@)),
        decreases infos@.len() - i,
    {
        let f = infos[i];
        if !f.skip_serde {
            match crate::ops::struct_ops::position_of(fields, f.name) {
                Some(j) => match serialize_value(&fields[j].1, reg) {
                    Outcome::Done(d) => {
                        let ghost before = out@;
                        out.push((f.name, d));
                        proof {
                            broadcast use crate::serde::serial::group_serial;

                            assert(serial_fields(out@) =~= serial_fields(before).push((f.name@, d.data())));
                        }
                    },
                    Outcome::Failed(e) => {
                        proof {
                            lemma_named_stuck(infos@, fields@, *reg, (i + 1) as nat, infos@.len());
                        }
                        return Outcome::Failed(e);
                    },
                    Outcome::Malformed => {
                        proof {
                            lemma_named_stuck(infos@, fields@, *reg, (i + 1) as nat, infos@.len());
                        }
                        return Outcome::Malformed;
                    },
                },
                None => {
                    proof {
                        lemma_named_stuck(infos@, fields@, *reg, (i + 1) as nat, infos@.len());
                    }
                    return Outcome::Malformed;
                },
            }
        }
        i = i + 1;
    }
    Outcome::Done(out)
}

/// Serializes the fields that the infos do not skip, each taken at its index; see `ser_unnamed`.
fn serialize_unnamed(infos: &[UnnamedField], fields: &Vec<Value>, reg: &TypeRegistry) -> (r: Outcome<
    Vec<Serial>,
>)
    requires
        serializers_match(*reg),
    ensures
        view_serials(r) == ser_unnamed(infos@, fields@, *reg, infos@.len()),
    decreases fields@,
{
    let mut out: Vec<Serial> = Vec::new();
    let mut i: usize = 0;
    assert(serial_seq(out@) =~= Seq::empty());
    while i < infos.len()
        invariant
            i <= infos@.len(),
            serializers_match(*reg),
            ser_unnamed(infos@, fields@, *reg, i as nat) == Outcome::Done(serial_seq(out@)),
        decreases infos@.len() - i,
    {
        let f = infos[i];
        if !f.skip_serde {
            if f.index < fields.len() {
                match serialize_value(&fields[f.index], reg) {
                    Outcome::Done(d) => {
                        let ghost before = out@;
                        out.push(d);
                        proof {
                            broadcast use crate::serde::serial::group_serial;

                            assert(serial_seq(out@) =~= serial_seq(before).push(d.data()));
                        }
                    },
                    Outcome::Failed(e) => {
                        proof {
                            lemma_unnamed_stuck(infos@, fields@, *reg, (i + 1) as nat, infos@.len());
                        }
                        return Outcome::Failed(e);
                    },
                    Outcome::Malformed => {
                        proof {
                            lemma_unnamed_stuck(infos@, fields@, *reg, (i + 1) as nat, infos@.len());
                        }
                        return Outcome::Malformed;
                    },
                }
            } else {
                proof {
                    lemma_unnamed_stuck(infos@, fields@, *reg, (i + 1) as nat, infos@.len());
                }
                return Outcome::Malformed;
            }
        }
        i = i + 1;
    }
    Outcome::Done(out)
}

/// As `serialize_unnamed`, over the values of named fields; see `ser_unnamed_of_named`.
fn serialize_unnamed_of_named(
    infos: &[UnnamedField],
    fields: &Vec<(String, Value)>,
    reg: &TypeRegistry,
) -> (r: Outcome<Vec<Serial>>)
    requires
        serializers_match(*reg),
    ensures
        view_serials(r) == ser_unnamed_of_named(infos@, fields@, *reg, infos@.len()),
    decreases fields@,
{
    let mut out: Vec<Serial> = Vec::new();
    let mut i: usize = 0;
    assert(serial_seq(out@) =~= Seq::empty());
    while i < infos.len()
        invariant
            i <= infos@.len(),
            serializers_match(*reg),
            ser_unnamed_of_named(infos@, fields@, *reg, i as nat) == Outcome::Done(serial_seq(out@)),
        decreases infos@.len() - i,
    {
        let f = infos[i];
        if !f.skip_serde {
            if f.index < fields.len() {
                match serialize_value(&fields[f.index].1, reg) {
                    Outcome::Done(d) => {
                        let ghost before = out@;
                        out.push(d);
                        proof {
                            broadcast use crate::serde::serial::group_serial;

                            assert(serial_seq(out@) =~= serial_seq(before).push(d.data()));
                        }
                    },
                    Outcome::Failed(e) => {
                        proof {
                            lemma_unnamed_of_named_stuck(infos@, fields@, *reg, (i + 1) as nat, infos@.len());
                        }
                        return Outcome::Failed(e);
                    },
                    Outcome::Malformed => {
                        proof {
                            lemma_unnamed_of_named_stuck(infos@, fields@, *reg, (i + 1) as nat, infos@.len());
                        }
                        return Outcome::Malformed;
                    },
                }
            } else {
                proof {
                    lemma_unnamed_of_named_stuck(infos@, fields@, *reg, (i + 1) as nat, infos@.len());
                }
                return Outcome::Malformed;
            }
        }
        i = i + 1;
    }
    Outcome::Done(out)
}

/// Whether every serializer in the registry serializes values of the type it is registered for.
pub fn serializers_consistent(reg: &TypeRegistry) -> (r: bool)
    ensures
        r == serializers_match(*reg),
{
    let ids = reg.registered_ids();
    let mut i: usize = 0;
    while i < ids.len()
        invariant
            i <= ids@.len(),
            forall|j: int| 0 <= j < ids@.len() ==> reg.table().dom().contains(#[trigger] ids@[j]),
            forall|j: int| #![trigger ids@[j]]
                0 <= j < i ==> (reg.table()[ids@[j]].spec_serialize() matches Some(s) ==> s.spec_target()
                    == ids@[j]),
        decreases ids@.len() - i,
    {
        let id = ids[i];
        match reg.get(id) {
            Some(m) => match m.get_serialize() {
                Some(s) => {
                    if s.target() != id {
                        return false;
                    }
                },
                None => {},
            },
            None => {},
        }
        i = i + 1;
    }
    proof {
        assert forall|id: TypeId| #[trigger] reg.table().dom().contains(id) implies (
        reg.table()[id].spec_serialize() matches Some(s) ==> s.spec_target() == id) by {
            let j = choose|j: int| 0 <= j < ids@.len() && ids@[j] == id;
            assert(ids@[j] == id);
        }
    }
    true
}

/// Serializes a reflected value, guided by the type information it represents.
pub struct SerializeDriver<'a> {
    value: &'a Value,
    registry: &'a TypeRegistry,
}

impl<'a> SerializeDriver<'a> {
    pub closed spec fn spec_value(self) -> Value {
        *self.value
    }

    pub closed spec fn spec_registry(self) -> TypeRegistry {
        *self.registry
    }

    /// A serializer of `value` with the types of `registry`.
    pub fn new(value: &'a Value, registry: &'a TypeRegistry) -> (r: Self)
        ensures
            r.spec_value() == *value,
            r.spec_registry() == *registry,
    {
        SerializeDriver { value, registry }
    }

    /// Serializes the value; a value that lacks a field which its represented type declares
    /// comes out as `Malformed`.
    pub fn try_serialize(&self) -> (r: Outcome<Serial>)
        requires
            serializers_match(self.spec_registry()),
        ensures
            view_serial(r) == ser_spec(self.spec_value(), self.spec_registry()),
    {
        serialize_value(self.value, self.registry)
    }

    /// Serializes the value.
    pub fn serialize(&self) -> (r: Result<Serial, SerError>)
        requires
            serializers_match(self.spec_registry()),
            !(ser_spec(self.spec_value(), self.spec_registry()) is Malformed),
        ensures
            match ser_spec(self.spec_value(), self.spec_registry()) {
                Outcome::Done(d) => r matches Ok(s) && s.data() == d,
                Outcome::Failed(e) => r == Err::<Serial, SerError>(e),
                Outcome::Malformed => false,
            },
    {
        match serialize_value(self.value, self.registry) {
            Outcome::Done(s) => Ok(s),
            Outcome::Failed(e) => Err(e),
            Outcome::Malformed => Err(SerError::NotSerializable { type_path: self.value.reflect_type_path() }),
        }
    }
}

/// Serializes a reflected value as a map of one entry, from the full path of the type it
/// represents to its serialized form.
pub struct ReflectSerializeDriver<'a> {
    value: &'a Value,
    registry: &'a TypeRegistry,
}

impl<'a> ReflectSerializeDriver<'a> {
    pub closed spec fn spec_value(self) -> Value {
        *self.value
    }

    pub closed spec fn spec_registry(self) -> TypeRegistry {
        *self.registry
    }

    /// A serializer of `value` with the types of `registry`.
    pub fn new(value: &'a Value, registry: &'a TypeRegistry) -> (r: Self)
        ensures
            r.spec_value() == *value,
            r.spec_registry() == *registry,
    {
        ReflectSerializeDriver { value, registry }
    }

    /// Serializes the value with its type path; a value that lacks a field which its represented
    /// type declares comes out as `Malformed`.
    pub fn try_serialize(&self) -> (r: Outcome<Serial>)
        requires
            serializers_match(self.spec_registry()),
        ensures
            view_serial(r) == ser_tagged_spec(self.spec_value(), self.spec_registry()),
    {
        let info = match self.value.represented_type_info() {
            Some(info) => info,
            None => return Outcome::Failed(
                SerError::MissingTypeInfo { type_path: self.value.reflect_type_path() },
            ),
        };
        match serialize_value(self.value, self.registry) {
            Outcome::Done(d) => {
                let key = Serial::Str(String::from_str(info.type_path()));
                let mut entries: Vec<(Serial, Serial)> = Vec::new();
                entries.push((key, d));
                proof {
                    broadcast use crate::serde::serial::group_serial;

                    assert(serial_entries(entries@) =~= seq![(key.data(), d.data())]);
                }
                Outcome::Done(Serial::Mapping(entries))
            },
            Outcome::Failed(e) => Outcome::Failed(e),
            Outcome::Malformed => Outcome::Malformed,
        }
    }

    /// Serializes the value with its type path.
    pub fn serialize(&self) -> (r: Result<Serial, SerError>)
        requires
            serializers_match(self.spec_registry()),
            !(ser_tagged_spec(self.spec_value(), self.spec_registry()) is Malformed),
        ensures
            match ser_tagged_spec(self.spec_value(), self.spec_registry()) {
                Outcome::Done(d) => r matches Ok(s) && s.data() == d,
                Outcome::Failed(e) => r == Err::<Serial, SerError>(e),
                Outcome::Malformed => false,
            },
    {
        match self.try_serialize() {
            Outcome::Done(s) => Ok(s),
            Outcome::Failed(e) => Err(e),
            Outcome::Malformed => Err(SerError::NotSerializable { type_path: self.value.reflect_type_path() }),
        }
    }
}

} // verus!
