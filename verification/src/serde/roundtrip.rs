//! What serialization and deserialization promise together: reading back, as the type a value
//! conforms to, what serialization wrote gives the value's content.
use vstd::prelude::*;

use crate::info::{EnumInfo, NamedField, TypeId, TypeInfo, UnnamedField, VariantInfo};
use crate::info::{first_variant, serde_count_unnamed};
use crate::ops::{DynamicEnum, DynamicVariant, field_position, has_field, keys_distinct};
use crate::ops::values_distinct;
use crate::registry::{TypeMeta, TypeRegistry, primitive_serial};
use crate::serde::{DeFault, Outcome, Parsed, SerialData, buffer_named, de_elems, de_entries};
use crate::serde::{de_enum, de_payload, de_spec, de_tagged_spec, de_tuple, de_tuple_all};
use crate::serde::{default_of, field_fold, fill, fill_fields, has_serializer, is_option};
use crate::serde::{map_fold, map_put, meta_of, named_index, ser_elems, ser_entries, ser_enum};
use crate::serde::{ser_named, ser_spec, ser_tagged_spec, ser_unnamed, set_fold, set_put};
use crate::serde::{variant_by_name, variant_index_named, variant_len};
use crate::serde::de::{lemma_count_unnamed_step, lemma_field_fold_push, lemma_first_named_unique};
use crate::serde::de::{lemma_first_variant_unique, lemma_map_fold_push, lemma_set_fold_push};
use crate::value::{Data, Value, VariantData, deep_entries, deep_fields, deep_seq, names_of};
use crate::value::same_content;

verus! {

broadcast use crate::value::group_deep;

/// The serialized form of a value, where serialization succeeds.
pub open spec fn ser_ok(v: Value, reg: TypeRegistry) -> SerialData {
    match ser_spec(v, reg) {
        Outcome::Done(d) => d,
        _ => SerialData::Unit,
    }
}

/// Whether a value fits the registered type `id`, so that what serialization writes of it reads
/// back as that type: a primitive value is registered with its own serializer and deserializer;
/// a container has neither, the registered type has the container's kind, and the elements fit
/// the types that the type information names for them.
pub open spec fn conforms(v: Value, id: TypeId, reg: TypeRegistry) -> bool
    decreases v, 0nat,
{
    proof {
        match v {
            Value::Array(a) => a.lemma_decreases(),
            Value::List(l) => l.lemma_decreases(),
            Value::Tuple(t) => t.lemma_decreases(),
            Value::TupleStruct(t) => t.lemma_decreases(),
            Value::Struct(s) => s.lemma_decreases(),
            Value::MapLike(m) => m.lemma_decreases(),
            Value::SetLike(s) => s.lemma_decreases(),
            Value::Enum(e) => e.lemma_decreases(),
            _ => {},
        }
    }
    &&& reg.table().dom().contains(id)
    &&& if v.spec_is_primitive() {
        &&& id == v.spec_ty_id()
        &&& has_serializer(reg, id)
        &&& reg.table()[id].spec_deserialize() matches Some(ds) && ds.spec_target() == id
    } else {
        &&& !has_serializer(reg, v.spec_ty_id())
        &&& reg.table()[id].spec_deserialize() is None
        &&& match v {
            Value::List(l) => match reg.table()[id].spec_info() {
                TypeInfo::List(info) => {
                    &&& reg.table().dom().contains(info.item)
                    &&& all_conform(l.spec_values(), info.item, reg, l.spec_values().len())
                },
                _ => false,
            },
            Value::Array(a) => match reg.table()[id].spec_info() {
                TypeInfo::Array(info) => {
                    &&& reg.table().dom().contains(info.item)
                    &&& a.spec_values().len() == info.len
                    &&& all_conform(a.spec_values(), info.item, reg, a.spec_values().len())
                },
                _ => false,
            },
            Value::SetLike(s) => match reg.table()[id].spec_info() {
                TypeInfo::SetLike(info) => {
                    &&& reg.table().dom().contains(info.value)
                    &&& values_distinct(s.spec_values())
                    &&& all_conform(s.spec_values(), info.value, reg, s.spec_values().len())
                },
                _ => false,
            },
            Value::MapLike(m) => match reg.table()[id].spec_info() {
                TypeInfo::MapLike(info) => {
                    &&& reg.table().dom().contains(info.key)
                    &&& reg.table().dom().contains(info.value)
                    &&& keys_distinct(m.spec_entries())
                    &&& entries_conform(
                        m.spec_entries(),
                        info.key,
                        info.value,
                        reg,
                        m.spec_entries().len(),
                    )
                },
                _ => false,
            },
            Value::Tuple(t) => match reg.table()[id].spec_info() {
                TypeInfo::Tuple(info) => {
                    &&& info.fields@.len() == t.spec_fields().len()
                    &&& forall|i: int|
                        0 <= i < info.fields@.len() ==> !(#[trigger] info.fields@[i]).skip_serde
                    &&& tuple_conform(t.spec_fields(), info.fields@, reg, t.spec_fields().len())
                },
                _ => false,
            },
            Value::TupleStruct(t) => match reg.table()[id].spec_info() {
                TypeInfo::TupleStruct(info) => {
                    &&& t.spec_info() == Some(TypeInfo::TupleStruct(info))
                    &&& info.fields@.len() == t.spec_fields().len()
                    &&& fields_in_place(info.fields@)
                    &&& unnamed_conform(t.spec_fields(), info.fields@, reg, t.spec_fields().len())
                },
                _ => false,
            },
            Value::Struct(st) => match reg.table()[id].spec_info() {
                TypeInfo::Struct(info) => {
                    &&& st.spec_info() == Some(TypeInfo::Struct(info))
                    &&& info.fields@.len() == st.spec_fields().len()
                    &&& names_in_place(st.spec_fields(), info.fields@)
                    &&& info_names_distinct(info.fields@)
                    &&& named_conform(st.spec_fields(), info.fields@, reg, st.spec_fields().len())
                },
                _ => false,
            },
            Value::Enum(e) => match reg.table()[id].spec_info() {
                TypeInfo::Enum(info) => {
                    let index = e.spec_variant_index() as int;
                    &&& e.spec_info() == Some(TypeInfo::Enum(info))
                    &&& index <= u32::MAX
                    &&& first_variant(info.variants@, e.spec_variant_name(), index)
                    &&& variant_conform(e.spec_variant(), info.variants@[index], info, reg)
                },
                _ => false,
            },
            _ => false,
        }
    }
}

/// Whether the first `n` values conform to the registered type `id`.
pub open spec fn all_conform(s: Seq<Value>, id: TypeId, reg: TypeRegistry, n: nat) -> bool
    decreases s, n,
{
    if n == 0 || n > s.len() {
        true
    } else {
        all_conform(s, id, reg, (n - 1) as nat) && conforms(s[n - 1], id, reg)
    }
}

/// Whether the keys and values of the first `n` entries conform to the registered types.
pub open spec fn entries_conform(
    s: Seq<(Value, Value)>,
    key: TypeId,
    value: TypeId,
    reg: TypeRegistry,
    n: nat,
) -> bool
    decreases s, n,
{
    if n == 0 || n > s.len() {
        true
    } else {
        &&& entries_conform(s, key, value, reg, (n - 1) as nat)
        &&& conforms(s[n - 1].0, key, reg)
        &&& conforms(s[n - 1].1, value, reg)
    }
}

/// Whether each of the first `n` values conforms to the type that the field info at its place
/// names.
pub open spec fn tuple_conform(s: Seq<Value>, infos: Seq<UnnamedField>, reg: TypeRegistry, n: nat) -> bool
    decreases s, n,
{
    if n == 0 || n > s.len() || n > infos.len() {
        true
    } else {
        tuple_conform(s, infos, reg, (n - 1) as nat) && conforms(s[n - 1], infos[n - 1].type_id, reg)
    }
}

/// Whether each field info takes the field at its own position.
pub open spec fn fields_in_place(infos: Seq<UnnamedField>) -> bool {
    forall|i: int| 0 <= i < infos.len() ==> (#[trigger] infos[i]).index == i
}

/// Whether each of the first `n` values fits the field info at its place: a skipped field holds
/// its type's default value, any other conforms to the type that the info names.
pub open spec fn unnamed_conform(s: Seq<Value>, infos: Seq<UnnamedField>, reg: TypeRegistry, n: nat) -> bool
    decreases s, n,
{
    if n == 0 || n > s.len() || n > infos.len() {
        true
    } else {
        &&& unnamed_conform(s, infos, reg, (n - 1) as nat)
        &&& if infos[n - 1].skip_serde {
            default_of(reg, infos[n - 1].type_id) == Some(s[n - 1].deep())
        } else {
            conforms(s[n - 1], infos[n - 1].type_id, reg)
        }
    }
}

proof fn lemma_unnamed_conform(s: Seq<Value>, infos: Seq<UnnamedField>, reg: TypeRegistry, n: nat)
    requires
        n <= s.len(),
        n <= infos.len(),
        unnamed_conform(s, infos, reg, n),
    ensures
        forall|i: int|
            0 <= i < n && !infos[i].skip_serde ==> #[trigger] conforms(s[i], infos[i].type_id, reg),
        forall|i: int|
            0 <= i < n && infos[i].skip_serde ==> #[trigger] default_of(reg, infos[i].type_id) == Some(
                s[i].deep(),
            ),
    decreases n,
{
    if n > 0 {
        lemma_unnamed_conform(s, infos, reg, (n - 1) as nat);
    }
}

/// Whether each named field info carries the name of the field at its position.
pub open spec fn names_in_place(fields: Seq<(String, Value)>, infos: Seq<NamedField>) -> bool {
    forall|i: int| 0 <= i < infos.len() ==> (#[trigger] infos[i]).name@ == fields[i].0@
}

/// Whether the named field infos carry pairwise different names.
pub open spec fn info_names_distinct(infos: Seq<NamedField>) -> bool {
    forall|i: int, j: int|
        0 <= i < infos.len() && 0 <= j < infos.len() && i != j ==> #[trigger] infos[i].name@
            != #[trigger] infos[j].name@
}

/// Whether the value of each of the first `n` named fields fits the field info at its place: a
/// skipped field holds its type's default value, any other conforms to the type the info names.
pub open spec fn named_conform(
    s: Seq<(String, Value)>,
    infos: Seq<NamedField>,
    reg: TypeRegistry,
    n: nat,
) -> bool
    decreases s, n,
{
    if n == 0 || n > s.len() || n > infos.len() {
        true
    } else {
        &&& named_conform(s, infos, reg, (n - 1) as nat)
        &&& if infos[n - 1].skip_serde {
            default_of(reg, infos[n - 1].type_id) == Some(s[n - 1].1.deep())
        } else {
            conforms(s[n - 1].1, infos[n - 1].type_id, reg)
        }
    }
}

proof fn lemma_named_conform(s: Seq<(String, Value)>, infos: Seq<NamedField>, reg: TypeRegistry, n: nat)
    requires
        n <= s.len(),
        n <= infos.len(),
        named_conform(s, infos, reg, n),
    ensures
        forall|i: int|
            0 <= i < n && !infos[i].skip_serde ==> #[trigger] conforms(s[i].1, infos[i].type_id, reg),
        forall|i: int|
            0 <= i < n && infos[i].skip_serde ==> #[trigger] default_of(reg, infos[i].type_id) == Some(
                s[i].1.deep(),
            ),
    decreases n,
{
    if n > 0 {
        lemma_named_conform(s, infos, reg, (n - 1) as nat);
    }
}

/// Whether the data of an enum value fits the variant info that its index picks: a unit variant
/// carries no data; a newtype variant one conforming field; another tuple variant its fields as
/// a tuple struct does; a struct variant its fields as a struct does. Of
/// `core::option::Option`, only `None` and `Some` are read back.
pub open spec fn variant_conform(
    d: DynamicVariant,
    vinfo: VariantInfo,
    info: EnumInfo,
    reg: TypeRegistry,
) -> bool
    decreases d, 1nat,
{
    proof {
        match d {
            DynamicVariant::Tuple(t) => t.lemma_decreases(),
            DynamicVariant::Struct(s) => s.lemma_decreases(),
            DynamicVariant::Unit => {},
        }
    }
    match vinfo {
        VariantInfo::Unit(u) => {
            &&& d is Unit
            &&& is_option(info) ==> u.name@ == "None"@
        },
        VariantInfo::Tuple(tv) => match d {
            DynamicVariant::Tuple(t) => {
                &&& tv.fields@.len() == t.spec_fields().len()
                &&& if tv.fields@.len() == 1 && !tv.fields@[0].skip_serde {
                    &&& is_option(info) ==> tv.name@ == "Some"@
                    &&& conforms(t.spec_fields()[0], tv.fields@[0].type_id, reg)
                } else {
                    &&& !is_option(info)
                    &&& tv.fields@.len() != 1
                    &&& fields_in_place(tv.fields@)
                    &&& unnamed_conform(t.spec_fields(), tv.fields@, reg, t.spec_fields().len())
                }
            },
            _ => false,
        },
        VariantInfo::Struct(sv) => match d {
            DynamicVariant::Struct(st) => {
                &&& !is_option(info)
                &&& sv.fields@.len() == st.spec_fields().len()
                &&& names_in_place(st.spec_fields(), sv.fields@)
                &&& info_names_distinct(sv.fields@)
                &&& named_conform(st.spec_fields(), sv.fields@, reg, st.spec_fields().len())
            },
            _ => false,
        },
    }
}

proof fn lemma_all_conform(s: Seq<Value>, id: TypeId, reg: TypeRegistry, n: nat)
    requires
        n <= s.len(),
        all_conform(s, id, reg, n),
    ensures
        forall|i: int| 0 <= i < n ==> #[trigger] conforms(s[i], id, reg),
    decreases n,
{
    if n > 0 {
        lemma_all_conform(s, id, reg, (n - 1) as nat);
    }
}

proof fn lemma_entries_conform(s: Seq<(Value, Value)>, key: TypeId, value: TypeId, reg: TypeRegistry, n: nat)
    requires
        n <= s.len(),
        entries_conform(s, key, value, reg, n),
    ensures
        forall|i: int| 0 <= i < n ==> #[trigger] conforms(s[i].0, key, reg),
        forall|i: int| 0 <= i < n ==> #[trigger] conforms(s[i].1, value, reg),
    decreases n,
{
    if n > 0 {
        lemma_entries_conform(s, key, value, reg, (n - 1) as nat);
    }
}

proof fn lemma_tuple_conform(s: Seq<Value>, infos: Seq<UnnamedField>, reg: TypeRegistry, n: nat)
    requires
        n <= s.len(),
        n <= infos.len(),
        tuple_conform(s, infos, reg, n),
    ensures
        forall|i: int| 0 <= i < n ==> #[trigger] conforms(s[i], infos[i].type_id, reg),
    decreases n,
{
    if n > 0 {
        lemma_tuple_conform(s, infos, reg, (n - 1) as nat);
    }
}

proof fn lemma_ser_elems(s: Seq<Value>, reg: TypeRegistry, n: nat)
    requires
        n <= s.len(),
        forall|i: int| 0 <= i < n ==> #[trigger] ser_spec(s[i], reg) is Done,
    ensures
        ser_elems(s, reg, n) == Outcome::Done(Seq::new(n, |i: int| ser_ok(s[i], reg))),
    decreases n,
{
    if n > 0 {
        lemma_ser_elems(s, reg, (n - 1) as nat);
        assert(Seq::new((n - 1) as nat, |i: int| ser_ok(s[i], reg)).push(ser_ok(s[n - 1], reg))
            =~= Seq::new(n, |i: int| ser_ok(s[i], reg)));
    } else {
        assert(Seq::new(n, |i: int| ser_ok(s[i], reg)) =~= Seq::<SerialData>::empty());
    }
}

proof fn lemma_ser_entries(s: Seq<(Value, Value)>, reg: TypeRegistry, n: nat)
    requires
        n <= s.len(),
        forall|i: int| 0 <= i < n ==> #[trigger] ser_spec(s[i].0, reg) is Done,
        forall|i: int| 0 <= i < n ==> #[trigger] ser_spec(s[i].1, reg) is Done,
    ensures
        ser_entries(s, reg, n) == Outcome::Done(
            Seq::new(n, |i: int| (ser_ok(s[i].0, reg), ser_ok(s[i].1, reg))),
        ),
    decreases n,
{
    if n > 0 {
        lemma_ser_entries(s, reg, (n - 1) as nat);
        assert(Seq::new((n - 1) as nat, |i: int| (ser_ok(s[i].0, reg), ser_ok(s[i].1, reg))).push(
            (ser_ok(s[n - 1].0, reg), ser_ok(s[n - 1].1, reg)),
        ) =~= Seq::new(n, |i: int| (ser_ok(s[i].0, reg), ser_ok(s[i].1, reg))));
    } else {
        assert(Seq::new(n, |i: int| (ser_ok(s[i].0, reg), ser_ok(s[i].1, reg))) =~= Seq::<
            (SerialData, SerialData),
        >::empty());
    }
}

proof fn lemma_de_elems(x: Seq<SerialData>, item: TypeMeta, reg: TypeRegistry, n: nat, t: Seq<Data>)
    requires
        n <= x.len(),
        n <= t.len(),
        forall|i: int| 0 <= i < n ==> #[trigger] de_spec(x[i], item, reg) == Parsed::Done(t[i]),
    ensures
        de_elems(x, item, reg, n) == Parsed::Done(t.take(n as int)),
    decreases n,
{
    if n > 0 {
        lemma_de_elems(x, item, reg, (n - 1) as nat, t);
        assert(de_spec(x[n - 1], item, reg) == Parsed::Done(t[n - 1]));
        assert(t.take(n - 1).push(t[n - 1]) =~= t.take(n as int));
    } else {
        assert(t.take(0) =~= Seq::<Data>::empty());
    }
}

proof fn lemma_de_entries(
    x: Seq<(SerialData, SerialData)>,
    key: TypeMeta,
    value: TypeMeta,
    reg: TypeRegistry,
    n: nat,
    t: Seq<(Data, Data)>,
)
    requires
        n <= x.len(),
        n <= t.len(),
        forall|i: int| 0 <= i < n ==> #[trigger] de_spec(x[i].0, key, reg) == Parsed::Done(t[i].0),
        forall|i: int| 0 <= i < n ==> #[trigger] de_spec(x[i].1, value, reg) == Parsed::Done(t[i].1),
    ensures
        de_entries(x, key, value, reg, n) == Parsed::Done(t.take(n as int)),
    decreases n,
{
    if n > 0 {
        lemma_de_entries(x, key, value, reg, (n - 1) as nat, t);
        assert(de_spec(x[n - 1].0, key, reg) == Parsed::Done(t[n - 1].0));
        assert(de_spec(x[n - 1].1, value, reg) == Parsed::Done(t[n - 1].1));
        assert(t.take(n - 1).push((t[n - 1].0, t[n - 1].1)) =~= t.take(n as int));
    } else {
        assert(t.take(0) =~= Seq::<(Data, Data)>::empty());
    }
}

proof fn lemma_set_fold_distinct(t: Seq<Data>)
    requires
        forall|i: int, j: int|
            0 <= i < t.len() && 0 <= j < t.len() && i != j ==> !same_content(t[i], t[j]),
    ensures
        set_fold(t) == t,
    decreases t.len(),
{
    if t.len() > 0 {
        let p = t.drop_last();
        lemma_set_fold_distinct(p);
        lemma_set_fold_push(p, t.last());
        assert(p.push(t.last()) =~= t);
        if exists|k: int| 0 <= k < p.len() && same_content(p[k], t.last()) {
            let k = choose|k: int| 0 <= k < p.len() && same_content(p[k], t.last());
            assert(t[k] == p[k]);
        }
        assert(set_put(p, t.last()) == p.push(t.last()));
    } else {
        assert(t =~= Seq::<Data>::empty());
    }
}

proof fn lemma_map_fold_distinct(t: Seq<(Data, Data)>)
    requires
        forall|i: int, j: int|
            0 <= i < t.len() && 0 <= j < t.len() && i != j ==> !same_content(t[i].0, t[j].0),
    ensures
        map_fold(t) == t,
    decreases t.len(),
{
    if t.len() > 0 {
        let p = t.drop_last();
        lemma_map_fold_distinct(p);
        lemma_map_fold_push(p, t.last().0, t.last().1);
        assert(p.push((t.last().0, t.last().1)) =~= t);
        if exists|k: int| 0 <= k < p.len() && same_content(p[k].0, t.last().0) {
            let k = choose|k: int| 0 <= k < p.len() && same_content(p[k].0, t.last().0);
            assert(t[k] == p[k]);
        }
        assert(map_put(p, t.last().0, t.last().1) == p.push((t.last().0, t.last().1)));
    } else {
        assert(t =~= Seq::<(Data, Data)>::empty());
    }
}

/// Whether the `i`-th field info reads its field, of content `t[i]`, from the items: a skipped
/// field by its type's default, another from the item at its place among the kept fields.
spec fn unnamed_slot(
    infos: Seq<UnnamedField>,
    reg: TypeRegistry,
    items: Seq<SerialData>,
    t: Seq<Data>,
    i: int,
) -> bool {
    let f = infos[i];
    if f.skip_serde {
        default_of(reg, f.type_id) == Some(t[i])
    } else {
        match meta_of(reg, f.type_id) {
            Some(fm) => {
                let c = serde_count_unnamed(infos.take(i));
                &&& c < items.len()
                &&& de_spec(items[c as int], fm, reg) == Parsed::Done(t[i])
            },
            None => false,
        }
    }
}

proof fn lemma_de_tuple(
    infos: Seq<UnnamedField>,
    owner: &'static str,
    reg: TypeRegistry,
    items: Seq<SerialData>,
    n: nat,
    t: Seq<Data>,
)
    requires
        n <= infos.len(),
        infos.len() <= t.len(),
        forall|i: int| 0 <= i < infos.len() ==> #[trigger] unnamed_slot(infos, reg, items, t, i),
    ensures
        de_tuple(infos, owner, reg, items, n) == Parsed::Done(t.take(n as int)),
    decreases n,
{
    if n > 0 {
        lemma_de_tuple(infos, owner, reg, items, (n - 1) as nat, t);
        assert(unnamed_slot(infos, reg, items, t, n - 1));
        assert(t.take(n - 1).push(t[n - 1]) =~= t.take(n as int));
    } else {
        assert(t.take(0) =~= Seq::<Data>::empty());
    }
}

proof fn lemma_count_all_kept(infos: Seq<UnnamedField>, i: int)
    requires
        0 <= i <= infos.len(),
        forall|j: int| 0 <= j < infos.len() ==> !(#[trigger] infos[j]).skip_serde,
    ensures
        serde_count_unnamed(infos.take(i)) == i,
    decreases i,
{
    if i > 0 {
        lemma_count_all_kept(infos, i - 1);
        lemma_count_unnamed_step(infos, i - 1);
    } else {
        assert(infos.take(0) =~= Seq::<UnnamedField>::empty());
    }
}

/// Reads the elements as the fields of a tuple-like type none of whose fields is skipped.
proof fn lemma_read_plain_tuple(
    infos: Seq<UnnamedField>,
    owner: &'static str,
    reg: TypeRegistry,
    x: Seq<SerialData>,
    t: Seq<Data>,
)
    requires
        infos.len() == x.len(),
        infos.len() == t.len(),
        forall|i: int| 0 <= i < infos.len() ==> !(#[trigger] infos[i]).skip_serde,
        forall|i: int|
            0 <= i < infos.len() ==> #[trigger] reg.table().dom().contains(infos[i].type_id),
        forall|i: int|
            0 <= i < infos.len() ==> #[trigger] de_spec(x[i], reg.table()[infos[i].type_id], reg)
                == Parsed::Done(t[i]),
    ensures
        de_tuple_all(infos, owner, reg, x) == Parsed::Done(t),
{
    assert forall|i: int| 0 <= i < infos.len() implies #[trigger] unnamed_slot(infos, reg, x, t, i) by {
        lemma_count_all_kept(infos, i);
        assert(reg.table().dom().contains(infos[i].type_id));
        assert(de_spec(x[i], reg.table()[infos[i].type_id], reg) == Parsed::Done(t[i]));
    }
    lemma_de_tuple(infos, owner, reg, x, infos.len(), t);
    lemma_count_all_kept(infos, infos.len() as int);
    assert(infos.take(infos.len() as int) =~= infos);
    assert(t.take(t.len() as int) =~= t);
}

proof fn lemma_count_unnamed_mono(infos: Seq<UnnamedField>, i: int, j: int)
    requires
        0 <= i <= j <= infos.len(),
    ensures
        serde_count_unnamed(infos.take(i)) <= serde_count_unnamed(infos.take(j)),
    decreases j - i,
{
    if i < j {
        lemma_count_unnamed_step(infos, j - 1);
        lemma_count_unnamed_mono(infos, i, j - 1);
    }
}

/// Serializing the kept fields, each at its own position, writes the `i`-th kept one at its
/// place among the kept fields.
proof fn lemma_ser_unnamed(infos: Seq<UnnamedField>, fields: Seq<Value>, reg: TypeRegistry, n: nat)
    requires
        n <= infos.len(),
        infos.len() == fields.len(),
        fields_in_place(infos),
        forall|i: int| 0 <= i < n && !infos[i].skip_serde ==> #[trigger] ser_spec(fields[i], reg) is Done,
    ensures
        ser_unnamed(infos, fields, reg, n) is Done,
        ser_unnamed(infos, fields, reg, n)->Done_0.len() == serde_count_unnamed(infos.take(n as int)),
        forall|i: int|
            0 <= i < n && !infos[i].skip_serde ==> ser_unnamed(infos, fields, reg, n)->Done_0[
                serde_count_unnamed(#[trigger] infos.take(i)) as int] == ser_ok(fields[i], reg),
    decreases n,
{
    if n > 0 {
        lemma_ser_unnamed(infos, fields, reg, (n - 1) as nat);
        lemma_count_unnamed_step(infos, n - 1);
        let prev = ser_unnamed(infos, fields, reg, (n - 1) as nat)->Done_0;
        assert(infos[n - 1].index == n - 1);
        assert forall|i: int|
            0 <= i < n && !infos[i].skip_serde implies ser_unnamed(infos, fields, reg, n)->Done_0[
                serde_count_unnamed(#[trigger] infos.take(i)) as int] == ser_ok(fields[i], reg) by {
            if i < n - 1 {
                lemma_count_unnamed_step(infos, i);
                lemma_count_unnamed_mono(infos, i + 1, n - 1);
            }
        }
    } else {
        assert(infos.take(0) =~= Seq::<UnnamedField>::empty());
    }
}

/// Reads back, as the fields of a tuple-like type, what serializing its kept fields wrote.
proof fn lemma_read_unnamed(
    infos: Seq<UnnamedField>,
    owner: &'static str,
    reg: TypeRegistry,
    fields: Seq<Value>,
    x: Seq<SerialData>,
)
    requires
        infos.len() == fields.len(),
        x.len() == serde_count_unnamed(infos),
        forall|i: int|
            0 <= i < infos.len() && !infos[i].skip_serde ==> x[serde_count_unnamed(
                #[trigger] infos.take(i),
            ) as int] == ser_ok(fields[i], reg),
        forall|i: int|
            0 <= i < infos.len() && !infos[i].skip_serde ==> #[trigger] reg.table().dom().contains(
                infos[i].type_id,
            ),
        forall|i: int|
            0 <= i < infos.len() && !infos[i].skip_serde ==> #[trigger] de_spec(
                ser_ok(fields[i], reg),
                reg.table()[infos[i].type_id],
                reg,
            ) == Parsed::Done(fields[i].deep()),
        forall|i: int|
            0 <= i < infos.len() && infos[i].skip_serde ==> #[trigger] default_of(reg, infos[i].type_id)
                == Some(fields[i].deep()),
    ensures
        de_tuple_all(infos, owner, reg, x) == Parsed::Done(deep_seq(fields)),
{
    let t = deep_seq(fields);
    assert forall|i: int| 0 <= i < infos.len() implies #[trigger] unnamed_slot(infos, reg, x, t, i) by {
        if infos[i].skip_serde {
            assert(default_of(reg, infos[i].type_id) == Some(fields[i].deep()));
        } else {
            assert(infos.take(infos.len() as int) =~= infos);
            lemma_count_unnamed_step(infos, i);
            lemma_count_unnamed_mono(infos, i + 1, infos.len() as int);
            assert(reg.table().dom().contains(infos[i].type_id));
            assert(x[serde_count_unnamed(infos.take(i)) as int] == ser_ok(fields[i], reg));
            assert(de_spec(ser_ok(fields[i], reg), reg.table()[infos[i].type_id], reg) == Parsed::Done(
                fields[i].deep(),
            ));
        }
    }
    lemma_de_tuple(infos, owner, reg, x, infos.len(), t);
    assert(t.take(t.len() as int) =~= t);
}

/// The names of the kept fields among the first `n` field infos, in order.
spec fn kept_names(infos: Seq<NamedField>, n: nat) -> Seq<Seq<char>>
    decreases n,
{
    if n == 0 || n > infos.len() {
        Seq::empty()
    } else if infos[n - 1].skip_serde {
        kept_names(infos, (n - 1) as nat)
    } else {
        kept_names(infos, (n - 1) as nat).push(infos[n - 1].name@)
    }
}

/// The contents of the kept fields among the first `n`, in order.
spec fn kept_datas(infos: Seq<NamedField>, fields: Seq<(String, Value)>, n: nat) -> Seq<Data>
    decreases n,
{
    if n == 0 || n > infos.len() {
        Seq::empty()
    } else if infos[n - 1].skip_serde {
        kept_datas(infos, fields, (n - 1) as nat)
    } else {
        kept_datas(infos, fields, (n - 1) as nat).push(fields[n - 1].1.deep())
    }
}

/// The serialized kept fields among the first `n`, each under its name, in order.
spec fn kept_pairs(infos: Seq<NamedField>, fields: Seq<(String, Value)>, reg: TypeRegistry, n: nat) -> Seq<
    (Seq<char>, SerialData),
>
    decreases n,
{
    if n == 0 || n > infos.len() {
        Seq::empty()
    } else if infos[n - 1].skip_serde {
        kept_pairs(infos, fields, reg, (n - 1) as nat)
    } else {
        kept_pairs(infos, fields, reg, (n - 1) as nat).push(
            (infos[n - 1].name@, ser_ok(fields[n - 1].1, reg)),
        )
    }
}

/// Every field, with its name and content, in order.
spec fn all_named(infos: Seq<NamedField>, fields: Seq<(String, Value)>, n: nat) -> Seq<(Seq<char>, Data)> {
    Seq::new(n, |i: int| (infos[i].name@, fields[i].1.deep()))
}

proof fn lemma_kept_lens(infos: Seq<NamedField>, fields: Seq<(String, Value)>, reg: TypeRegistry, n: nat)
    requires
        n <= infos.len(),
    ensures
        kept_datas(infos, fields, n).len() == kept_names(infos, n).len(),
        kept_pairs(infos, fields, reg, n).len() == kept_names(infos, n).len(),
        kept_names(infos, n).len() <= n,
        forall|k: int|
            0 <= k < kept_names(infos, n).len() ==> (#[trigger] kept_pairs(infos, fields, reg, n)[k]).0
                == kept_names(infos, n)[k],
    decreases n,
{
    if n > 0 {
        lemma_kept_lens(infos, fields, reg, (n - 1) as nat);
    }
}

/// Each kept name is the name of a kept field info before `n`.
proof fn lemma_kept_origin(infos: Seq<NamedField>, n: nat, k: int) -> (i: int)
    requires
        n <= infos.len(),
        0 <= k < kept_names(infos, n).len(),
    ensures
        0 <= i < n,
        !infos[i].skip_serde,
        infos[i].name@ == kept_names(infos, n)[k],
    decreases n,
{
    if infos[n - 1].skip_serde {
        lemma_kept_origin(infos, (n - 1) as nat, k)
    } else if k < kept_names(infos, (n - 1) as nat).len() {
        lemma_kept_origin(infos, (n - 1) as nat, k)
    } else {
        n - 1
    }
}

proof fn lemma_kept_distinct(infos: Seq<NamedField>, n: nat)
    requires
        n <= infos.len(),
        info_names_distinct(infos),
    ensures
        forall|a: int, b: int|
            0 <= a < kept_names(infos, n).len() && 0 <= b < kept_names(infos, n).len() && a != b
                ==> kept_names(infos, n)[a] != kept_names(infos, n)[b],
    decreases n,
{
    if n > 0 {
        lemma_kept_distinct(infos, (n - 1) as nat);
        if !infos[n - 1].skip_serde {
            let prev = kept_names(infos, (n - 1) as nat);
            assert forall|a: int| 0 <= a < prev.len() implies prev[a] != infos[n - 1].name@ by {
                let i = lemma_kept_origin(infos, (n - 1) as nat, a);
            }
        }
    }
}

proof fn lemma_kept_prefix(
    infos: Seq<NamedField>,
    fields: Seq<(String, Value)>,
    reg: TypeRegistry,
    n: nat,
    m: nat,
)
    requires
        n <= m <= infos.len(),
    ensures
        kept_names(infos, n).len() <= kept_names(infos, m).len(),
        kept_names(infos, m).take(kept_names(infos, n).len() as int) == kept_names(infos, n),
        kept_datas(infos, fields, m).take(kept_names(infos, n).len() as int) == kept_datas(
            infos,
            fields,
            n,
        ),
        kept_pairs(infos, fields, reg, m).take(kept_names(infos, n).len() as int) == kept_pairs(
            infos,
            fields,
            reg,
            n,
        ),
    decreases m - n,
{
    lemma_kept_lens(infos, fields, reg, n);
    lemma_kept_lens(infos, fields, reg, m);
    if n == m {
        assert(kept_names(infos, m).take(kept_names(infos, n).len() as int) =~= kept_names(infos, n));
        assert(kept_datas(infos, fields, m).take(kept_names(infos, n).len() as int) =~= kept_datas(
            infos,
            fields,
            n,
        ));
        assert(kept_pairs(infos, fields, reg, m).take(kept_names(infos, n).len() as int)
            =~= kept_pairs(infos, fields, reg, n));
    } else {
        lemma_kept_prefix(infos, fields, reg, n, (m - 1) as nat);
        lemma_kept_lens(infos, fields, reg, (m - 1) as nat);
        let c = kept_names(infos, n).len() as int;
        assert(kept_names(infos, m).take(c) =~= kept_names(infos, (m - 1) as nat).take(c));
        assert(kept_datas(infos, fields, m).take(c) =~= kept_datas(infos, fields, (m - 1) as nat).take(c));
        assert(kept_pairs(infos, fields, reg, m).take(c) =~= kept_pairs(
            infos,
            fields,
            reg,
            (m - 1) as nat,
        ).take(c));
    }
}

/// Serializing the named fields, each found under the name of the info at its place, writes
/// the kept ones in order.
proof fn lemma_ser_named(infos: Seq<NamedField>, fields: Seq<(String, Value)>, reg: TypeRegistry, n: nat)
    requires
        n <= infos.len(),
        infos.len() == fields.len(),
        names_in_place(fields, infos),
        info_names_distinct(infos),
        forall|i: int|
            0 <= i < n && !infos[i].skip_serde ==> #[trigger] ser_spec(fields[i].1, reg) is Done,
    ensures
        ser_named(infos, fields, reg, n) == Outcome::Done(kept_pairs(infos, fields, reg, n)),
    decreases n,
{
    if n > 0 {
        lemma_ser_named(infos, fields, reg, (n - 1) as nat);
        let f = infos[n - 1];
        if !f.skip_serde {
            assert(fields[n - 1].0@ == f.name@);
            assert(has_field(fields, f.name@));
            let j = choose|j: int| 0 <= j < fields.len() && fields[j].0@ == f.name@;
            assert(infos[j].name@ == fields[j].0@);
            assert(j == n - 1);
            assert(field_position(fields, f.name@) == Some(n - 1));
            assert(ser_spec(fields[n - 1].1, reg) is Done);
        }
    }
}

proof fn lemma_buffer_named_prefix(
    p1: Seq<(Seq<char>, SerialData)>,
    p2: Seq<(Seq<char>, SerialData)>,
    infos: Seq<NamedField>,
    owner: &'static str,
    reg: TypeRegistry,
    m: nat,
)
    requires
        m <= p1.len(),
        m <= p2.len(),
        p1.take(m as int) == p2.take(m as int),
    ensures
        buffer_named(p1, infos, owner, reg, m) == buffer_named(p2, infos, owner, reg, m),
    decreases m,
{
    if m > 0 {
        assert(p1.take(m - 1) =~= p1.take(m as int).take(m - 1));
        assert(p2.take(m - 1) =~= p2.take(m as int).take(m - 1));
        lemma_buffer_named_prefix(p1, p2, infos, owner, reg, (m - 1) as nat);
        assert(p1[m - 1] == p1.take(m as int)[m - 1]);
        assert(p2[m - 1] == p2.take(m as int)[m - 1]);
    }
}

/// Buffering the serialized kept fields reads each back under its name.
proof fn lemma_buffer_kept(
    infos: Seq<NamedField>,
    fields: Seq<(String, Value)>,
    reg: TypeRegistry,
    owner: &'static str,
    n: nat,
)
    requires
        n <= infos.len(),
        infos.len() == fields.len(),
        info_names_distinct(infos),
        forall|i: int|
            0 <= i < n && !infos[i].skip_serde ==> #[trigger] reg.table().dom().contains(
                infos[i].type_id,
            ),
        forall|i: int|
            0 <= i < n && !infos[i].skip_serde ==> #[trigger] de_spec(
                ser_ok(fields[i].1, reg),
                reg.table()[infos[i].type_id],
                reg,
            ) == Parsed::Done(fields[i].1.deep()),
    ensures
        buffer_named(
            kept_pairs(infos, fields, reg, n),
            infos,
            owner,
            reg,
            kept_pairs(infos, fields, reg, n).len(),
        ) == Parsed::Done((kept_names(infos, n), kept_datas(infos, fields, n))),
    decreases n,
{
    lemma_kept_lens(infos, fields, reg, n);
    if n > 0 {
        lemma_buffer_kept(infos, fields, reg, owner, (n - 1) as nat);
        lemma_kept_lens(infos, fields, reg, (n - 1) as nat);
        let f = infos[n - 1];
        if !f.skip_serde {
            let prev = kept_pairs(infos, fields, reg, (n - 1) as nat);
            let cur = kept_pairs(infos, fields, reg, n);
            let l = prev.len();
            assert(cur.take(l as int) =~= prev.take(l as int));
            lemma_buffer_named_prefix(cur, prev, infos, owner, reg, l);
            assert(prev.take(l as int) =~= prev);
            assert(cur[l as int] == (f.name@, ser_ok(fields[n - 1].1, reg)));
            assert(crate::info::first_named(infos, f.name@, n - 1));
            let i = choose|i: int| crate::info::first_named(infos, f.name@, i);
            lemma_first_named_unique(infos, f.name@, i, n - 1);
            assert(named_index(infos, f.name@) == Some(n - 1));
            assert(reg.table().dom().contains(f.type_id));
            assert(de_spec(ser_ok(fields[n - 1].1, reg), reg.table()[f.type_id], reg) == Parsed::Done(
                fields[n - 1].1.deep(),
            ));
            let kn = kept_names(infos, (n - 1) as nat);
            if kn.contains(f.name@) {
                let k = choose|k: int| 0 <= k < kn.len() && kn[k] == f.name@;
                let o = lemma_kept_origin(infos, (n - 1) as nat, k);
            }
        }
    }
}

/// Taking the fields out of the buffer of the kept ones, in the order of the infos, gives every
/// field: a kept one from the buffer, a skipped one by its type's default.
proof fn lemma_fill_kept(
    infos: Seq<NamedField>,
    fields: Seq<(String, Value)>,
    reg: TypeRegistry,
    owner: &'static str,
    n: nat,
)
    requires
        n <= infos.len(),
        infos.len() == fields.len(),
        info_names_distinct(infos),
        forall|i: int|
            0 <= i < infos.len() && infos[i].skip_serde ==> #[trigger] default_of(reg, infos[i].type_id)
                == Some(fields[i].1.deep()),
    ensures
        fill(
            infos,
            owner,
            reg,
            (kept_names(infos, infos.len()), kept_datas(infos, fields, infos.len())),
            n,
        ) == Parsed::Done(
            (
                (
                    kept_names(infos, infos.len()).skip(kept_names(infos, n).len() as int),
                    kept_datas(infos, fields, infos.len()).skip(kept_names(infos, n).len() as int),
                ),
                all_named(infos, fields, n),
            ),
        ),
    decreases n,
{
    let big = infos.len() as nat;
    let kn = kept_names(infos, big);
    let kd = kept_datas(infos, fields, big);
    lemma_kept_lens(infos, fields, reg, big);
    lemma_kept_lens(infos, fields, reg, n);
    if n == 0 {
        assert(kn.skip(0) =~= kn);
        assert(kd.skip(0) =~= kd);
        assert(all_named(infos, fields, 0) =~= Seq::<(Seq<char>, Data)>::empty());
    } else {
        lemma_fill_kept(infos, fields, reg, owner, (n - 1) as nat);
        lemma_kept_lens(infos, fields, reg, (n - 1) as nat);
        let c = kept_names(infos, (n - 1) as nat).len() as int;
        let f = infos[n - 1];
        let b0 = kn.skip(c);
        let b1 = kd.skip(c);
        assert(all_named(infos, fields, (n - 1) as nat).push((f.name@, fields[n - 1].1.deep()))
            =~= all_named(infos, fields, n));
        if !f.skip_serde {
            lemma_kept_prefix(infos, fields, reg, n, big);
            assert(kn[c] == kept_names(infos, n)[c]);
            assert(kd[c] == kept_datas(infos, fields, n)[c]);
            assert(b0[0] == f.name@);
            let i = choose|i: int| 0 <= i < b0.len() && b0[i] == f.name@;
            lemma_kept_distinct(infos, big);
            assert(kn[c + i] == kn[c]);
            assert(i == 0);
            assert(b0.remove(0) =~= kn.skip(c + 1));
            assert(b1.remove(0) =~= kd.skip(c + 1));
        } else {
            if b0.contains(f.name@) {
                lemma_kept_prefix(infos, fields, reg, (n - 1) as nat, big);
                let k = choose|k: int| 0 <= k < b0.len() && b0[k] == f.name@;
                assert(b0[k] == kn[c + k]);
                let o = lemma_kept_origin(infos, big, c + k);
                assert(infos[o].name@ == f.name@);
            }
            assert(default_of(reg, f.type_id) == Some(fields[n - 1].1.deep()));
        }
    }
}

proof fn lemma_field_fold_distinct(p: Seq<(Seq<char>, Data)>)
    requires
        forall|a: int, b: int| 0 <= a < p.len() && 0 <= b < p.len() && a != b ==> p[a].0 != p[b].0,
    ensures
        field_fold(p) == (Seq::new(p.len(), |i: int| p[i].0), Seq::new(p.len(), |i: int| p[i].1)),
    decreases p.len(),
{
    if p.len() > 0 {
        let q = p.drop_last();
        lemma_field_fold_distinct(q);
        lemma_field_fold_push(q, p.last().0, p.last().1);
        assert(q.push((p.last().0, p.last().1)) =~= p);
        let names = Seq::new(q.len(), |i: int| q[i].0);
        if names.contains(p.last().0) {
            let k = choose|k: int| 0 <= k < names.len() && names[k] == p.last().0;
            assert(p[k].0 == p[p.len() - 1].0);
        }
        assert(names.push(p.last().0) =~= Seq::new(p.len(), |i: int| p[i].0));
        assert(Seq::new(q.len(), |i: int| q[i].1).push(p.last().1) =~= Seq::new(p.len(), |i: int| p[i].1));
    } else {
        assert(field_fold(p) == (Seq::<Seq<char>>::empty(), Seq::<Data>::empty()));
    }
}

/// Reads back, as a struct-like value, what serializing its fields wrote; the fields come in the
/// order of the field infos.
proof fn lemma_read_named(
    infos: Seq<NamedField>,
    fields: Seq<(String, Value)>,
    reg: TypeRegistry,
    owner: &'static str,
)
    requires
        infos.len() == fields.len(),
        names_in_place(fields, infos),
        info_names_distinct(infos),
        forall|i: int|
            0 <= i < infos.len() && !infos[i].skip_serde ==> #[trigger] reg.table().dom().contains(
                infos[i].type_id,
            ),
        forall|i: int|
            0 <= i < infos.len() && !infos[i].skip_serde ==> #[trigger] de_spec(
                ser_ok(fields[i].1, reg),
                reg.table()[infos[i].type_id],
                reg,
            ) == Parsed::Done(fields[i].1.deep()),
        forall|i: int|
            0 <= i < infos.len() && infos[i].skip_serde ==> #[trigger] default_of(reg, infos[i].type_id)
                == Some(fields[i].1.deep()),
    ensures
        ({
            let kp = kept_pairs(infos, fields, reg, infos.len());
            &&& buffer_named(kp, infos, owner, reg, kp.len()) matches Parsed::Done(buf)
            &&& fill_fields(infos, owner, reg, buf, infos.len()) matches Parsed::Done(pairs)
            &&& field_fold(pairs).0 == names_of(fields)
            &&& field_fold(pairs).1 == deep_fields(fields)
        }),
{
    let big = infos.len() as nat;
    lemma_buffer_kept(infos, fields, reg, owner, big);
    lemma_fill_kept(infos, fields, reg, owner, big);
    let all = all_named(infos, fields, big);
    lemma_field_fold_distinct(all);
    assert(Seq::new(all.len(), |i: int| all[i].0) =~= names_of(fields));
    assert(Seq::new(all.len(), |i: int| all[i].1) =~= deep_fields(fields));
}

/// Reading an array type with no registration of its item type fails before any element is
/// read.
pub proof fn lemma_read_array_unregistered(d: SerialData, meta: TypeMeta, reg: TypeRegistry)
    requires
        meta.spec_deserialize() is None,
        meta.spec_info() is Array,
        !reg.table().dom().contains(meta.spec_info()->Array_0.item),
    ensures
        de_spec(d, meta, reg) == Parsed::<Data>::Failed(
            DeFault::NoTypeMeta { type_id: meta.spec_info()->Array_0.item },
        ),
{
}

/// Reading an array type from a sequence reads the elements in order, each as the item type;
/// where each of them reads, the array reads exactly when their number is the array's length,
/// and holds them in order.
pub proof fn lemma_read_array(items: Seq<SerialData>, meta: TypeMeta, reg: TypeRegistry, xs: Seq<Data>)
    requires
        meta.spec_deserialize() is None,
        meta.spec_info() is Array,
        reg.table().dom().contains(meta.spec_info()->Array_0.item),
        xs.len() == items.len(),
        forall|i: int|
            0 <= i < items.len() ==> #[trigger] de_spec(
                items[i],
                reg.table()[meta.spec_info()->Array_0.item],
                reg,
            ) == Parsed::Done(xs[i]),
    ensures
        de_spec(SerialData::Sequence(items), meta, reg) == (if items.len()
            == meta.spec_info()->Array_0.len {
            Parsed::Done(Data::Array(xs))
        } else {
            Parsed::Failed(
                DeFault::InvalidLength {
                    type_path: meta.spec_info()->Array_0.ty.path,
                    expected: meta.spec_info()->Array_0.len,
                    actual: items.len() as usize,
                },
            )
        }),
{
    let info = meta.spec_info()->Array_0;
    lemma_de_elems(items, reg.table()[info.item], reg, items.len(), xs);
    assert(xs.take(items.len() as int) =~= xs);
}

/// Whether a variant node's index and variant name are those of the enum value: the value's
/// variant index, as the 32-bit index of serde's data model, and the name that the represented
/// enum gives the variant at that position.
pub open spec fn names_value_variant(e: DynamicEnum, name: Seq<char>, index: int, variant: Seq<char>) -> bool {
    &&& index == (e.spec_variant_index() as u32) as int
    &&& e.spec_info() matches Some(TypeInfo::Enum(info))
    &&& name == info.ty.ident@
    &&& 0 <= index < info.variants@.len()
    &&& variant == info.variants@[index].spec_name()@
}

/// The variant of the represented enum at the value's variant index, if there is one.
pub open spec fn value_variant_info(e: DynamicEnum) -> Option<VariantInfo> {
    let index = (e.spec_variant_index() as u32) as int;
    match e.spec_info() {
        Some(TypeInfo::Enum(info)) => if 0 <= index < info.variants@.len() {
            Some(info.variants@[index])
        } else {
            None
        },
        _ => None,
    }
}

/// Whether the enum value represents `core::option::Option`.
pub open spec fn value_is_option(e: DynamicEnum) -> bool {
    e.spec_info() matches Some(TypeInfo::Enum(info)) && is_option(info)
}

/// Serializing an enum value writes, in whichever variant node it writes (unit, newtype, tuple
/// or struct variant), the value's own variant index and the name of the represented enum's
/// variant at that index, so that formats that identify variants by index read back the same
/// variant.
pub proof fn lemma_enum_node_index(e: DynamicEnum, reg: TypeRegistry)
    ensures
        match ser_spec(Value::Enum(e), reg) {
            Outcome::Done(SerialData::UnitVariant { name, index, variant }) => {
                &&& names_value_variant(e, name, index, variant)
                &&& value_variant_info(e) matches Some(VariantInfo::Unit(_))
            },
            Outcome::Done(SerialData::NewtypeVariant { name, index, variant, .. }) => {
                &&& names_value_variant(e, name, index, variant)
                &&& value_variant_info(e) matches Some(VariantInfo::Tuple(_))
            },
            Outcome::Done(SerialData::TupleVariant { name, index, variant, .. }) => {
                &&& names_value_variant(e, name, index, variant)
                &&& value_variant_info(e) matches Some(VariantInfo::Tuple(_))
            },
            Outcome::Done(SerialData::StructVariant { name, index, variant, .. }) => {
                &&& names_value_variant(e, name, index, variant)
                &&& value_variant_info(e) matches Some(VariantInfo::Struct(_))
            },
            Outcome::Done(SerialData::OptionNone) => has_serializer(reg, Value::Enum(e).spec_ty_id())
                || (value_is_option(e) && value_variant_info(e) matches Some(VariantInfo::Unit(_))),
            Outcome::Done(SerialData::OptionSome(_)) => value_is_option(e) && value_variant_info(
                e,
            ) matches Some(VariantInfo::Tuple(_)),
            Outcome::Done(SerialData::Unit) => has_serializer(reg, Value::Enum(e).spec_ty_id()),
            Outcome::Done(_) => false,
            _ => true,
        },
{
    let v = Value::Enum(e);
    if !has_serializer(reg, v.spec_ty_id()) {
        match e.spec_info() {
            Some(TypeInfo::Enum(info)) => {
                assert(ser_spec(v, reg) == ser_enum(e, info, reg));
            },
            _ => {},
        }
    } else {
        assert(primitive_serial(v) == SerialData::Unit);
    }
}

/// Reading a tuple, tuple struct, list, array or set type reads a sequence node, a tuple node
/// and a tuple struct node of the same elements alike: the elements of a format's plain sequence
/// (such as an array of JSON) are the tuple's fields or the container's items.
pub proof fn lemma_read_tuple_from_sequence(
    items: Seq<SerialData>,
    name: Seq<char>,
    meta: TypeMeta,
    reg: TypeRegistry,
)
    requires
        meta.spec_deserialize() is None,
        meta.spec_info() is Tuple || meta.spec_info() is TupleStruct || meta.spec_info() is List
            || meta.spec_info() is Array || meta.spec_info() is SetLike,
    ensures
        de_spec(SerialData::Sequence(items), meta, reg) == de_spec(SerialData::Tuple(items), meta, reg),
        de_spec(SerialData::TupleStruct { name, fields: items }, meta, reg) == de_spec(
            SerialData::Tuple(items),
            meta,
            reg,
        ),
{
}

/// Reading a tuple type none of whose fields is skipped from a sequence or a tuple node whose
/// elements, one per field, each read as the type of the field at their place, gives the tuple
/// of what they read, in order.
pub proof fn lemma_read_tuple(items: Seq<SerialData>, meta: TypeMeta, reg: TypeRegistry, xs: Seq<Data>)
    requires
        meta.spec_deserialize() is None,
        meta.spec_info() is Tuple,
        meta.spec_info()->Tuple_0.fields@.len() == items.len(),
        xs.len() == items.len(),
        forall|i: int|
            0 <= i < items.len() ==> !(#[trigger] meta.spec_info()->Tuple_0.fields@[i]).skip_serde,
        forall|i: int|
            0 <= i < items.len() ==> #[trigger] reg.table().dom().contains(
                meta.spec_info()->Tuple_0.fields@[i].type_id,
            ),
        forall|i: int|
            0 <= i < items.len() ==> #[trigger] de_spec(
                items[i],
                reg.table()[meta.spec_info()->Tuple_0.fields@[i].type_id],
                reg,
            ) == Parsed::Done(xs[i]),
    ensures
        de_spec(SerialData::Sequence(items), meta, reg) == Parsed::Done(Data::Tuple(xs)),
        de_spec(SerialData::Tuple(items), meta, reg) == Parsed::Done(Data::Tuple(xs)),
{
    let info = meta.spec_info()->Tuple_0;
    lemma_read_plain_tuple(info.fields@, info.ty.path, reg, items, xs);
}

/// Serialization followed by deserialization gives back the content of a value: for a value
/// that conforms to the registered type `id`, serialization succeeds, and reading what it wrote
/// as that type gives the value's content.
pub proof fn lemma_roundtrip(v: Value, id: TypeId, reg: TypeRegistry)
    requires
        conforms(v, id, reg),
    ensures
        ser_spec(v, reg) is Done,
        de_spec(ser_ok(v, reg), reg.table()[id], reg) == Parsed::Done(v.deep()),
    decreases v, 2nat,
{
    if v.spec_is_primitive() {
        assert(ser_spec(v, reg) == Outcome::<SerialData>::Done(primitive_serial(v)));
    } else {
        match v {
            Value::List(_) => lemma_rt_list(v, id, reg),
            Value::Array(_) => lemma_rt_array(v, id, reg),
            Value::SetLike(_) => lemma_rt_set(v, id, reg),
            Value::MapLike(_) => lemma_rt_map(v, id, reg),
            Value::Tuple(_) => lemma_rt_tuple(v, id, reg),
            Value::TupleStruct(_) => lemma_rt_tuple_struct(v, id, reg),
            Value::Struct(_) => lemma_rt_struct(v, id, reg),
            Value::Enum(_) => lemma_rt_enum(v, id, reg),
            _ => {},
        }
    }
}

/// The same holds of serialization tagged with the type's full path: where the path that the
/// value represents is registered for the type `id` the value conforms to, reading back the
/// tagged form gives the value's content.
pub proof fn lemma_tagged_roundtrip(v: Value, id: TypeId, reg: TypeRegistry)
    requires
        conforms(v, id, reg),
        v.spec_represented() matches Some(info) && reg.path_index().get(info.spec_ty().path@) == Some(
            id,
        ),
    ensures
        ser_tagged_spec(v, reg) is Done,
        de_tagged_spec(ser_tagged_spec(v, reg)->Done_0, reg) == Parsed::Done(v.deep()),
{
    lemma_roundtrip(v, id, reg);
}

proof fn lemma_rt_list(v: Value, id: TypeId, reg: TypeRegistry)
    requires
        conforms(v, id, reg),
        !v.spec_is_primitive(),
        v is List,
    ensures
        ser_spec(v, reg) is Done,
        de_spec(ser_ok(v, reg), reg.table()[id], reg) == Parsed::Done(v.deep()),
    decreases v, 1nat,
{
    let meta = reg.table()[id];
    match v {
        Value::List(l) => {
            l.lemma_decreases();
            let s = l.spec_values();
            match meta.spec_info() {
                TypeInfo::List(info) => {
                    let im = reg.table()[info.item];
                    lemma_all_conform(s, info.item, reg, s.len());
                    assert forall|i: int| 0 <= i < s.len() implies ser_spec(s[i], reg) is Done
                        && de_spec(ser_ok(s[i], reg), im, reg) == Parsed::Done(s[i].deep()) by {
                        lemma_roundtrip(s[i], info.item, reg);
                    }
                    lemma_ser_elems(s, reg, s.len());
                    let x = Seq::new(s.len(), |i: int| ser_ok(s[i], reg));
                    lemma_de_elems(x, im, reg, s.len(), deep_seq(s));
                    assert(deep_seq(s).take(s.len() as int) =~= deep_seq(s));
                },
                _ => {},
            }
        },
        _ => {},
    }
}

proof fn lemma_rt_array(v: Value, id: TypeId, reg: TypeRegistry)
    requires
        conforms(v, id, reg),
        !v.spec_is_primitive(),
        v is Array,
    ensures
        ser_spec(v, reg) is Done,
        de_spec(ser_ok(v, reg), reg.table()[id], reg) == Parsed::Done(v.deep()),
    decreases v, 1nat,
{
    let meta = reg.table()[id];
    match v {
        Value::Array(a) => {
            a.lemma_decreases();
            let s = a.spec_values();
            match meta.spec_info() {
                TypeInfo::Array(info) => {
                    let im = reg.table()[info.item];
                    lemma_all_conform(s, info.item, reg, s.len());
                    assert forall|i: int| 0 <= i < s.len() implies ser_spec(s[i], reg) is Done
                        && de_spec(ser_ok(s[i], reg), im, reg) == Parsed::Done(s[i].deep()) by {
                        lemma_roundtrip(s[i], info.item, reg);
                    }
                    lemma_ser_elems(s, reg, s.len());
                    let x = Seq::new(s.len(), |i: int| ser_ok(s[i], reg));
                    lemma_de_elems(x, im, reg, s.len(), deep_seq(s));
                    assert(deep_seq(s).take(s.len() as int) =~= deep_seq(s));
                },
                _ => {},
            }
        },
        _ => {},
    }
}

proof fn lemma_rt_set(v: Value, id: TypeId, reg: TypeRegistry)
    requires
        conforms(v, id, reg),
        !v.spec_is_primitive(),
        v is SetLike,
    ensures
        ser_spec(v, reg) is Done,
        de_spec(ser_ok(v, reg), reg.table()[id], reg) == Parsed::Done(v.deep()),
    decreases v, 1nat,
{
    let meta = reg.table()[id];
    match v {
        Value::SetLike(st) => {
            st.lemma_decreases();
            let s = st.spec_values();
            match meta.spec_info() {
                TypeInfo::SetLike(info) => {
                    let im = reg.table()[info.value];
                    lemma_all_conform(s, info.value, reg, s.len());
                    assert forall|i: int| 0 <= i < s.len() implies ser_spec(s[i], reg) is Done
                        && de_spec(ser_ok(s[i], reg), im, reg) == Parsed::Done(s[i].deep()) by {
                        lemma_roundtrip(s[i], info.value, reg);
                    }
                    lemma_ser_elems(s, reg, s.len());
                    let x = Seq::new(s.len(), |i: int| ser_ok(s[i], reg));
                    lemma_de_elems(x, im, reg, s.len(), deep_seq(s));
                    assert(deep_seq(s).take(s.len() as int) =~= deep_seq(s));
                    lemma_set_fold_distinct(deep_seq(s));
                },
                _ => {},
            }
        },
        _ => {},
    }
}

proof fn lemma_rt_map(v: Value, id: TypeId, reg: TypeRegistry)
    requires
        conforms(v, id, reg),
        !v.spec_is_primitive(),
        v is MapLike,
    ensures
        ser_spec(v, reg) is Done,
        de_spec(ser_ok(v, reg), reg.table()[id], reg) == Parsed::Done(v.deep()),
    decreases v, 1nat,
{
    let meta = reg.table()[id];
    match v {
        Value::MapLike(m) => {
            m.lemma_decreases();
            let s = m.spec_entries();
            match meta.spec_info() {
                TypeInfo::MapLike(info) => {
                    let km = reg.table()[info.key];
                    let vm = reg.table()[info.value];
                    lemma_entries_conform(s, info.key, info.value, reg, s.len());
                    assert forall|i: int| 0 <= i < s.len() implies ser_spec(s[i].0, reg) is Done
                        && de_spec(ser_ok(s[i].0, reg), km, reg) == Parsed::Done(s[i].0.deep()) by {
                        lemma_roundtrip(s[i].0, info.key, reg);
                    }
                    assert forall|i: int| 0 <= i < s.len() implies ser_spec(s[i].1, reg) is Done
                        && de_spec(ser_ok(s[i].1, reg), vm, reg) == Parsed::Done(s[i].1.deep()) by {
                        lemma_roundtrip(s[i].1, info.value, reg);
                    }
                    lemma_ser_entries(s, reg, s.len());
                    let x = Seq::new(s.len(), |i: int| (ser_ok(s[i].0, reg), ser_ok(s[i].1, reg)));
                    lemma_de_entries(x, km, vm, reg, s.len(), deep_entries(s));
                    assert(deep_entries(s).take(s.len() as int) =~= deep_entries(s));
                    lemma_map_fold_distinct(deep_entries(s));
                },
                _ => {},
            }
        },
        _ => {},
    }
}

proof fn lemma_rt_tuple(v: Value, id: TypeId, reg: TypeRegistry)
    requires
        conforms(v, id, reg),
        !v.spec_is_primitive(),
        v is Tuple,
    ensures
        ser_spec(v, reg) is Done,
        de_spec(ser_ok(v, reg), reg.table()[id], reg) == Parsed::Done(v.deep()),
    decreases v, 1nat,
{
    let meta = reg.table()[id];
    match v {
        Value::Tuple(tp) => {
            tp.lemma_decreases();
            let s = tp.spec_fields();
            match meta.spec_info() {
                TypeInfo::Tuple(info) => {
                    let infos = info.fields@;
                    lemma_tuple_conform(s, infos, reg, s.len());
                    assert forall|i: int| 0 <= i < s.len() implies ser_spec(s[i], reg) is Done
                        && de_spec(ser_ok(s[i], reg), reg.table()[infos[i].type_id], reg)
                        == Parsed::Done(s[i].deep()) by {
                        lemma_roundtrip(s[i], infos[i].type_id, reg);
                    }
                    assert forall|i: int| 0 <= i < infos.len() implies #[trigger] reg.table().dom().contains(
                        infos[i].type_id,
                    ) by {
                        assert(conforms(s[i], infos[i].type_id, reg));
                    }
                    lemma_ser_elems(s, reg, s.len());
                    let x = Seq::new(s.len(), |i: int| ser_ok(s[i], reg));
                    lemma_read_plain_tuple(infos, info.ty.path, reg, x, deep_seq(s));
                },
                _ => {},
            }
        },
        _ => {},
    }
}

proof fn lemma_rt_tuple_struct(v: Value, id: TypeId, reg: TypeRegistry)
    requires
        conforms(v, id, reg),
        !v.spec_is_primitive(),
        v is TupleStruct,
    ensures
        ser_spec(v, reg) is Done,
        de_spec(ser_ok(v, reg), reg.table()[id], reg) == Parsed::Done(v.deep()),
    decreases v, 1nat,
{
    let meta = reg.table()[id];
    match v {
        Value::TupleStruct(tp) => {
            tp.lemma_decreases();
            let s = tp.spec_fields();
            match meta.spec_info() {
                TypeInfo::TupleStruct(info) => {
                    let infos = info.fields@;
                    lemma_unnamed_conform(s, infos, reg, s.len());
                    assert forall|i: int| 0 <= i < s.len() && !infos[i].skip_serde implies ser_spec(
                        s[i],
                        reg,
                    ) is Done
                        && de_spec(ser_ok(s[i], reg), reg.table()[infos[i].type_id], reg)
                        == Parsed::Done(s[i].deep()) && reg.table().dom().contains(infos[i].type_id) by {
                        lemma_roundtrip(s[i], infos[i].type_id, reg);
                    }
                    if infos.len() == 1 && serde_count_unnamed(infos) == 1 {
                        lemma_count_unnamed_step(infos, 0);
                        assert(infos.take(1) =~= infos);
                        assert(infos.take(0) =~= Seq::<UnnamedField>::empty());
                        assert(!infos[0].skip_serde);
                        assert(seq![s[0].deep()] =~= deep_seq(s));
                    } else {
                        lemma_ser_unnamed(infos, s, reg, infos.len());
                        assert(infos.take(infos.len() as int) =~= infos);
                        let x = ser_unnamed(infos, s, reg, infos.len())->Done_0;
                        lemma_read_unnamed(infos, info.ty.path, reg, s, x);
                    }
                },
                _ => {},
            }
        },
        _ => {},
    }
}

proof fn lemma_rt_struct(v: Value, id: TypeId, reg: TypeRegistry)
    requires
        conforms(v, id, reg),
        !v.spec_is_primitive(),
        v is Struct,
    ensures
        ser_spec(v, reg) is Done,
        de_spec(ser_ok(v, reg), reg.table()[id], reg) == Parsed::Done(v.deep()),
    decreases v, 1nat,
{
    let meta = reg.table()[id];
    match v {
        Value::Struct(st) => {
            st.lemma_decreases();
            let s = st.spec_fields();
            match meta.spec_info() {
                TypeInfo::Struct(info) => {
                    let infos = info.fields@;
                    lemma_named_conform(s, infos, reg, s.len());
                    assert forall|i: int| 0 <= i < s.len() && !infos[i].skip_serde implies ser_spec(
                        s[i].1,
                        reg,
                    ) is Done
                        && de_spec(ser_ok(s[i].1, reg), reg.table()[infos[i].type_id], reg)
                        == Parsed::Done(s[i].1.deep()) && reg.table().dom().contains(infos[i].type_id) by {
                        lemma_roundtrip(s[i].1, infos[i].type_id, reg);
                    }
                    lemma_ser_named(infos, s, reg, infos.len());
                    lemma_read_named(infos, s, reg, info.ty.path);
                },
                _ => {},
            }
        },
        _ => {},
    }
}

/// The enum value, its enum info and the variant info that its index picks.
spec fn enum_parts(v: Value, id: TypeId, reg: TypeRegistry) -> (DynamicEnum, EnumInfo, VariantInfo) {
    let e = v->Enum_0;
    let info = reg.table()[id].spec_info()->Enum_0;
    (e, info, info.variants@[e.spec_variant_index() as int])
}

proof fn lemma_rt_enum(v: Value, id: TypeId, reg: TypeRegistry)
    requires
        conforms(v, id, reg),
        !v.spec_is_primitive(),
        v is Enum,
    ensures
        ser_spec(v, reg) is Done,
        de_spec(ser_ok(v, reg), reg.table()[id], reg) == Parsed::Done(v.deep()),
    decreases v, 1nat,
{
    let (e, info, vinfo) = enum_parts(v, id, reg);
    match vinfo {
        VariantInfo::Unit(_) => lemma_rt_enum_unit(v, id, reg),
        VariantInfo::Tuple(tv) => if tv.fields@.len() == 1 && !tv.fields@[0].skip_serde {
            lemma_rt_enum_newtype(v, id, reg)
        } else {
            lemma_rt_enum_tuple(v, id, reg)
        },
        VariantInfo::Struct(_) => lemma_rt_enum_struct(v, id, reg),
    }
}

/// The variant that deserialization finds by the name of the value's variant is the one at the
/// value's index.
proof fn lemma_variant_found(v: Value, id: TypeId, reg: TypeRegistry)
    requires
        conforms(v, id, reg),
        !v.spec_is_primitive(),
        v is Enum,
    ensures
        reg.table()[id].spec_info() is Enum,
        ({
            let (e, info, vinfo) = enum_parts(v, id, reg);
            &&& e.spec_info() == Some(TypeInfo::Enum(info))
            &&& e.spec_variant_index() < info.variants@.len()
            &&& (e.spec_variant_index() as u32) as int == e.spec_variant_index() as int
            &&& e.spec_variant_name() == vinfo.spec_name()@
            &&& variant_index_named(info.variants@, e.spec_variant_name()) == Some(
                e.spec_variant_index() as int,
            )
            &&& variant_conform(e.spec_variant(), vinfo, info, reg)
        }),
{
    let (e, info, vinfo) = enum_parts(v, id, reg);
    let name = e.spec_variant_name();
    let index = e.spec_variant_index() as int;
    assert(first_variant(info.variants@, name, index));
    let j = choose|j: int| first_variant(info.variants@, name, j);
    lemma_first_variant_unique(info.variants@, name, j, index);
}

proof fn lemma_rt_enum_unit(v: Value, id: TypeId, reg: TypeRegistry)
    requires
        conforms(v, id, reg),
        !v.spec_is_primitive(),
        v is Enum,
        enum_parts(v, id, reg).2 is Unit,
    ensures
        ser_spec(v, reg) is Done,
        de_spec(ser_ok(v, reg), reg.table()[id], reg) == Parsed::Done(v.deep()),
    decreases v, 0nat,
{
    lemma_variant_found(v, id, reg);
    let (e, info, vinfo) = enum_parts(v, id, reg);
    let meta = reg.table()[id];
    assert(variant_len(e) == 0);
    assert(ser_spec(v, reg) == ser_enum(e, info, reg));
    let u = vinfo->Unit_0;
    let index = e.spec_variant_index() as int;
    if is_option(info) {
        assert(ser_enum(e, info, reg) == Outcome::Done(SerialData::OptionNone));
        assert(de_spec(SerialData::OptionNone, meta, reg) == de_enum(SerialData::OptionNone, info, reg));
    } else {
        let d = SerialData::UnitVariant { name: info.ty.ident@, index, variant: u.name@ };
        assert(ser_enum(e, info, reg) == Outcome::Done(d));
        assert(de_spec(d, meta, reg) == de_enum(d, info, reg));
        assert(variant_by_name(info, u.name@) == Ok::<VariantInfo, DeFault>(vinfo));
    }
}

proof fn lemma_rt_enum_newtype(v: Value, id: TypeId, reg: TypeRegistry)
    requires
        conforms(v, id, reg),
        !v.spec_is_primitive(),
        v is Enum,
        enum_parts(v, id, reg).2 is Tuple,
        enum_parts(v, id, reg).2->Tuple_0.fields@.len() == 1,
        !enum_parts(v, id, reg).2->Tuple_0.fields@[0].skip_serde,
    ensures
        ser_spec(v, reg) is Done,
        de_spec(ser_ok(v, reg), reg.table()[id], reg) == Parsed::Done(v.deep()),
    decreases v, 0nat,
{
    lemma_variant_found(v, id, reg);
    let (e, info, vinfo) = enum_parts(v, id, reg);
    e.lemma_decreases();
    let tv = vinfo->Tuple_0;
    match e.spec_variant() {
        DynamicVariant::Tuple(t) => {
            t.lemma_decreases();
            let x = t.spec_fields()[0];
            lemma_roundtrip(x, tv.fields@[0].type_id, reg);
            lemma_count_unnamed_step(tv.fields@, 0);
            assert(tv.fields@.take(1) =~= tv.fields@);
            assert(tv.fields@.take(0) =~= Seq::<UnnamedField>::empty());
            assert(variant_len(e) == 1);
            let meta = reg.table()[id];
            let d0 = ser_ok(x, reg);
            let index = e.spec_variant_index() as int;
            assert(ser_spec(v, reg) == ser_enum(e, info, reg));
            assert(reg.table().dom().contains(tv.fields@[0].type_id));
            assert(meta_of(reg, tv.fields@[0].type_id) == Some(reg.table()[tv.fields@[0].type_id]));
            if is_option(info) {
                let d = SerialData::OptionSome(Box::new(d0));
                assert(ser_enum(e, info, reg) == Outcome::Done(d));
                assert(de_spec(d, meta, reg) == de_enum(d, info, reg));
            } else {
                let d = SerialData::NewtypeVariant {
                    name: info.ty.ident@,
                    index,
                    variant: tv.name@,
                    value: Box::new(d0),
                };
                assert(ser_enum(e, info, reg) == Outcome::Done(d));
                assert(de_spec(d, meta, reg) == de_enum(d, info, reg));
                assert(variant_by_name(info, tv.name@) == Ok::<VariantInfo, DeFault>(vinfo));
                assert(de_payload(d0, vinfo, info, reg) == Parsed::Done(
                    Data::Enum(tv.name@, index as int, VariantData::Tuple(seq![x.deep()])),
                ));
            }
            assert(seq![x.deep()] =~= deep_seq(t.spec_fields()));
        },
        _ => {},
    }
}

proof fn lemma_rt_enum_tuple(v: Value, id: TypeId, reg: TypeRegistry)
    requires
        conforms(v, id, reg),
        !v.spec_is_primitive(),
        v is Enum,
        enum_parts(v, id, reg).2 is Tuple,
        !(enum_parts(v, id, reg).2->Tuple_0.fields@.len() == 1
            && !enum_parts(v, id, reg).2->Tuple_0.fields@[0].skip_serde),
    ensures
        ser_spec(v, reg) is Done,
        de_spec(ser_ok(v, reg), reg.table()[id], reg) == Parsed::Done(v.deep()),
    decreases v, 0nat,
{
    lemma_variant_found(v, id, reg);
    let (e, info, vinfo) = enum_parts(v, id, reg);
    e.lemma_decreases();
    let tv = vinfo->Tuple_0;
    let infos = tv.fields@;
    match e.spec_variant() {
        DynamicVariant::Tuple(t) => {
            t.lemma_decreases();
            let s = t.spec_fields();
            lemma_unnamed_conform(s, infos, reg, s.len());
            assert forall|i: int| 0 <= i < s.len() && !infos[i].skip_serde implies ser_spec(
                        s[i],
                        reg,
                    ) is Done
                && de_spec(ser_ok(s[i], reg), reg.table()[infos[i].type_id], reg)
                == Parsed::Done(s[i].deep()) && reg.table().dom().contains(infos[i].type_id) by {
                lemma_roundtrip(s[i], infos[i].type_id, reg);
            }
            if infos.len() == 1 {
                lemma_count_unnamed_step(infos, 0);
                assert(infos.take(1) =~= infos);
                assert(infos.take(0) =~= Seq::<UnnamedField>::empty());
            }
            assert(!(infos.len() == 1 && serde_count_unnamed(infos) == 1));
            lemma_ser_unnamed(infos, s, reg, infos.len());
            assert(infos.take(infos.len() as int) =~= infos);
            let x = ser_unnamed(infos, s, reg, infos.len())->Done_0;
            lemma_read_unnamed(infos, tv.name, reg, s, x);
            assert(variant_len(e) == infos.len());
            let meta = reg.table()[id];
            let index = e.spec_variant_index() as int;
            let d = SerialData::TupleVariant { name: info.ty.ident@, index, variant: tv.name@, fields: x };
            assert(ser_spec(v, reg) == ser_enum(e, info, reg));
            assert(ser_enum(e, info, reg) == Outcome::Done(d));
            assert(de_spec(d, meta, reg) == de_enum(d, info, reg));
            assert(variant_by_name(info, tv.name@) == Ok::<VariantInfo, DeFault>(vinfo));
        },
        _ => {},
    }
}

#[verifier::spinoff_prover]
#[verifier::rlimit(30)]
proof fn lemma_rt_enum_struct(v: Value, id: TypeId, reg: TypeRegistry)
    requires
        conforms(v, id, reg),
        !v.spec_is_primitive(),
        v is Enum,
        enum_parts(v, id, reg).2 is Struct,
    ensures
        ser_spec(v, reg) is Done,
        de_spec(ser_ok(v, reg), reg.table()[id], reg) == Parsed::Done(v.deep()),
    decreases v, 0nat,
{
    lemma_variant_found(v, id, reg);
    let (e, info, vinfo) = enum_parts(v, id, reg);
    e.lemma_decreases();
    let sv = vinfo->Struct_0;
    let infos = sv.fields@;
    match e.spec_variant() {
        DynamicVariant::Struct(st) => {
            st.lemma_decreases();
            let s = st.spec_fields();
            lemma_named_conform(s, infos, reg, s.len());
            assert forall|i: int| 0 <= i < s.len() && !infos[i].skip_serde implies ser_spec(
                        s[i].1,
                        reg,
                    ) is Done
                && de_spec(ser_ok(s[i].1, reg), reg.table()[infos[i].type_id], reg)
                == Parsed::Done(s[i].1.deep()) && reg.table().dom().contains(infos[i].type_id) by {
                lemma_roundtrip(s[i].1, infos[i].type_id, reg);
            }
            lemma_ser_named(infos, s, reg, infos.len());
            lemma_read_named(infos, s, reg, sv.name);
            assert(variant_len(e) == infos.len());
            let meta = reg.table()[id];
            let index = e.spec_variant_index() as int;
            let kp = kept_pairs(infos, s, reg, infos.len());
            let d = SerialData::StructVariant { name: info.ty.ident@, index, variant: sv.name@, fields: kp };
            assert(ser_spec(v, reg) == ser_enum(e, info, reg));
            assert(ser_enum(e, info, reg) == Outcome::Done(d));
            assert(de_spec(d, meta, reg) == de_enum(d, info, reg));
            assert(variant_by_name(info, sv.name@) == Ok::<VariantInfo, DeFault>(vinfo));
        },
        _ => {},
    }
}

} // verus!
