use vc_reflect::info::{EnumInfo, ListInfo, MapInfo, NamedField, StructInfo, TupleStructInfo};
use vc_reflect::info::{ArrayInfo, SetInfo, TupleInfo};
use vc_reflect::info::{StructVariantInfo, TupleVariantInfo, UnitVariantInfo, UnnamedField, VariantInfo};
use vc_reflect::info::{Type, TypeInfo};
use vc_reflect::info::{BOOL_TYPE_ID, I64_TYPE_ID, STRING_TYPE_ID, U64_TYPE_ID};
use vc_reflect::ops::{DynamicArray, DynamicEnum, DynamicList, DynamicMap, DynamicSet};
use vc_reflect::ops::{DynamicStruct, DynamicTuple, DynamicTupleStruct, DynamicVariant};
use vc_reflect::registry::{ReflectDefault, TypeMeta, TypeRegistry, TypeTrait};
use vc_reflect::serde::{DeError, DeserializeDriver, ReflectDeserializeDriver, ReflectSerializeDriver};
use vc_reflect::serde::{Read, SerError, Serial, SerializeDriver, SkipSerde, TypeInfoStack};
use vc_reflect::value::Value;

fn leak<T>(v: Vec<T>) -> &'static [T] {
    Box::leak(v.into_boxed_slice())
}

fn ty(id: u64, path: &'static str, name: &'static str) -> Type {
    Type { id, path, name, ident: name, module: None }
}

fn named(name: &'static str, type_id: u64, skip_serde: bool) -> NamedField {
    NamedField { name, type_id, skip_serde }
}

fn unnamed(index: usize, type_id: u64, skip_serde: bool) -> UnnamedField {
    UnnamedField { index, type_id, skip_serde }
}

const MY_STRUCT: u64 = 1000;
const POINT: u64 = 1001;
const WRAP: u64 = 1002;
const SHAPE: u64 = 1003;
const OPT_I64: u64 = 1004;
const LIST_I64: u64 = 1005;
const MAP_STR_I64: u64 = 1006;
const PAIR: u64 = 1007;
const ARR3: u64 = 1008;
const SET_U64: u64 = 1009;

fn my_struct_info() -> TypeInfo {
    TypeInfo::Struct(StructInfo {
        ty: ty(MY_STRUCT, "my_crate::MyStruct", "MyStruct"),
        fields: leak(vec![named("value", I64_TYPE_ID, false)]),
    })
}

fn point_info() -> TypeInfo {
    TypeInfo::Struct(StructInfo {
        ty: ty(POINT, "my_crate::Point", "Point"),
        fields: leak(vec![
            named("x", I64_TYPE_ID, false),
            named("tag", STRING_TYPE_ID, true),
            named("y", I64_TYPE_ID, false),
        ]),
    })
}

fn wrap_info() -> TypeInfo {
    TypeInfo::TupleStruct(TupleStructInfo {
        ty: ty(WRAP, "my_crate::Wrap", "Wrap"),
        fields: leak(vec![unnamed(0, U64_TYPE_ID, false)]),
    })
}

fn shape_info() -> TypeInfo {
    TypeInfo::Enum(EnumInfo {
        ty: ty(SHAPE, "my_crate::Shape", "Shape"),
        variants: leak(vec![
            VariantInfo::Unit(UnitVariantInfo { name: "Empty" }),
            VariantInfo::Tuple(TupleVariantInfo {
                name: "Circle",
                fields: leak(vec![unnamed(0, I64_TYPE_ID, false)]),
            }),
            VariantInfo::Tuple(TupleVariantInfo {
                name: "Segment",
                fields: leak(vec![unnamed(0, I64_TYPE_ID, false), unnamed(1, I64_TYPE_ID, false)]),
            }),
            VariantInfo::Struct(StructVariantInfo {
                name: "Rect",
                fields: leak(vec![named("w", I64_TYPE_ID, false), named("h", I64_TYPE_ID, false)]),
            }),
        ]),
    })
}

fn option_info() -> TypeInfo {
    TypeInfo::Enum(EnumInfo {
        ty: Type {
            id: OPT_I64,
            path: "core::option::Option<i64>",
            name: "Option<i64>",
            ident: "Option",
            module: Some("core::option"),
        },
        variants: leak(vec![
            VariantInfo::Unit(UnitVariantInfo { name: "None" }),
            VariantInfo::Tuple(TupleVariantInfo {
                name: "Some",
                fields: leak(vec![unnamed(0, I64_TYPE_ID, false)]),
            }),
        ]),
    })
}

fn list_info() -> TypeInfo {
    TypeInfo::List(ListInfo { ty: ty(LIST_I64, "alloc::vec::Vec<i64>", "Vec<i64>"), item: I64_TYPE_ID })
}

fn map_info() -> TypeInfo {
    TypeInfo::MapLike(MapInfo {
        ty: ty(MAP_STR_I64, "std::collections::HashMap<String, i64>", "HashMap<String, i64>"),
        key: STRING_TYPE_ID,
        value: I64_TYPE_ID,
    })
}

fn pair_info() -> TypeInfo {
    TypeInfo::Tuple(TupleInfo {
        ty: ty(PAIR, "(i64, bool)", "(i64, bool)"),
        fields: leak(vec![unnamed(0, I64_TYPE_ID, false), unnamed(1, BOOL_TYPE_ID, false)]),
    })
}

fn arr_info() -> TypeInfo {
    TypeInfo::Array(ArrayInfo { ty: ty(ARR3, "[u64; 3]", "[u64; 3]"), item: U64_TYPE_ID, len: 3 })
}

fn set_info() -> TypeInfo {
    TypeInfo::SetLike(SetInfo { ty: ty(SET_U64, "std::collections::HashSet<u64>", "HashSet<u64>"), value: U64_TYPE_ID })
}

fn registry() -> TypeRegistry {
    let mut r = TypeRegistry::new();
    for info in [
        my_struct_info(),
        point_info(),
        wrap_info(),
        shape_info(),
        option_info(),
        list_info(),
        map_info(),
        pair_info(),
        arr_info(),
        set_info(),
    ] {
        r.try_insert_type_meta(TypeMeta::new(info));
    }
    r
}

fn my_struct(value: i64) -> Value {
    let mut s = DynamicStruct::new();
    s.extend("value".to_string(), value);
    s.set_type_info(Some(my_struct_info()));
    Value::Struct(s)
}

fn serialize(v: &Value, r: &TypeRegistry) -> Result<Serial, SerError> {
    SerializeDriver::new(v, r).serialize()
}

fn deserialize(s: &Serial, id: u64, r: &TypeRegistry) -> Result<Value, DeError> {
    DeserializeDriver::new(r.get(id).unwrap(), r).deserialize(s)
}

fn roundtrip(v: &Value, id: u64, r: &TypeRegistry) -> Value {
    let s = serialize(v, r).ok().unwrap();
    deserialize(&s, id, r).ok().unwrap()
}

#[test]
fn tagged_serialization_of_a_struct() {
    let r = registry();
    let v = my_struct(123);
    match ReflectSerializeDriver::new(&v, &r).serialize() {
        Ok(Serial::Mapping(entries)) => {
            assert_eq!(entries.len(), 1);
            match &entries[0] {
                (Serial::Str(path), Serial::Struct { name, fields }) => {
                    assert_eq!(path, "my_crate::MyStruct");
                    assert_eq!(*name, "MyStruct");
                    assert_eq!(fields.len(), 1);
                    assert_eq!(fields[0].0, "value");
                    assert!(matches!(fields[0].1, Serial::I64(123)));
                }
                _ => panic!("a type path, then the struct"),
            }
        }
        _ => panic!("a map of one entry"),
    }
}

#[test]
fn tagged_deserialization_of_a_struct() {
    let r = registry();
    let data = Serial::Mapping(vec![(
        Serial::Str("my_crate::MyStruct".to_string()),
        Serial::Mapping(vec![(Serial::Str("value".to_string()), Serial::U64(123))]),
    )]);
    let v = ReflectDeserializeDriver::new(&r).deserialize(&data).ok().unwrap();
    assert!(v.reflect_eq(&my_struct(123)));
    assert_eq!(v.represented_type_info().unwrap().type_path(), "my_crate::MyStruct");
}

#[test]
fn tagged_deserialization_errors() {
    let r = registry();
    let unknown = Serial::Mapping(vec![(Serial::Str("nope::T".to_string()), Serial::Unit)]);
    assert!(matches!(
        ReflectDeserializeDriver::new(&r).deserialize(&unknown),
        Err(DeError::NoRegistration { .. })
    ));
    assert!(matches!(ReflectDeserializeDriver::new(&r).deserialize(&Serial::Unit), Err(DeError::NotTagged)));
    let empty = Serial::Mapping(Vec::new());
    assert!(matches!(
        ReflectDeserializeDriver::new(&r).deserialize(&empty),
        Err(DeError::NotSingleEntry { len: 0 })
    ));
}

#[test]
fn struct_roundtrip_with_skipped_field() {
    let r = registry();
    let mut s = DynamicStruct::new();
    s.extend("x".to_string(), 1i64);
    s.extend("tag".to_string(), "ignored".to_string());
    s.extend("y".to_string(), 2i64);
    s.set_type_info(Some(point_info()));
    let v = Value::Struct(s);
    match serialize(&v, &r) {
        Ok(Serial::Struct { fields, .. }) => {
            assert_eq!(fields.len(), 2);
            assert_eq!(fields[0].0, "x");
            assert_eq!(fields[1].0, "y");
        }
        _ => panic!("a struct of the fields that are not skipped"),
    }
    let back = roundtrip(&v, POINT, &r);
    match back {
        Value::Struct(b) => {
            assert_eq!(b.field_len(), 3);
            assert_eq!(b.field_as::<i64>("x"), Some(1));
            assert_eq!(b.field_as::<String>("tag"), Some(String::new()));
            assert_eq!(b.field_as::<i64>("y"), Some(2));
        }
        _ => panic!("a struct"),
    }
}

#[test]
fn struct_from_a_sequence() {
    let r = registry();
    let data = Serial::Sequence(vec![Serial::I64(5), Serial::I64(6)]);
    match deserialize(&data, POINT, &r) {
        Ok(Value::Struct(b)) => {
            assert_eq!(b.name_at(0), Some("x"));
            assert_eq!(b.name_at(1), Some("tag"));
            assert_eq!(b.field_as::<i64>("y"), Some(6));
        }
        _ => panic!("a struct"),
    }
    let short = Serial::Sequence(vec![Serial::I64(5)]);
    assert!(matches!(
        deserialize(&short, POINT, &r),
        Err(DeError::InvalidLength { expected: 3, actual: 2, .. })
    ));
    let long = Serial::Sequence(vec![Serial::I64(5), Serial::I64(6), Serial::I64(7)]);
    assert!(matches!(
        deserialize(&long, POINT, &r),
        Err(DeError::InvalidLength { expected: 3, actual: 3, .. })
    ));
}

#[test]
fn struct_errors() {
    let r = registry();
    let missing = Serial::Mapping(vec![(Serial::Str("x".to_string()), Serial::I64(1))]);
    assert!(matches!(deserialize(&missing, POINT, &r), Err(DeError::MissingField { name: "y", .. })));
    let unknown = Serial::Mapping(vec![(Serial::Str("z".to_string()), Serial::I64(1))]);
    match deserialize(&unknown, POINT, &r) {
        Err(DeError::UnknownField { name, type_path }) => {
            assert_eq!(name, "z");
            assert_eq!(type_path, "my_crate::Point");
        }
        _ => panic!("an unknown field"),
    }
    assert!(matches!(deserialize(&Serial::Bool(true), POINT, &r), Err(DeError::InvalidType { .. })));
}

#[test]
fn skipped_field_without_default() {
    let mut r = TypeRegistry::empty();
    r.try_insert_type_meta(TypeMeta::new(point_info()));
    r.register::<i64>();
    r.try_insert_type_meta(TypeMeta::of::<String>());
    let data = Serial::Mapping(vec![
        (Serial::Str("x".to_string()), Serial::I64(1)),
        (Serial::Str("y".to_string()), Serial::I64(2)),
    ]);
    assert!(matches!(
        deserialize(&data, POINT, &r),
        Err(DeError::NoDefault { type_id: STRING_TYPE_ID, .. })
    ));
}

#[test]
fn newtype_struct_roundtrip() {
    let r = registry();
    let mut t = DynamicTupleStruct::new();
    t.extend(9u64);
    t.set_type_info(Some(wrap_info()));
    let v = Value::TupleStruct(t);
    let s = serialize(&v, &r).ok().unwrap();
    match &s {
        Serial::NewtypeStruct { name, value } => {
            assert_eq!(*name, "Wrap");
            assert!(matches!(**value, Serial::U64(9)));
        }
        _ => panic!("a newtype struct"),
    }
    assert!(deserialize(&s, WRAP, &r).ok().unwrap().reflect_eq(&v));
}

#[test]
fn enum_variants_roundtrip() {
    let r = registry();
    let mut seg = DynamicTuple::new();
    seg.extend(1i64);
    seg.extend(2i64);
    let mut rect = DynamicStruct::new();
    rect.extend("w".to_string(), 3i64);
    rect.extend("h".to_string(), 4i64);
    let mut circle = DynamicTuple::new();
    circle.extend(5i64);
    let cases = vec![
        DynamicEnum::new_with_index(0, "Empty".to_string(), DynamicVariant::Unit),
        DynamicEnum::new_with_index(1, "Circle".to_string(), DynamicVariant::Tuple(circle)),
        DynamicEnum::new_with_index(2, "Segment".to_string(), DynamicVariant::Tuple(seg)),
        DynamicEnum::new_with_index(3, "Rect".to_string(), DynamicVariant::Struct(rect)),
    ];
    for mut e in cases {
        e.set_type_info(Some(shape_info()));
        let v = Value::Enum(e);
        assert!(roundtrip(&v, SHAPE, &r).reflect_eq(&v));
    }
}

#[test]
fn enum_serialized_forms() {
    let r = registry();
    let mut e = DynamicEnum::new_with_index(0, "Empty".to_string(), DynamicVariant::Unit);
    e.set_type_info(Some(shape_info()));
    match serialize(&Value::Enum(e), &r) {
        Ok(Serial::UnitVariant { name, index, variant }) => {
            assert_eq!(name, "Shape");
            assert_eq!(index, 0);
            assert_eq!(variant, "Empty");
        }
        _ => panic!("a unit variant"),
    }
    let mut bad = DynamicEnum::new_with_index(9, "Nope".to_string(), DynamicVariant::Unit);
    bad.set_type_info(Some(shape_info()));
    assert!(matches!(serialize(&Value::Enum(bad), &r), Err(SerError::NoVariantAt { index: 9, .. })));
}

#[test]
fn enum_read_by_name_index_or_map() {
    let r = registry();
    let by_name = Serial::Str("Empty".to_string());
    match deserialize(&by_name, SHAPE, &r) {
        Ok(Value::Enum(e)) => assert_eq!(e.variant_name(), "Empty"),
        _ => panic!("a unit variant"),
    }
    match deserialize(&Serial::U64(0), SHAPE, &r) {
        Ok(Value::Enum(e)) => assert_eq!(e.variant_name(), "Empty"),
        _ => panic!("a unit variant"),
    }
    let tagged = Serial::Mapping(vec![(Serial::Str("Circle".to_string()), Serial::I64(7))]);
    match deserialize(&tagged, SHAPE, &r) {
        Ok(Value::Enum(e)) => {
            assert_eq!(e.variant_name(), "Circle");
            assert_eq!(e.variant_index(), 1);
            assert_eq!(e.field_at_as::<i64>(0), Some(7));
        }
        _ => panic!("a newtype variant"),
    }
    assert!(matches!(
        deserialize(&Serial::Str("Triangle".to_string()), SHAPE, &r),
        Err(DeError::NoVariantNamed { .. })
    ));
    assert!(matches!(deserialize(&Serial::U64(4), SHAPE, &r), Err(DeError::NoVariantAt { index: 4, .. })));
    assert!(matches!(
        deserialize(&Serial::Str("Circle".to_string()), SHAPE, &r),
        Err(DeError::InvalidType { .. })
    ));
}

#[test]
fn option_serializes_as_optional() {
    let r = registry();
    let mut some_data = DynamicTuple::new();
    some_data.extend(4i64);
    let mut some = DynamicEnum::new_with_index(1, "Some".to_string(), DynamicVariant::Tuple(some_data));
    some.set_type_info(Some(option_info()));
    let some = Value::Enum(some);
    let s = serialize(&some, &r).ok().unwrap();
    match &s {
        Serial::OptionSome(inner) => assert!(matches!(**inner, Serial::I64(4))),
        _ => panic!("an optional value"),
    }
    assert!(deserialize(&s, OPT_I64, &r).ok().unwrap().reflect_eq(&some));
    let mut none = DynamicEnum::new_with_index(0, "None".to_string(), DynamicVariant::Unit);
    none.set_type_info(Some(option_info()));
    let none = Value::Enum(none);
    assert!(matches!(serialize(&none, &r), Ok(Serial::OptionNone)));
    assert!(deserialize(&Serial::OptionNone, OPT_I64, &r).ok().unwrap().reflect_eq(&none));
    assert!(deserialize(&Serial::Unit, OPT_I64, &r).ok().unwrap().reflect_eq(&none));
}

#[test]
fn list_map_tuple_array_set_roundtrip() {
    let r = registry();
    let mut l = DynamicList::new();
    l.extend(1i64);
    l.extend(2i64);
    l.set_type_info(Some(list_info()));
    let l = Value::List(l);
    assert!(matches!(serialize(&l, &r), Ok(Serial::Sequence(_))));
    assert!(roundtrip(&l, LIST_I64, &r).reflect_eq(&l));

    let mut m = DynamicMap::new();
    m.extend("a".to_string(), 1i64);
    m.extend("b".to_string(), 2i64);
    m.set_type_info(Some(map_info()));
    let m = Value::MapLike(m);
    assert!(roundtrip(&m, MAP_STR_I64, &r).reflect_eq(&m));

    let mut t = DynamicTuple::new();
    t.extend(1i64);
    t.extend(false);
    t.set_type_info(Some(pair_info()));
    let t = Value::Tuple(t);
    assert!(roundtrip(&t, PAIR, &r).reflect_eq(&t));

    let a = DynamicArray::from_values(vec![Value::UInt(1), Value::UInt(2), Value::UInt(3)]);
    let mut a = a;
    a.set_type_info(Some(arr_info()));
    let a = Value::Array(a);
    assert!(roundtrip(&a, ARR3, &r).reflect_eq(&a));

    let mut s = DynamicSet::new();
    s.extend(1u64);
    s.extend(2u64);
    s.set_type_info(Some(set_info()));
    let s = Value::SetLike(s);
    assert!(roundtrip(&s, SET_U64, &r).reflect_eq(&s));
}

#[test]
fn array_length_is_checked() {
    let r = registry();
    let data = Serial::Tuple(vec![Serial::U64(1), Serial::U64(2)]);
    assert!(matches!(
        deserialize(&data, ARR3, &r),
        Err(DeError::InvalidLength { expected: 3, actual: 2, .. })
    ));
}

#[test]
fn map_later_entries_replace_earlier() {
    let r = registry();
    let data = Serial::Mapping(vec![
        (Serial::Str("k".to_string()), Serial::I64(1)),
        (Serial::Str("k".to_string()), Serial::I64(2)),
    ]);
    match deserialize(&data, MAP_STR_I64, &r) {
        Ok(Value::MapLike(m)) => {
            assert_eq!(m.len(), 1);
            assert_eq!(m.get_as::<i64>(&Value::Str("k".to_string())), Some(2));
        }
        _ => panic!("a map"),
    }
}

#[test]
fn primitives_read_across_integer_kinds() {
    let r = registry();
    assert!(deserialize(&Serial::U64(5), I64_TYPE_ID, &r).ok().unwrap().reflect_eq(&Value::Int(5)));
    assert!(deserialize(&Serial::I64(5), U64_TYPE_ID, &r).ok().unwrap().reflect_eq(&Value::UInt(5)));
    assert!(matches!(deserialize(&Serial::I64(-5), U64_TYPE_ID, &r), Err(DeError::InvalidType { type_path: "u64" })));
    assert!(matches!(deserialize(&Serial::U64(u64::MAX), I64_TYPE_ID, &r), Err(DeError::InvalidType { .. })));
    let c = deserialize(&Serial::Str("x".to_string()), vc_reflect::info::CHAR_TYPE_ID, &r).ok().unwrap();
    assert!(c.reflect_eq(&Value::Char('x')));
    let s = deserialize(&Serial::Char('y'), STRING_TYPE_ID, &r).ok().unwrap();
    assert!(s.reflect_eq(&Value::Str("y".to_string())));
}

#[test]
fn values_without_type_info_do_not_serialize() {
    let r = registry();
    let plain = Value::List(DynamicList::new());
    assert!(matches!(serialize(&Value::Struct(DynamicStruct::new()), &r), Err(SerError::MissingTypeInfo { .. })));
    assert!(matches!(serialize(&plain, &r), Ok(Serial::Sequence(_))));
    assert!(matches!(
        ReflectSerializeDriver::new(&plain, &r).serialize(),
        Err(SerError::MissingTypeInfo { type_path: "vc_reflect::ops::DynamicList" })
    ));
    let empty = TypeRegistry::empty();
    assert!(matches!(serialize(&Value::Int(1), &empty), Err(SerError::NotSerializable { type_path: "i64" })));
}

#[test]
fn kind_and_count_mismatches() {
    let r = registry();
    let mut s = DynamicStruct::new();
    s.set_type_info(Some(my_struct_info()));
    assert!(matches!(
        serialize(&Value::Struct(s), &r),
        Err(SerError::FieldCountMismatch { expected: 1, actual: 0, .. })
    ));
    let mut t = DynamicTupleStruct::new();
    t.set_type_info(Some(wrap_info()));
    assert!(matches!(serialize(&Value::TupleStruct(t), &r), Err(SerError::FieldCountMismatch { .. })));
}

#[test]
fn type_info_stack_lists_paths() {
    let mut stack = TypeInfoStack::new();
    stack.push(my_struct_info());
    stack.push(point_info());
    assert_eq!(stack.to_string(), "`my_crate::MyStruct`\n -> `my_crate::Point`\n");
    stack.pop();
    assert_eq!(stack.iter().len(), 1);
    stack.clear();
    assert_eq!(stack.to_string(), "");
}

#[test]
fn skip_serde_values() {
    let r = registry();
    assert!(matches!(SkipSerde::Empty.get(I64_TYPE_ID, &r), Ok(None)));
    match SkipSerde::Default.get(I64_TYPE_ID, &r) {
        Ok(Some(v)) => assert!(v.reflect_eq(&Value::Int(0))),
        _ => panic!("the default of i64"),
    }
    assert!(matches!(SkipSerde::Default.get(POINT, &r), Err(DeError::NoDefault { .. })));
    match SkipSerde::clone(7u64).get(U64_TYPE_ID, &r) {
        Ok(Some(v)) => assert!(v.reflect_eq(&Value::UInt(7))),
        _ => panic!("a copy"),
    }
    assert!(matches!(SkipSerde::clone(7u64).get(I64_TYPE_ID, &r), Err(DeError::InvalidType { .. })));
}

#[test]
fn registered_default_feeds_skipped_fields() {
    let mut r = registry();
    r.register_type_trait(
        STRING_TYPE_ID,
        TypeTrait::Default(ReflectDefault::from_value(Value::Str("none".to_string()))),
    );
    let data = Serial::Mapping(vec![
        (Serial::Str("x".to_string()), Serial::I64(1)),
        (Serial::Str("y".to_string()), Serial::I64(2)),
    ]);
    match deserialize(&data, POINT, &r) {
        Ok(Value::Struct(b)) => assert_eq!(b.field_as::<String>("tag"), Some("none".to_string())),
        _ => panic!("a struct"),
    }
    assert!(matches!(
        DeserializeDriver::new(r.get(POINT).unwrap(), &r).try_deserialize(&data),
        Read::Done(_)
    ));
}

#[test]
fn integers_of_every_width_serialize_and_read_back() {
    let r = TypeRegistry::new();
    let v = Value::U8(7);
    match serialize(&v, &r) {
        Ok(Serial::U8(x)) => assert_eq!(x, 7),
        _ => panic!("a u8 serializes as a u8"),
    }
    let id = r.get_with_type_name("u8").unwrap().type_id();
    assert!(roundtrip(&v, id, &r).reflect_eq(&v));
    assert!(matches!(deserialize(&Serial::I64(300), id, &r), Err(DeError::InvalidType { .. })));
    let id16 = r.get_with_type_name("u16").unwrap().type_id();
    match deserialize(&Serial::I64(300), id16, &r) {
        Ok(Value::U16(x)) => assert_eq!(x, 300),
        _ => panic!("300 fits a u16"),
    }
    let big = Value::U128(u128::MAX);
    let id128 = r.get_with_type_name("u128").unwrap().type_id();
    assert!(roundtrip(&big, id128, &r).reflect_eq(&big));
    let neg = Value::I128(i128::MIN);
    let idi128 = r.get_with_type_name("i128").unwrap().type_id();
    assert!(roundtrip(&neg, idi128, &r).reflect_eq(&neg));
    let ids = r.get_with_type_name("isize").unwrap().type_id();
    match serialize(&Value::Isize(-5), &r) {
        Ok(Serial::I64(x)) => assert_eq!(x, -5),
        _ => panic!("an isize serializes as an i64"),
    }
    assert!(roundtrip(&Value::Isize(-5), ids, &r).reflect_eq(&Value::Isize(-5)));
    assert!(!Value::I8(1).reflect_eq(&Value::Int(1)));
}

#[test]
fn nested_values_read_back_with_their_types() {
    let mut r = registry();
    let list_of_structs = TypeInfo::List(ListInfo {
        ty: ty(1010, "alloc::vec::Vec<my_crate::MyStruct>", "Vec<MyStruct>"),
        item: MY_STRUCT,
    });
    r.try_insert_type_meta(TypeMeta::new(list_of_structs));
    let data = Serial::Sequence(vec![
        Serial::Struct { name: "MyStruct", fields: vec![("value", Serial::I64(5))] },
        Serial::Mapping(vec![(Serial::Str("value".to_string()), Serial::I64(6))]),
    ]);
    let v = deserialize(&data, 1010, &r).ok().unwrap();
    assert_eq!(v.represented_type_info().unwrap().type_id(), 1010);
    match &v {
        Value::List(l) => {
            let mut it = l.iter();
            for expected in [5i64, 6] {
                let item = it.next().unwrap();
                assert_eq!(item.represented_type_info().unwrap().type_id(), MY_STRUCT);
                assert!(item.reflect_eq(&my_struct(expected)));
            }
            assert!(it.next().is_none());
        }
        _ => panic!("a list"),
    }
    assert!(serialize(&v, &r).is_ok());
}
