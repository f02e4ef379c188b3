use vc_reflect::info::{OpaqueInfo, StructInfo, Type, TypeInfo, Typed};
use vc_reflect::info::{BOOL_TYPE_ID, I64_TYPE_ID, STRING_TYPE_ID, U64_TYPE_ID};
use vc_reflect::registry::{FromType, ReflectDefault, ReflectFromReflect, ReflectSerialize};
use vc_reflect::registry::{TraitKind, TypeMeta, TypeRegistry, TypeTrait};
use vc_reflect::value::Value;

fn opaque(id: u64, path: &'static str, name: &'static str) -> TypeInfo {
    TypeInfo::Opaque(OpaqueInfo { ty: Type { id, path, name, ident: name, module: None } })
}

fn empty_struct(id: u64, path: &'static str, name: &'static str) -> TypeInfo {
    let fields: &'static [vc_reflect::info::NamedField] = Box::leak(Vec::new().into_boxed_slice());
    TypeInfo::Struct(StructInfo { ty: Type { id, path, name, ident: name, module: None }, fields })
}

#[test]
fn new_registry_has_the_primitives_with_defaults() {
    let registry = TypeRegistry::new();
    let meta = registry.get_with_type_name("String").unwrap();
    let generator = meta.get_default().unwrap();
    let s = generator.default();
    assert_eq!(s.reflect_type_path(), "alloc::string::String");
    match s {
        Value::Str(text) => assert_eq!(text, ""),
        _ => panic!("the default of String is a string"),
    }
    assert!(registry.contains(BOOL_TYPE_ID));
    assert!(registry.contains(I64_TYPE_ID));
    assert!(registry.contains(U64_TYPE_ID));
    assert!(registry.get_with_type_path("alloc::string::String").is_some());
    assert_eq!(registry.get(STRING_TYPE_ID).unwrap().trait_len(), 4);
    assert!(registry.has_type_trait(I64_TYPE_ID, TraitKind::Serialize));
    assert_eq!(registry.iter().len(), 16);
    assert_eq!(registry.iter_with_trait(TraitKind::Default).len(), 16);
}

#[test]
fn empty_registry_finds_nothing() {
    let registry = TypeRegistry::empty();
    assert!(!registry.contains(BOOL_TYPE_ID));
    assert!(registry.get(BOOL_TYPE_ID).is_none());
    assert!(registry.get_with_type_path("bool").is_none());
    assert!(registry.get_with_type_name("bool").is_none());
    assert!(registry.get_type_info(BOOL_TYPE_ID).is_none());
    assert_eq!(registry.iter().len(), 0);
}

#[test]
fn same_short_name_is_ambiguous() {
    let mut registry = TypeRegistry::empty();
    registry.try_insert_type_meta(TypeMeta::new(empty_struct(1, "foo::MyType", "MyType")));
    assert!(!registry.is_ambiguous("MyType"));
    assert!(registry.get_with_type_name("MyType").is_some());
    registry.try_insert_type_meta(TypeMeta::new(empty_struct(2, "bar::MyType", "MyType")));
    assert!(registry.is_ambiguous("MyType"));
    assert!(registry.get_with_type_name("MyType").is_none());
    assert_eq!(registry.get_with_type_path("foo::MyType").unwrap().type_id(), 1);
    assert_eq!(registry.get_with_type_path("bar::MyType").unwrap().type_id(), 2);
}

#[test]
fn try_insert_keeps_the_first_registration() {
    let mut registry = TypeRegistry::empty();
    assert!(registry.try_insert_type_meta(TypeMeta::new(opaque(7, "a::T", "T"))));
    assert!(!registry.try_insert_type_meta(TypeMeta::new(opaque(7, "b::U", "U"))));
    assert_eq!(registry.get(7).unwrap().type_path(), "a::T");
    assert!(registry.get_with_type_path("b::U").is_none());
}

#[test]
fn insert_replaces_but_keeps_the_indices() {
    let mut registry = TypeRegistry::empty();
    registry.insert_type_meta(TypeMeta::new(opaque(7, "a::T", "T")));
    registry.insert_type_meta(TypeMeta::new(opaque(7, "b::U", "U")));
    assert_eq!(registry.get(7).unwrap().type_path(), "b::U");
    assert!(registry.get_with_type_path("a::T").is_some());
    assert!(registry.get_with_type_path("b::U").is_none());
    assert!(registry.get_with_type_name("T").is_some());
}

#[test]
fn register_type_trait_adds_a_capability() {
    let mut registry = TypeRegistry::empty();
    registry.try_insert_type_meta(TypeMeta::new(opaque(9, "a::Flag", "Flag")));
    assert!(!registry.has_type_trait(9, TraitKind::Default));
    registry.register_type_trait(9, TypeTrait::Default(ReflectDefault::from_value(Value::Bool(true))));
    assert!(registry.has_type_trait(9, TraitKind::Default));
    match registry.get_type_trait(9, TraitKind::Default) {
        Some(TypeTrait::Default(d)) => assert!(d.default().reflect_eq(&Value::Bool(true))),
        _ => panic!("the default generator is registered"),
    }
}

#[test]
fn register_is_idempotent() {
    let mut registry = TypeRegistry::empty();
    registry.register::<bool>();
    registry.register::<bool>();
    assert_eq!(registry.iter().len(), 1);
    assert_eq!(registry.get(BOOL_TYPE_ID).unwrap().trait_len(), 4);
}

#[test]
fn type_meta_capability_table() {
    let mut meta = TypeMeta::of::<u64>();
    assert_eq!(meta.trait_len(), 0);
    meta.insert_trait(TypeTrait::Serialize(<ReflectSerialize as FromType<u64>>::from_type()));
    meta.insert_trait(TypeTrait::Default(<ReflectDefault as FromType<u64>>::from_type()));
    assert_eq!(meta.trait_len(), 2);
    assert!(meta.has_trait(TraitKind::Serialize));
    assert!(meta.trait_kinds() == vec![TraitKind::Default, TraitKind::Serialize]);
    assert!(meta.remove_trait(TraitKind::Default).is_some());
    assert!(meta.remove_trait(TraitKind::Default).is_none());
    assert_eq!(meta.trait_len(), 1);
    let copy = meta.clone_meta();
    assert_eq!(copy.type_id(), U64_TYPE_ID);
    assert_eq!(copy.trait_len(), 1);
}

#[test]
fn from_reflect_rebuilds_values_of_its_type() {
    let f = <ReflectFromReflect as FromType<i64>>::from_type();
    assert!(f.from_reflect(&Value::Int(3)).unwrap().reflect_eq(&Value::Int(3)));
    assert!(f.from_reflect(&Value::UInt(3)).is_none());
    assert_eq!(f.target(), <i64 as Typed>::type_info().type_id());
}

#[test]
fn new_registry_has_every_integer_width() {
    let registry = TypeRegistry::new();
    for name in ["u8", "u16", "u32", "u64", "u128", "usize", "i8", "i16", "i32", "i64", "i128", "isize"] {
        let meta = registry.get_with_type_name(name).unwrap();
        assert_eq!(meta.type_path(), name);
        assert_eq!(meta.trait_len(), 4);
        assert!(registry.get_with_type_path(name).is_some());
    }
    let d = registry.get_with_type_name("u16").unwrap().get_default().unwrap().default();
    match d {
        Value::U16(x) => assert_eq!(x, 0),
        _ => panic!("the default of u16 is a u16"),
    }
    assert!(!registry.is_ambiguous("i32"));
}

#[test]
fn registrations_change_in_place() {
    let mut r = TypeRegistry::new();
    let m = r.get_mut(BOOL_TYPE_ID).unwrap();
    assert!(m.remove_trait(TraitKind::Default).is_some());
    assert!(!r.get(BOOL_TYPE_ID).unwrap().has_trait(TraitKind::Default));
    assert!(r.get(BOOL_TYPE_ID).unwrap().has_trait(TraitKind::Serialize));

    let s = r.get_with_type_name_mut("String").unwrap();
    assert!(s.remove_trait(TraitKind::FromReflect).is_some());
    assert!(!r.get(STRING_TYPE_ID).unwrap().has_trait(TraitKind::FromReflect));

    let p = r.get_with_type_path_mut("alloc::string::String").unwrap();
    assert!(p.has_trait(TraitKind::Default));

    assert!(r.get_mut(0x9999).is_none());
    assert!(r.get_with_type_name_mut("Nothing").is_none());
    assert!(r.get_with_type_path_mut("nothing::Nothing").is_none());
    assert!(r.contains(I64_TYPE_ID));
}
