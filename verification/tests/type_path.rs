use vc_reflect::info::TypePath;
use vc_reflect::ops::{DynamicMap, DynamicSet, DynamicTuple};
use vc_reflect::registry::{ReflectDefault, ReflectDeserialize, ReflectFromReflect, ReflectSerialize};

#[test]
fn tuple_ops_type_path() {
    assert!(DynamicTuple::type_path() == "vc_reflect::ops::DynamicTuple");
    assert!(DynamicTuple::type_module() == Some("vc_reflect::ops"));
    assert!(DynamicTuple::type_ident() == "DynamicTuple");
    assert!(DynamicTuple::type_short_name() == "DynamicTuple");
}

#[test]
fn map_ops_type_path() {
    assert!(DynamicMap::type_path() == "vc_reflect::ops::DynamicMap");
    assert!(DynamicMap::type_module() == Some("vc_reflect::ops"));
    assert!(DynamicMap::type_ident() == "DynamicMap");
    assert!(DynamicMap::type_short_name() == "DynamicMap");
}

#[test]
fn set_ops_type_path() {
    assert!(DynamicSet::type_path() == "vc_reflect::ops::DynamicSet");
    assert!(DynamicSet::type_module() == Some("vc_reflect::ops"));
    assert!(DynamicSet::type_ident() == "DynamicSet");
    assert!(DynamicSet::type_short_name() == "DynamicSet");
}

#[test]
fn default_type_path() {
    assert!(ReflectDefault::type_path() == "vc_reflect::registry::ReflectDefault");
    assert!(ReflectDefault::type_module() == Some("vc_reflect::registry"));
    assert!(ReflectDefault::type_ident() == "ReflectDefault");
    assert!(ReflectDefault::type_short_name() == "ReflectDefault");
}

#[test]
fn from_reflect_type_path() {
    assert!(ReflectFromReflect::type_path() == "vc_reflect::registry::ReflectFromReflect");
    assert!(ReflectFromReflect::type_module() == Some("vc_reflect::registry"));
    assert!(ReflectFromReflect::type_ident() == "ReflectFromReflect");
    assert!(ReflectFromReflect::type_short_name() == "ReflectFromReflect");
}

#[test]
fn serialize_type_path() {
    assert!(ReflectSerialize::type_path() == "vc_reflect::registry::ReflectSerialize");
    assert!(ReflectSerialize::type_module() == Some("vc_reflect::registry"));
    assert!(ReflectSerialize::type_ident() == "ReflectSerialize");
    assert!(ReflectSerialize::type_short_name() == "ReflectSerialize");
}

#[test]
fn deserialize_type_path() {
    assert!(ReflectDeserialize::type_path() == "vc_reflect::registry::ReflectDeserialize");
    assert!(ReflectDeserialize::type_module() == Some("vc_reflect::registry"));
    assert!(ReflectDeserialize::type_ident() == "ReflectDeserialize");
    assert!(ReflectDeserialize::type_short_name() == "ReflectDeserialize");
}
