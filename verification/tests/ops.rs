use vc_reflect::ops::{ApplyError, ReflectCloneError};
use vc_reflect::ops::{Array, List, Tuple, TupleStruct};
use vc_reflect::ops::{DynamicArray, DynamicEnum, DynamicList, DynamicMap, DynamicSet};
use vc_reflect::ops::{DynamicStruct, DynamicTuple, DynamicTupleStruct, DynamicVariant};
use vc_reflect::value::{Value, ValueKind, VariantKind};
use vc_reflect::info::{ListInfo, Type, TypeInfo, I64_TYPE_ID};
use vc_reflect::reflection::take_from_reflect;

fn as_i64(v: &Value) -> i64 {
    match v {
        Value::Int(i) => *i,
        _ => panic!("not an i64"),
    }
}

fn text(s: &str) -> Value {
    Value::Str(s.to_string())
}

#[test]
fn array_get_set_and_len() {
    let mut a = DynamicArray::new();
    a.extend(10i64);
    a.extend(20i64);
    a.extend(30i64);
    assert_eq!(a.len(), 3);
    assert_eq!(as_i64(a.get(1).unwrap()), 20);
    assert!(a.get(3).is_none());
    assert!(a.set(2, Value::Int(33)));
    assert!(!a.set(3, Value::Int(0)));
    assert_eq!(a.get_as::<i64>(2), Some(33));
    assert_eq!(a.get_as::<u64>(2), None);
    let drained = a.drain();
    assert_eq!(drained.len(), 3);
}

#[test]
fn array_iterates_in_order() {
    let a = DynamicArray::from_values(vec![Value::Int(1), Value::Int(2)]);
    let mut it = a.iter();
    assert_eq!(it.remaining(), 2);
    assert_eq!(as_i64(it.next().unwrap()), 1);
    assert_eq!(as_i64(it.next().unwrap()), 2);
    assert!(it.next().is_none());
}

#[test]
fn list_push_pop_insert_remove() {
    let mut l = DynamicList::new();
    assert!(l.is_empty());
    l.push(Value::Int(1));
    l.push(Value::Int(3));
    l.insert(1, Value::Int(2));
    assert_eq!(l.len(), 3);
    assert_eq!(as_i64(l.get(1).unwrap()), 2);
    let removed = l.remove(0);
    assert_eq!(as_i64(&removed), 1);
    assert_eq!(as_i64(&l.pop().unwrap()), 3);
    assert_eq!(l.len(), 1);
    assert!(l.try_push(Value::Int(4)).is_ok());
    assert_eq!(l.drain().len(), 2);
    assert!(l.pop().is_none());
}

#[test]
fn tuple_fields() {
    let mut t = DynamicTuple::new();
    t.extend(1i64);
    t.extend(true);
    assert_eq!(t.field_len(), 2);
    assert_eq!(t.field_as::<bool>(1), Some(true));
    assert!(t.set_field(0, Value::Int(7)));
    assert_eq!(as_i64(t.field(0).unwrap()), 7);
    assert!(t.field(2).is_none());
    let copy = t.to_dynamic_tuple();
    assert!(Value::Tuple(copy).reflect_eq(&Value::Tuple(t)));
}

#[test]
fn tuple_struct_fields() {
    let mut t = DynamicTupleStruct::new();
    t.extend_boxed(Value::UInt(5));
    assert_eq!(t.field_len(), 1);
    assert_eq!(t.field_as::<u64>(0), Some(5));
    assert!(!t.set_field(1, Value::Unit));
    let mut it = t.iter_fields();
    assert!(it.next().is_some());
    assert!(it.next().is_none());
}

#[test]
fn struct_fields_by_name_keep_their_place() {
    let mut s = DynamicStruct::new();
    s.extend("a".to_string(), 1i64);
    s.extend("b".to_string(), 2i64);
    s.extend("a".to_string(), 3i64);
    assert_eq!(s.field_len(), 2);
    assert_eq!(s.index_of("a"), Some(0));
    assert_eq!(s.name_at(1), Some("b"));
    assert_eq!(s.field_as::<i64>("a"), Some(3));
    assert_eq!(s.field_at_as::<i64>(1), Some(2));
    assert!(s.field("c").is_none());
    assert!(s.set_field("b", Value::Int(20)));
    assert!(!s.set_field("c", Value::Int(0)));
    assert_eq!(as_i64(s.field_at(1).unwrap()), 20);
}

#[test]
fn map_insert_get_remove() {
    let mut m = DynamicMap::new();
    assert!(m.insert(text("x"), Value::Int(1)).is_none());
    assert!(m.insert(text("y"), Value::Int(2)).is_none());
    let old = m.insert(text("x"), Value::Int(10));
    assert_eq!(as_i64(&old.unwrap()), 1);
    assert_eq!(m.len(), 2);
    assert_eq!(m.get_as::<i64>(&text("x")), Some(10));
    assert!(m.contains_key(&text("y")));
    assert_eq!(as_i64(&m.remove(&text("y")).unwrap()), 2);
    assert!(!m.contains_key(&text("y")));
    assert!(m.remove(&text("y")).is_none());
    assert_eq!(m.len(), 1);
}

#[test]
fn map_keys_compare_by_content() {
    let mut m = DynamicMap::new();
    let mut k1 = DynamicTuple::new();
    k1.extend(1i64);
    let mut k2 = DynamicTuple::new();
    k2.extend(1i64);
    m.insert(Value::Tuple(k1), Value::Bool(true));
    m.insert(Value::Tuple(k2), Value::Bool(false));
    assert_eq!(m.len(), 1);
}

#[test]
fn set_insert_contains_remove() {
    let mut s = DynamicSet::new();
    assert!(s.insert(Value::Int(1)));
    assert!(!s.insert(Value::Int(1)));
    assert!(s.insert(Value::Int(2)));
    assert_eq!(s.len(), 2);
    assert!(s.contains(&Value::Int(2)));
    assert!(s.remove(&Value::Int(2)));
    assert!(!s.remove(&Value::Int(2)));
    assert!(!s.contains(&Value::Int(2)));
    assert_eq!(s.get_as::<i64>(&Value::Int(1)), Some(1));
}

#[test]
fn enum_variants_and_fields() {
    let mut data = DynamicStruct::new();
    data.extend("x".to_string(), 4i64);
    let e = DynamicEnum::new_with_index(2, "Point".to_string(), DynamicVariant::Struct(data));
    assert_eq!(e.variant_name(), "Point");
    assert_eq!(e.variant_index(), 2);
    assert!(e.variant_kind() == VariantKind::Struct);
    assert_eq!(e.field_len(), 1);
    assert_eq!(e.field_as::<i64>("x"), Some(4));
    assert_eq!(e.index_of("x"), Some(0));
    assert_eq!(e.name_at(0), Some("x"));
    let copy = DynamicEnum::from_ref(&e);
    assert!(Value::Enum(copy).reflect_eq(&Value::Enum(e)));
}

#[test]
fn enum_apply_takes_the_other_variant() {
    let mut e = DynamicEnum::new("A".to_string(), DynamicVariant::Unit);
    let mut t = DynamicTuple::new();
    t.extend(1i64);
    let other = Value::Enum(DynamicEnum::new_with_index(1, "B".to_string(), DynamicVariant::Tuple(t)));
    assert!(e.try_apply(&other).is_ok());
    assert_eq!(e.variant_name(), "B");
    assert_eq!(e.variant_index(), 1);
    assert_eq!(e.field_at_as::<i64>(0), Some(1));
    match e.try_apply(&Value::Int(0)) {
        Err(ApplyError::MismatchedKinds { from_kind, to_kind }) => {
            assert!(from_kind == ValueKind::Int);
            assert!(to_kind == ValueKind::Enum);
        }
        Ok(()) => panic!("applying an integer to an enum must fail"),
    }
}

#[test]
fn values_compare_by_content_not_by_represented_type() {
    let mut a = DynamicList::new();
    a.push(Value::Int(1));
    let mut b = DynamicList::new();
    b.push(Value::Int(1));
    let va = Value::List(a);
    let vb = Value::List(b);
    assert!(va.reflect_eq(&vb));
    assert!(!va.reflect_eq(&Value::Int(1)));
    let copy = va.to_dynamic();
    assert!(copy.reflect_eq(&va));
    assert!(va.reflect_clone().is_ok());
    assert!(va.is_dynamic());
    assert!(!Value::Int(0).is_dynamic());
}

#[test]
fn value_type_paths() {
    assert_eq!(Value::Int(0).reflect_type_path(), "i64");
    assert_eq!(Value::Str(String::new()).reflect_type_path(), "alloc::string::String");
    assert_eq!(Value::List(DynamicList::new()).reflect_type_path(), "vc_reflect::ops::DynamicList");
    assert!(Value::Bool(true).represented_type_info().is_some());
    assert!(Value::List(DynamicList::new()).represented_type_info().is_none());
}

#[test]
fn clone_error_messages() {
    let e = ReflectCloneError::NotSupport { type_path: "my::T".to_string() };
    assert_eq!(e.to_string(), "`reflect_clone` not support for `my::T`");
    let f = ReflectCloneError::FieldNotCloneable {
        type_path: "my::T".to_string(),
        field: "x".to_string(),
        variant: None,
    };
    assert_eq!(f.to_string(), "field `my::T::x` cannot be made cloneable for `reflect_clone`");
    let g = ReflectCloneError::FieldNotCloneable {
        type_path: "my::E".to_string(),
        field: "0".to_string(),
        variant: Some("V".to_string()),
    };
    assert_eq!(g.to_string(), "field `my::E::V::0` cannot be made cloneable for `reflect_clone`");
}

#[test]
fn array_and_list_elements_change_in_place() {
    let mut a = DynamicArray::from_values(vec![Value::Int(10), Value::Int(20), Value::Int(30)]);
    if let Some(x) = a.get_mut_as::<i64>(1) {
        *x = 99;
    }
    assert_eq!(a.get_as::<i64>(1), Some(99));
    assert!(a.get_mut_as::<bool>(1).is_none());
    assert!(a.get_mut_as::<i64>(3).is_none());
    if let Some(v) = a.get_mut(0) {
        *v = text("zero");
    }
    assert!(a.get(0).unwrap().reflect_eq(&text("zero")));

    let mut l = DynamicList::from_values(vec![Value::Int(10), Value::Int(20), Value::Int(30)]);
    if let Some(x) = l.get_mut_as::<i64>(1) {
        *x = 99;
    }
    assert_eq!(l.get_as::<i64>(1), Some(99));
    assert!(l.get_mut_as::<String>(1).is_none());
    assert!(l.get_mut(5).is_none());
    assert_eq!(l.len(), 3);
}

#[test]
fn tuple_fields_change_in_place() {
    let mut t = DynamicTuple::from_fields(vec![Value::Int(1), text("a")]);
    if let Some(s) = t.field_mut_as::<String>(1) {
        s.push('b');
    }
    assert!(t.field(1).unwrap().reflect_eq(&text("ab")));
    assert!(t.field_mut_as::<String>(0).is_none());
    assert!(t.field_mut(2).is_none());

    let mut ts = DynamicTupleStruct::from_fields(vec![Value::UInt(7)]);
    if let Some(x) = ts.field_mut_as::<u64>(0) {
        *x += 1;
    }
    assert_eq!(ts.field_as::<u64>(0), Some(8));
    if let Some(v) = ts.field_mut_as::<Value>(0) {
        *v = Value::Bool(true);
    }
    assert_eq!(ts.field_as::<bool>(0), Some(true));
}

#[test]
fn map_remove_after_insert_restores_the_map() {
    let mut m = DynamicMap::new();
    m.insert(text("a"), Value::Int(1));
    m.insert(text("b"), Value::Int(2));
    assert!(m.insert(text("c"), Value::Int(3)).is_none());
    assert_eq!(m.len(), 3);
    assert_eq!(m.remove(&text("c")).map(|v| as_i64(&v)), Some(3));
    assert!(!m.contains_key(&text("c")));
    assert_eq!(m.len(), 2);
    assert_eq!(as_i64(m.get(&text("a")).unwrap()), 1);
    assert_eq!(as_i64(m.get(&text("b")).unwrap()), 2);
    assert!(m.remove(&text("c")).is_none());
}

#[test]
fn set_remove_after_insert_restores_the_set() {
    let mut s = DynamicSet::new();
    s.insert(Value::Int(1));
    assert!(s.insert(Value::Int(2)));
    assert!(!s.insert(Value::Int(2)));
    assert!(s.remove(&Value::Int(2)));
    assert!(!s.contains(&Value::Int(2)));
    assert!(s.contains(&Value::Int(1)));
    assert_eq!(s.len(), 1);
    assert!(!s.remove(&Value::Int(2)));
}

#[test]
fn copies_keep_variant_indices_and_represented_types() {
    let info = TypeInfo::List(ListInfo {
        ty: Type { id: 7000, path: "my::Ints", name: "Ints", ident: "Ints", module: None },
        item: I64_TYPE_ID,
    });
    let mut inner = DynamicList::new();
    inner.push(Value::Int(1));
    inner.set_type_info(Some(info));
    let e = DynamicEnum::new_with_index(2, "C".to_string(), DynamicVariant::Unit);
    let outer = DynamicList::from_values(vec![Value::List(inner), Value::Enum(e)]);
    let copy = Value::List(outer).to_dynamic();
    match copy {
        Value::List(l) => {
            match l.get(0) {
                Some(Value::List(x)) => assert!(x.represented_type_info().is_some()),
                _ => panic!("the first element is a list"),
            }
            match l.get(1) {
                Some(Value::Enum(x)) => assert_eq!(x.variant_index(), 2),
                _ => panic!("the second element is an enum"),
            }
        }
        _ => panic!("the copy of a list is a list"),
    }
}

#[test]
fn take_from_reflect_moves_a_matching_value() {
    let s: Result<String, Value> = take_from_reflect(text("123"));
    match s {
        Ok(x) => assert_eq!(x, "123"),
        Err(_) => panic!("a string value gives its string"),
    }
    let e = DynamicEnum::new_with_index(3, "D".to_string(), DynamicVariant::Unit);
    let back: Result<DynamicEnum, Value> = take_from_reflect(Value::Enum(e));
    match back {
        Ok(x) => assert_eq!(x.variant_index(), 3),
        Err(_) => panic!("an enum value gives its enum"),
    }
    let miss: Result<i64, Value> = take_from_reflect(text("x"));
    match miss {
        Ok(_) => panic!("a string is no integer"),
        Err(v) => assert!(v.reflect_eq(&text("x"))),
    }
}

#[test]
fn maps_and_sets_compare_whatever_the_order() {
    let mut a = DynamicMap::new();
    a.insert(text("x"), Value::Int(1));
    a.insert(text("y"), Value::Int(2));
    let mut b = DynamicMap::new();
    b.insert(text("y"), Value::Int(2));
    b.insert(text("x"), Value::Int(1));
    let (va, vb) = (Value::MapLike(a), Value::MapLike(b));
    assert!(va.reflect_eq(&vb));
    assert!(!va.content_eq(&vb));
    let mut c = DynamicMap::new();
    c.insert(text("y"), Value::Int(3));
    c.insert(text("x"), Value::Int(1));
    assert!(!va.reflect_eq(&Value::MapLike(c)));

    let mut s = DynamicSet::new();
    s.insert(Value::Int(1));
    s.insert(Value::Int(2));
    let mut t = DynamicSet::new();
    t.insert(Value::Int(2));
    t.insert(Value::Int(1));
    assert!(Value::SetLike(s).reflect_eq(&Value::SetLike(t)));
}

#[test]
fn enum_variant_changes_in_place_and_copies_by_value() {
    let mut t = DynamicTuple::new();
    t.extend(10i64);
    let mut e = DynamicEnum::new_with_index(1, "Some".to_string(), DynamicVariant::Tuple(t));
    if let DynamicVariant::Tuple(tuple) = e.variant_mut() {
        tuple.set_field(0, Value::Int(11));
    }
    assert_eq!(e.field_at_as::<i64>(0), Some(11));
    let copy = DynamicEnum::from(e);
    assert_eq!(copy.variant_name(), "Some");
    assert_eq!(copy.variant_index(), 1);
    assert_eq!(copy.field_at_as::<i64>(0), Some(11));
}

#[test]
fn struct_field_iterator_counts_what_is_left() {
    let mut s = DynamicStruct::new();
    s.extend("a".to_string(), 1i64);
    s.extend("b".to_string(), 2i64);
    let mut it = s.iter_fields();
    assert_eq!(it.remaining(), 2);
    assert!(it.next().is_some());
    assert_eq!(it.remaining(), 1);
    assert!(it.next().is_some());
    assert!(it.next().is_none());
    assert_eq!(it.remaining(), 0);
}

#[test]
fn set_retain_keeps_the_chosen_values() {
    let mut s = DynamicSet::new();
    for i in 0..6i64 {
        s.insert(Value::Int(i));
    }
    s.retain(|v| match v {
        Value::Int(n) => n % 2 == 0,
        _ => false,
    });
    assert_eq!(s.len(), 3);
    assert!(s.contains(&Value::Int(0)));
    assert!(s.contains(&Value::Int(4)));
    assert!(!s.contains(&Value::Int(3)));
}

#[test]
fn map_retain_keeps_the_chosen_entries() {
    let mut m = DynamicMap::new();
    m.insert(text("a"), Value::Int(1));
    m.insert(text("b"), Value::Int(2));
    m.insert(text("c"), Value::Int(3));
    m.retain(|_k, v| match v {
        Value::Int(n) => *n != 2,
        _ => true,
    });
    assert_eq!(m.len(), 2);
    assert!(m.contains_key(&text("a")));
    assert!(!m.contains_key(&text("b")));
    assert_eq!(m.get_as::<i64>(&text("c")), Some(3));
}

#[test]
fn sets_and_maps_match_members_whatever_their_inner_order() {
    let mut a = DynamicSet::new();
    a.insert(Value::Int(1));
    a.insert(Value::Int(2));
    let mut b = DynamicSet::new();
    b.insert(Value::Int(2));
    b.insert(Value::Int(1));
    let mut outer = DynamicSet::new();
    assert!(outer.insert(Value::SetLike(a)));
    assert!(!outer.insert(Value::SetLike(b)));
    assert_eq!(outer.len(), 1);

    let mut k1 = DynamicSet::new();
    k1.insert(text("p"));
    k1.insert(text("q"));
    let mut k2 = DynamicSet::new();
    k2.insert(text("q"));
    k2.insert(text("p"));
    let mut m = DynamicMap::new();
    assert!(m.insert(Value::SetLike(k1), Value::Int(1)).is_none());
    assert_eq!(m.get_as::<i64>(&Value::SetLike(k2)), Some(1));
    assert_eq!(m.len(), 1);
}
